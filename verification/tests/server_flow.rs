use num_bigint::BigUint;
use zkp_auth::server::{AuthError, AuthImpl};
use zkp_auth::zkp::ZKP;

fn toy_server() -> AuthImpl {
    AuthImpl::new(
        BigUint::from(4u32),
        BigUint::from(9u32),
        BigUint::from(23u32),
        BigUint::from(11u32),
    )
    .expect("toy group parameters are valid")
}

fn toy_zkp() -> ZKP {
    ZKP::new(
        BigUint::from(4u32),
        BigUint::from(9u32),
        BigUint::from(23u32),
        BigUint::from(11u32),
    )
    .expect("toy group parameters are valid")
}

/// Runs the client side of a registration for `user` with secret `x`.
fn register_client(server: &mut AuthImpl, user: &str, x: &BigUint) {
    let zkp = toy_zkp();
    let (y1, y2) = zkp.compute_pair(x);
    server.register(user.to_string(), &y1.to_bytes_be(), &y2.to_bytes_be());
}

/// Runs the client side of a login for `user` with secret `x`, returning
/// the server's final answer.
fn login_client(server: &mut AuthImpl, user: &str, x: &BigUint) -> Result<String, AuthError> {
    let zkp = toy_zkp();
    let k = ZKP::generate_random_number_below(&zkp.q);
    let (r1, r2) = zkp.compute_pair(&k);
    let (auth_id, c_bytes) = server
        .create_authentication_challenge(user, &r1.to_bytes_be(), &r2.to_bytes_be())?;
    let c = BigUint::from_bytes_be(&c_bytes);
    let s = zkp.solve(&k, &c, x);
    server.verify_authentication(&auth_id, &s.to_bytes_be())
}

#[test]
fn full_flow_issues_a_session() {
    let mut server = toy_server();
    let x = BigUint::from(6u32);
    register_client(&mut server, "alice", &x);
    let session_id = login_client(&mut server, "alice", &x).expect("honest login must succeed");
    assert_eq!(session_id.chars().count(), 64);
    assert!(!session_id.is_empty());
}

#[test]
fn repeated_logins_succeed_with_fresh_challenges() {
    let mut server = toy_server();
    let x = BigUint::from(6u32);
    register_client(&mut server, "alice", &x);
    for _ in 0..50 {
        assert!(login_client(&mut server, "alice", &x).is_ok());
    }
}

#[test]
fn worked_example_through_the_server() {
    let mut server = toy_server();
    // Registration for x = 6: y1 = 2, y2 = 3.
    server.register("alice".to_string(), &[2u8], &[3u8]);
    // Commitment for k = 3: r1 = 18, r2 = 16.
    let (auth_id, c_bytes) = server
        .create_authentication_challenge("alice", &[18u8], &[16u8])
        .expect("challenge for a registered user");
    assert_eq!(auth_id.chars().count(), 64);
    let c = BigUint::from_bytes_be(&c_bytes);
    assert!(c < BigUint::from(11u32));
    let zkp = toy_zkp();
    let s = zkp.solve(&BigUint::from(3u32), &c, &BigUint::from(6u32));
    let session_id = server
        .verify_authentication(&auth_id, &s.to_bytes_be())
        .expect("the honest response must verify");
    assert_eq!(session_id.chars().count(), 64);
}

#[test]
fn unknown_user_fails_with_not_found() {
    let mut server = toy_server();
    let res = server.create_authentication_challenge("mallory", &[18u8], &[16u8]);
    assert_eq!(res, Err(AuthError::NotFound));
    let res = server.create_authentication_challenge("", &[1u8], &[1u8]);
    assert_eq!(res, Err(AuthError::NotFound));
}

#[test]
fn fabricated_auth_id_fails_with_not_found() {
    let mut server = toy_server();
    register_client(&mut server, "alice", &BigUint::from(6u32));
    let res = server.verify_authentication("no-such-auth-id", &[1u8]);
    assert_eq!(res, Err(AuthError::NotFound));
}

#[test]
fn wrong_secret_fails_with_permission_denied() {
    let mut server = toy_server();
    let x = BigUint::from(6u32);
    register_client(&mut server, "alice", &x);
    // The cheating prover would succeed only on the challenge c = 0,
    // so retry until a non-zero challenge shows the rejection.
    loop {
        let zkp = toy_zkp();
        let k = ZKP::generate_random_number_below(&zkp.q);
        let (r1, r2) = zkp.compute_pair(&k);
        let (auth_id, c_bytes) = server
            .create_authentication_challenge("alice", &r1.to_bytes_be(), &r2.to_bytes_be())
            .expect("challenge for a registered user");
        let c = BigUint::from_bytes_be(&c_bytes);
        let s = zkp.solve(&k, &c, &BigUint::from(7u32));
        let res = server.verify_authentication(&auth_id, &s.to_bytes_be());
        if c == BigUint::from(0u32) {
            assert!(res.is_ok());
            continue;
        }
        assert_eq!(res, Err(AuthError::PermissionDenied));
        break;
    }
}

#[test]
fn tampered_response_rejected_by_server() {
    let mut server = toy_server();
    server.register("alice".to_string(), &[2u8], &[3u8]);
    let zkp = toy_zkp();
    loop {
        let (auth_id, c_bytes) = server
            .create_authentication_challenge("alice", &[18u8], &[16u8])
            .expect("challenge for a registered user");
        let c = BigUint::from_bytes_be(&c_bytes);
        let s = zkp.solve(&BigUint::from(3u32), &c, &BigUint::from(6u32));
        let s_byte = s.to_bytes_be()[0];
        let tampered = [s_byte ^ 1u8];
        // A flipped bit changes s by 1, which never preserves s mod 11
        // here, so the equations must fail.
        let res = server.verify_authentication(&auth_id, &tampered);
        if (s_byte ^ 1u8) % 11 == s_byte % 11 {
            continue;
        }
        assert_eq!(res, Err(AuthError::PermissionDenied));
        break;
    }
}

#[test]
fn replay_of_an_auth_id_fails() {
    let mut server = toy_server();
    let x = BigUint::from(6u32);
    register_client(&mut server, "alice", &x);
    let zkp = toy_zkp();
    let k = ZKP::generate_random_number_below(&zkp.q);
    let (r1, r2) = zkp.compute_pair(&k);
    let (auth_id, c_bytes) = server
        .create_authentication_challenge("alice", &r1.to_bytes_be(), &r2.to_bytes_be())
        .expect("challenge for a registered user");
    let c = BigUint::from_bytes_be(&c_bytes);
    let s = zkp.solve(&k, &c, &x);
    assert!(server.verify_authentication(&auth_id, &s.to_bytes_be()).is_ok());
    // The same correct answer a second time: the auth_id is consumed.
    let res = server.verify_authentication(&auth_id, &s.to_bytes_be());
    assert_eq!(res, Err(AuthError::NotFound));
}

#[test]
fn failed_attempt_also_consumes_the_auth_id() {
    let mut server = toy_server();
    let x = BigUint::from(6u32);
    register_client(&mut server, "alice", &x);
    let zkp = toy_zkp();
    let k = ZKP::generate_random_number_below(&zkp.q);
    let (r1, r2) = zkp.compute_pair(&k);
    let (auth_id, c_bytes) = server
        .create_authentication_challenge("alice", &r1.to_bytes_be(), &r2.to_bytes_be())
        .expect("challenge for a registered user");
    let c = BigUint::from_bytes_be(&c_bytes);
    let s = zkp.solve(&k, &c, &x);
    // Answer wrongly first; whatever the outcome, the auth_id is spent.
    let _ = server.verify_authentication(&auth_id, &[255u8]);
    let res = server.verify_authentication(&auth_id, &s.to_bytes_be());
    assert_eq!(res, Err(AuthError::NotFound));
}

#[test]
fn reregistration_replaces_the_commitments() {
    let mut server = toy_server();
    let old_x = BigUint::from(6u32);
    let new_x = BigUint::from(3u32);
    register_client(&mut server, "alice", &old_x);
    assert!(login_client(&mut server, "alice", &old_x).is_ok());
    register_client(&mut server, "alice", &new_x);
    assert!(login_client(&mut server, "alice", &new_x).is_ok());
    // The old secret now fails except on the one-in-eleven challenge c = 0.
    let mut rejected = false;
    for _ in 0..100 {
        if login_client(&mut server, "alice", &old_x).is_err() {
            rejected = true;
            break;
        }
    }
    assert!(rejected, "the replaced secret kept working");
}

#[test]
fn users_are_kept_apart() {
    let mut server = toy_server();
    let x_alice = BigUint::from(6u32);
    let x_bob = BigUint::from(5u32);
    register_client(&mut server, "alice", &x_alice);
    register_client(&mut server, "bob", &x_bob);
    assert!(login_client(&mut server, "alice", &x_alice).is_ok());
    assert!(login_client(&mut server, "bob", &x_bob).is_ok());
    let mut rejected = false;
    for _ in 0..100 {
        if login_client(&mut server, "bob", &x_alice).is_err() {
            rejected = true;
            break;
        }
    }
    assert!(rejected, "bob accepted alice's secret");
}

#[test]
fn leading_zero_bytes_decode_to_the_same_values() {
    let mut server = toy_server();
    server.register("alice".to_string(), &[0u8, 0u8, 2u8], &[0u8, 3u8]);
    let (auth_id, c_bytes) = server
        .create_authentication_challenge("alice", &[0u8, 18u8], &[16u8])
        .expect("challenge for a registered user");
    let c = BigUint::from_bytes_be(&c_bytes);
    let zkp = toy_zkp();
    let s = zkp.solve(&BigUint::from(3u32), &c, &BigUint::from(6u32));
    let mut padded = vec![0u8];
    padded.extend_from_slice(&s.to_bytes_be());
    assert!(server.verify_authentication(&auth_id, &padded).is_ok());
}
