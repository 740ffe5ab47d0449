use num_bigint::BigUint;
use zkp_auth::client::ClientDriver;
use zkp_auth::server::AuthImpl;
use zkp_auth::zkp::ZKP;

fn toy_client() -> ClientDriver {
    ClientDriver::new(
        BigUint::from(4u32),
        BigUint::from(9u32),
        BigUint::from(23u32),
        BigUint::from(11u32),
    )
    .expect("toy group parameters are valid")
}

#[test]
fn registration_commitments_match_the_worked_example() {
    let client = toy_client();
    let (y1, y2) = client.registration_commitments(&BigUint::from(6u32));
    assert_eq!(BigUint::from_bytes_be(&y1), BigUint::from(2u32));
    assert_eq!(BigUint::from_bytes_be(&y2), BigUint::from(3u32));
}

#[test]
fn login_attempt_stays_in_the_group() {
    let client = toy_client();
    let p = BigUint::from(23u32);
    let q = BigUint::from(11u32);
    let (attempt, r1, r2) = client.begin_login();
    assert!(BigUint::from_bytes_be(&r1) < p);
    assert!(BigUint::from_bytes_be(&r2) < p);
    let c = vec![7u8];
    let s = client.answer_challenge(attempt, &c, &BigUint::from(6u32));
    assert!(BigUint::from_bytes_be(&s) < q);
}

#[test]
fn driver_flow_against_the_server() {
    let client = toy_client();
    let mut server = AuthImpl::new(
        BigUint::from(4u32),
        BigUint::from(9u32),
        BigUint::from(23u32),
        BigUint::from(11u32),
    )
    .expect("toy group parameters are valid");
    let x = BigUint::from(6u32);
    let (y1, y2) = client.registration_commitments(&x);
    server.register("alice".to_string(), &y1, &y2);
    for _ in 0..20 {
        let (attempt, r1, r2) = client.begin_login();
        let (auth_id, c_bytes) = server
            .create_authentication_challenge("alice", &r1, &r2)
            .expect("challenge for a registered user");
        let s = client.answer_challenge(attempt, &c_bytes, &x);
        let session_id = server
            .verify_authentication(&auth_id, &s)
            .expect("the honest response must verify");
        assert_eq!(session_id.chars().count(), 64);
    }
}

#[test]
fn driver_flow_with_the_fixed_constants() {
    let (alpha, beta, p, q) = ZKP::get_constants();
    let client = ClientDriver::new(alpha.clone(), beta.clone(), p.clone(), q.clone())
        .expect("fixed constants are valid");
    let mut server = AuthImpl::new(alpha, beta, p, q).expect("fixed constants are valid");
    let x = BigUint::from_bytes_be(b"correct horse battery staple");
    let (y1, y2) = client.registration_commitments(&x);
    server.register("alice".to_string(), &y1, &y2);
    let (attempt, r1, r2) = client.begin_login();
    let (auth_id, c_bytes) = server
        .create_authentication_challenge("alice", &r1, &r2)
        .expect("challenge for a registered user");
    let s = client.answer_challenge(attempt, &c_bytes, &x);
    assert!(server.verify_authentication(&auth_id, &s).is_ok());
}

#[test]
fn driver_rejects_degenerate_parameters() {
    assert!(ClientDriver::new(
        BigUint::from(4u32),
        BigUint::from(9u32),
        BigUint::from(0u32),
        BigUint::from(11u32),
    )
    .is_none());
}
