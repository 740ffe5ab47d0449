//! The server-side protocol handler: a per-user record table, the
//! ephemeral challenge-session table mapping each issued `auth_id` to the
//! user that requested it, and the three operations register, challenge
//! and verify that drive one authentication attempt through its
//! lifecycle.

use crate::arith::bytes_val;
use crate::bigint::{big_clone, big_from_bytes_be, big_from_u64, big_to_bytes_be, big_value};
use crate::zkp::{verify_spec, ZKP};
use num_bigint::BigUint;
use vstd::hash_map::StringHashMap;
use vstd::arithmetic::power::pow;
use vstd::prelude::*;

verus! {

/// The closed error taxonomy of the protocol: unknown user or unknown
/// `auth_id`, failed verification equations, a malformed argument, and an
/// internal (storage) failure surfaced by the persistence boundary.
#[derive(Clone, Copy, Debug, PartialEq, Eq, Structural)]
pub enum AuthError {
    NotFound,
    PermissionDenied,
    InvalidArgument,
    Internal,
}

/// One record per username: the registered public commitments, the
/// per-attempt commitment and challenge, and the response, auth and
/// session identifiers of the most recently completed flow.
pub struct UserInfo {
    pub user_name: String,
    pub y1: BigUint,
    pub y2: BigUint,
    pub r1: BigUint,
    pub r2: BigUint,
    pub c: BigUint,
    pub s: BigUint,
    pub session_id: String,
    pub auth_id: String,
}

/// The mathematical content of a user record: every big integer as the
/// natural number it holds, every string as its character sequence.
pub ghost struct UserRecord {
    pub user_name: Seq<char>,
    pub y1: nat,
    pub y2: nat,
    pub r1: nat,
    pub r2: nat,
    pub c: nat,
    pub s: nat,
    pub session_id: Seq<char>,
    pub auth_id: Seq<char>,
}

impl View for UserInfo {
    type V = UserRecord;

    open spec fn view(&self) -> UserRecord {
        UserRecord {
            user_name: self.user_name@,
            y1: big_value(self.y1),
            y2: big_value(self.y2),
            r1: big_value(self.r1),
            r2: big_value(self.r2),
            c: big_value(self.c),
            s: big_value(self.s),
            session_id: self.session_id@,
            auth_id: self.auth_id@,
        }
    }
}

/// The server context: the group parameters and the two tables it owns.
pub struct AuthImpl {
    pub zkp: ZKP,
    pub user_info: StringHashMap<UserInfo>,
    pub auth_id_to_user: StringHashMap<String>,
}

impl AuthImpl {
    pub open spec fn wf(&self) -> bool {
        self.zkp.wf()
    }

    /// The record table as a map from username to record content.
    pub open spec fn users(&self) -> Map<Seq<char>, UserRecord> {
        self.user_info@.map_values(|u: UserInfo| u@)
    }

    /// The challenge-session table as a map from `auth_id` to username.
    pub open spec fn sessions(&self) -> Map<Seq<char>, Seq<char>> {
        self.auth_id_to_user@.map_values(|u: String| u@)
    }

    /// Builds a handler over a checked parameter set; `None` exactly when
    /// the parameters fail the bounds that every operation needs.
    pub fn new(alpha: BigUint, beta: BigUint, p: BigUint, q: BigUint) -> (r: Option<AuthImpl>)
        ensures
            r is Some <==> (big_value(p) > 1 && big_value(q) > 0),
            r matches Some(a) ==> a.wf() && a.users() == Map::<Seq<char>, UserRecord>::empty()
                && a.sessions() == Map::<Seq<char>, Seq<char>>::empty() && big_value(a.zkp.alpha)
                == big_value(alpha) && big_value(a.zkp.beta) == big_value(beta) && big_value(
                a.zkp.p,
            ) == big_value(p) && big_value(a.zkp.q) == big_value(q),
    {
        match ZKP::new(alpha, beta, p, q) {
            Some(zkp) => {
                let a = AuthImpl {
                    zkp,
                    user_info: StringHashMap::new(),
                    auth_id_to_user: StringHashMap::new(),
                };
                proof {
                    assert(a.users() =~= Map::<Seq<char>, UserRecord>::empty());
                    assert(a.sessions() =~= Map::<Seq<char>, Seq<char>>::empty());
                }
                Some(a)
            },
            None => None,
        }
    }

    /// Registration: upserts the record for `user_name` with the public
    /// commitments decoded from the request bytes and cleared attempt
    /// state. Succeeds unconditionally; re-registration overwrites.
    pub fn register(&mut self, user_name: String, y1: &[u8], y2: &[u8])
        requires
            old(self).wf(),
        ensures
            final(self).wf(),
            final(self).zkp == old(self).zkp,
            final(self).sessions() == old(self).sessions(),
            final(self).users() == old(self).users().insert(
                user_name@,
                (UserRecord {
                    user_name: user_name@,
                    y1: bytes_val(y1@),
                    y2: bytes_val(y2@),
                    r1: 0,
                    r2: 0,
                    c: 0,
                    s: 0,
                    session_id: Seq::<char>::empty(),
                    auth_id: Seq::<char>::empty(),
                }),
            ),
    {
        let rec = UserInfo {
            user_name: user_name.clone(),
            y1: big_from_bytes_be(y1),
            y2: big_from_bytes_be(y2),
            r1: big_from_u64(0),
            r2: big_from_u64(0),
            c: big_from_u64(0),
            s: big_from_u64(0),
            session_id: String::new(),
            auth_id: String::new(),
        };
        self.user_info.insert(user_name, rec);
        proof {
            assert(self.users() =~= old(self).users().insert(
                user_name@,
                (UserRecord {
                    user_name: user_name@,
                    y1: bytes_val(y1@),
                    y2: bytes_val(y2@),
                    r1: 0,
                    r2: 0,
                    c: 0,
                    s: 0,
                    session_id: Seq::<char>::empty(),
                    auth_id: Seq::<char>::empty(),
                }),
            ));
            assert(self.sessions() =~= old(self).sessions());
        }
    }

    /// Challenge creation: fails with `NotFound` exactly when the user has
    /// never registered. Otherwise draws a fresh challenge below `q` and a
    /// fresh 64-character `auth_id`, stores the attempt commitment and the
    /// challenge in the user's record, binds `auth_id` to the user in the
    /// session table, and returns both.
    pub fn create_authentication_challenge(
        &mut self,
        user_name: &str,
        r1: &[u8],
        r2: &[u8],
    ) -> (res: Result<(String, Vec<u8>), AuthError>)
        requires
            old(self).wf(),
        ensures
            final(self).wf(),
            final(self).zkp == old(self).zkp,
            res is Ok <==> old(self).users().contains_key(user_name@),
            res matches Err(e) ==> e == AuthError::NotFound && final(self).users() == old(
                self,
            ).users() && final(self).sessions() == old(self).sessions(),
            res matches Ok(pair) ==> pair.0@.len() == 64 && bytes_val(pair.1@) < big_value(
                old(self).zkp.q,
            ) && final(self).users() == old(self).users().insert(
                user_name@,
                (UserRecord {
                    r1: bytes_val(r1@),
                    r2: bytes_val(r2@),
                    c: bytes_val(pair.1@),
                    ..old(self).users()[user_name@]
                }),
            ) && final(self).sessions() == old(self).sessions().insert(pair.0@, user_name@),
    {
        let rec_opt = self.user_info.get(user_name);
        if rec_opt.is_none() {
            return Err(AuthError::NotFound);
        }
        let rec = rec_opt.unwrap();
        let stored_name = rec.user_name.clone();
        let y1 = big_clone(&rec.y1);
        let y2 = big_clone(&rec.y2);
        let s = big_clone(&rec.s);
        let session_id = rec.session_id.clone();
        let prev_auth_id = rec.auth_id.clone();
        let c = ZKP::generate_random_number_below(&self.zkp.q);
        let c_bytes = big_to_bytes_be(&c);
        let auth_id = ZKP::generate_random_string(64);
        let new_rec = UserInfo {
            user_name: stored_name,
            y1,
            y2,
            r1: big_from_bytes_be(r1),
            r2: big_from_bytes_be(r2),
            c,
            s,
            session_id,
            auth_id: prev_auth_id,
        };
        self.user_info.insert(user_name.to_owned(), new_rec);
        self.auth_id_to_user.insert(auth_id.clone(), user_name.to_owned());
        proof {
            assert(self.users() =~= old(self).users().insert(
                user_name@,
                (UserRecord {
                    r1: bytes_val(r1@),
                    r2: bytes_val(r2@),
                    c: bytes_val(c_bytes@),
                    ..old(self).users()[user_name@]
                }),
            ));
            assert(self.sessions() =~= old(self).sessions().insert(auth_id@, user_name@));
        }
        Ok((auth_id, c_bytes))
    }

    /// Verification: resolves the username bound to `auth_id` (failing
    /// with `NotFound` for an unknown or already-consumed `auth_id`),
    /// consumes the session entry whatever the outcome so no challenge can
    /// be answered twice, loads the resolved user's record, and checks the
    /// dual verification equation against the decoded response. On success
    /// a fresh 64-character session identifier is stored and returned; on
    /// failure the attempt ends with `PermissionDenied`.
    pub fn verify_authentication(&mut self, auth_id: &str, s: &[u8]) -> (res: Result<
        String,
        AuthError,
    >)
        requires
            old(self).wf(),
        ensures
            final(self).wf(),
            final(self).zkp == old(self).zkp,
            !old(self).sessions().contains_key(auth_id@) ==> res == Err::<String, AuthError>(
                AuthError::NotFound,
            ) && final(self).users() == old(self).users() && final(self).sessions() == old(
                self,
            ).sessions(),
            old(self).sessions().contains_key(auth_id@) ==> ({
                let user = old(self).sessions()[auth_id@];
                &&& final(self).sessions() == old(self).sessions().remove(auth_id@)
                &&& !old(self).users().contains_key(user) ==> res == Err::<String, AuthError>(
                    AuthError::NotFound,
                ) && final(self).users() == old(self).users()
                &&& old(self).users().contains_key(user) ==> ({
                    let rec = old(self).users()[user];
                    let ok = verify_spec(
                        big_value(old(self).zkp.alpha),
                        big_value(old(self).zkp.beta),
                        big_value(old(self).zkp.p),
                        rec.y1,
                        rec.y2,
                        rec.r1,
                        rec.r2,
                        rec.c,
                        bytes_val(s@),
                    );
                    &&& ok ==> (res matches Ok(sid) && sid@.len() == 64 && final(self).users()
                        == old(self).users().insert(
                        user,
                        (UserRecord { s: bytes_val(s@), session_id: sid@, auth_id: auth_id@, ..rec
                        }),
                    ))
                    &&& !ok ==> res == Err::<String, AuthError>(AuthError::PermissionDenied)
                        && final(self).users() == old(self).users()
                })
            }),
    {
        let user_opt = self.auth_id_to_user.get(auth_id);
        if user_opt.is_none() {
            return Err(AuthError::NotFound);
        }
        let user_name = user_opt.unwrap().clone();
        self.auth_id_to_user.remove(auth_id);
        proof {
            assert(self.sessions() =~= old(self).sessions().remove(auth_id@));
        }
        let rec_opt = self.user_info.get(user_name.as_str());
        if rec_opt.is_none() {
            return Err(AuthError::NotFound);
        }
        let rec = rec_opt.unwrap();
        let s_big = big_from_bytes_be(s);
        let ok = self.zkp.verify(&rec.r1, &rec.r2, &rec.y1, &rec.y2, &rec.c, &s_big);
        if !ok {
            return Err(AuthError::PermissionDenied);
        }
        let session_id = ZKP::generate_random_string(64);
        let new_rec = UserInfo {
            user_name: rec.user_name.clone(),
            y1: big_clone(&rec.y1),
            y2: big_clone(&rec.y2),
            r1: big_clone(&rec.r1),
            r2: big_clone(&rec.r2),
            c: big_clone(&rec.c),
            s: s_big,
            session_id: session_id.clone(),
            auth_id: auth_id.to_owned(),
        };
        self.user_info.insert(user_name, new_rec);
        proof {
            let user = old(self).sessions()[auth_id@];
            assert(self.users() =~= old(self).users().insert(
                user,
                (UserRecord {
                    s: bytes_val(s@),
                    session_id: session_id@,
                    auth_id: auth_id@,
                    ..old(self).users()[user]
                }),
            ));
        }
        Ok(session_id)
    }
}

/// End-to-end completeness of the authentication flow: in any server
/// state where a challenge has been issued for a registered user — the
/// session table binds `auth_id` to the user, and the user's record holds
/// the honest registration pair for secret `x` and the honest commitment
/// pair for nonce `k` — the honestly computed response
/// `s = (k - c·x) mod q` satisfies the dual check that
/// `verify_authentication` decides success by, so that call returns a
/// session identifier and not an error.
pub proof fn lemma_authentication_completeness(
    a: AuthImpl,
    user: Seq<char>,
    auth_id: Seq<char>,
    x: nat,
    k: nat,
    s: nat,
)
    requires
        a.wf(),
        pow(big_value(a.zkp.alpha) as int, big_value(a.zkp.q)) % (big_value(a.zkp.p) as int) == 1,
        pow(big_value(a.zkp.beta) as int, big_value(a.zkp.q)) % (big_value(a.zkp.p) as int) == 1,
        a.sessions().contains_key(auth_id),
        a.sessions()[auth_id] == user,
        a.users().contains_key(user),
        a.users()[user].y1 == (pow(big_value(a.zkp.alpha) as int, x) % (big_value(
            a.zkp.p,
        ) as int)) as nat,
        a.users()[user].y2 == (pow(big_value(a.zkp.beta) as int, x) % (big_value(
            a.zkp.p,
        ) as int)) as nat,
        a.users()[user].r1 == (pow(big_value(a.zkp.alpha) as int, k) % (big_value(
            a.zkp.p,
        ) as int)) as nat,
        a.users()[user].r2 == (pow(big_value(a.zkp.beta) as int, k) % (big_value(
            a.zkp.p,
        ) as int)) as nat,
        k < big_value(a.zkp.q),
        s == (k - a.users()[user].c * x) % (big_value(a.zkp.q) as int),
    ensures
        verify_spec(
            big_value(a.zkp.alpha),
            big_value(a.zkp.beta),
            big_value(a.zkp.p),
            a.users()[user].y1,
            a.users()[user].y2,
            a.users()[user].r1,
            a.users()[user].r2,
            a.users()[user].c,
            s,
        ),
{
    crate::zkp::lemma_completeness(
        big_value(a.zkp.alpha),
        big_value(a.zkp.beta),
        big_value(a.zkp.p),
        big_value(a.zkp.q),
        x,
        k,
        a.users()[user].c,
        s,
    );
}

/// Replay prevention: a `verify_authentication` call that found its
/// `auth_id` leaves a session table from which that `auth_id` has been
/// removed, so a second answer to the same challenge is resolved against a
/// table that no longer contains it and must take the `NotFound` path.
pub proof fn lemma_replay_prevented(sessions: Map<Seq<char>, Seq<char>>, auth_id: Seq<char>)
    ensures
        !sessions.remove(auth_id).contains_key(auth_id),
{
}

} // verus!
