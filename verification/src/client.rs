//! The client-side protocol driver: computes registration commitments
//! from the secret, opens login attempts with a fresh ephemeral nonce,
//! and answers challenges. The secret exponent never leaves the calling
//! process; every message is a big-endian byte encoding of a group
//! element or response.

use crate::arith::bytes_val;
use crate::bigint::{big_from_bytes_be, big_to_bytes_be, big_value};
use crate::zkp::ZKP;
use num_bigint::BigUint;
use vstd::arithmetic::power::pow;
use vstd::prelude::*;

verus! {

/// One login attempt's ephemeral state: the nonce `k` behind the
/// commitment pair that was sent. Answering the challenge consumes the
/// attempt, so one nonce can never back two responses; a failed or
/// abandoned attempt is restarted with a fresh nonce.
pub struct LoginAttempt {
    k: BigUint,
}

impl LoginAttempt {
    /// The nonce under this attempt's commitments.
    pub closed spec fn k_val(&self) -> nat {
        big_value(self.k)
    }
}

/// The client end of the protocol, over the same public group parameters
/// as the server.
pub struct ClientDriver {
    pub zkp: ZKP,
}

impl ClientDriver {
    pub open spec fn wf(&self) -> bool {
        self.zkp.wf()
    }

    /// Builds a driver over a checked parameter set; `None` exactly when
    /// the parameters fail the bounds that every operation needs.
    pub fn new(alpha: BigUint, beta: BigUint, p: BigUint, q: BigUint) -> (r: Option<ClientDriver>)
        ensures
            r is Some <==> (big_value(p) > 1 && big_value(q) > 0),
            r matches Some(d) ==> d.wf() && big_value(d.zkp.alpha) == big_value(alpha)
                && big_value(d.zkp.beta) == big_value(beta) && big_value(d.zkp.p) == big_value(p)
                && big_value(d.zkp.q) == big_value(q),
    {
        match ZKP::new(alpha, beta, p, q) {
            Some(zkp) => Some(ClientDriver { zkp }),
            None => None,
        }
    }

    /// The registration message for secret `x`: the commitment pair
    /// `(alpha^x mod p, beta^x mod p)`, big endian. The secret itself is
    /// part of no message.
    pub fn registration_commitments(&self, x: &BigUint) -> (r: (Vec<u8>, Vec<u8>))
        requires
            self.wf(),
        ensures
            bytes_val(r.0@) == pow(big_value(self.zkp.alpha) as int, big_value(*x)) % (big_value(
                self.zkp.p,
            ) as int),
            bytes_val(r.1@) == pow(big_value(self.zkp.beta) as int, big_value(*x)) % (big_value(
                self.zkp.p,
            ) as int),
    {
        let (y1, y2) = self.zkp.compute_pair(x);
        let y1_bytes = big_to_bytes_be(&y1);
        let y2_bytes = big_to_bytes_be(&y2);
        (y1_bytes, y2_bytes)
    }

    /// Opens a login attempt: draws a fresh nonce `k` below `q` and
    /// returns the attempt state together with the commitment pair
    /// `(alpha^k mod p, beta^k mod p)` to send with the challenge request.
    pub fn begin_login(&self) -> (r: (LoginAttempt, Vec<u8>, Vec<u8>))
        requires
            self.wf(),
        ensures
            r.0.k_val() < big_value(self.zkp.q),
            bytes_val(r.1@) == pow(big_value(self.zkp.alpha) as int, r.0.k_val()) % (big_value(
                self.zkp.p,
            ) as int),
            bytes_val(r.2@) == pow(big_value(self.zkp.beta) as int, r.0.k_val()) % (big_value(
                self.zkp.p,
            ) as int),
    {
        let k = ZKP::generate_random_number_below(&self.zkp.q);
        let (r1, r2) = self.zkp.compute_pair(&k);
        let r1_bytes = big_to_bytes_be(&r1);
        let r2_bytes = big_to_bytes_be(&r2);
        (LoginAttempt { k }, r1_bytes, r2_bytes)
    }

    /// Answers the server's challenge: consumes the attempt and returns
    /// the response `s = (k - c·x) mod q` for its nonce, big endian.
    pub fn answer_challenge(&self, attempt: LoginAttempt, c: &[u8], x: &BigUint) -> (s: Vec<u8>)
        requires
            self.wf(),
        ensures
            bytes_val(s@) == (attempt.k_val() - bytes_val(c@) * big_value(*x)) % (big_value(
                self.zkp.q,
            ) as int),
    {
        let c_big = big_from_bytes_be(c);
        let s_big = self.zkp.solve(&attempt.k, &c_big, x);
        big_to_bytes_be(&s_big)
    }
}

} // verus!
