//! The Chaum-Pedersen proof engine: the fixed group parameters, the
//! commitment and response computations of the prover, and the dual
//! verification equation of the verifier.

use crate::arith::{bytes_val, lemma_mod_sub_cases};
use crate::bigint::{
    big_add, big_eq, big_from_bytes_be, big_from_u64, big_lt, big_modpow, big_mul, big_random_below,
    big_rem, big_sub, big_value,
};
use num_bigint::BigUint;
use rand::distributions::{Alphanumeric, DistString};
use vstd::arithmetic::div_mod::{
    lemma_mod_bound, lemma_mod_division_less_than_divisor, lemma_mul_mod_noop_general,
    lemma_sub_mod_noop,
};
use vstd::arithmetic::power::{
    lemma_pow0, lemma_pow1, lemma_pow_adds, lemma_pow_strictly_increases, pow,
};
use vstd::prelude::*;

verus! {

/// 1024-bit prime modulus of the working group (RFC 5114, group 1), big endian.
pub const GROUP_MODULUS_BE: [u8; 128] = [0xb1, 0x0b, 0x8f, 0x96, 0xa0, 0x80, 0xe0, 0x1d, 0xde,
    0x92, 0xde, 0x5e, 0xae, 0x5d, 0x54, 0xec, 0x52, 0xc9, 0x9f, 0xbc, 0xfb, 0x06, 0xa3, 0xc6,
    0x9a, 0x6a, 0x9d, 0xca, 0x52, 0xd2, 0x3b, 0x61, 0x60, 0x73, 0xe2, 0x86, 0x75, 0xa2, 0x3d,
    0x18, 0x98, 0x38, 0xef, 0x1e, 0x2e, 0xe6, 0x52, 0xc0, 0x13, 0xec, 0xb4, 0xae, 0xa9, 0x06,
    0x11, 0x23, 0x24, 0x97, 0x5c, 0x3c, 0xd4, 0x9b, 0x83, 0xbf, 0xac, 0xcb, 0xdd, 0x7d, 0x90,
    0xc4, 0xbd, 0x70, 0x98, 0x48, 0x8e, 0x9c, 0x21, 0x9a, 0x73, 0x72, 0x4e, 0xff, 0xd6, 0xfa,
    0xe5, 0x64, 0x47, 0x38, 0xfa, 0xa3, 0x1a, 0x4f, 0xf5, 0x5b, 0xcc, 0xc0, 0xa1, 0x51, 0xaf,
    0x5f, 0x0d, 0xc8, 0xb4, 0xbd, 0x45, 0xbf, 0x37, 0xdf, 0x36, 0x5c, 0x1a, 0x65, 0xe6, 0x8c,
    0xfd, 0xa7, 0x6d, 0x4d, 0xa7, 0x08, 0xdf, 0x1f, 0xb2, 0xbc, 0x2e, 0x4a, 0x43, 0x71];

/// Generator `alpha` of the order-`q` subgroup (RFC 5114, group 1), big endian.
pub const GROUP_ALPHA_BE: [u8; 128] = [0xa4, 0xd1, 0xcb, 0xd5, 0xc3, 0xfd, 0x34, 0x12, 0x67,
    0x65, 0xa4, 0x42, 0xef, 0xb9, 0x99, 0x05, 0xf8, 0x10, 0x4d, 0xd2, 0x58, 0xac, 0x50, 0x7f,
    0xd6, 0x40, 0x6c, 0xff, 0x14, 0x26, 0x6d, 0x31, 0x26, 0x6f, 0xea, 0x1e, 0x5c, 0x41, 0x56,
    0x4b, 0x77, 0x7e, 0x69, 0x0f, 0x55, 0x04, 0xf2, 0x13, 0x16, 0x02, 0x17, 0xb4, 0xb0, 0x1b,
    0x88, 0x6a, 0x5e, 0x91, 0x54, 0x7f, 0x9e, 0x27, 0x49, 0xf4, 0xd7, 0xfb, 0xd7, 0xd3, 0xb9,
    0xa9, 0x2e, 0xe1, 0x90, 0x9d, 0x0d, 0x22, 0x63, 0xf8, 0x0a, 0x76, 0xa6, 0xa2, 0x4c, 0x08,
    0x7a, 0x09, 0x1f, 0x53, 0x1d, 0xbf, 0x0a, 0x01, 0x69, 0xb6, 0xa2, 0x8a, 0xd6, 0x62, 0xa4,
    0xd1, 0x8e, 0x73, 0xaf, 0xa3, 0x2d, 0x77, 0x9d, 0x59, 0x18, 0xd0, 0x8b, 0xc8, 0x85, 0x8f,
    0x4d, 0xce, 0xf9, 0x7c, 0x2a, 0x24, 0x85, 0x5e, 0x6e, 0xeb, 0x22, 0xb3, 0xb2, 0xe5];

/// 160-bit prime order `q` of the working subgroup (RFC 5114, group 1), big endian.
pub const GROUP_ORDER_BE: [u8; 20] = [0xf5, 0x18, 0xaa, 0x87, 0x81, 0xa8, 0xdf, 0x27, 0x8a,
    0xba, 0x4e, 0x7d, 0x64, 0xb7, 0xcb, 0x9d, 0x49, 0x46, 0x23, 0x53];

/// Fixed public exponent from which the second generator `beta` is derived
/// as `alpha^e mod p`, so that `beta` also has order `q` and no discrete-log
/// relation between the generators is published.
pub const GROUP_BETA_EXP_BE: [u8; 32] = [0x26, 0x6f, 0xea, 0x1e, 0x5c, 0x41, 0x56, 0x4b, 0x77,
    0x7e, 0x69, 0x0f, 0x55, 0x04, 0xf2, 0x13, 0x16, 0x02, 0x17, 0xb4, 0xb0, 0x1b, 0x88, 0x6a,
    0x5e, 0x91, 0x54, 0x7f, 0x9e, 0x27, 0x49, 0xf4];

/// One verification equation: `r == g^s * y^c mod p`.
pub open spec fn verify_eq(g: nat, y: nat, r: nat, c: nat, s: nat, p: nat) -> bool {
    r == (pow(g as int, s) * pow(y as int, c)) % (p as int)
}

/// The dual-generator Chaum-Pedersen check: one response `s` must satisfy
/// the verification equation simultaneously for both generators, which
/// binds it to a single consistent secret exponent.
pub open spec fn verify_spec(
    alpha: nat,
    beta: nat,
    p: nat,
    y1: nat,
    y2: nat,
    r1: nat,
    r2: nat,
    c: nat,
    s: nat,
) -> bool {
    verify_eq(alpha, y1, r1, c, s, p) && verify_eq(beta, y2, r2, c, s, p)
}

/// A big-endian byte string with a non-zero leading byte encodes at least
/// `256^(len-1)`.
pub proof fn lemma_bytes_val_leading_byte(s: Seq<u8>)
    requires
        s.len() >= 1,
        s[0] >= 1,
    ensures
        bytes_val(s) >= pow(256, (s.len() - 1) as nat),
    decreases s.len(),
{
    if s.len() == 1 {
        assert(s.drop_last().len() == 0);
        assert(bytes_val(s.drop_last()) == 0);
        assert(s.last() == s[0]);
        assert(bytes_val(s) == s[0]);
        assert(pow(256, 0) == 1) by {
            lemma_pow0(256);
        }
    } else {
        let d = s.drop_last();
        assert(d[0] == s[0]);
        lemma_bytes_val_leading_byte(d);
        assert(pow(256, (s.len() - 1) as nat) == pow(256, (d.len() - 1) as nat) * 256) by {
            lemma_pow_adds(256, (d.len() - 1) as nat, 1);
            lemma_pow1(256);
        }
        assert(bytes_val(s) == (bytes_val(d) * 256 + s.last()) as nat);
    }
}

/// Completeness of the protocol: for every secret exponent `x`, every
/// honestly drawn nonce `k` below `q`, and every challenge `c`, the
/// honestly computed registration pair `(alpha^x mod p, beta^x mod p)`,
/// commitment pair `(alpha^k mod p, beta^k mod p)` and response
/// `s = (k - c·x) mod q` satisfy the verifier's dual check, provided both
/// generators have order dividing `q` modulo `p`.
pub proof fn lemma_completeness(
    alpha: nat,
    beta: nat,
    p: nat,
    q: nat,
    x: nat,
    k: nat,
    c: nat,
    s: nat,
)
    requires
        p > 1,
        q > 0,
        pow(alpha as int, q) % (p as int) == 1,
        pow(beta as int, q) % (p as int) == 1,
        k < q,
        s == (k - c * x) % (q as int),
    ensures
        verify_spec(
            alpha,
            beta,
            p,
            (pow(alpha as int, x) % (p as int)) as nat,
            (pow(beta as int, x) % (p as int)) as nat,
            (pow(alpha as int, k) % (p as int)) as nat,
            (pow(beta as int, k) % (p as int)) as nat,
            c,
            s,
        ),
{
    let pi = p as int;
    lemma_mod_bound(pow(alpha as int, x), pi);
    lemma_mod_bound(pow(beta as int, x), pi);
    lemma_mod_bound(pow(alpha as int, k), pi);
    lemma_mod_bound(pow(beta as int, k), pi);
    crate::arith::lemma_honest_response_verifies(alpha, p, q, x, k, c, s);
    crate::arith::lemma_honest_response_verifies(beta, p, q, x, k, c, s);
}

/// The public group parameters: prime modulus `p`, prime subgroup order
/// `q` dividing `p - 1`, and two generators `alpha`, `beta` of that
/// subgroup. Identical on the registering and the verifying side.
pub struct ZKP {
    pub alpha: BigUint,
    pub beta: BigUint,
    pub p: BigUint,
    pub q: BigUint,
}

impl ZKP {
    /// The bounds every operation of the engine needs: a modulus above one
    /// (so reduction modulo `p` is meaningful) and a positive order.
    pub open spec fn wf(&self) -> bool {
        big_value(self.p) > 1 && big_value(self.q) > 0
    }

    /// Builds the parameter set after checking the bounds that `wf`
    /// demands; callers that hold a `Some` therefore hold a usable group.
    pub fn new(alpha: BigUint, beta: BigUint, p: BigUint, q: BigUint) -> (r: Option<ZKP>)
        ensures
            r is Some <==> (big_value(p) > 1 && big_value(q) > 0),
            r matches Some(z) ==> z.wf() && big_value(z.alpha) == big_value(alpha) && big_value(
                z.beta,
            ) == big_value(beta) && big_value(z.p) == big_value(p) && big_value(z.q) == big_value(
                q,
            ),
    {
        let one = big_from_u64(1);
        let zero = big_from_u64(0);
        if big_lt(&one, &p) && big_lt(&zero, &q) {
            Some(ZKP { alpha, beta, p, q })
        } else {
            None
        }
    }

    /// The fixed public constants `(alpha, beta, p, q)` of the proof
    /// system, identical in every process that runs this protocol.
    pub fn get_constants() -> (r: (BigUint, BigUint, BigUint, BigUint))
        ensures
            big_value(r.0) == bytes_val(GROUP_ALPHA_BE@),
            big_value(r.1) == pow(bytes_val(GROUP_ALPHA_BE@) as int, bytes_val(GROUP_BETA_EXP_BE@))
                % (bytes_val(GROUP_MODULUS_BE@) as int),
            big_value(r.2) == bytes_val(GROUP_MODULUS_BE@),
            big_value(r.3) == bytes_val(GROUP_ORDER_BE@),
            big_value(r.2) > 1,
            big_value(r.3) > 0,
    {
        let alpha = big_from_bytes_be(GROUP_ALPHA_BE.as_slice());
        let p = big_from_bytes_be(GROUP_MODULUS_BE.as_slice());
        let q = big_from_bytes_be(GROUP_ORDER_BE.as_slice());
        let exp = big_from_bytes_be(GROUP_BETA_EXP_BE.as_slice());
        proof {
            lemma_bytes_val_leading_byte(GROUP_MODULUS_BE@);
            lemma_bytes_val_leading_byte(GROUP_ORDER_BE@);
            assert(pow(256, 0) == 1) by {
                lemma_pow0(256);
            }
            lemma_pow_strictly_increases(256, 0, 127);
            lemma_pow_strictly_increases(256, 0, 19);
        }
        let beta = big_modpow(&alpha, &exp, &p);
        (alpha, beta, p, q)
    }

    /// A fresh exponent drawn uniformly below `bound` from a
    /// cryptographically secure source; used for the client's ephemeral
    /// nonce `k` and the server's challenge `c`.
    pub fn generate_random_number_below(bound: &BigUint) -> (r: BigUint)
        requires
            big_value(*bound) > 0,
        ensures
            big_value(r) < big_value(*bound),
    {
        big_random_below(bound)
    }

    /// Relies on `Alphanumeric::sample_string` over the thread-local
    /// cryptographically secure generator: an unpredictable token of
    /// exactly `len` alphanumeric characters. Nothing further is promised
    /// of a random draw.
    #[verifier::external_body]
    pub fn generate_random_string(len: usize) -> (r: String)
        ensures
            r@.len() == len,
    {
        Alphanumeric.sample_string(&mut rand::thread_rng(), len)
    }

    /// The commitment pair `(g1^exp mod p, g2^exp mod p)`: applied to the
    /// secret `x` it yields the registered `(y1, y2)`, applied to the
    /// ephemeral nonce `k` it yields the per-attempt `(r1, r2)`.
    pub fn compute_pair(&self, exp: &BigUint) -> (r: (BigUint, BigUint))
        requires
            self.wf(),
        ensures
            big_value(r.0) == pow(big_value(self.alpha) as int, big_value(*exp)) % (big_value(
                self.p,
            ) as int),
            big_value(r.1) == pow(big_value(self.beta) as int, big_value(*exp)) % (big_value(
                self.p,
            ) as int),
    {
        let c1 = big_modpow(&self.alpha, exp, &self.p);
        let c2 = big_modpow(&self.beta, exp, &self.p);
        (c1, c2)
    }

    /// The prover's response `s = (k - c·x) mod q`, computed without
    /// underflow by reducing both terms modulo `q` first.
    pub fn solve(&self, k: &BigUint, c: &BigUint, x: &BigUint) -> (r: BigUint)
        requires
            self.wf(),
        ensures
            big_value(r) == (big_value(*k) - big_value(*c) * big_value(*x)) % (big_value(
                self.q,
            ) as int),
    {
        let kq = big_rem(k, &self.q);
        let cx = big_mul(c, x);
        let cxq = big_rem(&cx, &self.q);
        proof {
            let qi = big_value(self.q) as int;
            lemma_mod_division_less_than_divisor(big_value(*k) as int, qi);
            lemma_mod_division_less_than_divisor((big_value(*c) * big_value(*x)) as int, qi);
            lemma_sub_mod_noop(
                big_value(*k) as int,
                (big_value(*c) * big_value(*x)) as int,
                qi,
            );
            lemma_mod_sub_cases(big_value(kq) as int, big_value(cxq) as int, qi);
        }
        if big_lt(&cxq, &kq) || big_eq(&cxq, &kq) {
            big_sub(&kq, &cxq)
        } else {
            let lifted = big_add(&kq, &self.q);
            big_sub(&lifted, &cxq)
        }
    }

    /// The verifier's dual check: true exactly when
    /// `alpha^s * y1^c ≡ r1 (mod p)` and `beta^s * y2^c ≡ r2 (mod p)`.
    pub fn verify(
        &self,
        r1: &BigUint,
        r2: &BigUint,
        y1: &BigUint,
        y2: &BigUint,
        c: &BigUint,
        s: &BigUint,
    ) -> (ok: bool)
        requires
            self.wf(),
        ensures
            ok == verify_spec(
                big_value(self.alpha),
                big_value(self.beta),
                big_value(self.p),
                big_value(*y1),
                big_value(*y2),
                big_value(*r1),
                big_value(*r2),
                big_value(*c),
                big_value(*s),
            ),
    {
        let a_s = big_modpow(&self.alpha, s, &self.p);
        let y1_c = big_modpow(y1, c, &self.p);
        let prod1 = big_mul(&a_s, &y1_c);
        let lhs1 = big_rem(&prod1, &self.p);
        let cond1 = big_eq(r1, &lhs1);
        let b_s = big_modpow(&self.beta, s, &self.p);
        let y2_c = big_modpow(y2, c, &self.p);
        let prod2 = big_mul(&b_s, &y2_c);
        let lhs2 = big_rem(&prod2, &self.p);
        let cond2 = big_eq(r2, &lhs2);
        proof {
            let pi = big_value(self.p) as int;
            lemma_mul_mod_noop_general(
                pow(big_value(self.alpha) as int, big_value(*s)),
                pow(big_value(*y1) as int, big_value(*c)),
                pi,
            );
            lemma_mul_mod_noop_general(
                pow(big_value(self.beta) as int, big_value(*s)),
                pow(big_value(*y2) as int, big_value(*c)),
                pi,
            );
        }
        cond1 && cond2
    }
}

} // verus!
