//! Mathematical model of the protocol's arithmetic: big-endian byte
//! encodings of unsigned integers, and the algebra of modular
//! exponentiation that makes an honestly computed response verify.

use vstd::prelude::*;
use vstd::arithmetic::div_mod::{
    lemma_add_mod_noop_right, lemma_div_pos_is_pos, lemma_fundamental_div_mod,
    lemma_fundamental_div_mod_converse_mod, lemma_mul_mod_noop_general, lemma_small_mod,
    lemma_sub_mod_noop,
};
use vstd::arithmetic::power::{
    lemma1_pow, lemma_pow_adds, lemma_pow_mod_noop, lemma_pow_multiplies, pow,
};

verus! {

/// The natural number that a big-endian byte string encodes.
/// The empty string encodes zero; leading zero bytes do not change the value.
pub open spec fn bytes_val(s: Seq<u8>) -> nat
    decreases s.len(),
{
    if s.len() == 0 {
        0
    } else {
        (bytes_val(s.drop_last()) * 256 + s.last()) as nat
    }
}

/// If two exponents agree modulo `q` and `g` satisfies `g^q ≡ 1 (mod p)`,
/// then `g` raised to either exponent is the same modulo `p`.
pub proof fn lemma_pow_congruent_exponents(g: nat, p: nat, q: nat, e1: nat, e2: nat)
    requires
        p > 1,
        q > 0,
        pow(g as int, q) % (p as int) == 1,
        e1 % q == e2 % q,
    ensures
        pow(g as int, e1) % (p as int) == pow(g as int, e2) % (p as int),
{
    if e1 >= e2 {
        lemma_pow_congruent_exponents_aux(g, p, q, e1, e2);
    } else {
        lemma_pow_congruent_exponents_aux(g, p, q, e2, e1);
    }
}

proof fn lemma_pow_congruent_exponents_aux(g: nat, p: nat, q: nat, e1: nat, e2: nat)
    requires
        p > 1,
        q > 0,
        pow(g as int, q) % (p as int) == 1,
        e1 % q == e2 % q,
        e1 >= e2,
    ensures
        pow(g as int, e1) % (p as int) == pow(g as int, e2) % (p as int),
{
    let gi = g as int;
    let pi = p as int;
    let qi = q as int;
    let d = e1 - e2;
    assert(d % qi == 0) by {
        lemma_sub_mod_noop(e1 as int, e2 as int, qi);
        assert(((e1 as int) % qi - (e2 as int) % qi) % qi == d % qi);
        assert((0int) % qi == 0) by {
            lemma_small_mod(0, q);
        }
    }
    let t = d / qi;
    assert(t >= 0) by {
        lemma_div_pos_is_pos(d, qi);
    }
    assert(d == qi * t) by {
        lemma_fundamental_div_mod(d, qi);
    }
    let tn = t as nat;
    assert(e1 == e2 + q * tn);
    assert(pow(gi, e1) == pow(gi, e2) * pow(gi, q * tn)) by {
        lemma_pow_adds(gi, e2, q * tn);
    }
    assert(pow(gi, q * tn) == pow(pow(gi, q), tn)) by {
        lemma_pow_multiplies(gi, q, tn);
    }
    assert(pow(pow(gi, q), tn) % pi == 1) by {
        lemma_pow_mod_noop(pow(gi, q), tn, pi);
        assert(pow(pow(gi, q) % pi, tn) == pow(1int, tn));
        lemma1_pow(tn);
        lemma_small_mod(1, p);
    }
    assert(pow(gi, e1) % pi == (pow(gi, e2) * pow(pow(gi, q), tn)) % pi);
    assert((pow(gi, e2) * pow(pow(gi, q), tn)) % pi == (pow(gi, e2) * 1) % pi) by {
        lemma_mul_mod_noop_general(pow(gi, e2), pow(pow(gi, q), tn), pi);
        assert((pow(gi, e2) * (pow(pow(gi, q), tn) % pi)) % pi == (pow(gi, e2) * pow(
            pow(gi, q),
            tn,
        )) % pi);
        lemma_mul_mod_noop_general(pow(gi, e2), 1int, pi);
        lemma_small_mod(1, p);
    }
}

/// Core completeness algebra for one generator of the Chaum-Pedersen
/// protocol: with commitment `y = g^x mod p`, nonce commitment
/// `r = g^k mod p`, and the honest response `s = (k - c·x) mod q`,
/// the verifier's product `g^s · y^c mod p` reproduces `r`.
pub proof fn lemma_honest_response_verifies(g: nat, p: nat, q: nat, x: nat, k: nat, c: nat, s: nat)
    requires
        p > 1,
        q > 0,
        pow(g as int, q) % (p as int) == 1,
        k < q,
        s == (k - c * x) % (q as int),
    ensures
        (pow(g as int, s) * pow(pow(g as int, x) % (p as int), c)) % (p as int) == pow(
            g as int,
            k,
        ) % (p as int),
{
    let gi = g as int;
    let pi = p as int;
    let qi = q as int;
    // Collapse the inner reduction: (g^x mod p)^c ≡ g^(x·c) (mod p).
    assert(pow(pow(gi, x) % pi, c) % pi == pow(gi, x * c) % pi) by {
        lemma_pow_mod_noop(pow(gi, x), c, pi);
        lemma_pow_multiplies(gi, x, c);
    }
    // Combine the two factors into a single exponent s + x·c.
    assert((pow(gi, s) * pow(pow(gi, x) % pi, c)) % pi == pow(gi, (s + x * c) as nat) % pi) by {
        lemma_mul_mod_noop_general(pow(gi, s), pow(pow(gi, x) % pi, c), pi);
        lemma_mul_mod_noop_general(pow(gi, s), pow(gi, x * c), pi);
        lemma_pow_adds(gi, s, x * c);
    }
    // The exponent s + x·c is congruent to k modulo q.
    assert(((s + x * c) as nat) % q == k % q) by {
        let xc = (x * c) as int;
        lemma_add_mod_noop_right(xc, k - c * x, qi);
        assert((xc + s) % qi == (xc + (k - c * x)) % qi);
    }
    assert(k % q == k) by {
        lemma_small_mod(k, q);
    }
    lemma_pow_congruent_exponents(g, p, q, (s + x * c) as nat, k);
}

/// The branch-free characterisation of the modular difference used by the
/// response computation: for residues `a, b` in `[0, q)`, the value
/// `(a - b) mod q` is `a - b` when `a >= b` and `a + q - b` otherwise.
pub proof fn lemma_mod_sub_cases(a: int, b: int, q: int)
    requires
        q > 0,
        0 <= a < q,
        0 <= b < q,
    ensures
        (a - b) % q == if a >= b {
            a - b
        } else {
            a + q - b
        },
{
    if a >= b {
        lemma_small_mod((a - b) as nat, q as nat);
    } else {
        lemma_fundamental_div_mod_converse_mod(a - b, q, -1, a + q - b);
    }
}

} // verus!
