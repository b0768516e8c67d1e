//! Facts of modular arithmetic that the field operations rest on.

use vstd::arithmetic::div_mod::*;
use vstd::arithmetic::mul::*;
use vstd::arithmetic::power::*;
use vstd::prelude::*;

verus! {

/// `b^2 == b * b`.
pub proof fn lemma_pow_two(b: int)
    ensures
        pow(b, 2) == b * b,
{
    reveal_with_fuel(pow, 3);
}

/// One step of square-and-multiply: writing `e = 2k + t` with `t = e % 2`,
/// `r * b^e  ≡  (r * b^t mod m) * ((b * b) mod m)^k  (mod m)`.
pub proof fn lemma_square_and_multiply_step(r: int, b: int, e: nat, m: int)
    requires
        m > 0,
    ensures
        (((r * pow(b, e % 2)) % m) * pow((b * b) % m, e / 2)) % m == (r * pow(b, e)) % m,
{
    let k = e / 2;
    let t = e % 2;
    assert(e == t + 2 * k);
    lemma_pow_adds(b, t, 2 * k);
    lemma_pow_multiplies(b, 2, k);
    lemma_pow_two(b);
    lemma_pow_mod_noop(b * b, k, m);
    let x = r * pow(b, t);
    let y = pow(b * b, k);
    let y2 = pow((b * b) % m, k);
    lemma_mul_mod_noop_left(x, y2, m);
    lemma_mul_mod_noop_right(x, y2, m);
    lemma_mul_mod_noop_right(x, y, m);
    lemma_mul_is_associative(r, pow(b, t), y);
}

/// The bit tests that square-and-multiply makes on its exponent.
pub proof fn lemma_exponent_bits(e: u64)
    ensures
        (e & 1 == 1) == (e % 2 == 1),
        e >> 1 == e / 2,
{
    assert((e & 1 == 1) == (e % 2 == 1)) by (bit_vector);
    assert(e >> 1 == e / 2) by (bit_vector);
}

} // verus!
