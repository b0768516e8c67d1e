//! Arithmetic in the Goldilocks field GF(p), p = 2^64 - 2^32 + 1.

use crate::modular::{lemma_exponent_bits, lemma_square_and_multiply_step};
use crate::fermat::lemma_fermat;
use vstd::arithmetic::div_mod::{lemma_mod_bound, lemma_mul_mod_noop_left, lemma_mul_mod_noop_right, lemma_small_mod};
use vstd::arithmetic::mul::{lemma_mul_basics, lemma_mul_is_associative, lemma_mul_is_commutative};
use vstd::arithmetic::power::{lemma_pow1, lemma_pow_adds, pow};
use vstd::prelude::*;

verus! {

/// The Goldilocks prime as a mathematical integer.
pub open spec fn prime() -> nat {
    18446744069414584321
}

/// `2^64`, the number of values of a `u64`.
pub open spec fn word() -> int {
    0x1_0000_0000_0000_0000
}

/// Errors of field operations.
#[derive(Debug, Clone, PartialEq, Eq, Structural)]
pub enum GoldilocksError {
    /// Division by zero.
    DivisionByZero,
}

/// Goldilocks field element (mod p = 2^64 - 2^32 + 1).
///
/// The representative is public, so a value need not be reduced; every operation says what it
/// computes on any representative, and what that means in the field when its inputs are
/// canonical (below `P`).
#[derive(Debug, Clone, Copy, PartialEq, Eq, Hash, Structural)]
pub struct Goldilocks(pub u64);

/// What `add` computes on any two representatives: the sum taken mod 2^64, from which `P` is
/// taken away (again mod 2^64) when the sum carried out of 64 bits or reached `P`.
pub open spec fn add_raw(a: u64, b: u64) -> u64 {
    let s: int = a + b;
    let low: int = if s >= word() { s - word() } else { s };
    if s >= word() || low >= prime() {
        ((low - prime()) % word()) as u64
    } else {
        low as u64
    }
}

/// What `sub` computes on any two representatives: the difference taken mod 2^64, to which `P`
/// is added (mod 2^64) when the subtraction borrowed.
pub open spec fn sub_raw(a: u64, b: u64) -> u64 {
    if a >= b {
        (a - b) as u64
    } else {
        ((a - b + word() + prime()) % word()) as u64
    }
}

/// The inverse that `inv` computes of the representative `a`: `a^(P-2) mod P`.
pub open spec fn inverse_of(a: u64) -> nat {
    (pow(a as int, (prime() - 2) as nat) % (prime() as int)) as nat
}

/// The decimal digit character for `d < 10`.
pub open spec fn digit_char(d: nat) -> char {
    ('0' as nat + d) as char
}

/// The decimal numeral of `n`, most significant digit first, without leading zeros.
pub open spec fn decimal(n: nat) -> Seq<char>
    decreases n,
{
    if n < 10 {
        seq![digit_char(n)]
    } else {
        decimal(n / 10).push(digit_char(n % 10))
    }
}

/// The number that a string of decimal digits denotes, most significant digit first.
pub open spec fn numeral_value(text: Seq<char>) -> int
    decreases text.len(),
{
    if text.len() == 0 {
        0
    } else {
        numeral_value(text.drop_last()) * 10 + (text.last() as int - '0' as int)
    }
}

/// The decimal numeral of `n` is made of the digits `'0'` to `'9'`, has no leading zero
/// (unless `n` is 0), and denotes `n`.
pub proof fn lemma_decimal_denotes(n: nat)
    ensures
        numeral_value(decimal(n)) == n,
        decimal(n).len() > 0,
        forall|i: int| 0 <= i < decimal(n).len() ==> '0' <= #[trigger] decimal(n)[i] <= '9',
        decimal(n)[0] != '0' || n == 0,
    decreases n,
{
    assert(digit_char(n % 10) as int == '0' as int + n % 10);
    if n >= 10 {
        lemma_decimal_denotes(n / 10);
        let d = decimal(n);
        assert(d.drop_last() =~= decimal(n / 10));
        assert(d.last() == digit_char(n % 10));
        assert(numeral_value(d) == numeral_value(d.drop_last()) * 10 + (d.last() as int - '0' as int));
        assert(n == (n / 10) * 10 + n % 10);
    } else {
        let d = decimal(n);
        assert(d.drop_last() =~= Seq::<char>::empty());
        lemma_small_mod(n, 10);
        assert(d.last() == digit_char(n));
        assert(numeral_value(d) == numeral_value(d.drop_last()) * 10 + (d.last() as int - '0' as int));
    }
}

/// The one-character text of the digit `d`.
fn digit_str(d: u64) -> (r: &'static str)
    requires
        d < 10,
    ensures
        r@ == seq![digit_char(d as nat)],
{
    proof {
        reveal_strlit("0");
        reveal_strlit("1");
        reveal_strlit("2");
        reveal_strlit("3");
        reveal_strlit("4");
        reveal_strlit("5");
        reveal_strlit("6");
        reveal_strlit("7");
        reveal_strlit("8");
        reveal_strlit("9");
    }
    match d {
        0 => "0",
        1 => "1",
        2 => "2",
        3 => "3",
        4 => "4",
        5 => "5",
        6 => "6",
        7 => "7",
        8 => "8",
        _ => "9",
    }
}

/// The decimal numeral of `n`.
fn decimal_string(n: u64) -> (r: String)
    ensures
        r@ == decimal(n as nat),
    decreases n,
{
    if n < 10 {
        String::from_str(digit_str(n))
    } else {
        let mut text = decimal_string(n / 10);
        text.append(digit_str(n % 10));
        text
    }
}

impl Goldilocks {
    /// The text that displays the element: its representative in decimal.
    pub fn to_string(&self) -> (r: String)
        ensures
            r@ == decimal(self.0 as nat),
    {
        decimal_string(self.0)
    }

    /// The debugging text of the element: `GF(`, its representative in decimal, then `)`.
    pub fn to_debug_string(&self) -> (r: String)
        ensures
            r@ == seq!['G', 'F', '('] + decimal(self.0 as nat) + seq![')'],
    {
        proof {
            reveal_strlit("GF(");
            reveal_strlit(")");
        }
        let mut text = String::from_str("GF(");
        text.append(decimal_string(self.0).as_str());
        text.append(")");
        text
    }

    /// The Goldilocks prime.
    pub const P: u64 = 18446744069414584321u64;

    /// Zero element.
    pub fn zero() -> (r: Self)
        ensures
            r.0 == 0,
    {
        Goldilocks(0)
    }

    /// One element.
    pub fn one() -> (r: Self)
        ensures
            r.0 == 1,
    {
        Goldilocks(1)
    }

    /// The field element this value stands for, in `[0, P)`.
    pub open spec fn value(self) -> nat {
        (self.0 as nat) % prime()
    }

    /// Whether the representative is the canonical one (below `P`).
    pub open spec fn is_canonical(self) -> bool {
        self.0 < prime()
    }

    /// Create a new element, reducing mod p.
    pub fn new(val: u64) -> (r: Self)
        ensures
            r.0 == val % Self::P,
            r.is_canonical(),
    {
        Self(Self::reduce(val))
    }

    /// Reduce mod p.
    fn reduce(val: u64) -> (r: u64)
        ensures
            r == val % Self::P,
    {
        if val >= Self::P {
            val % Self::P
        } else {
            val
        }
    }

    /// Addition.
    pub fn add(self, other: Self) -> (r: Self)
        ensures
            r.0 == add_raw(self.0, other.0),
            self.is_canonical() && other.is_canonical() ==> r.0 == (self.0 + other.0) % (prime() as int),
            self.is_canonical() && other.is_canonical() ==> r.is_canonical(),
    {
        let s = self.0.wrapping_add(other.0);
        let overflow = s < self.0;
        let mut result = s;
        if overflow || result >= Self::P {
            result = result.wrapping_sub(Self::P);
        }
        Self(result)
    }

    /// Subtraction.
    pub fn sub(self, other: Self) -> (r: Self)
        ensures
            r.0 == sub_raw(self.0, other.0),
            self.is_canonical() && other.is_canonical() ==> r.0 == (self.0 - other.0) % (prime() as int),
            self.is_canonical() && other.is_canonical() ==> r.is_canonical(),
    {
        let overflow = self.0 < other.0;
        let s = self.0.wrapping_sub(other.0);
        if overflow {
            Self(s.wrapping_add(Self::P))
        } else {
            Self(s)
        }
    }

    /// Multiplication.
    pub fn mul(self, other: Self) -> (r: Self)
        ensures
            r.0 == (self.0 * other.0) % (prime() as int),
            r.is_canonical(),
    {
        proof {
            let (a, b) = (self.0, other.0);
            assert(a * b <= u64::MAX * u64::MAX) by (nonlinear_arith)
                requires
                    a <= u64::MAX,
                    b <= u64::MAX,
            ;
        }
        let result = (self.0 as u128) * (other.0 as u128);
        Self((result % (Self::P as u128)) as u64)
    }

    /// Power, by square-and-multiply.
    pub fn pow(self, exp: u64) -> (r: Self)
        ensures
            r.0 == pow(self.0 as int, exp as nat) % (prime() as int),
            r.is_canonical(),
    {
        let mut result = Self::one();
        let mut base = self;
        let mut e = exp;
        while e > 0
            invariant
                result.0 < prime(),
                (result.0 * pow(base.0 as int, e as nat)) % (prime() as int) == pow(
                    self.0 as int,
                    exp as nat,
                ) % (prime() as int),
            decreases e,
        {
            proof {
                lemma_square_and_multiply_step(result.0 as int, base.0 as int, e as nat, prime() as int);
                lemma_exponent_bits(e);
                vstd::arithmetic::power::lemma_pow1(base.0 as int);
                vstd::arithmetic::power::lemma_pow0(base.0 as int);
                vstd::arithmetic::div_mod::lemma_small_mod(result.0 as nat, prime());
            }
            if e & 1 == 1 {
                result = result.mul(base);
            }
            base = base.mul(base);
            e >>= 1;
        }
        proof {
            vstd::arithmetic::power::lemma_pow0(base.0 as int);
            vstd::arithmetic::div_mod::lemma_small_mod(result.0 as nat, prime());
        }
        result
    }

    /// Multiplicative inverse (Fermat's little theorem with square-and-multiply):
    /// `self^(P - 2)`, or `DivisionByZero` when the representative is 0.
    pub fn inv(self) -> (r: Result<Self, GoldilocksError>)
        ensures
            self.0 == 0 <==> r is Err,
            r matches Err(e) ==> e == GoldilocksError::DivisionByZero,
            r matches Ok(v) ==> v.0 == inverse_of(self.0),
    {
        if self.0 == 0 {
            return Err(GoldilocksError::DivisionByZero);
        }
        // a^(P-2) mod P = a^(-1) mod P (Fermat's little theorem)
        // Use square-and-multiply with u128 arithmetic
        let base = self.0 as u128;
        let p = Self::P as u128;
        let mut result: u128 = 1;
        let mut b = base;
        let mut exp = Self::P - 2;
        while exp > 0
            invariant
                p == prime(),
                result < prime(),
                b <= u64::MAX,
                (result * pow(b as int, exp as nat)) % (prime() as int) == pow(
                    self.0 as int,
                    (prime() - 2) as nat,
                ) % (prime() as int),
            decreases exp,
        {
            proof {
                lemma_square_and_multiply_step(result as int, b as int, exp as nat, prime() as int);
                lemma_exponent_bits(exp);
                vstd::arithmetic::power::lemma_pow1(b as int);
                vstd::arithmetic::power::lemma_pow0(b as int);
                vstd::arithmetic::div_mod::lemma_small_mod(result as nat, prime());
                let (x, y) = (result, b);
                assert(x * y <= u64::MAX * u64::MAX && y * y <= u64::MAX * u64::MAX) by (nonlinear_arith)
                    requires
                        x <= u64::MAX,
                        y <= u64::MAX,
                ;
            }
            if exp & 1 == 1 {
                result = result.wrapping_mul(b) % p;
            }
            b = b.wrapping_mul(b) % p;
            exp >>= 1;
        }
        proof {
            vstd::arithmetic::power::lemma_pow0(b as int);
            vstd::arithmetic::div_mod::lemma_small_mod(result as nat, prime());
        }
        Ok(Self(result as u64))
    }

    /// Division: `self * other^(-1)`, or `DivisionByZero` when `other`'s representative is 0.
    pub fn div(self, other: Self) -> (r: Result<Self, GoldilocksError>)
        ensures
            other.0 == 0 <==> r is Err,
            r matches Err(e) ==> e == GoldilocksError::DivisionByZero,
            r matches Ok(v) ==> v.0 == (self.0 * inverse_of(other.0)) % (prime() as int),
    {
        match other.inv() {
            Ok(i) => Ok(self.mul(i)),
            Err(e) => Err(e),
        }
    }

    /// Is zero?
    pub fn is_zero(self) -> (r: bool)
        ensures
            r == (self.0 == 0),
    {
        self.0 == 0
    }
}

impl vstd::std_specs::ops::AddSpecImpl for Goldilocks {
    open spec fn obeys_add_spec() -> bool {
        true
    }

    open spec fn add_req(self, rhs: Self) -> bool {
        true
    }

    open spec fn add_spec(self, rhs: Self) -> Self {
        Goldilocks(add_raw(self.0, rhs.0))
    }
}

impl std::ops::Add for Goldilocks {
    type Output = Self;

    fn add(self, rhs: Self) -> (r: Self)
        ensures
            r.0 == add_raw(self.0, rhs.0),
    {
        Goldilocks::add(self, rhs)
    }
}

impl vstd::std_specs::ops::SubSpecImpl for Goldilocks {
    open spec fn obeys_sub_spec() -> bool {
        true
    }

    open spec fn sub_req(self, rhs: Self) -> bool {
        true
    }

    open spec fn sub_spec(self, rhs: Self) -> Self {
        Goldilocks(sub_raw(self.0, rhs.0))
    }
}

impl std::ops::Sub for Goldilocks {
    type Output = Self;

    fn sub(self, rhs: Self) -> (r: Self)
        ensures
            r.0 == sub_raw(self.0, rhs.0),
    {
        Goldilocks::sub(self, rhs)
    }
}

impl vstd::std_specs::ops::MulSpecImpl for Goldilocks {
    open spec fn obeys_mul_spec() -> bool {
        true
    }

    open spec fn mul_req(self, rhs: Self) -> bool {
        true
    }

    open spec fn mul_spec(self, rhs: Self) -> Self {
        Goldilocks(((self.0 * rhs.0) % (prime() as int)) as u64)
    }
}

impl std::ops::Mul for Goldilocks {
    type Output = Self;

    fn mul(self, rhs: Self) -> (r: Self)
        ensures
            r.0 == (self.0 * rhs.0) % (prime() as int),
    {
        Goldilocks::mul(self, rhs)
    }
}

/// Multiplying by the inverse gives one: for every `a` that is not 0 mod `P`,
/// `a.mul(a.inv()?)` is `1`.
pub proof fn lemma_mul_inverse_is_one(a: Goldilocks)
    requires
        a.value() != 0,
    ensures
        (a.0 * inverse_of(a.0)) % (prime() as int) == 1,
{
    let p = prime() as int;
    let x = a.0 as int;
    let e = (prime() - 2) as nat;
    lemma_fermat(x);
    lemma_pow_adds(x, 1, e);
    lemma_pow1(x);
    lemma_mul_mod_noop_right(x, pow(x, e), p);
}

/// Division undoes multiplication: for canonical `a` and `b` not 0 mod `P`,
/// `a.mul(b).div(b)` is `Ok(a)`.
pub proof fn lemma_div_undoes_mul(a: Goldilocks, b: Goldilocks)
    requires
        a.is_canonical(),
        b.value() != 0,
    ensures
        (((a.0 * b.0) % (prime() as int)) * inverse_of(b.0)) % (prime() as int) == a.0,
{
    let p = prime() as int;
    let (x, y, z) = (a.0 as int, b.0 as int, inverse_of(b.0) as int);
    lemma_mul_inverse_is_one(b);
    lemma_mul_mod_noop_left(x * y, z, p);
    lemma_mul_is_associative(x, y, z);
    lemma_mul_mod_noop_right(x, y * z, p);
    lemma_mul_basics(x);
    lemma_small_mod(a.0 as nat, prime());
}

/// The inverse of the inverse is the element itself, for canonical `a` not 0 mod `P`.
pub proof fn lemma_inverse_involutive(a: Goldilocks)
    requires
        a.is_canonical(),
        a.value() != 0,
    ensures
        inverse_of(inverse_of(a.0) as u64) == a.0,
{
    let p = prime() as int;
    let b = inverse_of(a.0);
    lemma_mod_bound(pow(a.0 as int, (prime() - 2) as nat), p);
    lemma_mul_inverse_is_one(a);
    let bb = Goldilocks(b as u64);
    assert(bb.value() != 0) by {
        lemma_small_mod(b, prime());
        if b == 0 {
            lemma_mul_basics(a.0 as int);
        }
    }
    lemma_mul_inverse_is_one(bb);
    let c = inverse_of(b as u64);
    let (x, y, z) = (a.0 as int, b as int, c as int);
    // c ≡ c * (y * x) = (c * y) * x ≡ x
    lemma_mul_is_commutative(x, y);
    lemma_mul_is_commutative(y, z);
    lemma_mul_mod_noop_right(z, y * x, p);
    lemma_mul_is_associative(z, y, x);
    lemma_mul_mod_noop_left(z * y, x, p);
    lemma_mul_basics(z);
    lemma_mul_basics(x);
    lemma_mod_bound(pow(b as int, (prime() - 2) as nat), p);
    lemma_small_mod(c, prime());
    lemma_small_mod(a.0 as nat, prime());
}

/// Subtraction undoes addition on canonical elements: `a.add(b).sub(b) == a`.
pub proof fn lemma_sub_undoes_add(a: Goldilocks, b: Goldilocks)
    requires
        a.is_canonical(),
        b.is_canonical(),
    ensures
        sub_raw(add_raw(a.0, b.0), b.0) == a.0,
{
}

/// Addition undoes subtraction on canonical elements: `a.sub(b).add(b) == a`.
pub proof fn lemma_add_undoes_sub(a: Goldilocks, b: Goldilocks)
    requires
        a.is_canonical(),
        b.is_canonical(),
    ensures
        add_raw(sub_raw(a.0, b.0), b.0) == a.0,
{
}

/// Addition and multiplication are commutative, on every representative.
pub proof fn lemma_add_mul_commute(a: Goldilocks, b: Goldilocks)
    ensures
        add_raw(a.0, b.0) == add_raw(b.0, a.0),
        (a.0 * b.0) % (prime() as int) == (b.0 * a.0) % (prime() as int),
{
    lemma_mul_is_commutative(a.0 as int, b.0 as int);
}

/// One more power is one more multiplication: `a.pow(e + 1) == a.pow(e).mul(a)`.
pub proof fn lemma_pow_succ(a: Goldilocks, e: nat)
    ensures
        pow(a.0 as int, e + 1) % (prime() as int) == ((pow(a.0 as int, e) % (prime() as int)) * a.0) % (
        prime() as int),
{
    lemma_pow_adds(a.0 as int, e, 1);
    lemma_pow1(a.0 as int);
    lemma_mul_mod_noop_left(pow(a.0 as int, e), a.0 as int, prime() as int);
}

} // verus!
