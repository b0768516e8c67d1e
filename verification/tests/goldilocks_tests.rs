use sovereign_multiplicity::goldilocks::{Goldilocks, GoldilocksError};

#[test]
fn test_add() {
    let a = Goldilocks::new(100);
    let b = Goldilocks::new(200);
    assert_eq!(a.add(b), Goldilocks(300));
}

#[test]
fn test_mul() {
    let a = Goldilocks::new(123);
    let b = Goldilocks::new(456);
    assert_eq!(a.mul(b), Goldilocks(123 * 456));
}

#[test]
fn test_inv() {
    let a = Goldilocks::new(42);
    let a_inv = a.inv().unwrap();
    let product = a.mul(a_inv);
    println!("a = {:?}", a);
    println!("a_inv = {:?}", a_inv);
    println!("product = {:?}", product);
    assert_eq!(product, Goldilocks::one());
}

#[test]
fn test_sub() {
    let a = Goldilocks::new(100);
    let b = Goldilocks::new(200);
    let c = a.sub(b);
    // 100 - 200 mod p = p - 100
    assert_eq!(c, Goldilocks(Goldilocks::P - 100));
}

#[test]
fn new_reduces_mod_p() {
    assert_eq!(Goldilocks::new(Goldilocks::P), Goldilocks(0));
    assert_eq!(Goldilocks::new(Goldilocks::P + 5), Goldilocks(5));
    assert_eq!(Goldilocks::new(u64::MAX), Goldilocks(4294967294));
    assert_eq!(Goldilocks::new(Goldilocks::P - 1), Goldilocks(Goldilocks::P - 1));
}

#[test]
fn constants_zero_and_one() {
    assert_eq!(Goldilocks::zero(), Goldilocks(0));
    assert_eq!(Goldilocks::one(), Goldilocks(1));
    assert!(Goldilocks::zero().is_zero());
    assert!(!Goldilocks::one().is_zero());
    // a non-canonical representative of zero is not "zero" to is_zero
    assert!(!Goldilocks(Goldilocks::P).is_zero());
}

#[test]
fn add_wraps_past_p_and_past_two_to_the_64() {
    let m = Goldilocks(Goldilocks::P - 1);
    // (p - 1) + (p - 1) = 2p - 2 ≡ p - 2, with a carry out of 64 bits
    assert_eq!(m.add(m), Goldilocks(Goldilocks::P - 2));
    // (p - 1) + 1 = p ≡ 0, no carry
    assert_eq!(m.add(Goldilocks(1)), Goldilocks(0));
    // non-canonical inputs: the 64-bit recipe, (2^64 - 1) + (2^64 - 1)
    assert_eq!(Goldilocks(u64::MAX).add(Goldilocks(u64::MAX)), Goldilocks(4294967293));
}

#[test]
fn sub_borrows() {
    assert_eq!(Goldilocks(0).sub(Goldilocks(1)), Goldilocks(Goldilocks::P - 1));
    assert_eq!(Goldilocks(7).sub(Goldilocks(7)), Goldilocks(0));
    assert_eq!(Goldilocks(9).sub(Goldilocks(2)), Goldilocks(7));
}

#[test]
fn mul_of_large_values() {
    let m = Goldilocks(Goldilocks::P - 1);
    // (-1) * (-1) = 1
    assert_eq!(m.mul(m), Goldilocks(1));
    // 2^32 * 2^32 = 2^64 ≡ 2^32 - 1
    let t = Goldilocks(1u64 << 32);
    assert_eq!(t.mul(t), Goldilocks((1u64 << 32) - 1));
    // non-canonical representatives are reduced too
    assert_eq!(Goldilocks(u64::MAX).mul(Goldilocks(1)), Goldilocks(4294967294));
}

#[test]
fn pow_values() {
    let two = Goldilocks::new(2);
    assert_eq!(two.pow(0), Goldilocks(1));
    assert_eq!(two.pow(10), Goldilocks(1024));
    assert_eq!(two.pow(64), Goldilocks((1u64 << 32) - 1));
    assert_eq!(Goldilocks(0).pow(0), Goldilocks(1));
    assert_eq!(Goldilocks(0).pow(5), Goldilocks(0));
    // 7 generates the multiplicative group: 7^(p-1) = 1, 7^((p-1)/2) = -1
    assert_eq!(Goldilocks(7).pow(Goldilocks::P - 1), Goldilocks(1));
    assert_eq!(Goldilocks(7).pow((Goldilocks::P - 1) / 2), Goldilocks(Goldilocks::P - 1));
}

#[test]
fn pow_succ_is_one_more_mul() {
    let a = Goldilocks::new(123456789);
    for e in 0u64..20 {
        assert_eq!(a.pow(e + 1), a.pow(e).mul(a));
    }
}

#[test]
fn inv_of_zero_is_an_error() {
    assert_eq!(Goldilocks(0).inv(), Err(GoldilocksError::DivisionByZero));
    assert_eq!(Goldilocks(5).div(Goldilocks(0)), Err(GoldilocksError::DivisionByZero));
}

#[test]
fn inv_values() {
    assert_eq!(Goldilocks(1).inv(), Ok(Goldilocks(1)));
    // -1 is its own inverse
    assert_eq!(Goldilocks(Goldilocks::P - 1).inv(), Ok(Goldilocks(Goldilocks::P - 1)));
    // 2 * (p + 1) / 2 = p + 1 ≡ 1
    assert_eq!(Goldilocks(2).inv(), Ok(Goldilocks((Goldilocks::P + 1) / 2)));
    // a representative equal to p is non-zero but stands for 0: its "inverse" is 0
    assert_eq!(Goldilocks(Goldilocks::P).inv(), Ok(Goldilocks(0)));
}

#[test]
fn mul_by_inverse_is_one_for_many_values() {
    for v in [1u64, 2, 3, 42, 65537, 1 << 32, Goldilocks::P - 2, Goldilocks::P - 1, u64::MAX] {
        let a = Goldilocks(v);
        let a_inv = a.inv().unwrap();
        assert_eq!(a.mul(a_inv), Goldilocks(1));
    }
}

#[test]
fn inverse_is_involutive() {
    for v in [1u64, 2, 42, 1 << 40, Goldilocks::P - 7] {
        let a = Goldilocks(v);
        assert_eq!(a.inv().unwrap().inv().unwrap(), a);
    }
}

#[test]
fn div_undoes_mul() {
    let a = Goldilocks::new(987654321);
    for v in [1u64, 3, 1 << 33, Goldilocks::P - 1] {
        let b = Goldilocks(v);
        assert_eq!(a.mul(b).div(b), Ok(a));
    }
    assert_eq!(Goldilocks(10).div(Goldilocks(5)), Ok(Goldilocks(2)));
}

#[test]
fn sub_undoes_add_and_back() {
    let pairs = [(0u64, 0u64), (5, 9), (Goldilocks::P - 1, 3), (Goldilocks::P - 1, Goldilocks::P - 1)];
    for (x, y) in pairs {
        let a = Goldilocks(x);
        let b = Goldilocks(y);
        assert_eq!(a.add(b).sub(b), a);
        assert_eq!(a.sub(b).add(b), a);
    }
}

#[test]
fn add_and_mul_commute() {
    let pairs = [(1u64, 2u64), (u64::MAX, 3), (Goldilocks::P - 1, u64::MAX - 1)];
    for (x, y) in pairs {
        assert_eq!(Goldilocks(x).add(Goldilocks(y)), Goldilocks(y).add(Goldilocks(x)));
        assert_eq!(Goldilocks(x).mul(Goldilocks(y)), Goldilocks(y).mul(Goldilocks(x)));
    }
}

#[test]
fn operators_match_methods() {
    let a = Goldilocks::new(100);
    let b = Goldilocks::new(200);
    assert_eq!(a + b, a.add(b));
    assert_eq!(a - b, a.sub(b));
    assert_eq!(a * b, a.mul(b));
}

#[test]
fn display_and_debug_text() {
    for v in [0u64, 7, 10, 42, 1000, 123456789, Goldilocks::P, u64::MAX] {
        let g = Goldilocks(v);
        assert_eq!(g.to_string(), format!("{}", v));
        assert_eq!(g.to_debug_string(), format!("GF({})", v));
    }
}
