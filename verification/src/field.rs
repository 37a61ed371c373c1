//! Arithmetic over the scalar field: a fixed 64-bit prime modulus, with
//! executable add, subtract and multiply proved against the mathematical
//! modular operations.
#![allow(unused_imports)]
use vstd::prelude::*;
use vstd::arithmetic::div_mod::*;

verus! {

/// The prime modulus of the scalar field: 2^64 - 2^32 + 1.
pub const MODULUS: u64 = 18446744069414584321;

/// The modulus as a mathematical integer.
pub open spec fn p() -> int {
    MODULUS as int
}

/// A canonical field element: an integer reduced modulo the field prime.
pub open spec fn is_fe(a: int) -> bool {
    0 <= a < p()
}

/// Field addition on mathematical integers.
pub open spec fn fadd(a: int, b: int) -> int {
    (a + b) % p()
}

/// Field subtraction on mathematical integers.
pub open spec fn fsub(a: int, b: int) -> int {
    (a - b) % p()
}

/// Field multiplication on mathematical integers.
pub open spec fn fmul(a: int, b: int) -> int {
    (a * b) % p()
}

/// Field addition on machine words.
pub fn add_mod(a: u64, b: u64) -> (r: u64)
    requires
        a < MODULUS,
        b < MODULUS,
    ensures
        r as int == fadd(a as int, b as int),
        r < MODULUS,
{
    let s: u128 = a as u128 + b as u128;
    let r: u128 = s % (MODULUS as u128);
    r as u64
}

/// Field subtraction on machine words.
pub fn sub_mod(a: u64, b: u64) -> (r: u64)
    requires
        a < MODULUS,
        b < MODULUS,
    ensures
        r as int == fsub(a as int, b as int),
        r < MODULUS,
{
    if a >= b {
        proof {
            lemma_small_mod((a - b) as nat, MODULUS as nat);
        }
        a - b
    } else {
        proof {
            lemma_mod_add_multiples_vanish(a as int - b as int, p());
            lemma_small_mod((a as int - b as int + p()) as nat, MODULUS as nat);
        }
        a + (MODULUS - b)
    }
}

/// Field multiplication on machine words.
pub fn mul_mod(a: u64, b: u64) -> (r: u64)
    requires
        a < MODULUS,
        b < MODULUS,
    ensures
        r as int == fmul(a as int, b as int),
        r < MODULUS,
{
    proof {
        assert((a as int) * (b as int) <= 0xfffffffffffffffe0000000000000001)
            by (nonlinear_arith)
            requires
                a <= 0xffffffffffffffffu64,
                b <= 0xffffffffffffffffu64,
        ;
    }
    let m: u128 = (a as u128) * (b as u128);
    let r: u128 = m % (MODULUS as u128);
    r as u64
}

/// `a` and `b` denote the same field element.
pub open spec fn cong(a: int, b: int) -> bool {
    a % p() == b % p()
}

/// Every reduced value is its own remainder.
pub proof fn lemma_fe_mod(a: int)
    requires
        is_fe(a),
    ensures
        a % p() == a,
{
    lemma_small_mod(a as nat, MODULUS as nat);
}

/// Congruent reduced values are equal.
pub proof fn lemma_cong_eq(a: int, b: int)
    requires
        is_fe(a),
        is_fe(b),
        cong(a, b),
    ensures
        a == b,
{
    lemma_fe_mod(a);
    lemma_fe_mod(b);
}

/// The executable field operations denote their integer counterparts.
pub proof fn lemma_f_ops_cong(a: int, b: int)
    ensures
        cong(fadd(a, b), a + b),
        cong(fsub(a, b), a - b),
        cong(fmul(a, b), a * b),
        is_fe(fadd(a, b)),
        is_fe(fsub(a, b)),
        is_fe(fmul(a, b)),
{
    lemma_mod_twice(a + b, p());
    lemma_mod_twice(a - b, p());
    lemma_mod_twice(a * b, p());
    lemma_mod_bound(a + b, p());
    lemma_mod_bound(a - b, p());
    lemma_mod_bound(a * b, p());
}

/// Addition respects congruence.
pub proof fn lemma_cong_add(a: int, b: int, a2: int, b2: int)
    requires
        cong(a, a2),
        cong(b, b2),
    ensures
        cong(a + b, a2 + b2),
{
    lemma_add_mod_noop(a, b, p());
    lemma_add_mod_noop(a2, b2, p());
}

/// Subtraction respects congruence.
pub proof fn lemma_cong_sub(a: int, b: int, a2: int, b2: int)
    requires
        cong(a, a2),
        cong(b, b2),
    ensures
        cong(a - b, a2 - b2),
{
    lemma_sub_mod_noop(a, b, p());
    lemma_sub_mod_noop(a2, b2, p());
}

/// Multiplication respects congruence.
pub proof fn lemma_cong_mul(a: int, b: int, a2: int, b2: int)
    requires
        cong(a, a2),
        cong(b, b2),
    ensures
        cong(a * b, a2 * b2),
{
    lemma_mul_mod_noop_general(a, b, p());
    lemma_mul_mod_noop_general(a2, b2, p());
}

/// Subtraction of distinct reduced values never vanishes.
pub proof fn lemma_fsub_nonzero(a: int, b: int)
    requires
        is_fe(a),
        is_fe(b),
        a != b,
    ensures
        fsub(a, b) != 0,
{
    if a > b {
        lemma_small_mod((a - b) as nat, MODULUS as nat);
    } else {
        lemma_mod_add_multiples_vanish(a - b, p());
        lemma_small_mod((a - b + p()) as nat, MODULUS as nat);
    }
}

/// Two reduced values are equal exactly when their difference vanishes.
pub proof fn lemma_cong_cancel(l: int, d: int)
    requires
        is_fe(l),
        is_fe(d),
    ensures
        (fsub(l, d) == l) == (d == 0),
{
    lemma_mod_equivalence(l - d, l, p());
    lemma_fe_mod(l);
    lemma_fe_mod(d);
    assert((l - d - l) == -d);
    if d == 0 {
        assert((0int) % p() == 0);
    } else {
        assert((-d) % p() == p() - d) by {
            lemma_mod_add_multiples_vanish(-d, p());
            lemma_small_mod((p() - d) as nat, MODULUS as nat);
        }
    }
}

} // verus!
