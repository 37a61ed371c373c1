//! Parsing big-integer decimal strings into field elements, as the request
//! interface supplies input-signal values.
#![allow(unused_imports)]
use vstd::prelude::*;
use vstd::arithmetic::div_mod::*;
use vstd::string::StrSliceExecFns;
use crate::error::ZkError;
use crate::field::{
    MODULUS, p, fadd, fmul, cong, add_mod, mul_mod, lemma_cong_add, lemma_cong_mul,
    lemma_f_ops_cong,
};

verus! {

/// The character is a decimal digit.
pub open spec fn is_dec_digit(c: char) -> bool {
    48 <= (c as u32) <= 57
}

/// The numeric value a digit string denotes.
pub open spec fn dec_value(s: Seq<char>) -> nat
    decreases s.len(),
{
    if s.len() == 0 {
        0
    } else {
        10 * dec_value(s.drop_last()) + ((s.last() as u32 - 48) as nat)
    }
}

/// Parses a decimal string into a field element, reducing the denoted
/// big integer modulo the field prime. Fails with `UnsupportedFormat`
/// exactly when the string is empty or holds a non-digit character.
pub fn parse_field_element(s: &str) -> (r: Result<u64, ZkError>)
    ensures
        match r {
            Ok(v) => {
                &&& s@.len() > 0
                &&& forall|i: int| 0 <= i < s@.len() ==> is_dec_digit(#[trigger] s@[i])
                &&& v as int == dec_value(s@) as int % p()
                &&& v < MODULUS
            },
            Err(e) => e == ZkError::UnsupportedFormat && (s@.len() == 0 || exists|i: int|
                0 <= i < s@.len() && !is_dec_digit(#[trigger] s@[i])),
        },
{
    let n = s.unicode_len();
    if n == 0 {
        return Err(ZkError::UnsupportedFormat);
    }
    proof {
        assert(s@.subrange(0, 0) =~= Seq::<char>::empty());
        lemma_small_mod(0nat, MODULUS as nat);
    }
    let mut acc: u64 = 0;
    let mut i: usize = 0;
    while i < n
        invariant
            i <= n,
            n == s@.len(),
            forall|k: int| 0 <= k < i ==> is_dec_digit(#[trigger] s@[k]),
            acc as int == dec_value(s@.subrange(0, i as int)) as int % p(),
            acc < MODULUS,
        decreases n - i,
    {
        let c = s.get_char(i);
        let u = c as u32;
        if u < 48 || u > 57 {
            return Err(ZkError::UnsupportedFormat);
        }
        let d: u64 = (u - 48) as u64;
        let ghost pre = s@.subrange(0, i as int);
        let ghost cur = s@.subrange(0, i as int + 1);
        proof {
            assert(cur.drop_last() =~= pre);
            assert(cur.last() == s@[i as int]);
            assert(dec_value(cur) == 10 * dec_value(pre) + (d as nat));
            let dv = dec_value(pre) as int;
            assert(cong(acc as int, dv)) by {
                lemma_mod_twice(dv, p());
            }
            lemma_cong_mul(acc as int, 10, dv, 10);
            lemma_cong_add(acc as int * 10, d as int, dv * 10, d as int);
            lemma_f_ops_cong(fmul(acc as int, 10), d as int);
            lemma_f_ops_cong(acc as int, 10);
            assert(cong(fadd(fmul(acc as int, 10), d as int), dv * 10 + d));
            assert(dec_value(cur) as int == dv * 10 + d);
        }
        acc = add_mod(mul_mod(acc, 10), d);
        proof {
            lemma_mod_twice(dec_value(cur) as int, p());
        }
        i += 1;
    }
    proof {
        assert(s@.subrange(0, n as int) =~= s@);
    }
    Ok(acc)
}

} // verus!
