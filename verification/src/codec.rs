//! Fixed-layout binary encoding of proofs: a two-byte magic, a version
//! byte, then the three group elements in eight-byte little-endian form.
//! Loading validates the header and rejects unrecognized bytes with
//! `UnsupportedFormat`.
#![allow(unused_imports)]
use vstd::prelude::*;
use vstd::arithmetic::div_mod::*;
use crate::error::ZkError;
use crate::field::MODULUS;
use crate::groth::{Proof, VerificationKey};

verus! {

/// First magic byte of every artifact.
pub const MAGIC0: u8 = 0x5A;

/// Second magic byte of every artifact.
pub const MAGIC1: u8 = 0x4B;

/// Format version this library writes and reads.
pub const VERSION: u8 = 1;

/// Length of an encoded proof: header plus three group elements.
pub const PROOF_LEN: usize = 27;

/// The little-endian byte string of `x`, `k` bytes long.
pub open spec fn le_bytes(x: nat, k: nat) -> Seq<u8>
    decreases k,
{
    if k == 0 {
        Seq::empty()
    } else {
        seq![(x % 256) as u8] + le_bytes(x / 256, (k - 1) as nat)
    }
}

/// The value a little-endian byte string denotes.
pub open spec fn le_value(s: Seq<u8>) -> nat
    decreases s.len(),
{
    if s.len() == 0 {
        0
    } else {
        s[0] as nat + 256 * le_value(s.skip(1))
    }
}

/// The exclusive upper bound of values `k` bytes can carry.
pub open spec fn byte_bound(k: nat) -> nat
    decreases k,
{
    if k == 0 {
        1
    } else {
        256 * byte_bound((k - 1) as nat)
    }
}

/// A `k`-byte string is `k` bytes long.
proof fn lemma_le_bytes_len(x: nat, k: nat)
    ensures
        le_bytes(x, k).len() == k,
    decreases k,
{
    if k > 0 {
        lemma_le_bytes_len(x / 256, (k - 1) as nat);
    }
}

/// Eight bytes hold exactly the 64-bit values.
proof fn lemma_byte_bound_8()
    ensures
        byte_bound(8) == 0x10000000000000000,
{
    reveal_with_fuel(byte_bound, 9);
}

/// Decoding inverts encoding.
proof fn lemma_le_roundtrip(x: nat, k: nat)
    requires
        x < byte_bound(k),
    ensures
        le_value(le_bytes(x, k)) == x,
    decreases k,
{
    if k > 0 {
        let rest = le_bytes(x / 256, (k - 1) as nat);
        assert((seq![(x % 256) as u8] + rest).skip(1) =~= rest);
        lemma_fundamental_div_mod(x as int, 256);
        assert(x / 256 < byte_bound((k - 1) as nat));
        lemma_le_roundtrip(x / 256, (k - 1) as nat);
    }
}

/// Encoding inverts decoding on strings of the right length.
proof fn lemma_le_bytes_of_value(s: Seq<u8>)
    ensures
        le_bytes(le_value(s), s.len()) == s,
        le_value(s) < byte_bound(s.len()),
    decreases s.len(),
{
    if s.len() > 0 {
        let rest = s.skip(1);
        lemma_le_bytes_of_value(rest);
        let v = le_value(s);
        assert(v == s[0] + 256 * le_value(rest));
        lemma_fundamental_div_mod_converse(v as int, 256, le_value(rest) as int, s[0] as int);
        assert(v % 256 == s[0]);
        assert(v / 256 == le_value(rest));
        assert(le_bytes(v, s.len()) =~= s);
    }
}

/// The byte layout of a proof.
pub open spec fn proof_bytes(pf: Proof) -> Seq<u8> {
    seq![MAGIC0, MAGIC1, VERSION] + le_bytes(pf.a as nat, 8) + le_bytes(pf.b as nat, 8)
        + le_bytes(pf.c as nat, 8)
}

/// Appends the eight little-endian bytes of `x`.
fn push_u64_le(out: &mut Vec<u8>, x: u64)
    ensures
        final(out)@ == old(out)@ + le_bytes(x as nat, 8),
{
    let mut cur: u64 = x;
    let mut k: usize = 0;
    while k < 8
        invariant
            k <= 8,
            out@.len() == old(out)@.len() + k,
            le_bytes(x as nat, 8) =~= out@.subrange(old(out)@.len() as int, out@.len() as int)
                + le_bytes(cur as nat, (8 - k) as nat),
            out@.subrange(0, old(out)@.len() as int) =~= old(out)@,
        decreases 8 - k,
    {
        let ghost pre = out@;
        let b: u8 = (cur % 256) as u8;
        out.push(b);
        proof {
            assert(le_bytes(cur as nat, (8 - k) as nat) == seq![b] + le_bytes(
                cur as nat / 256,
                (8 - (k + 1)) as nat,
            ));
            assert(out@.subrange(old(out)@.len() as int, out@.len() as int)
                =~= pre.subrange(old(out)@.len() as int, pre.len() as int) + seq![b]);
            assert(pre.subrange(old(out)@.len() as int, pre.len() as int) + (seq![b]
                + le_bytes(cur as nat / 256, (8 - (k + 1)) as nat)) =~= (pre.subrange(
                old(out)@.len() as int,
                pre.len() as int,
            ) + seq![b]) + le_bytes(cur as nat / 256, (8 - (k + 1)) as nat));
            assert(out@.subrange(0, old(out)@.len() as int) =~= old(out)@);
        }
        cur = cur / 256;
        k += 1;
    }
    proof {
        lemma_le_bytes_len(x as nat, 8);
        assert(le_bytes(cur as nat, 0) =~= Seq::<u8>::empty());
        assert(le_bytes(x as nat, 8) =~= out@.subrange(old(out)@.len() as int, out@.len() as int));
        assert(out@ =~= old(out)@ + le_bytes(x as nat, 8));
    }
}

/// Reads eight little-endian bytes starting at `off`.
fn read_u64_le(bytes: &Vec<u8>, off: usize) -> (r: u64)
    requires
        off + 8 <= bytes@.len(),
    ensures
        r as nat == le_value(bytes@.subrange(off as int, off as int + 8)),
{
    proof {
        lemma_byte_bound_8();
    }
    let blen = bytes.len();
    let mut cur: u64 = 0;
    let mut k: usize = 8;
    while k > 0
        invariant
            k <= 8,
            off + 8 <= blen,
            blen == bytes@.len(),
            cur as nat == le_value(bytes@.subrange(off as int + k, off as int + 8)),
            (cur as nat) < byte_bound((8 - k) as nat),
            byte_bound(8) == 0x10000000000000000,
        decreases k,
    {
        let ghost oldcur = cur as nat;
        let b: u8 = bytes[off + k - 1];
        proof {
            let tail = bytes@.subrange(off as int + k, off as int + 8);
            let whole = bytes@.subrange(off as int + k - 1, off as int + 8);
            assert(whole.skip(1) =~= tail);
            assert(whole[0] == b);
            assert(byte_bound((8 - (k - 1)) as nat) == 256 * byte_bound((8 - k) as nat));
            assert(256 * oldcur + b < 256 * byte_bound((8 - k) as nat));
            assert(byte_bound((8 - (k - 1)) as nat) <= byte_bound(8)) by {
                lemma_byte_bound_mono((8 - (k - 1)) as nat, 8);
            }
        }
        cur = cur * 256 + (b as u64);
        k -= 1;
    }
    proof {
        assert(bytes@.subrange(off as int, off as int + 8) == bytes@.subrange(
            off as int + 0,
            off as int + 8,
        ));
    }
    cur
}

/// Larger strings hold no fewer values.
proof fn lemma_byte_bound_mono(k1: nat, k2: nat)
    requires
        k1 <= k2,
    ensures
        byte_bound(k1) <= byte_bound(k2),
    decreases k2,
{
    if k1 < k2 && k2 > 0 {
        lemma_byte_bound_mono(k1, (k2 - 1) as nat);
        assert(byte_bound((k2 - 1) as nat) >= 1) by {
            lemma_byte_bound_pos((k2 - 1) as nat);
        }
    }
}

/// Every bound is positive.
proof fn lemma_byte_bound_pos(k: nat)
    ensures
        byte_bound(k) >= 1,
    decreases k,
{
    if k > 0 {
        lemma_byte_bound_pos((k - 1) as nat);
    }
}

/// Serializes a proof in the fixed layout.
pub fn encode_proof(pf: &Proof) -> (r: Vec<u8>)
    ensures
        r@ == proof_bytes(*pf),
        r@.len() == PROOF_LEN,
{
    let mut out: Vec<u8> = Vec::new();
    out.push(MAGIC0);
    out.push(MAGIC1);
    out.push(VERSION);
    proof {
        assert(out@ =~= seq![MAGIC0, MAGIC1, VERSION]);
    }
    push_u64_le(&mut out, pf.a);
    push_u64_le(&mut out, pf.b);
    push_u64_le(&mut out, pf.c);
    proof {
        lemma_le_bytes_len(pf.a as nat, 8);
        lemma_le_bytes_len(pf.b as nat, 8);
        lemma_le_bytes_len(pf.c as nat, 8);
        assert(out@ =~= proof_bytes(*pf));
    }
    out
}

/// Parses a proof from the fixed layout, validating the magic header, the
/// version and the range of every element; anything else is rejected with
/// `UnsupportedFormat`, and exactly the encodings of well-formed proofs
/// are accepted.
pub fn decode_proof(bytes: &Vec<u8>) -> (r: Result<Proof, ZkError>)
    ensures
        match r {
            Ok(pf) => pf.wf() && bytes@ == proof_bytes(pf),
            Err(e) => e == ZkError::UnsupportedFormat && (forall|pf: Proof|
                pf.wf() ==> bytes@ != (#[trigger] proof_bytes(pf))),
        },
{
    proof {
        lemma_byte_bound_8();
        assert forall|pf: Proof| proof_bytes(pf).len() == PROOF_LEN by {
            lemma_le_bytes_len(pf.a as nat, 8);
            lemma_le_bytes_len(pf.b as nat, 8);
            lemma_le_bytes_len(pf.c as nat, 8);
        }
    }
    if bytes.len() != PROOF_LEN {
        return Err(ZkError::UnsupportedFormat);
    }
    if bytes[0] != MAGIC0 || bytes[1] != MAGIC1 || bytes[2] != VERSION {
        proof {
            assert forall|pf: Proof| bytes@ != (#[trigger] proof_bytes(pf)) by {
                assert(proof_bytes(pf)[0] == MAGIC0 && proof_bytes(pf)[1] == MAGIC1
                    && proof_bytes(pf)[2] == VERSION);
            }
        }
        return Err(ZkError::UnsupportedFormat);
    }
    let a = read_u64_le(bytes, 3);
    let b = read_u64_le(bytes, 11);
    let c = read_u64_le(bytes, 19);
    proof {
        assert forall|pf: Proof| bytes@ == (#[trigger] proof_bytes(pf))
            implies pf.a == a && pf.b == b && pf.c == c by {
            lemma_le_bytes_len(pf.a as nat, 8);
            lemma_le_bytes_len(pf.b as nat, 8);
            lemma_le_bytes_len(pf.c as nat, 8);
            assert(proof_bytes(pf).subrange(3, 11) =~= le_bytes(pf.a as nat, 8));
            assert(proof_bytes(pf).subrange(11, 19) =~= le_bytes(pf.b as nat, 8));
            assert(proof_bytes(pf).subrange(19, 27) =~= le_bytes(pf.c as nat, 8));
            lemma_le_roundtrip(pf.a as nat, 8);
            lemma_le_roundtrip(pf.b as nat, 8);
            lemma_le_roundtrip(pf.c as nat, 8);
        }
    }
    if a >= MODULUS || b >= MODULUS || c >= MODULUS {
        return Err(ZkError::UnsupportedFormat);
    }
    let pf = Proof { a, b, c };
    proof {
        lemma_le_bytes_of_value(bytes@.subrange(3, 11));
        lemma_le_bytes_of_value(bytes@.subrange(11, 19));
        lemma_le_bytes_of_value(bytes@.subrange(19, 27));
        assert(bytes@ =~= proof_bytes(pf));
    }
    Ok(pf)
}

/// Decoding the encoding of a well-formed proof gives the proof back.
pub proof fn lemma_proof_codec_round_trip(pf: Proof, pf2: Proof)
    requires
        pf.wf(),
        pf2.wf(),
        proof_bytes(pf) == proof_bytes(pf2),
    ensures
        pf == pf2,
{
    lemma_byte_bound_8();
    lemma_le_bytes_len(pf.a as nat, 8);
    lemma_le_bytes_len(pf.b as nat, 8);
    lemma_le_bytes_len(pf.c as nat, 8);
    lemma_le_bytes_len(pf2.a as nat, 8);
    lemma_le_bytes_len(pf2.b as nat, 8);
    lemma_le_bytes_len(pf2.c as nat, 8);
    assert(proof_bytes(pf).subrange(3, 11) =~= le_bytes(pf.a as nat, 8));
    assert(proof_bytes(pf2).subrange(3, 11) =~= le_bytes(pf2.a as nat, 8));
    assert(proof_bytes(pf).subrange(11, 19) =~= le_bytes(pf.b as nat, 8));
    assert(proof_bytes(pf2).subrange(11, 19) =~= le_bytes(pf2.b as nat, 8));
    assert(proof_bytes(pf).subrange(19, 27) =~= le_bytes(pf.c as nat, 8));
    assert(proof_bytes(pf2).subrange(19, 27) =~= le_bytes(pf2.c as nat, 8));
    lemma_le_roundtrip(pf.a as nat, 8);
    lemma_le_roundtrip(pf.b as nat, 8);
    lemma_le_roundtrip(pf.c as nat, 8);
    lemma_le_roundtrip(pf2.a as nat, 8);
    lemma_le_roundtrip(pf2.b as nat, 8);
    lemma_le_roundtrip(pf2.c as nat, 8);
}

/// The concatenated eight-byte encodings of the first `k` basis entries.
pub open spec fn entries_bytes(ic: Seq<u64>, k: int) -> Seq<u8>
    decreases k,
{
    if k <= 0 {
        Seq::empty()
    } else {
        entries_bytes(ic, k - 1) + le_bytes(ic[k - 1] as nat, 8)
    }
}

/// Entry encodings are eight bytes each.
proof fn lemma_entries_bytes_len(ic: Seq<u64>, k: int)
    requires
        0 <= k,
    ensures
        entries_bytes(ic, k).len() == 8 * k,
    decreases k,
{
    if k > 0 {
        lemma_entries_bytes_len(ic, k - 1);
        lemma_le_bytes_len(ic[k - 1] as nat, 8);
    }
}

/// Each entry sits at its eight-byte block.
proof fn lemma_entries_bytes_index(ic: Seq<u64>, k: int, i: int)
    requires
        0 <= i < k,
    ensures
        entries_bytes(ic, k).subrange(8 * i, 8 * i + 8) == le_bytes(ic[i] as nat, 8),
    decreases k,
{
    lemma_entries_bytes_len(ic, k);
    lemma_entries_bytes_len(ic, k - 1);
    lemma_le_bytes_len(ic[k - 1] as nat, 8);
    if i == k - 1 {
        assert(entries_bytes(ic, k).subrange(8 * i, 8 * i + 8) =~= le_bytes(ic[i] as nat, 8));
    } else {
        lemma_entries_bytes_index(ic, k - 1, i);
        assert(entries_bytes(ic, k).subrange(8 * i, 8 * i + 8) =~= entries_bytes(
            ic,
            k - 1,
        ).subrange(8 * i, 8 * i + 8));
    }
}

/// A byte string made of the right blocks is the entries' encoding.
proof fn lemma_entries_bytes_of_blocks(ic: Seq<u64>, s: Seq<u8>, k: int)
    requires
        0 <= k,
        s.len() == 8 * k,
        forall|i: int| 0 <= i < k ==> s.subrange(8 * i, 8 * i + 8) == le_bytes(
            (#[trigger] ic[i]) as nat,
            8,
        ),
    ensures
        entries_bytes(ic, k) == s,
    decreases k,
{
    if k > 0 {
        let pre = s.subrange(0, 8 * (k - 1));
        assert forall|i: int| 0 <= i < k - 1 implies pre.subrange(8 * i, 8 * i + 8) == le_bytes(
            (#[trigger] ic[i]) as nat,
            8,
        ) by {
            assert(pre.subrange(8 * i, 8 * i + 8) =~= s.subrange(8 * i, 8 * i + 8));
        }
        lemma_entries_bytes_of_blocks(ic, pre, k - 1);
        lemma_le_bytes_len(ic[k - 1] as nat, 8);
        assert(entries_bytes(ic, k) =~= s);
    } else {
        assert(entries_bytes(ic, k) =~= s);
    }
}

/// The byte layout of a verification key: the header, the four scalars,
/// the public-input count, then the basis entries.
pub open spec fn vk_bytes(vk: VerificationKey) -> Seq<u8> {
    seq![MAGIC0, MAGIC1, VERSION] + le_bytes(vk.alpha as nat, 8) + le_bytes(vk.beta as nat, 8)
        + le_bytes(vk.gamma as nat, 8) + le_bytes(vk.delta as nat, 8) + le_bytes(vk.ic@.len(), 8)
        + entries_bytes(vk.ic@, vk.ic@.len() as int)
}

/// The length of an encoded verification key.
proof fn lemma_vk_bytes_len(vk: VerificationKey)
    ensures
        vk_bytes(vk).len() == 43 + 8 * vk.ic@.len(),
{
    lemma_le_bytes_len(vk.alpha as nat, 8);
    lemma_le_bytes_len(vk.beta as nat, 8);
    lemma_le_bytes_len(vk.gamma as nat, 8);
    lemma_le_bytes_len(vk.delta as nat, 8);
    lemma_le_bytes_len(vk.ic@.len(), 8);
    lemma_entries_bytes_len(vk.ic@, vk.ic@.len() as int);
}

/// Serializes a verification key in the fixed layout.
pub fn encode_verification_key(vk: &VerificationKey) -> (r: Vec<u8>)
    ensures
        r@ == vk_bytes(*vk),
{
    let mut out: Vec<u8> = Vec::new();
    out.push(MAGIC0);
    out.push(MAGIC1);
    out.push(VERSION);
    proof {
        assert(out@ =~= seq![MAGIC0, MAGIC1, VERSION]);
    }
    push_u64_le(&mut out, vk.alpha);
    push_u64_le(&mut out, vk.beta);
    push_u64_le(&mut out, vk.gamma);
    push_u64_le(&mut out, vk.delta);
    push_u64_le(&mut out, vk.ic.len() as u64);
    let ghost head = out@;
    let mut i: usize = 0;
    while i < vk.ic.len()
        invariant
            i <= vk.ic@.len(),
            out@ == head + entries_bytes(vk.ic@, i as int),
        decreases vk.ic@.len() - i,
    {
        push_u64_le(&mut out, vk.ic[i]);
        proof {
            assert(out@ =~= head + entries_bytes(vk.ic@, i as int + 1));
        }
        i += 1;
    }
    proof {
        assert(head + entries_bytes(vk.ic@, 0) =~= head);
        assert(out@ =~= vk_bytes(*vk));
    }
    out
}

/// Parses a verification key, validating the magic header, the version,
/// the declared length and the range of every scalar; exactly the
/// encodings of well-formed keys are accepted, anything else fails with
/// `UnsupportedFormat`.
#[verifier::loop_isolation(false)]
pub fn decode_verification_key(bytes: &Vec<u8>) -> (r: Result<VerificationKey, ZkError>)
    ensures
        match r {
            Ok(vk) => vk.wf() && bytes@ == vk_bytes(vk),
            Err(e) => e == ZkError::UnsupportedFormat && (forall|vk: VerificationKey|
                vk.wf() ==> bytes@ != (#[trigger] vk_bytes(vk))),
        },
{
    proof {
        lemma_byte_bound_8();
        assert forall|vk: VerificationKey| bytes@ == (#[trigger] vk_bytes(vk))
            implies vk_fields_read_back(bytes@, vk) by {
            lemma_vk_fields_read_back(bytes@, vk);
        }
    }
    let blen = bytes.len();
    if blen < 43 {
        return Err(ZkError::UnsupportedFormat);
    }
    if bytes[0] != MAGIC0 || bytes[1] != MAGIC1 || bytes[2] != VERSION {
        return Err(ZkError::UnsupportedFormat);
    }
    let alpha = read_u64_le(bytes, 3);
    let beta = read_u64_le(bytes, 11);
    let gamma = read_u64_le(bytes, 19);
    let delta = read_u64_le(bytes, 27);
    let n64 = read_u64_le(bytes, 35);
    if (n64 as u128) * 8 + 43 != blen as u128 {
        return Err(ZkError::UnsupportedFormat);
    }
    let n = ((blen - 43) / 8) as usize;
    proof {
        assert(n as nat == n64 as nat);
    }
    if alpha >= MODULUS || beta >= MODULUS || gamma >= MODULUS || delta >= MODULUS {
        return Err(ZkError::UnsupportedFormat);
    }
    let mut ic: Vec<u64> = Vec::new();
    let mut i: usize = 0;
    while i < n
        invariant
            i <= n,
            blen == bytes@.len(),
            43 + 8 * n <= blen,
            ic@.len() == i,
            forall|k: int| 0 <= k < i ==> (#[trigger] ic@[k]) < MODULUS,
            forall|k: int| 0 <= k < i ==> (#[trigger] ic@[k]) as nat == le_value(
                bytes@.subrange(43 + 8 * k, 51 + 8 * k),
            ),
        decreases n - i,
    {
        let entry = read_u64_le(bytes, 43 + 8 * i);
        if entry >= MODULUS {
            proof {
                assert forall|vk: VerificationKey| vk.wf() implies bytes@ != (
                #[trigger] vk_bytes(vk)) by {
                    if bytes@ == vk_bytes(vk) {
                        lemma_vk_fields_read_back(bytes@, vk);
                        assert(43 + 8 * vk.ic@.len() == 43 + 8 * (n as nat));
                        assert(vk.ic@.len() == n as nat);
                        let ii = i as int;
                        assert(vk.ic@[ii] as nat == le_value(
                            bytes@.subrange(43 + 8 * ii, 51 + 8 * ii),
                        ));
                        assert(bytes@.subrange(43 + 8 * ii, 51 + 8 * ii) =~= bytes@.subrange(
                            43 + 8 * ii,
                            43 + 8 * ii + 8,
                        ));
                        assert(vk.ic@[ii] == entry);
                    }
                }
            }
            return Err(ZkError::UnsupportedFormat);
        }
        ic.push(entry);
        i += 1;
    }
    let vk = VerificationKey { alpha, beta, gamma, delta, ic };
    proof {
        lemma_le_bytes_of_value(bytes@.subrange(3, 11));
        lemma_le_bytes_of_value(bytes@.subrange(11, 19));
        lemma_le_bytes_of_value(bytes@.subrange(19, 27));
        lemma_le_bytes_of_value(bytes@.subrange(27, 35));
        lemma_le_bytes_of_value(bytes@.subrange(35, 43));
        assert forall|k: int| 0 <= k < n implies bytes@.subrange(43, blen as int).subrange(
            8 * k,
            8 * k + 8,
        ) == le_bytes((#[trigger] vk.ic@[k]) as nat, 8) by {
            lemma_le_bytes_of_value(bytes@.subrange(43 + 8 * k, 51 + 8 * k));
            assert(bytes@.subrange(43, blen as int).subrange(8 * k, 8 * k + 8)
                =~= bytes@.subrange(43 + 8 * k, 51 + 8 * k));
        }
        lemma_entries_bytes_of_blocks(vk.ic@, bytes@.subrange(43, blen as int), n as int);
        assert(bytes@ =~= vk_bytes(vk));
    }
    Ok(vk)
}

/// Every field of the key can be read back off its encoding at a fixed
/// offset, and the encoding's length is determined by the entry count.
spec fn vk_fields_read_back(bytes: Seq<u8>, vk: VerificationKey) -> bool {
    &&& bytes.len() == 43 + 8 * vk.ic@.len()
    &&& bytes[0] == MAGIC0 && bytes[1] == MAGIC1 && bytes[2] == VERSION
    &&& vk.alpha as nat == le_value(bytes.subrange(3, 11))
    &&& vk.beta as nat == le_value(bytes.subrange(11, 19))
    &&& vk.gamma as nat == le_value(bytes.subrange(19, 27))
    &&& vk.delta as nat == le_value(bytes.subrange(27, 35))
    &&& vk.ic@.len() == le_value(bytes.subrange(35, 43))
    &&& forall|i: int| 0 <= i < vk.ic@.len() ==> (#[trigger] vk.ic@[i]) as nat == le_value(
        bytes.subrange(43 + 8 * i, 51 + 8 * i),
    )
}

/// An encoding determines the key it encodes.
proof fn lemma_vk_fields_read_back(bytes: Seq<u8>, vk: VerificationKey)
    requires
        bytes == vk_bytes(vk),
    ensures
        vk_fields_read_back(bytes, vk),
{
    lemma_byte_bound_8();
    lemma_vk_bytes_len(vk);
    lemma_le_bytes_len(vk.alpha as nat, 8);
    lemma_le_bytes_len(vk.beta as nat, 8);
    lemma_le_bytes_len(vk.gamma as nat, 8);
    lemma_le_bytes_len(vk.delta as nat, 8);
    lemma_le_bytes_len(vk.ic@.len(), 8);
    lemma_entries_bytes_len(vk.ic@, vk.ic@.len() as int);
    assert(bytes.subrange(3, 11) =~= le_bytes(vk.alpha as nat, 8));
    assert(bytes.subrange(11, 19) =~= le_bytes(vk.beta as nat, 8));
    assert(bytes.subrange(19, 27) =~= le_bytes(vk.gamma as nat, 8));
    assert(bytes.subrange(27, 35) =~= le_bytes(vk.delta as nat, 8));
    assert(bytes.subrange(35, 43) =~= le_bytes(vk.ic@.len(), 8));
    lemma_le_roundtrip(vk.alpha as nat, 8);
    lemma_le_roundtrip(vk.beta as nat, 8);
    lemma_le_roundtrip(vk.gamma as nat, 8);
    lemma_le_roundtrip(vk.delta as nat, 8);
    assert(vk.ic.len() == vk.ic@.len());
    lemma_le_roundtrip(vk.ic@.len(), 8);
    assert forall|i: int| 0 <= i < vk.ic@.len() implies (#[trigger] vk.ic@[i]) as nat == le_value(
        bytes.subrange(43 + 8 * i, 51 + 8 * i),
    ) by {
        lemma_entries_bytes_index(vk.ic@, vk.ic@.len() as int, i);
        assert(bytes.subrange(43 + 8 * i, 51 + 8 * i) =~= entries_bytes(
            vk.ic@,
            vk.ic@.len() as int,
        ).subrange(8 * i, 8 * i + 8));
        lemma_le_roundtrip(vk.ic@[i] as nat, 8);
    }
}

} // verus!
