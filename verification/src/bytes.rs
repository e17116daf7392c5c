//! Big-endian byte encodings of the integer types the wire formats use.
//!
//! The little-endian encodings come from `vstd::bytes`; the frame headers
//! of the secure stream are big-endian, so those are defined here, in the
//! same style, with round-trip lemmas.

use vstd::prelude::*;

verus! {

/// The eight bytes of `x` in big-endian order.
pub open spec fn spec_u64_to_be_bytes(x: u64) -> Seq<u8> {
    seq![
        ((x >> 56) & 0xff) as u8,
        ((x >> 48) & 0xff) as u8,
        ((x >> 40) & 0xff) as u8,
        ((x >> 32) & 0xff) as u8,
        ((x >> 24) & 0xff) as u8,
        ((x >> 16) & 0xff) as u8,
        ((x >> 8) & 0xff) as u8,
        (x & 0xff) as u8,
    ]
}

/// The `u64` read from eight big-endian bytes.
pub open spec fn spec_u64_from_be_bytes(s: Seq<u8>) -> u64
    recommends
        s.len() == 8,
{
    (s[0] as u64) << 56 | (s[1] as u64) << 48 | (s[2] as u64) << 40 | (s[3] as u64) << 32 | (
    s[4] as u64) << 24 | (s[5] as u64) << 16 | (s[6] as u64) << 8 | (s[7] as u64)
}

/// The two bytes of `x` in big-endian order.
pub open spec fn spec_u16_to_be_bytes(x: u16) -> Seq<u8> {
    seq![((x >> 8) & 0xff) as u8, (x & 0xff) as u8]
}

/// The `u16` read from two big-endian bytes.
pub open spec fn spec_u16_from_be_bytes(s: Seq<u8>) -> u16
    recommends
        s.len() == 2,
{
    (s[0] as u16) << 8 | (s[1] as u16)
}

/// Writing a `u64` big-endian and reading it back is the identity, in both
/// directions.
pub proof fn lemma_u64_to_from_be_bytes()
    ensures
        forall|x: u64|
            #![trigger spec_u64_to_be_bytes(x)]
            {
                &&& spec_u64_to_be_bytes(x).len() == 8
                &&& spec_u64_from_be_bytes(spec_u64_to_be_bytes(x)) == x
            },
        forall|s: Seq<u8>|
            #![trigger spec_u64_to_be_bytes(spec_u64_from_be_bytes(s))]
            s.len() == 8 ==> spec_u64_to_be_bytes(spec_u64_from_be_bytes(s)) == s,
{
    assert forall|x: u64|
        {
            &&& #[trigger] spec_u64_to_be_bytes(x).len() == 8
            &&& spec_u64_from_be_bytes(spec_u64_to_be_bytes(x)) == x
        } by {
        let s = spec_u64_to_be_bytes(x);
        let b0 = (x >> 56) & 0xff;
        let b1 = (x >> 48) & 0xff;
        let b2 = (x >> 40) & 0xff;
        let b3 = (x >> 32) & 0xff;
        let b4 = (x >> 24) & 0xff;
        let b5 = (x >> 16) & 0xff;
        let b6 = (x >> 8) & 0xff;
        let b7 = x & 0xff;
        assert((x >> 56) & 0xff < 256 && (x >> 48) & 0xff < 256 && (x >> 40) & 0xff < 256 && (x
            >> 32) & 0xff < 256 && (x >> 24) & 0xff < 256 && (x >> 16) & 0xff < 256 && (x >> 8)
            & 0xff < 256 && x & 0xff < 256) by (bit_vector);
        assert(s[0] as u64 == b0 && s[1] as u64 == b1 && s[2] as u64 == b2 && s[3] as u64 == b3
            && s[4] as u64 == b4 && s[5] as u64 == b5 && s[6] as u64 == b6 && s[7] as u64 == b7);
        assert(spec_u64_from_be_bytes(s) == (b0 << 56) | (b1 << 48) | (b2 << 40) | (b3 << 32) | (
        b4 << 24) | (b5 << 16) | (b6 << 8) | b7);
        assert((((x >> 56) & 0xff) << 56) | (((x >> 48) & 0xff) << 48) | (((x >> 40) & 0xff) << 40)
            | (((x >> 32) & 0xff) << 32) | (((x >> 24) & 0xff) << 24) | (((x >> 16) & 0xff) << 16)
            | (((x >> 8) & 0xff) << 8) | (x & 0xff) == x) by (bit_vector);
    }
    assert forall|s: Seq<u8>| s.len() == 8 implies #[trigger] spec_u64_to_be_bytes(
        spec_u64_from_be_bytes(s),
    ) == s by {
        let x = spec_u64_from_be_bytes(s);
        let s0 = s[0] as u64;
        let s1 = s[1] as u64;
        let s2 = s[2] as u64;
        let s3 = s[3] as u64;
        let s4 = s[4] as u64;
        let s5 = s[5] as u64;
        let s6 = s[6] as u64;
        let s7 = s[7] as u64;
        assert(((x == s0 << 56 | s1 << 48 | s2 << 40 | s3 << 32 | s4 << 24 | s5 << 16 | s6 << 8
            | s7) && (s0 < 256) && (s1 < 256) && (s2 < 256) && (s3 < 256) && (s4 < 256) && (s5
            < 256) && (s6 < 256) && (s7 < 256)) ==> s0 == ((x >> 56) & 0xff) && s1 == ((x >> 48)
            & 0xff) && s2 == ((x >> 40) & 0xff) && s3 == ((x >> 32) & 0xff) && s4 == ((x >> 24)
            & 0xff) && s5 == ((x >> 16) & 0xff) && s6 == ((x >> 8) & 0xff) && s7 == (x & 0xff))
            by (bit_vector);
        assert(spec_u64_to_be_bytes(spec_u64_from_be_bytes(s)) =~= s);
    }
}

/// Writing a `u16` big-endian and reading it back is the identity, in both
/// directions.
pub proof fn lemma_u16_to_from_be_bytes()
    ensures
        forall|x: u16|
            #![trigger spec_u16_to_be_bytes(x)]
            {
                &&& spec_u16_to_be_bytes(x).len() == 2
                &&& spec_u16_from_be_bytes(spec_u16_to_be_bytes(x)) == x
            },
        forall|s: Seq<u8>|
            #![trigger spec_u16_to_be_bytes(spec_u16_from_be_bytes(s))]
            s.len() == 2 ==> spec_u16_to_be_bytes(spec_u16_from_be_bytes(s)) == s,
{
    assert forall|x: u16|
        {
            &&& #[trigger] spec_u16_to_be_bytes(x).len() == 2
            &&& spec_u16_from_be_bytes(spec_u16_to_be_bytes(x)) == x
        } by {
        assert(((x >> 8) & 0xff) < 256 && (x & 0xff) < 256) by (bit_vector);
        assert((((x >> 8) & 0xff) << 8) | (x & 0xff) == x) by (bit_vector);
    }
    assert forall|s: Seq<u8>| s.len() == 2 implies #[trigger] spec_u16_to_be_bytes(
        spec_u16_from_be_bytes(s),
    ) == s by {
        let x = spec_u16_from_be_bytes(s);
        let s0 = s[0] as u16;
        let s1 = s[1] as u16;
        assert(((x == s0 << 8 | s1) && (s0 < 256) && (s1 < 256)) ==> s0 == ((x >> 8) & 0xff) && s1
            == (x & 0xff)) by (bit_vector);
        assert(spec_u16_to_be_bytes(spec_u16_from_be_bytes(s)) =~= s);
    }
}

/// The eight big-endian bytes of `x`, as a vector.
pub fn u64_to_be_bytes(x: u64) -> (s: Vec<u8>)
    ensures
        s@ == spec_u64_to_be_bytes(x),
        s@.len() == 8,
{
    let mut s: Vec<u8> = Vec::new();
    proof {
        assert((x >> 56) & 0xff < 256 && (x >> 48) & 0xff < 256 && (x >> 40) & 0xff < 256 && (x
            >> 32) & 0xff < 256 && (x >> 24) & 0xff < 256 && (x >> 16) & 0xff < 256 && (x >> 8)
            & 0xff < 256 && x & 0xff < 256) by (bit_vector);
    }
    s.push(((x >> 56) & 0xff) as u8);
    s.push(((x >> 48) & 0xff) as u8);
    s.push(((x >> 40) & 0xff) as u8);
    s.push(((x >> 32) & 0xff) as u8);
    s.push(((x >> 24) & 0xff) as u8);
    s.push(((x >> 16) & 0xff) as u8);
    s.push(((x >> 8) & 0xff) as u8);
    s.push((x & 0xff) as u8);
    proof {
        assert(s@ =~= spec_u64_to_be_bytes(x));
    }
    s
}

/// The `u64` read from the eight big-endian bytes at the start of `s`.
pub fn u64_from_be_bytes(s: &[u8]) -> (x: u64)
    requires
        s@.len() >= 8,
    ensures
        x == spec_u64_from_be_bytes(s@.subrange(0, 8)),
{
    let x: u64 = (s[0] as u64) << 56 | (s[1] as u64) << 48 | (s[2] as u64) << 40 | (s[3]
        as u64) << 32 | (s[4] as u64) << 24 | (s[5] as u64) << 16 | (s[6] as u64) << 8 | (s[7]
        as u64);
    proof {
        let sub = s@.subrange(0, 8);
        assert(sub[0] == s@[0] && sub[1] == s@[1] && sub[2] == s@[2] && sub[3] == s@[3] && sub[4]
            == s@[4] && sub[5] == s@[5] && sub[6] == s@[6] && sub[7] == s@[7]);
    }
    x
}

/// The two big-endian bytes of `x`, as a vector.
pub fn u16_to_be_bytes(x: u16) -> (s: Vec<u8>)
    ensures
        s@ == spec_u16_to_be_bytes(x),
        s@.len() == 2,
{
    let mut s: Vec<u8> = Vec::new();
    proof {
        assert((x >> 8) & 0xff < 256 && x & 0xff < 256) by (bit_vector);
    }
    s.push(((x >> 8) & 0xff) as u8);
    s.push((x & 0xff) as u8);
    proof {
        assert(s@ =~= spec_u16_to_be_bytes(x));
    }
    s
}

/// The `u16` read from the two big-endian bytes at the start of `s`.
pub fn u16_from_be_bytes(s: &[u8]) -> (x: u16)
    requires
        s@.len() >= 2,
    ensures
        x == spec_u16_from_be_bytes(s@.subrange(0, 2)),
{
    let x: u16 = (s[0] as u16) << 8 | (s[1] as u16);
    proof {
        let sub = s@.subrange(0, 2);
        assert(sub[0] == s@[0] && sub[1] == s@[1]);
    }
    x
}

/// A fresh vector with the same bytes.
pub fn copy_bytes(v: &Vec<u8>) -> (r: Vec<u8>)
    ensures
        r@ == v@,
{
    let mut out: Vec<u8> = Vec::new();
    let mut i: usize = 0;
    while i < v.len()
        invariant
            0 <= i <= v@.len(),
            out@ =~= v@.subrange(0, i as int),
        decreases v@.len() - i,
    {
        out.push(v[i]);
        i = i + 1;
    }
    proof {
        assert(out@ =~= v@);
    }
    out
}

} // verus!
