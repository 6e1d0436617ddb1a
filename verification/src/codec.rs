//! Pack/unpack codec.
//!
//! Packing lays a `d`-element array out as `K(d)` register-width chunks:
//! the `d` real elements followed by zero pad lanes that fill the final
//! chunk.  Unpacking takes the first `d` lanes back and discards the pad,
//! never reading at or past the lane at index `d` of the padded buffer.

use vstd::prelude::*;

use crate::lanes::{chunk_count, lane_width, lemma_lane_width_bounds, mpow2, padded_len};

verus! {

/// The packed form of `s`: the elements of `s` followed by zero pad lanes
/// up to `padded_len(s.len())`.
pub open spec fn pack_spec(s: Seq<i64>) -> Seq<i64> {
    s + Seq::new((padded_len(s.len() as int) - s.len()) as nat, |i: int| 0i64)
}

/// The logical contents of a packed buffer of dimension `d`: its first
/// `d` lanes, with the pad discarded.
pub open spec fn unpack_spec(buf: Seq<i64>, d: int) -> Seq<i64> {
    buf.take(d)
}

/// A buffer is a well-formed packed representation of dimension `d` when
/// it spans exactly `K(d) * W(d)` lanes and every pad lane holds zero.
pub open spec fn packed_wf(buf: Seq<i64>, d: int) -> bool {
    &&& buf.len() == padded_len(d)
    &&& forall|i: int| d <= i < buf.len() ==> buf[i] == 0i64
}

/// The padded length covers the dimension with at least one register,
/// never spans more than one extra chunk, and is an exact multiple of
/// the lane width.
pub proof fn lemma_padded_len_bounds(d: int)
    requires
        0 <= d,
    ensures
        1 <= padded_len(d),
        d <= padded_len(d),
        padded_len(d) <= d + lane_width(d),
        padded_len(d) % lane_width(d) == 0,
{
    let w = lane_width(d);
    let k = chunk_count(d);
    lemma_lane_width_bounds(d);
    if d == 0 {
        assert(padded_len(0) == 1);
    } else {
        vstd::arithmetic::div_mod::lemma_fundamental_div_mod(d + w - 1, w);
        vstd::arithmetic::div_mod::lemma_mod_division_less_than_divisor(d + w - 1, w);
        assert(w * k == d + w - 1 - (d + w - 1) % w);
        vstd::arithmetic::mul::lemma_mul_is_commutative(w, k);
    }
    vstd::arithmetic::div_mod::lemma_mod_multiples_basic(k, w);
    vstd::arithmetic::mul::lemma_mul_is_commutative(k, w);
}

/// Packing then unpacking gives the original contents back.
pub proof fn lemma_pack_unpack_roundtrip(s: Seq<i64>)
    ensures
        unpack_spec(pack_spec(s), s.len() as int) == s,
{
    lemma_padded_len_bounds(s.len() as int);
    assert(unpack_spec(pack_spec(s), s.len() as int) =~= s);
}

/// The packed form of `s` is a well-formed packed buffer for `s.len()`.
pub proof fn lemma_pack_spec_wf(s: Seq<i64>)
    ensures
        packed_wf(pack_spec(s), s.len() as int),
{
    lemma_padded_len_bounds(s.len() as int);
}

/// A well-formed packed buffer is determined by its logical contents:
/// the pad carries no information of its own.
pub proof fn lemma_packed_unique(buf1: Seq<i64>, buf2: Seq<i64>, d: int)
    requires
        0 <= d,
        packed_wf(buf1, d),
        packed_wf(buf2, d),
        unpack_spec(buf1, d) == unpack_spec(buf2, d),
    ensures
        buf1 == buf2,
{
    lemma_padded_len_bounds(d);
    assert forall|i: int| 0 <= i < buf1.len() implies buf1[i] == buf2[i] by {
        if i < d {
            assert(buf1[i] == unpack_spec(buf1, d)[i]);
            assert(buf2[i] == unpack_spec(buf2, d)[i]);
        }
    }
    assert(buf1 =~= buf2);
}

/// Pack a `D`-element array into chunk-aligned storage: copy the `D`
/// elements, then zero-fill the remainder of the final chunk.  The
/// empty dimension packs to a single all-pad register.
pub fn pack<const D: usize>(a: &[i64; D]) -> (buf: Vec<i64>)
    requires
        padded_len(D as int) <= usize::MAX,
    ensures
        buf@ == pack_spec(a@),
{
    let w = mpow2::<D>();
    let k = crate::lanes::len::<D>();
    proof {
        lemma_padded_len_bounds(D as int);
        lemma_lane_width_bounds(D as int);
    }
    let target = k * w;
    let mut buf: Vec<i64> = Vec::new();
    let mut i: usize = 0;
    while i < D
        invariant
            i <= D,
            buf@ == a@.take(i as int),
        decreases D - i,
    {
        buf.push(a[i]);
        proof {
            assert(buf@ =~= a@.take(i + 1));
        }
        i = i + 1;
    }
    proof {
        assert(buf@ =~= a@);
    }
    while buf.len() < target
        invariant
            target == padded_len(D as int),
            D <= buf@.len() <= target,
            buf@.take(D as int) == a@,
            forall|j: int| D <= j < buf@.len() ==> buf@[j] == 0i64,
        decreases target - buf@.len(),
    {
        buf.push(0);
        proof {
            assert(buf@.take(D as int) =~= a@);
        }
    }
    proof {
        assert(buf@ =~= pack_spec(a@));
    }
    buf
}

/// Unpack the first `d` lanes of a packed buffer, discarding the pad.
pub fn unpack(buf: &Vec<i64>, d: usize) -> (out: Vec<i64>)
    requires
        d <= buf@.len(),
    ensures
        out@ == unpack_spec(buf@, d as int),
{
    let mut out: Vec<i64> = Vec::new();
    let mut i: usize = 0;
    while i < d
        invariant
            i <= d <= buf@.len(),
            out@ == buf@.take(i as int),
        decreases d - i,
    {
        out.push(buf[i]);
        proof {
            assert(out@ =~= buf@.take(i + 1));
        }
        i = i + 1;
    }
    out
}

} // verus!
