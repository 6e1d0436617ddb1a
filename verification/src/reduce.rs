//! Reduction engine.
//!
//! Computes the horizontal sum of a packed buffer.  A single chunk is
//! reduced directly; several chunks are first folded together with a
//! lane-wise wrapping add (one register-wide accumulator), and the
//! accumulator is then reduced horizontally.  Pad lanes hold zero, the
//! additive identity, so they never disturb the total.

use vstd::prelude::*;

use crate::engine::{
    lemma_wrap64_add_inner, lemma_wrap64_identity, lemma_wrap64_mod, lemma_wrapping_add_matches,
    wrap64,
};

verus! {

/// The exact mathematical sum of a sequence of lanes.
pub open spec fn seq_sum(s: Seq<i64>) -> int
    decreases s.len(),
{
    if s.len() == 0 {
        0
    } else {
        seq_sum(s.drop_last()) + s.last()
    }
}

/// The exact sum of lane `l` across the first `c` chunks of width `w`.
pub open spec fn col_sum(buf: Seq<i64>, w: int, c: int, l: int) -> int
    decreases c,
{
    if c <= 0 {
        0
    } else {
        col_sum(buf, w, c - 1, l) + buf[(c - 1) * w + l]
    }
}

/// The sum of `col_sum` over the first `m` lanes.
pub open spec fn cols_total(buf: Seq<i64>, w: int, c: int, m: int) -> int
    decreases m,
{
    if m <= 0 {
        0
    } else {
        cols_total(buf, w, c, m - 1) + col_sum(buf, w, c, m - 1)
    }
}

/// The exact sum of the pairwise products of two equally long lane
/// sequences.
pub open spec fn prod_sum(a: Seq<i64>, b: Seq<i64>) -> int
    recommends
        a.len() == b.len(),
    decreases a.len(),
{
    if a.len() == 0 {
        0
    } else {
        prod_sum(a.drop_last(), b.drop_last()) + a.last() * b.last()
    }
}

/// Summing one more element extends the sum of a prefix.
pub proof fn lemma_seq_sum_take_succ(s: Seq<i64>, i: int)
    requires
        0 <= i < s.len(),
    ensures
        seq_sum(s.take(i + 1)) == seq_sum(s.take(i)) + s[i],
{
    assert(s.take(i + 1).drop_last() =~= s.take(i));
    assert(s.take(i + 1).last() == s[i]);
}

/// Summing a concatenation sums both parts.
pub proof fn lemma_seq_sum_concat(s: Seq<i64>, t: Seq<i64>)
    ensures
        seq_sum(s + t) == seq_sum(s) + seq_sum(t),
    decreases t.len(),
{
    if t.len() == 0 {
        assert(s + t =~= s);
    } else {
        assert((s + t).drop_last() =~= s + t.drop_last());
        lemma_seq_sum_concat(s, t.drop_last());
    }
}

/// Lanes holding zero beyond index `d` contribute nothing to the sum.
pub proof fn lemma_seq_sum_ignores_zero_tail(s: Seq<i64>, d: int)
    requires
        0 <= d <= s.len(),
        forall|j: int| d <= j < s.len() ==> s[j] == 0i64,
    ensures
        seq_sum(s) == seq_sum(s.take(d)),
    decreases s.len(),
{
    if s.len() == d {
        assert(s.take(d) =~= s);
    } else {
        assert(s.last() == 0i64);
        lemma_seq_sum_ignores_zero_tail(s.drop_last(), d);
        assert(s.drop_last().take(d) =~= s.take(d));
    }
}

/// With no chunks, every column sum over the lanes is zero.
proof fn lemma_cols_total_zero(buf: Seq<i64>, w: int, m: int)
    ensures
        cols_total(buf, w, 0, m) == 0,
    decreases m,
{
    if m > 0 {
        lemma_cols_total_zero(buf, w, m - 1);
    }
}

/// Peeling the last chunk off the first `m` column sums leaves the
/// column sums of the remaining chunks plus that chunk's own lanes.
proof fn lemma_cols_total_step(buf: Seq<i64>, w: int, c: int, m: int)
    requires
        1 <= w,
        1 <= c,
        0 <= m <= w,
        c * w <= buf.len(),
    ensures
        cols_total(buf, w, c, m) == cols_total(buf, w, c - 1, m) + seq_sum(
            buf.subrange((c - 1) * w, (c - 1) * w + m),
        ),
    decreases m,
{
    let base = (c - 1) * w;
    vstd::arithmetic::mul::lemma_mul_is_distributive_add_other_way(w, c - 1, 1);
    assert(c * w == base + w);
    vstd::arithmetic::mul::lemma_mul_nonnegative(c - 1, w);
    if m == 0 {
        assert(buf.subrange(base, base) =~= Seq::<i64>::empty());
    } else {
        lemma_cols_total_step(buf, w, c, m - 1);
        let seg = buf.subrange(base, base + m);
        assert(seg.drop_last() =~= buf.subrange(base, base + m - 1));
        assert(seg.last() == buf[base + m - 1]);
    }
}

/// Summing every lane's column sum over all `c` chunks sums the whole
/// prefix of `c * w` lanes: the grid can be totalled column-major.
pub proof fn lemma_grid_total(buf: Seq<i64>, w: int, c: int)
    requires
        1 <= w,
        0 <= c,
        c * w <= buf.len(),
    ensures
        cols_total(buf, w, c, w) == seq_sum(buf.take(c * w)),
    decreases c,
{
    if c == 0 {
        lemma_cols_total_zero(buf, w, w);
        assert(c * w == 0) by {
            vstd::arithmetic::mul::lemma_mul_by_zero_is_zero(w);
        }
        assert(buf.take(0) =~= Seq::<i64>::empty());
        assert(seq_sum(buf.take(c * w)) == 0);
    } else {
        let base = (c - 1) * w;
        vstd::arithmetic::mul::lemma_mul_is_distributive_add_other_way(w, c - 1, 1);
        assert(c * w == base + w);
        vstd::arithmetic::mul::lemma_mul_nonnegative(c - 1, w);
        lemma_grid_total(buf, w, c - 1);
        lemma_cols_total_step(buf, w, c, w);
        assert(buf.take(c * w) =~= buf.take(base) + buf.subrange(base, base + w));
        lemma_seq_sum_concat(buf.take(base), buf.subrange(base, base + w));
    }
}

/// An accumulator register whose lanes wrap the column sums reduces,
/// modulo `2^64`, to the total of the column sums.
proof fn lemma_acc_congruent(acc: Seq<i64>, buf: Seq<i64>, w: int, c: int, m: int)
    requires
        0 <= m <= acc.len(),
        forall|l: int| 0 <= l < acc.len() ==> acc[l] == wrap64(col_sum(buf, w, c, l)),
    ensures
        seq_sum(acc.take(m)) % 0x1_0000_0000_0000_0000 == cols_total(buf, w, c, m)
            % 0x1_0000_0000_0000_0000,
    decreases m,
{
    let r = 0x1_0000_0000_0000_0000int;
    if m == 0 {
    } else {
        lemma_acc_congruent(acc, buf, w, c, m - 1);
        lemma_seq_sum_take_succ(acc, m - 1);
        lemma_wrap64_mod(col_sum(buf, w, c, m - 1));
        vstd::arithmetic::div_mod::lemma_add_mod_noop(
            seq_sum(acc.take(m - 1)),
            acc[m - 1] as int,
            r,
        );
        vstd::arithmetic::div_mod::lemma_add_mod_noop(
            cols_total(buf, w, c, m - 1),
            col_sum(buf, w, c, m - 1),
            r,
        );
    }
}

/// The horizontal sum is exact whenever the mathematical sum of the
/// elements fits the scalar type: the wrapping reduction only departs
/// from the plain fold on overflow.
pub proof fn lemma_reduction_exact(s: Seq<i64>)
    requires
        i64::MIN <= seq_sum(s) <= i64::MAX,
    ensures
        wrap64(seq_sum(s)) == seq_sum(s),
{
    lemma_wrap64_identity(seq_sum(s));
}

/// A sequence of wrapped pairwise products sums, modulo `2^64`, to the
/// exact sum of the products.
pub proof fn lemma_wrapped_prods_congruent(m: Seq<i64>, a: Seq<i64>, b: Seq<i64>)
    requires
        m.len() == a.len(),
        a.len() == b.len(),
        forall|i: int| 0 <= i < m.len() ==> m[i] == wrap64(a[i] * b[i]),
    ensures
        seq_sum(m) % 0x1_0000_0000_0000_0000 == prod_sum(a, b) % 0x1_0000_0000_0000_0000,
    decreases m.len(),
{
    let r = 0x1_0000_0000_0000_0000int;
    if m.len() == 0 {
    } else {
        lemma_wrapped_prods_congruent(m.drop_last(), a.drop_last(), b.drop_last());
        lemma_wrap64_mod(a.last() * b.last());
        vstd::arithmetic::div_mod::lemma_add_mod_noop(
            seq_sum(m.drop_last()),
            m.last() as int,
            r,
        );
        vstd::arithmetic::div_mod::lemma_add_mod_noop(
            prod_sum(a.drop_last(), b.drop_last()),
            a.last() * b.last(),
            r,
        );
    }
}

/// Fold all `k` chunks of the buffer into one register-wide accumulator
/// with lane-wise wrapping adds: lane `l` of the result wraps the exact
/// sum of lane `l` across every chunk.
pub(crate) fn fold_chunks(buf: &Vec<i64>, w: usize, k: usize) -> (acc: Vec<i64>)
    requires
        1 <= w,
        buf@.len() == k * w,
    ensures
        acc@.len() == w,
        forall|l: int| 0 <= l < w ==> acc@[l] == wrap64(col_sum(buf@, w as int, k as int, l)),
{
    let n = buf.len();
    let mut acc: Vec<i64> = Vec::new();
    let mut l: usize = 0;
    while l < w
        invariant
            l <= w,
            acc@.len() == l,
            forall|j: int| 0 <= j < l ==> acc@[j] == 0i64,
        decreases w - l,
    {
        acc.push(0);
        l = l + 1;
    }
    proof {
        lemma_wrap64_identity(0);
        assert(forall|j: int| 0 <= j < w ==> acc@[j] == wrap64(col_sum(buf@, w as int, 0, j)));
    }
    let mut c: usize = 0;
    while c < k
        invariant
            1 <= w,
            c <= k,
            n == buf@.len(),
            buf@.len() == k * w,
            acc@.len() == w,
            forall|j: int| 0 <= j < w ==> acc@[j] == wrap64(col_sum(buf@, w as int, c as int, j)),
        decreases k - c,
    {
        proof {
            vstd::arithmetic::mul::lemma_mul_inequality(c + 1, k as int, w as int);
            vstd::arithmetic::mul::lemma_mul_is_distributive_add_other_way(w as int, c as int, 1);
        }
        let base = c * w;
        let mut l: usize = 0;
        while l < w
            invariant
                l <= w,
                base == c * w,
                base + w <= buf@.len(),
                buf@.len() <= usize::MAX,
                acc@.len() == w,
                forall|j: int| l <= j < w ==> acc@[j] == wrap64(
                    col_sum(buf@, w as int, c as int, j),
                ),
                forall|j: int| 0 <= j < l ==> acc@[j] == wrap64(
                    col_sum(buf@, w as int, c as int + 1, j),
                ),
            decreases w - l,
        {
            let idx = base + l;
            let lane = buf[idx];
            proof {
                let col = col_sum(buf@, w as int, c as int, l as int);
                lemma_wrapping_add_matches(acc@[l as int], lane);
                lemma_wrap64_add_inner(lane as int, col);
                assert(col_sum(buf@, w as int, c as int + 1, l as int) == col + buf@[base + l]);
            }
            let folded = acc[l].wrapping_add(lane);
            acc[l] = folded;
            l = l + 1;
        }
        c = c + 1;
    }
    acc
}

/// Horizontally reduce one register: the wrapping sum of its lanes.
pub(crate) fn reduce_register(reg: &Vec<i64>) -> (total: i64)
    ensures
        total == wrap64(seq_sum(reg@)),
{
    let n = reg.len();
    let mut total: i64 = 0;
    let mut l: usize = 0;
    proof {
        lemma_wrap64_identity(0);
        assert(reg@.take(0) =~= Seq::<i64>::empty());
    }
    while l < n
        invariant
            l <= n,
            n == reg@.len(),
            total == wrap64(seq_sum(reg@.take(l as int))),
        decreases n - l,
    {
        proof {
            lemma_seq_sum_take_succ(reg@, l as int);
            lemma_wrapping_add_matches(total, reg@[l as int]);
            lemma_wrap64_add_inner(reg@[l as int] as int, seq_sum(reg@.take(l as int)));
        }
        total = total.wrapping_add(reg[l]);
        l = l + 1;
    }
    proof {
        assert(reg@.take(n as int) =~= reg@);
    }
    total
}

/// Reducing the folded accumulator reduces the whole buffer: the
/// column-major wrapping fold agrees, modulo `2^64`, with the exact sum
/// of every lane.
pub proof fn lemma_fold_then_reduce(acc: Seq<i64>, buf: Seq<i64>, w: int, k: int)
    requires
        1 <= w,
        0 <= k,
        buf.len() == k * w,
        acc.len() == w,
        forall|l: int| 0 <= l < w ==> acc[l] == wrap64(col_sum(buf, w, k, l)),
    ensures
        wrap64(seq_sum(acc)) == wrap64(seq_sum(buf)),
{
    lemma_acc_congruent(acc, buf, w, k, w);
    assert(acc.take(w) =~= acc);
    lemma_grid_total(buf, w, k);
    assert(buf.take(k * w) =~= buf);
    lemma_wrap64_mod(seq_sum(acc));
    lemma_wrap64_mod(seq_sum(buf));
    crate::engine::lemma_wrap64_congruent(seq_sum(acc), seq_sum(buf));
}

} // verus!
