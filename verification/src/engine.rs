//! Elementwise engine.
//!
//! Applies a binary operator lane-wise, chunk by chunk, across two packed
//! buffers of the same shape.  Addition, subtraction and multiplication
//! follow the scalar type's native wraparound semantics; division
//! truncates toward zero and is only applied to lanes whose divisor is
//! nonzero (the facade pads divisor lanes with one, so pad lanes never
//! divide by zero).

use vstd::prelude::*;

verus! {

/// The four elementwise operators.
#[derive(Clone, Copy)]
pub enum BinOp {
    Add,
    Sub,
    Mul,
    Div,
}

/// Reduce `x` into the value range of `i64`, two's-complement style:
/// the unique integer congruent to `x` modulo `2^64` that lies between
/// `i64::MIN` and `i64::MAX`.
pub open spec fn wrap64(x: int) -> int {
    if x % 0x1_0000_0000_0000_0000 > i64::MAX as int {
        x % 0x1_0000_0000_0000_0000 - 0x1_0000_0000_0000_0000
    } else {
        x % 0x1_0000_0000_0000_0000
    }
}

/// Division truncating toward zero, the native semantics of `i64`
/// division.
pub open spec fn div_trunc(x: int, y: int) -> int
    recommends
        y != 0,
{
    if x == 0 {
        0
    } else if x > 0 && y > 0 {
        x / y
    } else if x < 0 && y < 0 {
        (x * -1) / (y * -1)
    } else if x < 0 {
        ((x * -1) / y) * -1
    } else {
        (x / (y * -1)) * -1
    }
}

/// What one lane of the result holds for each operator.
pub open spec fn op_spec(op: BinOp, x: i64, y: i64) -> int {
    match op {
        BinOp::Add => wrap64(x + y),
        BinOp::Sub => wrap64(x - y),
        BinOp::Mul => wrap64(x * y),
        BinOp::Div => div_trunc(x as int, y as int),
    }
}

/// A divisor lane is usable when dividing by it can neither trap nor
/// overflow: it is nonzero, and not `-1` against `i64::MIN`.
pub open spec fn div_lane_ok(x: i64, y: i64) -> bool {
    y != 0 && !(x == i64::MIN && y == -1)
}

/// `wrap64` stays within the `i64` range.
pub proof fn lemma_wrap64_range(x: int)
    ensures
        i64::MIN <= wrap64(x) <= i64::MAX,
{
    vstd::arithmetic::div_mod::lemma_mod_division_less_than_divisor(x, 0x1_0000_0000_0000_0000);
}

/// `wrap64` keeps the residue of its argument modulo `2^64`.
pub proof fn lemma_wrap64_mod(x: int)
    ensures
        wrap64(x) % 0x1_0000_0000_0000_0000 == x % 0x1_0000_0000_0000_0000,
{
    let r = 0x1_0000_0000_0000_0000int;
    vstd::arithmetic::div_mod::lemma_mod_twice(x, r);
    if x % r > i64::MAX as int {
        vstd::arithmetic::div_mod::lemma_mod_sub_multiples_vanish(x % r, r);
    }
}

/// Integers congruent modulo `2^64` wrap to the same value.
pub proof fn lemma_wrap64_congruent(x: int, y: int)
    requires
        x % 0x1_0000_0000_0000_0000 == y % 0x1_0000_0000_0000_0000,
    ensures
        wrap64(x) == wrap64(y),
{
}

/// Wrapping a summand before adding does not change the wrapped sum.
pub proof fn lemma_wrap64_add_inner(x: int, y: int)
    ensures
        wrap64(x + wrap64(y)) == wrap64(x + y),
{
    let r = 0x1_0000_0000_0000_0000int;
    lemma_wrap64_mod(y);
    vstd::arithmetic::div_mod::lemma_add_mod_noop_right(x, wrap64(y), r);
    vstd::arithmetic::div_mod::lemma_add_mod_noop_right(x, y, r);
    lemma_wrap64_congruent(x + wrap64(y), x + y);
}

/// An integer already in the `i64` range wraps to itself.
pub proof fn lemma_wrap64_identity(x: int)
    requires
        i64::MIN <= x <= i64::MAX,
    ensures
        wrap64(x) == x,
{
    let r = 0x1_0000_0000_0000_0000int;
    if x >= 0 {
        vstd::arithmetic::div_mod::lemma_small_mod(x as nat, r as nat);
    } else {
        vstd::arithmetic::div_mod::lemma_mod_add_multiples_vanish(x, r);
        vstd::arithmetic::div_mod::lemma_small_mod((x + r) as nat, r as nat);
    }
}

/// The standard library's wrapping addition computes `wrap64` of the
/// exact sum.
pub proof fn lemma_wrapping_add_matches(x: i64, y: i64)
    ensures
        vstd::wrapping::i64_specs::wrapping_add(x, y) == wrap64(x + y),
{
    let r = 0x1_0000_0000_0000_0000int;
    let s = x + y;
    if i64::MIN <= s <= i64::MAX {
        lemma_wrap64_identity(s);
    } else if s > i64::MAX {
        vstd::arithmetic::div_mod::lemma_small_mod(s as nat, r as nat);
    } else {
        vstd::arithmetic::div_mod::lemma_mod_add_multiples_vanish(s, r);
        vstd::arithmetic::div_mod::lemma_small_mod((s + r) as nat, r as nat);
    }
}

/// The standard library's wrapping subtraction computes `wrap64` of the
/// exact difference.
pub proof fn lemma_wrapping_sub_matches(x: i64, y: i64)
    ensures
        vstd::wrapping::i64_specs::wrapping_sub(x, y) == wrap64(x - y),
{
    let r = 0x1_0000_0000_0000_0000int;
    let s = x - y;
    if i64::MIN <= s <= i64::MAX {
        lemma_wrap64_identity(s);
    } else if s > i64::MAX {
        vstd::arithmetic::div_mod::lemma_small_mod(s as nat, r as nat);
    } else {
        vstd::arithmetic::div_mod::lemma_mod_add_multiples_vanish(s, r);
        vstd::arithmetic::div_mod::lemma_small_mod((s + r) as nat, r as nat);
    }
}

/// The standard library's wrapping multiplication computes `wrap64` of
/// the exact product.
pub proof fn lemma_wrapping_mul_matches(x: i64, y: i64)
    ensures
        vstd::wrapping::i64_specs::wrapping_mul(x, y) == wrap64(x * y),
{
    let r = 0x1_0000_0000_0000_0000int;
    let p = x * y;
    vstd::arithmetic::div_mod::lemma_mod_division_less_than_divisor(p, r);
}

/// Truncating division of a usable divisor lane stays in the `i64`
/// range.
pub proof fn lemma_div_trunc_range(x: i64, y: i64)
    requires
        div_lane_ok(x, y),
    ensures
        i64::MIN <= div_trunc(x as int, y as int) <= i64::MAX,
{
    let xi = x as int;
    let yi = y as int;
    if xi == 0 {
    } else if xi > 0 && yi > 0 {
        vstd::arithmetic::div_mod::lemma_div_pos_is_pos(xi, yi);
        vstd::arithmetic::div_mod::lemma_div_nonincreasing(xi, yi);
    } else if xi < 0 && yi < 0 {
        vstd::arithmetic::div_mod::lemma_div_pos_is_pos(xi * -1, yi * -1);
        if yi == -1 {
            assert(div_trunc(xi, yi) == (xi * -1) / 1);
            vstd::arithmetic::div_mod::lemma_div_nonincreasing(xi * -1, 1);
            assert(xi != i64::MIN);
        } else {
            vstd::arithmetic::div_mod::lemma_div_is_ordered(xi * -1, 0x8000_0000_0000_0000, yi * -1);
            vstd::arithmetic::div_mod::lemma_div_is_ordered_by_denominator(
                0x8000_0000_0000_0000,
                2,
                yi * -1,
            );
        }
    } else if xi < 0 {
        vstd::arithmetic::div_mod::lemma_div_pos_is_pos(xi * -1, yi);
        vstd::arithmetic::div_mod::lemma_div_nonincreasing(xi * -1, yi);
    } else {
        vstd::arithmetic::div_mod::lemma_div_pos_is_pos(xi, yi * -1);
        vstd::arithmetic::div_mod::lemma_div_nonincreasing(xi, yi * -1);
    }
}

/// Apply one operator to one lane.
fn apply_lane(op: BinOp, x: i64, y: i64) -> (r: i64)
    requires
        op is Div ==> div_lane_ok(x, y),
    ensures
        r == op_spec(op, x, y),
{
    match op {
        BinOp::Add => {
            proof {
                lemma_wrapping_add_matches(x, y);
            }
            x.wrapping_add(y)
        },
        BinOp::Sub => {
            proof {
                lemma_wrapping_sub_matches(x, y);
            }
            x.wrapping_sub(y)
        },
        BinOp::Mul => {
            proof {
                lemma_wrapping_mul_matches(x, y);
            }
            x.wrapping_mul(y)
        },
        BinOp::Div => {
            proof {
                lemma_div_trunc_range(x, y);
            }
            x.checked_div(y).unwrap()
        },
    }
}

/// Replace the pad lanes of a divisor buffer with one: dividing a zero
/// pad lane by a one pad lane neither traps nor overflows, and the pad
/// results are discarded at unpack anyway.
pub(crate) fn pad_divisor(buf: &Vec<i64>, d: usize) -> (out: Vec<i64>)
    requires
        d <= buf@.len(),
    ensures
        out@.len() == buf@.len(),
        forall|i: int| 0 <= i < d ==> out@[i] == buf@[i],
        forall|i: int| d <= i < out@.len() ==> out@[i] == 1i64,
{
    let n = buf.len();
    let mut out: Vec<i64> = Vec::new();
    let mut i: usize = 0;
    while i < n
        invariant
            i <= n,
            n == buf@.len(),
            d <= buf@.len(),
            out@.len() == i,
            forall|j: int| 0 <= j < i && j < d ==> out@[j] == buf@[j],
            forall|j: int| d <= j < i ==> out@[j] == 1i64,
        decreases n - i,
    {
        if i < d {
            out.push(buf[i]);
        } else {
            out.push(1);
        }
        i = i + 1;
    }
    out
}

/// Apply `op` lane-wise, chunk by chunk: the buffers hold `k` chunks of
/// `w` lanes each, and chunk `c` of the result is computed from chunk
/// `c` of each operand in one pass over its `w` lanes.
pub(crate) fn elementwise(op: BinOp, lhs: &Vec<i64>, rhs: &Vec<i64>, w: usize, k: usize) -> (out: Vec<
    i64,
>)
    requires
        1 <= w,
        lhs@.len() == k * w,
        rhs@.len() == k * w,
        op is Div ==> forall|i: int| 0 <= i < lhs@.len() ==> div_lane_ok(lhs@[i], rhs@[i]),
    ensures
        out@.len() == lhs@.len(),
        forall|i: int| 0 <= i < out@.len() ==> out@[i] == op_spec(op, lhs@[i], rhs@[i]),
{
    let mut out: Vec<i64> = Vec::new();
    let n = lhs.len();
    let mut c: usize = 0;
    while c < k
        invariant
            1 <= w,
            c <= k,
            n == lhs@.len(),
            lhs@.len() == k * w,
            rhs@.len() == k * w,
            op is Div ==> forall|i: int| 0 <= i < lhs@.len() ==> div_lane_ok(lhs@[i], rhs@[i]),
            out@.len() == c * w,
            forall|i: int| 0 <= i < out@.len() ==> out@[i] == op_spec(op, lhs@[i], rhs@[i]),
        decreases k - c,
    {
        proof {
            vstd::arithmetic::mul::lemma_mul_inequality(c + 1, k as int, w as int);
            vstd::arithmetic::mul::lemma_mul_is_distributive_add_other_way(w as int, c as int, 1);
        }
        let base = c * w;
        let mut l: usize = 0;
        while l < w
            invariant
                l <= w,
                base == c * w,
                base + w <= lhs@.len(),
                lhs@.len() <= usize::MAX,
                rhs@.len() == lhs@.len(),
                op is Div ==> forall|i: int| 0 <= i < lhs@.len() ==> div_lane_ok(lhs@[i], rhs@[i]),
                out@.len() == base + l,
                forall|i: int| 0 <= i < out@.len() ==> out@[i] == op_spec(op, lhs@[i], rhs@[i]),
            decreases w - l,
        {
            let idx = base + l;
            out.push(apply_lane(op, lhs[idx], rhs[idx]));
            l = l + 1;
        }
        c = c + 1;
        proof {
            vstd::arithmetic::mul::lemma_mul_is_distributive_add_other_way(w as int, c as int - 1, 1);
        }
    }
    out
}

} // verus!
