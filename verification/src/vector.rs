//! Vector facade.
//!
//! A `Vector<D>` owns the packed representation of its `D` elements:
//! `K(D)` chunks of `W(D)` lanes, the real elements followed by zero pad
//! lanes in the final chunk.  Construction packs, indexed access and
//! unpacking are bounds-checked against `D` (never against the padded
//! lane count), arithmetic routes through the elementwise engine, and
//! reductions route through the reduction engine.

use vstd::prelude::*;

use crate::codec::{
    lemma_pack_spec_wf, lemma_pack_unpack_roundtrip, lemma_padded_len_bounds, pack, packed_wf,
    unpack, unpack_spec,
};
use crate::engine::{
    div_lane_ok, div_trunc, elementwise, lemma_wrap64_identity, lemma_wrap64_range, op_spec,
    pad_divisor, wrap64, BinOp,
};
use crate::lanes::{lemma_lane_width_bounds, mpow2, padded_len};
use crate::ops::{Dot, Sum};
use crate::reduce::{
    fold_chunks, lemma_fold_then_reduce, lemma_seq_sum_ignores_zero_tail,
    lemma_wrapped_prods_congruent, prod_sum, reduce_register, seq_sum,
};

verus! {

/// The failure a vector operation can surface at run time: indexed
/// access at or beyond the dimension.
#[derive(Clone, Copy, Debug, PartialEq, Eq, Structural)]
pub enum VectorError {
    IndexOutOfRange,
}

/// A fixed-dimension numeric vector of `D` elements, stored packed into
/// register-width chunks with zero pad lanes in the final chunk.
#[derive(Clone)]
pub struct Vector<const D: usize> {
    data: Vec<i64>,
}

impl<const D: usize> View for Vector<D> {
    type V = Seq<i64>;

    /// The `D` logical elements: the packed lanes with the pad
    /// discarded.
    closed spec fn view(&self) -> Seq<i64> {
        unpack_spec(self.data@, D as int)
    }
}

impl<const D: usize> Vector<D> {
    /// The packed storage is well-formed: it spans exactly
    /// `K(D) * W(D)` lanes and every pad lane holds zero.
    pub closed spec fn wf(self) -> bool {
        packed_wf(self.data@, D as int)
    }

    /// A well-formed vector views as exactly `D` elements, each one a
    /// lane of the packed storage.
    pub proof fn lemma_view_len(self)
        requires
            self.wf(),
        ensures
            self@.len() == D,
    {
        lemma_padded_len_bounds(D as int);
    }

    /// Combine the packed buffers of two operands chunk by chunk.
    fn op_buffers(op: BinOp, a: &Vec<i64>, b: &Vec<i64>) -> (out: Vec<i64>)
        requires
            a@.len() == padded_len(D as int),
            b@.len() == a@.len(),
            op is Div ==> forall|i: int| 0 <= i < a@.len() ==> div_lane_ok(a@[i], b@[i]),
        ensures
            out@.len() == a@.len(),
            forall|i: int| 0 <= i < out@.len() ==> out@[i] == op_spec(op, a@[i], b@[i]),
    {
        let w = mpow2::<D>();
        let k = crate::lanes::len::<D>();
        proof {
            lemma_lane_width_bounds(D as int);
        }
        elementwise(op, a, b, w, k)
    }

    /// Pack a `D`-element array into a vector.  The dimension must
    /// leave room for the pad lanes of the final chunk within the
    /// machine's address range.
    pub fn from(a: [i64; D]) -> (v: Self)
        requires
            D + 64 <= usize::MAX,
        ensures
            v.wf(),
            v@ == a@,
    {
        proof {
            lemma_padded_len_bounds(D as int);
            lemma_lane_width_bounds(D as int);
        }
        let data = pack::<D>(&a);
        proof {
            lemma_pack_spec_wf(a@);
            lemma_pack_unpack_roundtrip(a@);
        }
        Vector { data }
    }

    /// Read the element at `i`, bounds-checked against the dimension
    /// `D` (never against the padded lane count): out-of-range access
    /// fails with `IndexOutOfRange`.
    pub fn index(&self, i: usize) -> (r: Result<i64, VectorError>)
        requires
            self.wf(),
        ensures
            i < D ==> r == Ok::<i64, VectorError>(self@[i as int]),
            i >= D ==> r == Err::<i64, VectorError>(VectorError::IndexOutOfRange),
    {
        if i < D {
            proof {
                lemma_padded_len_bounds(D as int);
            }
            Ok(self.data[i])
        } else {
            Err(VectorError::IndexOutOfRange)
        }
    }

    /// Unpack the `D` logical elements, discarding the pad lanes.
    pub fn unpack(&self) -> (out: Vec<i64>)
        requires
            self.wf(),
        ensures
            out@ == self@,
    {
        proof {
            lemma_padded_len_bounds(D as int);
        }
        unpack(&self.data, D)
    }

    /// Elementwise sum: lane `i` of the result holds
    /// `self[i] + rhs[i]`, wrapping around on overflow.
    pub fn add(self, rhs: Self) -> (out: Self)
        requires
            self.wf(),
            rhs.wf(),
        ensures
            out.wf(),
            out@.len() == D,
            forall|i: int| 0 <= i < D ==> out@[i] == wrap64(self@[i] + rhs@[i]),
    {
        let data = Self::op_buffers(BinOp::Add, &self.data, &rhs.data);
        let out = Vector { data };
        proof {
            lemma_padded_len_bounds(D as int);
            lemma_wrap64_identity(0);
        }
        out
    }

    /// Elementwise difference: lane `i` of the result holds
    /// `self[i] - rhs[i]`, wrapping around on overflow.
    pub fn sub(self, rhs: Self) -> (out: Self)
        requires
            self.wf(),
            rhs.wf(),
        ensures
            out.wf(),
            out@.len() == D,
            forall|i: int| 0 <= i < D ==> out@[i] == wrap64(self@[i] - rhs@[i]),
    {
        let data = Self::op_buffers(BinOp::Sub, &self.data, &rhs.data);
        let out = Vector { data };
        proof {
            lemma_padded_len_bounds(D as int);
            lemma_wrap64_identity(0);
        }
        out
    }

    /// Elementwise product: lane `i` of the result holds
    /// `self[i] * rhs[i]`, wrapping around on overflow.
    pub fn mul(self, rhs: Self) -> (out: Self)
        requires
            self.wf(),
            rhs.wf(),
        ensures
            out.wf(),
            out@.len() == D,
            forall|i: int| 0 <= i < D ==> out@[i] == wrap64(self@[i] * rhs@[i]),
    {
        let data = Self::op_buffers(BinOp::Mul, &self.data, &rhs.data);
        let out = Vector { data };
        proof {
            lemma_padded_len_bounds(D as int);
            lemma_wrap64_identity(0);
        }
        out
    }

    /// Elementwise quotient, truncating toward zero.  Every divisor
    /// element must be nonzero (and `i64::MIN / -1` is excluded, since
    /// its quotient has no `i64` value); the pad lanes of the divisor
    /// are replaced with one, so the pad never divides by zero.
    pub fn div(self, rhs: Self) -> (out: Self)
        requires
            self.wf(),
            rhs.wf(),
            forall|i: int| 0 <= i < D ==> div_lane_ok(self@[i], rhs@[i]),
        ensures
            out.wf(),
            out@.len() == D,
            forall|i: int| 0 <= i < D ==> out@[i] == div_trunc(self@[i] as int, rhs@[i] as int),
    {
        proof {
            lemma_padded_len_bounds(D as int);
        }
        let divisor = pad_divisor(&rhs.data, D);
        proof {
            assert forall|i: int| 0 <= i < self.data@.len() implies div_lane_ok(
                self.data@[i],
                divisor@[i],
            ) by {
                if i < D {
                    assert(divisor@[i] == rhs.data@[i]);
                    assert(div_lane_ok(self@[i], rhs@[i]));
                } else {
                    assert(self.data@[i] == 0i64);
                    assert(divisor@[i] == 1i64);
                }
            }
        }
        let data = Self::op_buffers(BinOp::Div, &self.data, &divisor);
        let out = Vector { data };
        out
    }

    /// In-place elementwise sum: replaces the receiver's packed storage
    /// with the packed sum.  Not internally synchronized: concurrent
    /// writers must serialize access themselves.
    pub fn add_assign(&mut self, rhs: Self)
        requires
            old(self).wf(),
            rhs.wf(),
        ensures
            final(self).wf(),
            final(self)@.len() == D,
            forall|i: int| 0 <= i < D ==> final(self)@[i] == wrap64(old(self)@[i] + rhs@[i]),
    {
        let data = Self::op_buffers(BinOp::Add, &self.data, &rhs.data);
        self.data = data;
        proof {
            lemma_padded_len_bounds(D as int);
            lemma_wrap64_identity(0);
        }
    }

    /// In-place elementwise difference; see `add_assign` on
    /// synchronization.
    pub fn sub_assign(&mut self, rhs: Self)
        requires
            old(self).wf(),
            rhs.wf(),
        ensures
            final(self).wf(),
            final(self)@.len() == D,
            forall|i: int| 0 <= i < D ==> final(self)@[i] == wrap64(old(self)@[i] - rhs@[i]),
    {
        let data = Self::op_buffers(BinOp::Sub, &self.data, &rhs.data);
        self.data = data;
        proof {
            lemma_padded_len_bounds(D as int);
            lemma_wrap64_identity(0);
        }
    }

    /// In-place elementwise product; see `add_assign` on
    /// synchronization.
    pub fn mul_assign(&mut self, rhs: Self)
        requires
            old(self).wf(),
            rhs.wf(),
        ensures
            final(self).wf(),
            final(self)@.len() == D,
            forall|i: int| 0 <= i < D ==> final(self)@[i] == wrap64(old(self)@[i] * rhs@[i]),
    {
        let data = Self::op_buffers(BinOp::Mul, &self.data, &rhs.data);
        self.data = data;
        proof {
            lemma_padded_len_bounds(D as int);
            lemma_wrap64_identity(0);
        }
    }

    /// In-place elementwise quotient; the divisor constraints of `div`
    /// apply, and see `add_assign` on synchronization.
    pub fn div_assign(&mut self, rhs: Self)
        requires
            old(self).wf(),
            rhs.wf(),
            forall|i: int| 0 <= i < D ==> div_lane_ok(old(self)@[i], rhs@[i]),
        ensures
            final(self).wf(),
            final(self)@.len() == D,
            forall|i: int| 0 <= i < D ==> final(self)@[i] == div_trunc(
                old(self)@[i] as int,
                rhs@[i] as int,
            ),
    {
        proof {
            lemma_padded_len_bounds(D as int);
        }
        let divisor = pad_divisor(&rhs.data, D);
        proof {
            assert forall|i: int| 0 <= i < self.data@.len() implies div_lane_ok(
                self.data@[i],
                divisor@[i],
            ) by {
                if i < D {
                    assert(divisor@[i] == rhs.data@[i]);
                    assert(div_lane_ok(old(self)@[i], rhs@[i]));
                } else {
                    assert(self.data@[i] == 0i64);
                    assert(divisor@[i] == 1i64);
                }
            }
        }
        let data = Self::op_buffers(BinOp::Div, &self.data, &divisor);
        self.data = data;
    }
}

impl<const D: usize> Default for Vector<D> {
    /// The all-zero vector: every logical element (and every pad lane)
    /// holds the additive identity.
    fn default() -> (v: Self)
        ensures
            D + 64 <= usize::MAX ==> v.wf() && v@ == Seq::new(D as nat, |i: int| 0i64),
    {
        if D <= usize::MAX - 64 {
            proof {
                lemma_padded_len_bounds(D as int);
                lemma_lane_width_bounds(D as int);
            }
            let w = mpow2::<D>();
            let k = crate::lanes::len::<D>();
            let target = k * w;
            let mut data: Vec<i64> = Vec::new();
            let mut i: usize = 0;
            while i < target
                invariant
                    i <= target,
                    data@.len() == i,
                    forall|j: int| 0 <= j < i ==> data@[j] == 0i64,
                decreases target - i,
            {
                data.push(0);
                i = i + 1;
            }
            let v = Vector { data };
            proof {
                assert(v@ =~= Seq::new(D as nat, |i: int| 0i64));
            }
            v
        } else {
            // No packed representation of this dimension fits the
            // machine's address range; nothing is promised of it.
            Vector { data: Vec::new() }
        }
    }
}

impl<const D: usize> Sum for Vector<D> {
    type Output = i64;

    /// The receiver must hold a well-formed packed representation.
    open spec fn sum_requires(&self) -> bool {
        self.wf()
    }

    /// The horizontal sum wraps the exact sum of the `D` elements.
    open spec fn sum_spec(&self) -> i64 {
        wrap64(seq_sum(self@)) as i64
    }

    /// Horizontal sum over all `D` elements.  A single chunk is reduced
    /// directly — its zero pad lanes are the additive identity — and
    /// several chunks are first folded lane-wise into one accumulator
    /// register.
    fn sum(self) -> (total: i64) {
        let w = mpow2::<D>();
        let k = crate::lanes::len::<D>();
        proof {
            lemma_lane_width_bounds(D as int);
            lemma_padded_len_bounds(D as int);
            lemma_seq_sum_ignores_zero_tail(self.data@, D as int);
            lemma_wrap64_range(seq_sum(self@));
        }
        let total = if k <= 1 {
            reduce_register(&self.data)
        } else {
            let acc = fold_chunks(&self.data, w, k);
            proof {
                lemma_fold_then_reduce(acc@, self.data@, w as int, k as int);
            }
            reduce_register(&acc)
        };
        total
    }
}

impl<const D: usize> Dot for Vector<D> {
    type Output = i64;

    /// Both operands must hold well-formed packed representations.
    open spec fn dot_requires(&self, rhs: &Self) -> bool {
        self.wf() && rhs.wf()
    }

    /// The dot product wraps the exact sum of the pairwise products.
    open spec fn dot_spec(&self, rhs: &Self) -> i64 {
        wrap64(prod_sum(self@, rhs@)) as i64
    }

    /// Dot product: the horizontal sum of the elementwise product.
    /// The pad lanes of the product are zero, so they never contribute.
    fn dot(self, rhs: Self) -> (r: i64) {
        let ghost a = self@;
        let ghost b = rhs@;
        let prods = self.mul(rhs);
        proof {
            prods.lemma_view_len();
            lemma_padded_len_bounds(D as int);
            lemma_wrapped_prods_congruent(prods@, a, b);
            crate::engine::lemma_wrap64_congruent(seq_sum(prods@), prod_sum(a, b));
            lemma_wrap64_range(prod_sum(a, b));
        }
        prods.sum()
    }
}

} // verus!
