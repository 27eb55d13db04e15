//! The tensor: a flat element buffer interpreted through a shape.
//!
//! Elements are IEEE-754 binary32 scalars carried as `u32` bit patterns
//! (see [`crate::scalar`]). The well-formedness invariant ties the buffer
//! length to the shape: a tensor with a non-empty shape holds exactly the
//! product of its dimensions, and the empty-shape tensor holds no elements.

use vstd::prelude::*;
use crate::scalar::{
    add_bits, lemma_constant_facts, lemma_relu_nonneg, lemma_relu_threshold_in_range,
    relu_threshold_value, relu_value, spec_is_nan, spec_le, spec_relu, spec_relu_threshold,
    sum_bits, ONE_BITS, SIX_BITS, ZERO_BITS,
};

verus! {

/// The one failure the tensor reports: an element count that does not match
/// a shape, at construction or between the two operands of an addition.
#[derive(Clone, Copy, Debug, PartialEq, Eq, Structural)]
pub enum TensorError {
    ShapeMismatch,
}

/// Product of a sequence of dimension extents; the empty product is 1.
pub open spec fn product(s: Seq<usize>) -> int
    decreases s.len(),
{
    if s.len() == 0 {
        1
    } else {
        product(s.drop_last()) * s.last()
    }
}

/// The element count a shape calls for: 0 for the empty shape, which denotes
/// the empty tensor, and the product of the dimensions otherwise.
pub open spec fn spec_size(shape: Seq<usize>) -> int {
    if shape.len() == 0 {
        0
    } else {
        product(shape)
    }
}

/// Every element of a shape is a `usize`, so its product is non-negative.
pub proof fn lemma_product_nonneg(s: Seq<usize>)
    ensures
        product(s) >= 0,
    decreases s.len(),
{
    if s.len() > 0 {
        lemma_product_nonneg(s.drop_last());
        assert(product(s.drop_last()) * s.last() >= 0) by (nonlinear_arith)
            requires
                product(s.drop_last()) >= 0,
                s.last() >= 0,
        ;
    }
}

/// A zero anywhere in a shape makes its product zero.
pub proof fn lemma_product_zero(s: Seq<usize>, j: int)
    requires
        0 <= j < s.len(),
        s[j] == 0,
    ensures
        product(s) == 0,
    decreases s.len(),
{
    if j < s.len() - 1 {
        lemma_product_zero(s.drop_last(), j);
        assert(product(s) == 0 * s.last());
    } else {
        assert(s.last() == 0);
        assert(product(s) == product(s.drop_last()) * 0);
    }
}

/// Extending a prefix by dimensions that are all at least one can only grow
/// the product.
pub proof fn lemma_product_prefix_le(s: Seq<usize>, k: int)
    requires
        0 <= k <= s.len(),
        forall|j: int| k <= j < s.len() ==> s[j] >= 1,
    ensures
        product(s) >= product(s.take(k)),
    decreases s.len() - k,
{
    if k < s.len() {
        lemma_product_nonneg(s.take(k));
        assert(s.take(k + 1).drop_last() =~= s.take(k));
        assert(product(s.take(k + 1)) == product(s.take(k)) * s[k]);
        assert(product(s.take(k)) * s[k] >= product(s.take(k))) by (nonlinear_arith)
            requires
                product(s.take(k)) >= 0,
                s[k] >= 1,
        ;
        lemma_product_prefix_le(s, k + 1);
    } else {
        assert(s.take(k) =~= s);
    }
}

/// The product of a shape's dimensions, or `None` when it exceeds `usize`.
fn checked_product(dims: &Vec<usize>) -> (r: Option<usize>)
    ensures
        r matches Some(n) ==> n == product(dims@),
        r is None ==> product(dims@) > usize::MAX,
{
    let n = dims.len();
    let mut j: usize = 0;
    while j < n
        invariant
            n == dims@.len(),
            j <= n,
            forall|t: int| 0 <= t < j ==> dims@[t] >= 1,
        decreases n - j,
    {
        if dims[j] == 0 {
            proof {
                lemma_product_zero(dims@, j as int);
            }
            return Some(0);
        }
        j += 1;
    }
    let mut acc: usize = 1;
    let mut i: usize = 0;
    while i < n
        invariant
            n == dims@.len(),
            i <= n,
            forall|t: int| 0 <= t < n ==> dims@[t] >= 1,
            acc == product(dims@.take(i as int)),
        decreases n - i,
    {
        let d = dims[i];
        proof {
            assert(dims@.take(i + 1).drop_last() =~= dims@.take(i as int));
            assert(product(dims@.take(i + 1)) == product(dims@.take(i as int)) * d);
        }
        match acc.checked_mul(d) {
            Some(next) => {
                acc = next;
            },
            None => {
                proof {
                    lemma_product_prefix_le(dims@, i + 1);
                }
                return None;
            },
        }
        i += 1;
    }
    proof {
        assert(dims@.take(n as int) =~= dims@);
    }
    Some(acc)
}

/// The element count a shape calls for, or `None` when it exceeds `usize`.
fn shape_size(shape: &Vec<usize>) -> (r: Option<usize>)
    ensures
        r matches Some(n) ==> n == spec_size(shape@),
        r is None ==> spec_size(shape@) > usize::MAX,
{
    if shape.len() == 0 {
        Some(0)
    } else {
        checked_product(shape)
    }
}

/// Whether two shapes are equal dimension by dimension.
fn shapes_equal(a: &Vec<usize>, b: &Vec<usize>) -> (r: bool)
    ensures
        r <==> a@ == b@,
{
    if a.len() != b.len() {
        return false;
    }
    let mut i: usize = 0;
    while i < a.len()
        invariant
            i <= a@.len(),
            a@.len() == b@.len(),
            forall|j: int| 0 <= j < i ==> a@[j] == b@[j],
        decreases a@.len() - i,
    {
        if a[i] != b[i] {
            return false;
        }
        i += 1;
    }
    proof {
        assert(a@ =~= b@);
    }
    true
}

/// A fresh buffer of `n` copies of `value`.
fn filled_buffer(n: usize, value: u32) -> (r: Vec<u32>)
    ensures
        r@ == Seq::new(n as nat, |i: int| value),
{
    let mut data: Vec<u32> = Vec::new();
    let mut i: usize = 0;
    while i < n
        invariant
            i <= n,
            data@.len() == i,
            forall|j: int| 0 <= j < i ==> data@[j] == value,
        decreases n - i,
    {
        data.push(value);
        i += 1;
    }
    proof {
        assert(data@ =~= Seq::new(n as nat, |i: int| value));
    }
    data
}

/// A copy of a shape vector.
fn copied_shape(src: &Vec<usize>) -> (r: Vec<usize>)
    ensures
        r@ == src@,
{
    let mut out: Vec<usize> = Vec::new();
    let mut i: usize = 0;
    while i < src.len()
        invariant
            i <= src@.len(),
            out@.len() == i,
            forall|j: int| 0 <= j < i ==> out@[j] == src@[j],
        decreases src@.len() - i,
    {
        out.push(src[i]);
        i += 1;
    }
    proof {
        assert(out@ =~= src@);
    }
    out
}

/// The elementwise rounded sums of two equally long buffers.
pub open spec fn elementwise_sum(a: Seq<u32>, b: Seq<u32>) -> Seq<u32> {
    Seq::new(a.len(), |i: int| add_bits(a[i], b[i]))
}

/// Whether no element of a buffer is NaN.
pub open spec fn all_not_nan(s: Seq<u32>) -> bool {
    forall|i: int| 0 <= i < s.len() ==> !spec_is_nan(#[trigger] s[i])
}

/// A dense multi-dimensional array of binary32 scalars, stored as a flat
/// buffer of bit patterns together with the shape that interprets it.
#[derive(Debug)]
pub struct Tensor {
    /// The element buffer, in row-major order.
    pub data: Vec<u32>,
    /// The dimension extents.
    pub shape: Vec<usize>,
    /// A free-form display label; no operation depends on it.
    pub name: String,
}

impl Tensor {
    /// The size invariant: the buffer holds exactly as many elements as the
    /// shape calls for.
    pub open spec fn wf(self) -> bool {
        self.data@.len() == spec_size(self.shape@)
    }

    /// A tensor over the given buffer and shape; fails with `ShapeMismatch`
    /// when the buffer length is not the element count the shape calls for.
    pub fn new(data: Vec<u32>, shape: Vec<usize>) -> (r: Result<Tensor, TensorError>)
        ensures
            r is Ok <==> data@.len() == spec_size(shape@),
            r matches Ok(t) ==> t.wf() && t.data@ == data@ && t.shape@ == shape@ && t.name@
                == "?"@,
            r matches Err(e) ==> e == TensorError::ShapeMismatch,
    {
        let len = data.len();
        match shape_size(&shape) {
            Some(n) if n == len => Ok(Tensor { data, shape, name: "?".to_owned() }),
            _ => Err(TensorError::ShapeMismatch),
        }
    }

    /// The total element count: the product of the shape's dimensions, and 0
    /// for the empty tensor.
    pub fn size(&self) -> (r: usize)
        requires
            self.wf(),
        ensures
            r == spec_size(self.shape@),
            r == self.data@.len(),
    {
        match shape_size(&self.shape) {
            Some(n) => n,
            None => {
                let len = self.data.len();
                proof {
                    assert(false);
                }
                len
            },
        }
    }

    /// A tensor of the given shape with every element set to `value`.
    pub fn x(shape: Vec<usize>, value: u32) -> (r: Tensor)
        requires
            spec_size(shape@) <= usize::MAX,
        ensures
            r.wf(),
            r.shape@ == shape@,
            r.data@ == Seq::new(spec_size(shape@) as nat, |i: int| value),
            r.name@ == "?"@,
    {
        let n = match shape_size(&shape) {
            Some(n) => n,
            None => {
                proof {
                    assert(false);
                }
                0
            },
        };
        let data = filled_buffer(n, value);
        Tensor { data, shape, name: "?".to_owned() }
    }

    /// A tensor of the given shape filled with 1.0; the same tensor that
    /// [`Tensor::x`] builds from the bit pattern of 1.0.
    pub fn ones(shape: Vec<usize>) -> (r: Tensor)
        requires
            spec_size(shape@) <= usize::MAX,
        ensures
            r.wf(),
            r.shape@ == shape@,
            r.data@ == Seq::new(spec_size(shape@) as nat, |i: int| ONE_BITS),
            r.name@ == "?"@,
    {
        Tensor::x(shape, ONE_BITS)
    }

    /// The canonical empty tensor: empty shape, empty buffer.
    pub fn empty() -> (r: Tensor)
        ensures
            r.wf(),
            r.shape@ == Seq::<usize>::empty(),
            r.data@ == Seq::<u32>::empty(),
            r.name@ == "?"@,
    {
        Tensor { data: Vec::new(), shape: Vec::new(), name: "?".to_owned() }
    }

    /// A new tensor sharing `like`'s shape, every element set to `value`,
    /// whatever `like`'s elements are.
    pub fn fill_like(like: &Tensor, value: u32) -> (r: Tensor)
        requires
            like.wf(),
        ensures
            r.wf(),
            r.shape@ == like.shape@,
            r.data@ == Seq::new(like.data@.len(), |i: int| value),
            r.name@ == "?"@,
    {
        let n = like.data.len();
        let shape = copied_shape(&like.shape);
        let data = filled_buffer(n, value);
        Tensor { data, shape, name: "?".to_owned() }
    }

    /// Elementwise addition of two tensors of identical shape, as a new
    /// tensor; fails with `ShapeMismatch` exactly when the shapes differ,
    /// and mutates neither operand. When no element of either operand is
    /// NaN, the operands can be swapped without changing the result.
    pub fn add(&self, other: &Tensor) -> (r: Result<Tensor, TensorError>)
        requires
            self.wf(),
            other.wf(),
        ensures
            r is Ok <==> self.shape@ == other.shape@,
            r matches Ok(t) ==> t.wf() && t.shape@ == self.shape@ && t.name@ == "?"@ && t.data@
                == elementwise_sum(self.data@, other.data@),
            r matches Ok(t) ==> (all_not_nan(self.data@) && all_not_nan(other.data@) ==> t.data@
                == elementwise_sum(other.data@, self.data@)),
            r matches Err(e) ==> e == TensorError::ShapeMismatch,
    {
        if !shapes_equal(&self.shape, &other.shape) {
            return Err(TensorError::ShapeMismatch);
        }
        let n = self.data.len();
        let shape = copied_shape(&self.shape);
        let mut data: Vec<u32> = Vec::new();
        let mut i: usize = 0;
        while i < n
            invariant
                n == self.data@.len(),
                n == other.data@.len(),
                i <= n,
                data@.len() == i,
                forall|j: int| 0 <= j < i ==> data@[j] == add_bits(self.data@[j], other.data@[j]),
                forall|j: int|
                    0 <= j < i && !spec_is_nan(self.data@[j]) && !spec_is_nan(other.data@[j])
                        ==> data@[j] == add_bits(other.data@[j], self.data@[j]),
            decreases n - i,
        {
            let s = sum_bits(self.data[i], other.data[i]);
            data.push(s);
            i += 1;
        }
        proof {
            assert(data@ =~= elementwise_sum(self.data@, other.data@));
            if all_not_nan(self.data@) && all_not_nan(other.data@) {
                assert(data@ =~= elementwise_sum(other.data@, self.data@));
            }
        }
        Ok(Tensor { data, shape, name: "?".to_owned() })
    }

    /// Relu in place: each element becomes `max(e, 0)`; afterwards every
    /// element is a non-NaN value at or above +0.0.
    pub fn relu(&mut self)
        requires
            old(self).wf(),
        ensures
            final(self).wf(),
            final(self).shape@ == old(self).shape@,
            final(self).name@ == old(self).name@,
            final(self).data@ == old(self).data@.map_values(|b: u32| spec_relu(b)),
            forall|i: int|
                0 <= i < final(self).data@.len() ==> spec_le(
                    ZERO_BITS,
                    #[trigger] final(self).data@[i],
                ),
    {
        let n = self.data.len();
        let mut i: usize = 0;
        while i < n
            invariant
                n == self.data@.len(),
                i <= n,
                self.shape@ == old(self).shape@,
                self.name@ == old(self).name@,
                forall|j: int| i <= j < n ==> self.data@[j] == old(self).data@[j],
                forall|j: int| 0 <= j < i ==> self.data@[j] == spec_relu(old(self).data@[j]),
            decreases n - i,
        {
            let b = self.data[i];
            self.data[i] = relu_value(b);
            i += 1;
        }
        proof {
            assert(self.data@ =~= old(self).data@.map_values(|b: u32| spec_relu(b)));
            assert forall|i: int| 0 <= i < self.data@.len() implies spec_le(
                ZERO_BITS,
                #[trigger] self.data@[i],
            ) by {
                lemma_relu_nonneg(old(self).data@[i]);
            }
        }
    }

    /// Relu followed by a clamp at `upper_threshold`, in place: each element
    /// becomes `max(e, 0)`, then `upper_threshold` when that exceeds the
    /// threshold. The threshold is not validated; a negative one clamps
    /// every element down to it.
    pub fn relu_x(&mut self, upper_threshold: u32)
        requires
            old(self).wf(),
        ensures
            final(self).wf(),
            final(self).shape@ == old(self).shape@,
            final(self).name@ == old(self).name@,
            final(self).data@ == old(self).data@.map_values(
                |b: u32| spec_relu_threshold(b, upper_threshold),
            ),
    {
        let n = self.data.len();
        let mut i: usize = 0;
        while i < n
            invariant
                n == self.data@.len(),
                i <= n,
                self.shape@ == old(self).shape@,
                self.name@ == old(self).name@,
                forall|j: int| i <= j < n ==> self.data@[j] == old(self).data@[j],
                forall|j: int|
                    0 <= j < i ==> self.data@[j] == spec_relu_threshold(
                        old(self).data@[j],
                        upper_threshold,
                    ),
            decreases n - i,
        {
            let b = self.data[i];
            self.data[i] = relu_threshold_value(b, upper_threshold);
            i += 1;
        }
        proof {
            assert(self.data@ =~= old(self).data@.map_values(
                |b: u32| spec_relu_threshold(b, upper_threshold),
            ));
        }
    }

    /// Relu clamped at 6.0, in place; afterwards every element is a non-NaN
    /// value between +0.0 and 6.0 inclusive.
    pub fn relu6(&mut self)
        requires
            old(self).wf(),
        ensures
            final(self).wf(),
            final(self).shape@ == old(self).shape@,
            final(self).name@ == old(self).name@,
            final(self).data@ == old(self).data@.map_values(
                |b: u32| spec_relu_threshold(b, SIX_BITS),
            ),
            forall|i: int|
                0 <= i < final(self).data@.len() ==> spec_le(
                    ZERO_BITS,
                    #[trigger] final(self).data@[i],
                ) && spec_le(final(self).data@[i], SIX_BITS),
    {
        self.relu_x(SIX_BITS);
        proof {
            lemma_constant_facts();
            assert forall|i: int| 0 <= i < self.data@.len() implies spec_le(
                ZERO_BITS,
                #[trigger] self.data@[i],
            ) && spec_le(self.data@[i], SIX_BITS) by {
                lemma_relu_threshold_in_range(old(self).data@[i], SIX_BITS);
            }
        }
    }
}

/// For a non-empty shape the element count is the literal product of the
/// dimensions; only the empty shape denotes the zero-size tensor.
pub proof fn lemma_size_is_product(shape: Seq<usize>)
    requires
        shape.len() > 0,
    ensures
        spec_size(shape) == product(shape),
{
}

} // verus!
