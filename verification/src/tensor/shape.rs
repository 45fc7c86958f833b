//! Shape arithmetic for row-major tensors: element counts, strides, how two
//! operands broadcast, and the dimensions of matrix products.

use vstd::prelude::*;

verus! {

/// The number of elements of a tensor of shape `s`: the product of its dimensions
/// (1 for a scalar), multiplied from the left.
pub open spec fn numel(s: Seq<usize>) -> nat
    decreases s.len(),
{
    if s.len() == 0 {
        1
    } else {
        numel(s.drop_last()) * (s.last() as nat)
    }
}

/// The product of the dimensions of `s`, multiplied from the right.
pub open spec fn suffix_product(s: Seq<usize>) -> nat
    decreases s.len(),
{
    if s.len() == 0 {
        1
    } else {
        suffix_product(s.drop_first()) * (s[0] as nat)
    }
}

/// The number of elements of a tensor of the given shape. Every partial product
/// must fit in a `usize`, as the multiplication panics otherwise.
pub fn size(shape: &[usize]) -> (r: usize)
    requires
        forall|k: int| 0 <= k <= shape.len() ==> #[trigger] numel(shape@.take(k)) <= usize::MAX,
    ensures
        r == numel(shape@),
{
    let mut p: usize = 1;
    let mut i: usize = 0;
    assert(shape@.take(0) =~= Seq::<usize>::empty());
    while i < shape.len()
        invariant
            i <= shape.len(),
            p == numel(shape@.take(i as int)),
            forall|k: int| 0 <= k <= shape.len() ==> #[trigger] numel(shape@.take(k)) <= usize::MAX,
        decreases shape.len() - i,
    {
        assert(shape@.take(i + 1).drop_last() =~= shape@.take(i as int));
        assert(numel(shape@.take(i + 1)) <= usize::MAX);
        p = p * shape[i];
        i += 1;
    }
    assert(shape@.take(shape.len() as int) =~= shape@);
    p
}

/// The number of elements of a tensor of the given shape, or `None` when a
/// partial product does not fit in a `usize` (where the multiplication would
/// overflow).
pub fn checked_size(shape: &[usize]) -> (r: Option<usize>)
    ensures
        match r {
            Some(n) => n == numel(shape@) && forall|k: int| 0 <= k <= shape.len() ==> #[trigger] numel(
                shape@.take(k),
            ) <= usize::MAX,
            None => exists|k: int| 0 <= k <= shape.len() && #[trigger] numel(shape@.take(k)) > usize::MAX,
        },
{
    let mut p: usize = 1;
    let mut i: usize = 0;
    assert(shape@.take(0) =~= Seq::<usize>::empty());
    while i < shape.len()
        invariant
            i <= shape.len(),
            p == numel(shape@.take(i as int)),
            forall|k: int| 0 <= k <= i ==> #[trigger] numel(shape@.take(k)) <= usize::MAX,
        decreases shape.len() - i,
    {
        assert(shape@.take(i + 1).drop_last() =~= shape@.take(i as int));
        match p.checked_mul(shape[i]) {
            Some(q) => {
                p = q;
            },
            None => {
                assert(numel(shape@.take(i + 1)) > usize::MAX);
                return None;
            },
        }
        i += 1;
    }
    assert(shape@.take(shape.len() as int) =~= shape@);
    Some(p)
}

/// Row-major strides: the stride of dimension `i` is the product of the
/// dimensions after it; `None` when one of these products does not fit in a
/// `usize` (where the multiplication would overflow).
pub fn compute_strides(shape: &[usize]) -> (r: Option<Vec<usize>>)
    ensures
        match r {
            Some(st) => st.len() == shape.len() && forall|i: int| 0 <= i < shape.len() ==> #[trigger] st@[i]
                == suffix_product(shape@.skip(i + 1)),
            None => exists|k: int| 1 <= k <= shape.len() && #[trigger] suffix_product(shape@.skip(k))
                > usize::MAX,
        },
{
    let n = shape.len();
    let mut strides: Vec<usize> = Vec::new();
    let mut k: usize = 0;
    while k < n
        invariant
            k <= n,
            n == shape.len(),
            strides.len() == k,
            forall|j: int| 0 <= j < k ==> #[trigger] strides@[j] == 1,
        decreases n - k,
    {
        strides.push(1);
        k += 1;
    }
    if n == 0 {
        return Some(strides);
    }
    assert(shape@.skip(n as int) =~= Seq::<usize>::empty());
    let mut i: usize = n - 1;
    while i > 0
        invariant
            0 <= i < n,
            n == shape.len(),
            strides.len() == n,
            forall|j: int| i <= j < n ==> #[trigger] strides@[j] == suffix_product(shape@.skip(j + 1)),
        decreases i,
    {
        let ghost rest = shape@.skip(i as int);
        assert(rest[0] == shape@[i as int]);
        assert(rest.drop_first() =~= shape@.skip(i + 1));
        match strides[i].checked_mul(shape[i]) {
            Some(s) => {
                strides.set(i - 1, s);
            },
            None => {
                assert(suffix_product(shape@.skip(i as int)) > usize::MAX);
                return None;
            },
        }
        i -= 1;
    }
    Some(strides)
}

/// How the elements of two operands meet in an element-wise operation.
#[derive(Debug, Clone, Copy, PartialEq, Eq, Structural)]
pub enum Broadcast {
    /// Same number of elements: element `i` with element `i`.
    Elementwise,
    /// The right operand is a single element, used with every left element.
    ScalarRight,
    /// The left operand is a single element, used with every right element.
    ScalarLeft,
    /// A matrix with a row vector of `n` elements on the right: element `i` with `i % n`.
    RowsRight(usize),
    /// A row vector of `n` elements on the left with a matrix: element `i % n` with `i`.
    RowsLeft(usize),
}

/// How operands with `a_len` and `b_len` elements and shapes `a` and `b` broadcast,
/// tried in this order; `None` when they cannot be combined.
pub open spec fn broadcast_of(a_len: nat, b_len: nat, a: Seq<usize>, b: Seq<usize>) -> Option<Broadcast> {
    if a_len == b_len {
        Some(Broadcast::Elementwise)
    } else if b_len == 1 {
        Some(Broadcast::ScalarRight)
    } else if a_len == 1 {
        Some(Broadcast::ScalarLeft)
    } else if a.len() == 2 && b.len() == 1 && a[1] == b[0] {
        Some(Broadcast::RowsRight(b[0]))
    } else if a.len() == 1 && b.len() == 2 && a[0] == b[1] {
        Some(Broadcast::RowsLeft(a[0]))
    } else {
        None
    }
}

/// Decide how two operands broadcast in an element-wise operation.
pub fn broadcast_plan(a_len: usize, b_len: usize, a_shape: &[usize], b_shape: &[usize]) -> (r: Option<
    Broadcast,
>)
    ensures
        r == broadcast_of(a_len as nat, b_len as nat, a_shape@, b_shape@),
{
    if a_len == b_len {
        Some(Broadcast::Elementwise)
    } else if b_len == 1 {
        Some(Broadcast::ScalarRight)
    } else if a_len == 1 {
        Some(Broadcast::ScalarLeft)
    } else if a_shape.len() == 2 && b_shape.len() == 1 && a_shape[1] == b_shape[0] {
        Some(Broadcast::RowsRight(b_shape[0]))
    } else if a_shape.len() == 1 && b_shape.len() == 2 && a_shape[0] == b_shape[1] {
        Some(Broadcast::RowsLeft(a_shape[0]))
    } else {
        None
    }
}

/// The shape of an element-wise result: that of the operand with more dimensions
/// (the left one when they have as many).
pub fn broadcast_shape(a_shape: &[usize], b_shape: &[usize]) -> (r: Vec<usize>)
    ensures
        r@ == if a_shape.len() >= b_shape.len() {
            a_shape@
        } else {
            b_shape@
        },
{
    if a_shape.len() >= b_shape.len() {
        copy_dims(a_shape)
    } else {
        copy_dims(b_shape)
    }
}

/// A copy of a shape.
fn copy_dims(s: &[usize]) -> (r: Vec<usize>)
    ensures
        r@ == s@,
{
    let mut r: Vec<usize> = Vec::new();
    let mut i: usize = 0;
    while i < s.len()
        invariant
            i <= s.len(),
            r@ == s@.take(i as int),
        decreases s.len() - i,
    {
        r.push(s[i]);
        i += 1;
        assert(r@ =~= s@.take(i as int));
    }
    assert(s@.take(s.len() as int) =~= s@);
    r
}

/// The dimensions of a matrix product: `m` rows of `k` entries on the left, `k`
/// rows of `n` entries on the right, and the shape of the result.
pub struct MatmulPlan {
    pub m: usize,
    pub k: usize,
    pub n: usize,
    pub shape: Vec<usize>,
}

/// The rows and columns of the left operand: a vector is one row.
pub open spec fn left_dims(a: Seq<usize>) -> (usize, usize) {
    if a.len() == 1 {
        (1, a[0])
    } else {
        (a[a.len() - 2], a[a.len() - 1])
    }
}

/// The rows and columns of the right operand: a vector is one column.
pub open spec fn right_dims(b: Seq<usize>) -> (usize, usize) {
    if b.len() == 1 {
        (b[0], 1)
    } else {
        (b[b.len() - 2], b[b.len() - 1])
    }
}

/// The shape of a matrix product: a scalar for two vectors, a vector when one
/// side is a vector, else `[m, n]`.
pub open spec fn product_shape(a: Seq<usize>, b: Seq<usize>, m: usize, n: usize) -> Seq<usize> {
    if a.len() == 1 && b.len() == 1 {
        Seq::empty()
    } else if a.len() == 1 {
        seq![n]
    } else if b.len() == 1 {
        seq![m]
    } else {
        seq![m, n]
    }
}

/// Plan the product of tensors of shapes `a` and `b` (the last two dimensions of
/// each are multiplied). `None` when either is a scalar, when the inner
/// dimensions differ, or when the result has more elements than a `usize` counts.
pub fn matmul_plan(a: &[usize], b: &[usize]) -> (r: Option<MatmulPlan>)
    ensures
        match r {
            Some(p) => {
                &&& a.len() >= 1 && b.len() >= 1
                &&& left_dims(a@).1 == right_dims(b@).0
                &&& p.m == left_dims(a@).0
                &&& p.k == left_dims(a@).1
                &&& p.n == right_dims(b@).1
                &&& p.m * p.n <= usize::MAX
                &&& p.shape@ == product_shape(a@, b@, p.m, p.n)
            },
            None => a.len() < 1 || b.len() < 1 || left_dims(a@).1 != right_dims(b@).0
                || left_dims(a@).0 * right_dims(b@).1 > usize::MAX,
        },
{
    if a.len() < 1 || b.len() < 1 {
        return None;
    }
    let (m, k1) = if a.len() == 1 {
        (1, a[0])
    } else {
        (a[a.len() - 2], a[a.len() - 1])
    };
    let (k2, n) = if b.len() == 1 {
        (b[0], 1)
    } else {
        (b[b.len() - 2], b[b.len() - 1])
    };
    if k1 != k2 {
        return None;
    }
    if m.checked_mul(n).is_none() {
        return None;
    }
    let mut shape: Vec<usize> = Vec::new();
    if a.len() == 1 && b.len() == 1 {
    } else if a.len() == 1 {
        shape.push(n);
    } else if b.len() == 1 {
        shape.push(m);
    } else {
        shape.push(m);
        shape.push(n);
    }
    assert(shape@ =~= product_shape(a@, b@, m, n));
    Some(MatmulPlan { m, k: k1, n, shape })
}

/// The rows and columns a transpose swaps: the last two dimensions, when there
/// are at least two.
pub fn transpose_dims(shape: &[usize]) -> (r: Option<(usize, usize)>)
    ensures
        match r {
            Some((m, n)) => shape.len() >= 2 && m == shape@[shape.len() - 2] && n == shape@[shape.len()
                - 1],
            None => shape.len() < 2,
        },
{
    if shape.len() < 2 {
        None
    } else {
        Some((shape[shape.len() - 2], shape[shape.len() - 1]))
    }
}

} // verus!
