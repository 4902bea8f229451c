//! Arithmetic on the shapes of tensors: how many elements a shape has, whether
//! that can be counted in a machine word, and how two shapes broadcast.

use vstd::prelude::*;

verus! {

/// The number of elements of a tensor of shape `dims`.
pub open spec fn count(dims: Seq<usize>) -> nat
    decreases dims.len(),
{
    if dims.len() == 0 {
        1
    } else {
        count(dims.drop_last()) * dims.last() as nat
    }
}

/// The extents of `dims` can be multiplied up in a machine word, from the first
/// on and from the last on: neither the number of elements nor a stride
/// overflows, on the way either.
pub open spec fn countable(dims: Seq<usize>) -> bool {
    &&& forall|i: int| 0 <= i <= dims.len() ==> count(#[trigger] dims.take(i)) <= usize::MAX
    &&& forall|i: int| 0 <= i <= dims.len() ==> count(#[trigger] dims.skip(i)) <= usize::MAX
}

/// How many bytes an element has: four in a tensor of single-precision floats,
/// and at most eight in any other.
pub open spec fn element_width(single: bool) -> nat {
    if single {
        4
    } else {
        8
    }
}

/// A tensor of shape `dims` can be allocated, of single-precision floats or of
/// whatever else.
pub open spec fn allocatable(dims: Seq<usize>, single: bool) -> bool {
    countable(dims) && element_width(single) * count(dims) <= isize::MAX
}

/// The extent that `dims` has at place `i` when it is read as a shape of `rank`
/// extents: ones are put in front.
pub open spec fn extent(dims: Seq<usize>, rank: nat, i: int) -> usize {
    if i + dims.len() < rank {
        1
    } else {
        dims[i + dims.len() - rank]
    }
}

/// Two extents broadcast to one where they are equal or one of them is one.
pub open spec fn joint_extent(left: usize, right: usize) -> Option<usize> {
    if left == right || right == 1 {
        Some(left)
    } else if left == 1 {
        Some(right)
    } else {
        None
    }
}

/// The rank that two shapes broadcast to.
pub open spec fn joint_rank(left: Seq<usize>, right: Seq<usize>) -> nat {
    if left.len() < right.len() {
        right.len()
    } else {
        left.len()
    }
}

/// The extent that two shapes broadcast to at place `i`.
pub open spec fn joint_at(left: Seq<usize>, right: Seq<usize>, i: int) -> Option<usize> {
    let rank = joint_rank(left, right);
    joint_extent(extent(left, rank, i), extent(right, rank, i))
}

/// The shape that two shapes broadcast to.
pub open spec fn joint(left: Seq<usize>, right: Seq<usize>) -> Option<Seq<usize>> {
    let rank = joint_rank(left, right);
    if forall|i: int| 0 <= i < rank ==> #[trigger] joint_at(left, right, i) is Some {
        Some(Seq::new(rank, |i: int| joint_at(left, right, i)->0))
    } else {
        None
    }
}

/// The most extents along which two tensors with elements are walked together.
pub const MAX_SUM_RANK: usize = 8;

/// The sum of two tensors of single-precision floats can be walked and allocated,
/// if they have a sum.
pub open spec fn sum_fits(left: Seq<usize>, right: Seq<usize>) -> bool {
    match joint(left, right) {
        None => true,
        Some(dims) => allocatable(dims, true) && (dims.len() <= MAX_SUM_RANK || count(dims) == 0),
    }
}

/// The extents in front of the matrices of a product: those of the two shapes
/// in front of the last two, broadcast. There are none where the shapes have no
/// product.
pub open spec fn product_batch(left: Seq<usize>, right: Seq<usize>) -> Option<Seq<usize>> {
    if left.len() < 2 || right.len() < 2 || left[left.len() - 1] != right[right.len() - 2] {
        None
    } else {
        joint(left.take(left.len() - 2), right.take(right.len() - 2))
    }
}

/// The shape of the product of two stacks of matrices.
pub open spec fn product_dims(left: Seq<usize>, right: Seq<usize>) -> Option<Seq<usize>> {
    match product_batch(left, right) {
        None => None,
        Some(batch) => Some(batch + seq![left[left.len() - 2], right[right.len() - 1]]),
    }
}

/// The product of a stack of matrices of single-precision floats and another
/// stack, of such floats or of whatever else, can be allocated, and so can the
/// stacks as they are broadcast, if they have a product. One matrix on the right
/// is not broadcast where the left stack is stored in row-major order: the whole
/// stack is then one tall matrix.
pub open spec fn product_fits(left: Seq<usize>, right: Seq<usize>, row_major: bool, single: bool) -> bool {
    match product_batch(left, right) {
        None => true,
        Some(batch) => {
            let m = left[left.len() - 2];
            let k = left[left.len() - 1];
            let n = right[right.len() - 1];
            &&& allocatable(batch + seq![m, k], true)
            &&& allocatable(
                if right.len() == 2 && row_major {
                    seq![k, n]
                } else {
                    batch + seq![k, n]
                },
                single,
            )
            &&& allocatable(batch + seq![m, n], true)
        },
    }
}

/// The number of elements is the first extent times the number of elements of
/// the rest.
pub proof fn lemma_count_from_the_front(dims: Seq<usize>)
    requires
        dims.len() > 0,
    ensures
        count(dims) == dims[0] as nat * count(dims.skip(1)),
    decreases dims.len(),
{
    let rest = dims.skip(1);
    if dims.len() == 1 {
        assert(dims.drop_last() == Seq::<usize>::empty());
        assert(rest == Seq::<usize>::empty());
        assert(count(dims.drop_last()) == 1);
        assert(count(rest) == 1);
    } else {
        lemma_count_from_the_front(dims.drop_last());
        assert(dims.drop_last().skip(1) == rest.drop_last());
        assert(dims.last() == rest.last());
        assert(dims.drop_last()[0] == dims[0]);
        let first = dims[0] as nat;
        let middle = count(rest.drop_last());
        let last = dims.last() as nat;
        assert((first * middle) * last == first * (middle * last)) by (nonlinear_arith);
    }
}

/// Multiplying by one changes nothing.
pub proof fn lemma_times_one(one: nat, value: nat)
    by (nonlinear_arith)
    requires
        one == 1,
    ensures
        one * value == value,
        value * one == value,
{
}

/// Putting a one in front of a shape, or taking it away, changes no count.
pub proof fn lemma_leading_one(dims: Seq<usize>)
    ensures
        count(seq![1usize] + dims) == count(dims),
        countable(seq![1usize] + dims) <==> countable(dims),
{
    let longer = seq![1usize] + dims;
    assert(longer[0] == 1);
    lemma_count_from_the_front(longer);
    assert(longer.skip(1) == dims);
    lemma_times_one(longer[0] as nat, count(dims));
    assert forall|i: int| 0 <= i <= dims.len() implies count(longer.take(i + 1)) == count(
        #[trigger] dims.take(i),
    ) by {
        lemma_count_from_the_front(longer.take(i + 1));
        assert(longer.take(i + 1).skip(1) == dims.take(i));
        lemma_times_one(longer.take(i + 1)[0] as nat, count(dims.take(i)));
    }
    assert forall|i: int| 0 <= i <= dims.len() implies longer.skip(i + 1) == #[trigger] dims.skip(i) by {}
    if countable(dims) {
        assert(dims.skip(0) == dims);
        assert forall|i: int| 0 <= i <= longer.len() implies count(#[trigger] longer.take(i))
            <= usize::MAX by {
            if i > 0 {
                assert(count(dims.take(i - 1)) <= usize::MAX);
            } else {
                assert(longer.take(0) == Seq::<usize>::empty());
            }
        }
        assert forall|i: int| 0 <= i <= longer.len() implies count(#[trigger] longer.skip(i))
            <= usize::MAX by {
            if i > 0 {
                assert(longer.skip(i) == dims.skip(i - 1));
            } else {
                assert(longer.skip(0) == longer);
            }
        }
    }
    if countable(longer) {
        assert forall|i: int| 0 <= i <= dims.len() implies count(#[trigger] dims.take(i)) <= usize::MAX by {
            assert(count(longer.take(i + 1)) <= usize::MAX);
        }
        assert forall|i: int| 0 <= i <= dims.len() implies count(#[trigger] dims.skip(i)) <= usize::MAX by {
            assert(count(longer.skip(i + 1)) <= usize::MAX);
        }
    }
}

/// No count of a part is larger than the count of the whole, where no extent is
/// zero.
pub proof fn lemma_parts_count_less(dims: Seq<usize>, i: int)
    requires
        forall|j: int| 0 <= j < dims.len() ==> #[trigger] dims[j] >= 1,
        0 <= i <= dims.len(),
    ensures
        1 <= count(dims.take(i)) <= count(dims),
        1 <= count(dims.skip(i)) <= count(dims),
    decreases dims.len(),
{
    if i == 0 || i == dims.len() {
        assert(dims.take(0) == Seq::<usize>::empty());
        assert(dims.skip(dims.len() as int) == Seq::<usize>::empty());
        assert(dims.take(dims.len() as int) == dims);
        assert(dims.skip(0) == dims);
        if dims.len() > 0 {
            lemma_parts_count_less(dims.drop_last(), 0);
            assert(dims.drop_last().skip(0) == dims.drop_last());
            lemma_factor(count(dims.drop_last()), dims.last() as nat);
        }
    } else {
        let init = dims.drop_last();
        let last = dims.last() as nat;
        lemma_parts_count_less(init, i);
        assert(init.take(i) == dims.take(i));
        assert(dims.skip(i).drop_last() == init.skip(i));
        assert(dims.skip(i).last() == dims.last());
        lemma_factor(count(init), last);
        lemma_factor(count(init.skip(i)), last);
        assert(count(init.skip(i)) * last <= count(init) * last) by (nonlinear_arith)
            requires
                count(init.skip(i)) <= count(init),
        ;
    }
}

/// A factor is no larger than a product of numbers that are not zero.
pub proof fn lemma_factor(a: nat, b: nat)
    by (nonlinear_arith)
    requires
        a >= 1,
        b >= 1,
    ensures
        a <= a * b,
        b <= a * b,
{
}

/// A shape without a zero whose elements can be counted at all can be counted
/// from either end.
pub proof fn lemma_positive_is_countable(dims: Seq<usize>)
    requires
        forall|j: int| 0 <= j < dims.len() ==> #[trigger] dims[j] >= 1,
        count(dims) <= usize::MAX,
    ensures
        countable(dims),
{
    assert forall|i: int| 0 <= i <= dims.len() implies count(#[trigger] dims.take(i)) <= usize::MAX by {
        lemma_parts_count_less(dims, i);
    }
    assert forall|i: int| 0 <= i <= dims.len() implies count(#[trigger] dims.skip(i)) <= usize::MAX by {
        lemma_parts_count_less(dims, i);
    }
}

/// A shape with a zero has no elements.
pub proof fn lemma_zero_extent(dims: Seq<usize>, i: int)
    requires
        0 <= i < dims.len(),
        dims[i] == 0,
    ensures
        count(dims) == 0,
    decreases dims.len(),
{
    let init = dims.drop_last();
    if i < init.len() {
        lemma_zero_extent(init, i);
        assert(0 * dims.last() as nat == 0) by (nonlinear_arith);
    } else {
        assert(count(init) * 0nat == 0) by (nonlinear_arith);
    }
}

/// The shape of one extent has that many elements.
pub proof fn lemma_single_extent(n: usize)
    ensures
        count(seq![n]) == n,
        countable(seq![n]),
{
    let dims = seq![n];
    assert(dims.drop_last() == Seq::<usize>::empty());
    assert(count(dims.drop_last()) == 1);
    lemma_times_one(count(dims.drop_last()), n as nat);
    assert forall|i: int| 0 <= i <= dims.len() implies count(#[trigger] dims.take(i)) <= usize::MAX by {
        assert(dims.take(i) == dims || dims.take(i) == Seq::<usize>::empty());
    }
    assert forall|i: int| 0 <= i <= dims.len() implies count(#[trigger] dims.skip(i)) <= usize::MAX by {
        assert(dims.skip(i) == dims || dims.skip(i) == Seq::<usize>::empty());
    }
}

/// Counts the elements of a shape from the first extent on, if the count fits
/// into a machine word all the way.
fn count_forward(dims: &Vec<usize>) -> (result: Option<usize>)
    ensures
        match result {
            Some(n) => {
                &&& n == count(dims@)
                &&& forall|i: int| 0 <= i <= dims@.len() ==> count(#[trigger] dims@.take(i)) <= usize::MAX
            },
            None => exists|i: int| 0 <= i <= dims@.len() && count(#[trigger] dims@.take(i)) > usize::MAX,
        },
{
    let mut n: usize = 1;
    let mut i: usize = 0;
    assert(dims@.take(0) == Seq::<usize>::empty());
    while i < dims.len()
        invariant
            i <= dims.len(),
            n == count(dims@.take(i as int)),
            forall|j: int| 0 <= j <= i ==> count(#[trigger] dims@.take(j)) <= usize::MAX,
        decreases dims.len() - i,
    {
        let ghost next = dims@.take(i + 1);
        assert(next.drop_last() == dims@.take(i as int));
        assert(count(next) == n as nat * dims@[i as int] as nat);
        match n.checked_mul(dims[i]) {
            Some(product) => {
                n = product;
            },
            None => {
                assert(count(dims@.take(i + 1)) > usize::MAX);
                return None;
            },
        }
        i += 1;
    }
    assert(dims@.take(i as int) == dims@);
    Some(n)
}

/// Whether the elements of a shape can be counted from the last extent on.
fn counts_backward(dims: &Vec<usize>) -> (fits: bool)
    ensures
        fits <==> forall|i: int| 0 <= i <= dims@.len() ==> count(#[trigger] dims@.skip(i)) <= usize::MAX,
{
    let mut n: usize = 1;
    let mut i: usize = dims.len();
    assert(dims@.skip(i as int) == Seq::<usize>::empty());
    while i > 0
        invariant
            i <= dims.len(),
            n == count(dims@.skip(i as int)),
            forall|j: int| i <= j <= dims@.len() ==> count(#[trigger] dims@.skip(j)) <= usize::MAX,
        decreases i,
    {
        let ghost next = dims@.skip(i - 1);
        proof {
            lemma_count_from_the_front(next);
            assert(next.skip(1) == dims@.skip(i as int));
        }
        assert(count(next) == dims@[i - 1] as nat * n as nat);
        match dims[i - 1].checked_mul(n) {
            Some(product) => {
                n = product;
            },
            None => {
                assert(count(dims@.skip(i - 1)) > usize::MAX);
                return false;
            },
        }
        i -= 1;
    }
    true
}

/// The number of elements of a shape, if its extents can be multiplied up in a
/// machine word.
pub fn element_count(dims: &Vec<usize>) -> (result: Option<usize>)
    ensures
        match result {
            Some(n) => countable(dims@) && n == count(dims@),
            None => !countable(dims@),
        },
{
    match count_forward(dims) {
        Some(n) => {
            if counts_backward(dims) {
                Some(n)
            } else {
                None
            }
        },
        None => None,
    }
}

/// Whether a tensor of shape `dims` can be allocated.
pub fn can_allocate(dims: &Vec<usize>, single: bool) -> (fits: bool)
    ensures
        fits == allocatable(dims@, single),
{
    match element_count(dims) {
        Some(n) => if single {
            n <= isize::MAX as usize / 4
        } else {
            n <= isize::MAX as usize / 8
        },
        None => false,
    }
}

/// The extent of `dims` at place `i` of a shape of `rank` extents.
pub(crate) fn extent_at(dims: &[usize], rank: usize, i: usize) -> (value: usize)
    requires
        dims@.len() <= rank,
        i < rank,
    ensures
        value == extent(dims@, rank as nat, i as int),
{
    let missing: usize = rank - dims.len();
    if i < missing {
        1
    } else {
        dims[i - missing]
    }
}

/// The shape that two shapes broadcast to.
pub fn joint_dims(left: &[usize], right: &[usize]) -> (result: Option<Vec<usize>>)
    ensures
        match result {
            Some(dims) => joint(left@, right@) == Some(dims@),
            None => joint(left@, right@) is None,
        },
{
    let rank: usize = if left.len() < right.len() {
        right.len()
    } else {
        left.len()
    };
    let mut dims: Vec<usize> = Vec::with_capacity(rank);
    let mut i: usize = 0;
    while i < rank
        invariant
            i <= rank,
            rank == joint_rank(left@, right@),
            left@.len() <= rank,
            right@.len() <= rank,
            dims@.len() == i,
            forall|j: int| 0 <= j < i ==> #[trigger] joint_at(left@, right@, j) == Some(dims@[j]),
        decreases rank - i,
    {
        let l: usize = extent_at(left, rank, i);
        let r: usize = extent_at(right, rank, i);
        if l == r || r == 1 {
            dims.push(l);
        } else if l == 1 {
            dims.push(r);
        } else {
            assert(joint_at(left@, right@, i as int) is None);
            return None;
        }
        i += 1;
    }
    assert(dims@ == Seq::new(rank as nat, |i: int| joint_at(left@, right@, i)->0));
    Some(dims)
}

/// Whether the sum of tensors of these shapes can be walked and allocated.
pub fn can_add(left: &Vec<usize>, right: &Vec<usize>) -> (fits: bool)
    ensures
        fits == sum_fits(left@, right@),
{
    match joint_dims(left.as_slice(), right.as_slice()) {
        Some(dims) => match element_count(&dims) {
            Some(n) => n <= isize::MAX as usize / 4 && (dims.len() <= MAX_SUM_RANK || n == 0),
            None => false,
        },
        None => true,
    }
}

/// `batch` with a matrix shape behind it.
fn with_matrix(batch: &Vec<usize>, rows: usize, columns: usize) -> (dims: Vec<usize>)
    ensures
        dims@ == batch@ + seq![rows, columns],
{
    let mut dims: Vec<usize> = Vec::new();
    let mut i: usize = 0;
    while i < batch.len()
        invariant
            i <= batch.len(),
            dims@ == batch@.take(i as int),
        decreases batch.len() - i,
    {
        dims.push(batch[i]);
        i += 1;
    }
    dims.push(rows);
    dims.push(columns);
    dims
}

/// Whether the product of stacks of matrices of these shapes can be allocated.
pub fn can_multiply(left: &Vec<usize>, right: &Vec<usize>, row_major: bool, single: bool) -> (fits: bool)
    ensures
        fits == product_fits(left@, right@, row_major, single),
{
    if left.len() < 2 || right.len() < 2 {
        return true;
    }
    let m: usize = left[left.len() - 2];
    let k: usize = left[left.len() - 1];
    let n: usize = right[right.len() - 1];
    if k != right[right.len() - 2] {
        return true;
    }
    let left_batch: &[usize] = vstd::slice::slice_subrange(left.as_slice(), 0, left.len() - 2);
    let right_batch: &[usize] = vstd::slice::slice_subrange(right.as_slice(), 0, right.len() - 2);
    assert(left_batch@ == left@.take(left@.len() - 2));
    assert(right_batch@ == right@.take(right@.len() - 2));
    match joint_dims(left_batch, right_batch) {
        Some(batch) => {
            assert(Seq::<usize>::empty() + seq![k, n] == seq![k, n]);
            let spread: Vec<usize> = if right.len() == 2 && row_major {
                with_matrix(&Vec::new(), k, n)
            } else {
                with_matrix(&batch, k, n)
            };
            can_allocate(&with_matrix(&batch, m, k), true) && can_allocate(&spread, single)
                && can_allocate(&with_matrix(&batch, m, n), true)
        },
        None => true,
    }
}

} // verus!
