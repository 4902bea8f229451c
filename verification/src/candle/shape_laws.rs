//! What holds of the arithmetic on shapes.

use vstd::prelude::*;

verus! {

/// The numbers of elements of two shapes multiply where one is put behind the
/// other. One extent is its own number of elements, and a shape without extents has
/// one element.
pub proof fn law_counts_multiply(first: Seq<usize>, second: Seq<usize>, extent: usize)
    ensures
        super::shape::count(first + second) == super::shape::count(first) * super::shape::count(second),
        super::shape::count(seq![extent]) == extent,
        super::shape::count(Seq::empty()) == 1,
    decreases second.len(),
{
    super::shape::lemma_single_extent(extent);
    if second.len() == 0 {
        assert(first + second == first);
        super::shape::lemma_times_one(super::shape::count(second), super::shape::count(first));
    } else {
        let init = second.drop_last();
        law_counts_multiply(first, init, extent);
        assert((first + second).drop_last() == first + init);
        let (a, b, c) = (super::shape::count(first), super::shape::count(init), second.last() as nat);
        assert((a * b) * c == a * (b * c)) by (nonlinear_arith);
    }
}

/// A shape without a zero can be counted, and a tensor of it allocated, exactly
/// where its elements and their bytes are few enough: four bytes for each
/// single-precision float, eight for whatever else.
pub proof fn law_shapes_without_a_zero_are_limited_by_their_size(dims: Seq<usize>)
    requires
        forall|i: int| 0 <= i < dims.len() ==> #[trigger] dims[i] >= 1,
    ensures
        super::shape::countable(dims) <==> super::shape::count(dims) <= usize::MAX,
        super::shape::allocatable(dims, true) <==> 4 * super::shape::count(dims) <= isize::MAX,
        super::shape::allocatable(dims, false) <==> 8 * super::shape::count(dims) <= isize::MAX,
{
    if super::shape::count(dims) <= usize::MAX {
        super::shape::lemma_positive_is_countable(dims);
    }
    if super::shape::countable(dims) {
        assert(dims.take(dims.len() as int) == dims);
    }
}

/// A shape with a zero has no elements. It can be counted, and a tensor of it
/// allocated, exactly where the extents can be multiplied up from either end.
pub proof fn law_shapes_with_a_zero_are_empty(dims: Seq<usize>, zero: int, single: bool)
    requires
        0 <= zero < dims.len(),
        dims[zero] == 0,
    ensures
        super::shape::count(dims) == 0,
        super::shape::allocatable(dims, single) <==> forall|i: int|
            0 <= i <= dims.len() ==> #[trigger] super::shape::count(dims.take(i)) <= usize::MAX
                && super::shape::count(dims.skip(i)) <= usize::MAX,
        super::shape::countable(dims) <==> super::shape::allocatable(dims, single),
{
    super::shape::lemma_zero_extent(dims, zero);
    if forall|i: int|
        0 <= i <= dims.len() ==> #[trigger] super::shape::count(dims.take(i)) <= usize::MAX
            && super::shape::count(dims.skip(i)) <= usize::MAX {
        assert forall|i: int| 0 <= i <= dims.len() implies super::shape::count(#[trigger] dims.skip(i))
            <= usize::MAX by {
            assert(super::shape::count(dims.take(i)) <= usize::MAX);
        }
    }
}

/// The elements of a shape are counted exactly where they can be.
pub proof fn law_elements_are_counted(dims: &Vec<usize>, result: Option<usize>, single: bool, fits: bool)
    requires
        call_ensures(super::shape::element_count, (dims,), result),
        call_ensures(super::shape::can_allocate, (dims, single), fits),
    ensures
        result is Some <==> super::shape::countable(dims@),
        result is Some ==> result->0 == super::shape::count(dims@),
        fits <==> super::shape::allocatable(dims@, single),
{
}

/// The extent at place `j` from the back, or one where there is none.
pub open spec fn from_the_back(dims: Seq<usize>, j: int) -> usize {
    if 0 <= j < dims.len() {
        dims[dims.len() - 1 - j]
    } else {
        1
    }
}

/// `dims` is the shape that two shapes broadcast to: it has as many extents as the
/// longer one, and counted from the back each is that of both, or that of one where
/// the other has a one.
pub open spec fn broadcasts_to(left: Seq<usize>, right: Seq<usize>, dims: Seq<usize>) -> bool {
    &&& dims.len() >= left.len()
    &&& dims.len() >= right.len()
    &&& dims.len() == left.len() || dims.len() == right.len()
    &&& forall|j: int|
        0 <= j < dims.len() ==> {
            let l = from_the_back(left, j);
            let r = from_the_back(right, j);
            let d = #[trigger] from_the_back(dims, j);
            (l == d || l == 1) && (r == d || r == 1) && (d == l || d == r)
        }
}

/// Two shapes do not broadcast: at some place from the back their extents differ
/// and neither is one.
pub open spec fn clash(left: Seq<usize>, right: Seq<usize>) -> bool {
    exists|j: int|
        {
            &&& #[trigger] from_the_back(left, j) != from_the_back(right, j)
            &&& from_the_back(left, j) != 1
            &&& from_the_back(right, j) != 1
        }
}

/// Two shapes broadcast exactly where nothing clashes, from the back on.
pub proof fn law_shapes_broadcast_from_the_back(left: Seq<usize>, right: Seq<usize>)
    ensures
        match super::shape::joint(left, right) {
            Some(dims) => broadcasts_to(left, right, dims) && !clash(left, right),
            None => clash(left, right),
        },
{
    let rank = super::shape::joint_rank(left, right);
    assert forall|j: int| 0 <= j < rank implies super::shape::joint_at(left, right, rank - 1 - j)
        == super::shape::joint_extent(#[trigger] from_the_back(left, j), from_the_back(right, j)) by {}
    match super::shape::joint(left, right) {
        Some(dims) => {
            assert forall|j: int| 0 <= j < dims.len() implies {
                let l = from_the_back(left, j);
                let r = from_the_back(right, j);
                let d = #[trigger] from_the_back(dims, j);
                (l == d || l == 1) && (r == d || r == 1) && (d == l || d == r)
            } by {
                assert(super::shape::joint_at(left, right, rank - 1 - j) is Some);
                assert(from_the_back(left, j) == from_the_back(left, j));
            }
            assert forall|j: int|
                #[trigger] from_the_back(left, j) == from_the_back(right, j) || from_the_back(left, j) == 1
                    || from_the_back(right, j) == 1 by {
                if 0 <= j < rank {
                    assert(super::shape::joint_at(left, right, rank - 1 - j) is Some);
                }
            }
        },
        None => {
            let i = choose|i: int| 0 <= i < rank && !(#[trigger] super::shape::joint_at(left, right, i) is Some);
            let j = rank - 1 - i;
            assert(from_the_back(left, j) != from_the_back(right, j));
        },
    }
}

/// The shape that two shapes broadcast to is given exactly where there is one.
pub proof fn law_broadcast_shapes_are_given(left: &[usize], right: &[usize], result: Option<Vec<usize>>)
    requires
        call_ensures(super::shape::joint_dims, (left, right), result),
    ensures
        result is Some <==> !clash(left@, right@),
        result is Some ==> broadcasts_to(left@, right@, result->0@),
{
    law_shapes_broadcast_from_the_back(left@, right@);
}

/// A sum is refused only where it would be made and is too large to be allocated,
/// or has elements along more extents than two tensors are walked along.
pub proof fn law_sums_are_limited(left: &Vec<usize>, right: &Vec<usize>, fits: bool)
    requires
        call_ensures(super::shape::can_add, (left, right), fits),
    ensures
        clash(left@, right@) ==> fits,
        !clash(left@, right@) ==> exists|dims: Seq<usize>| #[trigger]
            broadcasts_to(left@, right@, dims) && (fits <==> super::shape::allocatable(dims, true) && (
            dims.len() <= 8 || super::shape::count(dims) == 0)),
{
    law_shapes_broadcast_from_the_back(left@, right@);
    if let Some(dims) = super::shape::joint(left@, right@) {
        assert(broadcasts_to(left@, right@, dims));
    }
}

/// A product is refused only where it would be made and it, or a stack as it is
/// broadcast for it, is too large to be allocated.
pub proof fn law_products_are_limited(
    left: &Vec<usize>,
    right: &Vec<usize>,
    row_major: bool,
    single: bool,
    fits: bool,
)
    requires
        call_ensures(super::shape::can_multiply, (left, right, row_major, single), fits),
    ensures
        left@.len() < 2 || right@.len() < 2 || from_the_back(left@, 0) != from_the_back(right@, 1) ==> fits,
        left@.len() >= 2 && right@.len() >= 2 && from_the_back(left@, 0) == from_the_back(right@, 1) ==> {
            let l_batch = left@.take(left@.len() - 2);
            let r_batch = right@.take(right@.len() - 2);
            let (m, k, n) = (from_the_back(left@, 1), from_the_back(left@, 0), from_the_back(right@, 0));
            &&& clash(l_batch, r_batch) ==> fits
            &&& !clash(l_batch, r_batch) ==> exists|batch: Seq<usize>| #[trigger]
                broadcasts_to(l_batch, r_batch, batch) && (fits <==> {
                    &&& super::shape::allocatable(batch + seq![m, k], true)
                    &&& super::shape::allocatable(batch + seq![m, n], true)
                    &&& right@.len() == 2 && row_major ==> super::shape::allocatable(seq![k, n], single)
                    &&& !(right@.len() == 2 && row_major) ==> super::shape::allocatable(
                        batch + seq![k, n],
                        single,
                    )
                })
        },
{
    if left@.len() >= 2 && right@.len() >= 2 {
        let l_batch = left@.take(left@.len() - 2);
        let r_batch = right@.take(right@.len() - 2);
        law_shapes_broadcast_from_the_back(l_batch, r_batch);
        if let Some(batch) = super::shape::joint(l_batch, r_batch) {
            assert(broadcasts_to(l_batch, r_batch, batch));
        }
    }
}

} // verus!
