//! Adding tensors of many extents along fewer: neighbouring extents are taken
//! together where both tensors are broadcast in the same way along them.

use vstd::prelude::*;

use super::shape::{element_count, joint_dims, MAX_SUM_RANK};

verus! {

/// The extents of two shapes side by side, as they broadcast.
pub open spec fn paired(left: Seq<usize>, right: Seq<usize>) -> Seq<(usize, usize)> {
    let rank = super::shape::joint_rank(left, right);
    Seq::new(
        rank,
        |i: int| (super::shape::extent(left, rank, i), super::shape::extent(right, rank, i)),
    )
}

/// The extents on the left.
pub open spec fn lefts(pairs: Seq<(usize, usize)>) -> Seq<usize> {
    pairs.map_values(|pair: (usize, usize)| pair.0)
}

/// The extents on the right.
pub open spec fn rights(pairs: Seq<(usize, usize)>) -> Seq<usize> {
    pairs.map_values(|pair: (usize, usize)| pair.1)
}

/// The extent that a pair broadcasts to.
pub open spec fn wider(pair: (usize, usize)) -> usize {
    if pair.0 == 1 {
        pair.1
    } else {
        pair.0
    }
}

/// The extents that the pairs broadcast to.
pub open spec fn wides(pairs: Seq<(usize, usize)>) -> Seq<usize> {
    pairs.map_values(|pair: (usize, usize)| wider(pair))
}

/// Along both pairs the same tensors are broadcast.
pub open spec fn alike(a: (usize, usize), b: (usize, usize)) -> bool {
    (a.0 == 1 <==> b.0 == 1) && (a.1 == 1 <==> b.1 == 1)
}

/// `pairs` with one more behind it, which is taken together with the last one
/// where they are alike, and left out where both its extents are one.
pub open spec fn fold_in(pairs: Seq<(usize, usize)>, pair: (usize, usize)) -> Seq<(usize, usize)> {
    if pair == (1usize, 1usize) {
        pairs
    } else if pairs.len() > 0 && alike(pairs.last(), pair) {
        pairs.drop_last().push(
            ((pairs.last().0 * pair.0) as usize, (pairs.last().1 * pair.1) as usize),
        )
    } else {
        pairs.push(pair)
    }
}

/// `pairs` with alike neighbours taken together.
pub open spec fn folded(pairs: Seq<(usize, usize)>) -> Seq<(usize, usize)>
    decreases pairs.len(),
{
    if pairs.len() == 0 {
        pairs
    } else {
        fold_in(folded(pairs.drop_last()), pairs.last())
    }
}

/// Tensors of these shapes have a sum with elements, which can be allocated, and
/// which can be walked once alike extents are taken together.
pub open spec fn folds(left: Seq<usize>, right: Seq<usize>) -> bool {
    match super::shape::joint(left, right) {
        None => false,
        Some(dims) => {
            &&& super::shape::allocatable(dims, true)
            &&& super::shape::count(dims) > 0
            &&& folded(paired(left, right)).len() <= MAX_SUM_RANK
        },
    }
}

/// No extent is zero, and each pair broadcasts.
pub open spec fn proper(pairs: Seq<(usize, usize)>) -> bool {
    forall|i: int| 0 <= i < pairs.len() ==> {
        &&& (#[trigger] pairs[i]).0 >= 1
        &&& pairs[i].1 >= 1
        &&& pairs[i].0 == pairs[i].1 || pairs[i].0 == 1 || pairs[i].1 == 1
    }
}

/// The last extent is a factor of the count.
proof fn lemma_count_push(dims: Seq<usize>, last: usize)
    ensures
        super::shape::count(dims.push(last)) == super::shape::count(dims) * last as nat,
{
    assert(dims.push(last).drop_last() == dims);
}

/// The counts of the three shapes that pairs stand for, with one pair more.
pub proof fn lemma_pair_counts(pairs: Seq<(usize, usize)>, pair: (usize, usize))
    ensures
        super::shape::count(lefts(pairs.push(pair))) == super::shape::count(lefts(pairs)) * pair.0 as nat,
        super::shape::count(rights(pairs.push(pair))) == super::shape::count(rights(pairs)) * pair.1 as nat,
        super::shape::count(wides(pairs.push(pair))) == super::shape::count(wides(pairs)) * wider(pair) as nat,
{
    assert(lefts(pairs.push(pair)) == lefts(pairs).push(pair.0));
    assert(rights(pairs.push(pair)) == rights(pairs).push(pair.1));
    assert(wides(pairs.push(pair)) == wides(pairs).push(wider(pair)));
    lemma_count_push(lefts(pairs), pair.0);
    lemma_count_push(rights(pairs), pair.1);
    lemma_count_push(wides(pairs), wider(pair));
}

/// Two alike pairs multiply up to one that stands for both.
pub proof fn lemma_merge(a: (usize, usize), b: (usize, usize))
    requires
        a != (1usize, 1usize),
        b != (1usize, 1usize),
        a.0 >= 1,
        a.1 >= 1,
        b.0 >= 1,
        b.1 >= 1,
        a.0 == a.1 || a.0 == 1 || a.1 == 1,
        b.0 == b.1 || b.0 == 1 || b.1 == 1,
        alike(a, b),
        wider(a) * wider(b) <= usize::MAX,
    ensures
        ({
            let merged = ((a.0 * b.0) as usize, (a.1 * b.1) as usize);
            &&& a.0 * b.0 <= usize::MAX
            &&& a.1 * b.1 <= usize::MAX
            &&& merged.0 == a.0 * b.0
            &&& merged.1 == a.1 * b.1
            &&& wider(merged) == wider(a) * wider(b)
            &&& merged != (1usize, 1usize)
            &&& merged.0 >= 1
            &&& merged.1 >= 1
            &&& merged.0 == merged.1 || merged.0 == 1 || merged.1 == 1
        }),
{
    let (l, r) = (a.0 * b.0, a.1 * b.1);
    if a.0 == 1 {
        assert(l == 1) by (nonlinear_arith)
            requires
                l == a.0 * b.0,
                a.0 == 1,
                b.0 == 1,
        ;
        assert(r > 1) by (nonlinear_arith)
            requires
                r == a.1 * b.1,
                a.1 > 1,
                b.1 > 1,
        ;
    } else if a.1 == 1 {
        assert(r == 1) by (nonlinear_arith)
            requires
                r == a.1 * b.1,
                a.1 == 1,
                b.1 == 1,
        ;
        assert(l > 1) by (nonlinear_arith)
            requires
                l == a.0 * b.0,
                a.0 > 1,
                b.0 > 1,
        ;
    } else {
        assert(a.0 == a.1 && b.0 == b.1);
        assert(l > 1) by (nonlinear_arith)
            requires
                l == a.0 * b.0,
                a.0 > 1,
                b.0 > 1,
        ;
    }
}

/// One step of folding keeps the counts of all three shapes.
pub proof fn lemma_fold_in(pairs: Seq<(usize, usize)>, pair: (usize, usize))
    requires
        proper(pairs),
        forall|i: int| 0 <= i < pairs.len() ==> #[trigger] pairs[i] != (1usize, 1usize),
        pair.0 >= 1,
        pair.1 >= 1,
        pair.0 == pair.1 || pair.0 == 1 || pair.1 == 1,
        super::shape::count(wides(pairs)) * wider(pair) <= usize::MAX,
    ensures
        ({
            let more = fold_in(pairs, pair);
            &&& proper(more)
            &&& forall|i: int| 0 <= i < more.len() ==> #[trigger] more[i] != (1usize, 1usize)
            &&& super::shape::count(lefts(more)) == super::shape::count(lefts(pairs)) * pair.0 as nat
            &&& super::shape::count(rights(more)) == super::shape::count(rights(pairs)) * pair.1 as nat
            &&& super::shape::count(wides(more)) == super::shape::count(wides(pairs)) * wider(pair) as nat
            &&& pair != (1usize, 1usize) && pairs.len() > 0 && alike(pairs.last(), pair) ==> {
                &&& pairs.last().0 * pair.0 <= usize::MAX
                &&& pairs.last().1 * pair.1 <= usize::MAX
            }
        }),
{
    let more = fold_in(pairs, pair);
    if pair == (1usize, 1usize) {
        super::shape::lemma_times_one(pair.0 as nat, super::shape::count(lefts(pairs)));
        super::shape::lemma_times_one(pair.1 as nat, super::shape::count(rights(pairs)));
        super::shape::lemma_times_one(wider(pair) as nat, super::shape::count(wides(pairs)));
    } else if pairs.len() > 0 && alike(pairs.last(), pair) {
        let init = pairs.drop_last();
        let last = pairs.last();
        assert(pairs == init.push(last));
        lemma_pair_counts(init, last);
        assert forall|i: int| 0 <= i < init.len() implies init[i] == #[trigger] pairs[i] by {}
        lemma_wides_positive(init);
        let before = super::shape::count(wides(init));
        assert((before * wider(last) as nat) * wider(pair) as nat == before * (wider(last) as nat
            * wider(pair) as nat)) by (nonlinear_arith);
        assert(wider(last) * wider(pair) >= 1) by (nonlinear_arith)
            requires
                wider(last) >= 1,
                wider(pair) >= 1,
        ;
        super::shape::lemma_factor(before, (wider(last) * wider(pair)) as nat);
        lemma_merge(last, pair);
        let merged = ((last.0 * pair.0) as usize, (last.1 * pair.1) as usize);
        lemma_pair_counts(init, merged);
        let l = super::shape::count(lefts(init));
        let r = super::shape::count(rights(init));
        assert((l * last.0 as nat) * pair.0 as nat == l * (last.0 as nat * pair.0 as nat))
            by (nonlinear_arith);
        assert((r * last.1 as nat) * pair.1 as nat == r * (last.1 as nat * pair.1 as nat))
            by (nonlinear_arith);
        assert forall|i: int| 0 <= i < more.len() implies {
            &&& (#[trigger] more[i]).0 >= 1
            &&& more[i].1 >= 1
            &&& more[i].0 == more[i].1 || more[i].0 == 1 || more[i].1 == 1
            &&& more[i] != (1usize, 1usize)
        } by {
            if i < init.len() {
                assert(more[i] == pairs[i]);
            }
        }
    } else {
        lemma_pair_counts(pairs, pair);
        assert forall|i: int| 0 <= i < more.len() implies {
            &&& (#[trigger] more[i]).0 >= 1
            &&& more[i].1 >= 1
            &&& more[i].0 == more[i].1 || more[i].0 == 1 || more[i].1 == 1
            &&& more[i] != (1usize, 1usize)
        } by {
            if i < pairs.len() {
                assert(more[i] == pairs[i]);
            }
        }
    }
}

/// Folding keeps the counts of all three shapes.
pub proof fn lemma_folded(pairs: Seq<(usize, usize)>)
    requires
        proper(pairs),
        super::shape::count(wides(pairs)) <= usize::MAX,
    ensures
        proper(folded(pairs)),
        forall|i: int| 0 <= i < folded(pairs).len() ==> #[trigger] folded(pairs)[i] != (1usize, 1usize),
        super::shape::count(lefts(folded(pairs))) == super::shape::count(lefts(pairs)),
        super::shape::count(rights(folded(pairs))) == super::shape::count(rights(pairs)),
        super::shape::count(wides(folded(pairs))) == super::shape::count(wides(pairs)),
    decreases pairs.len(),
{
    if pairs.len() > 0 {
        let init = pairs.drop_last();
        let last = pairs.last();
        assert(pairs == init.push(last));
        assert(proper(init)) by {
            assert forall|i: int| 0 <= i < init.len() implies init[i] == #[trigger] pairs[i] by {}
        }
        assert(pairs[pairs.len() - 1].0 >= 1);
        lemma_pair_counts(init, last);
        lemma_wides_positive(init);
        super::shape::lemma_factor(super::shape::count(wides(init)), wider(last) as nat);
        lemma_folded(init);
        lemma_fold_in(folded(init), last);
    }
}

/// The wider extents of proper pairs are not zero, and neither is their count.
pub proof fn lemma_wides_positive(pairs: Seq<(usize, usize)>)
    requires
        proper(pairs),
    ensures
        forall|i: int| 0 <= i < pairs.len() ==> #[trigger] wides(pairs)[i] >= 1,
        super::shape::count(wides(pairs)) >= 1,
{
    assert forall|i: int| 0 <= i < pairs.len() implies #[trigger] wides(pairs)[i] >= 1 by {
        assert(pairs[i].0 >= 1);
    }
    super::shape::lemma_parts_count_less(wides(pairs), 0);
    assert(wides(pairs).skip(0) == wides(pairs));
}

/// Ones in front of a shape change no count.
proof fn lemma_leading_ones(ones: Seq<usize>, dims: Seq<usize>)
    requires
        forall|i: int| 0 <= i < ones.len() ==> #[trigger] ones[i] == 1,
    ensures
        super::shape::count(ones + dims) == super::shape::count(dims),
    decreases ones.len(),
{
    if ones.len() == 0 {
        assert(ones + dims == dims);
    } else {
        let rest = ones.skip(1);
        assert forall|i: int| 0 <= i < rest.len() implies #[trigger] rest[i] == 1 by {
            assert(ones[i + 1] == 1);
        }
        lemma_leading_ones(rest, dims);
        assert(ones[0] == 1);
        assert(ones + dims == seq![1usize] + (rest + dims));
        super::shape::lemma_leading_one(rest + dims);
    }
}

/// What the pairs of two shapes stand for: those shapes, with ones in front, and
/// the shape that they broadcast to.
pub proof fn lemma_paired(left: Seq<usize>, right: Seq<usize>)
    requires
        super::shape::joint(left, right) is Some,
    ensures
        super::shape::count(lefts(paired(left, right))) == super::shape::count(left),
        super::shape::count(rights(paired(left, right))) == super::shape::count(right),
        wides(paired(left, right)) == super::shape::joint(left, right)->0,
        super::shape::count(super::shape::joint(left, right)->0) > 0 ==> proper(paired(left, right)),
{
    let rank = super::shape::joint_rank(left, right);
    let pairs = paired(left, right);
    let dims = super::shape::joint(left, right)->0;
    let before_left = Seq::new((rank - left.len()) as nat, |i: int| 1usize);
    let before_right = Seq::new((rank - right.len()) as nat, |i: int| 1usize);
    assert(lefts(pairs) =~= before_left + left);
    assert(rights(pairs) =~= before_right + right);
    lemma_leading_ones(before_left, left);
    lemma_leading_ones(before_right, right);
    assert forall|i: int| 0 <= i < rank implies #[trigger] wides(pairs)[i] == dims[i] by {
        assert(super::shape::joint_at(left, right, i) is Some);
    }
    assert(wides(pairs) =~= dims);
    if super::shape::count(dims) > 0 {
        assert forall|i: int| 0 <= i < pairs.len() implies {
            &&& (#[trigger] pairs[i]).0 >= 1
            &&& pairs[i].1 >= 1
            &&& pairs[i].0 == pairs[i].1 || pairs[i].0 == 1 || pairs[i].1 == 1
        } by {
            assert(super::shape::joint_at(left, right, i) is Some);
            assert(dims[i] == wider(pairs[i]));
            if dims[i] == 0 {
                super::shape::lemma_zero_extent(dims, i);
            }
            if pairs[i].0 == 0 || pairs[i].1 == 0 {
                assert(dims[i] == 0);
            }
        }
    }
}

/// What is known of two shapes that fold: what they fold to has the same numbers
/// of elements, broadcasts, and can be added.
pub proof fn lemma_folds(left: Seq<usize>, right: Seq<usize>)
    requires
        folds(left, right),
    ensures
        ({
            let pairs = folded(paired(left, right));
            &&& super::shape::count(lefts(pairs)) == super::shape::count(left)
            &&& super::shape::count(rights(pairs)) == super::shape::count(right)
            &&& super::shape::countable(right)
            &&& super::shape::countable(lefts(pairs))
            &&& super::shape::countable(rights(pairs))
            &&& super::shape::joint(lefts(pairs), rights(pairs)) == Some(wides(pairs))
            &&& super::shape::sum_fits(lefts(pairs), rights(pairs))
            &&& super::shape::count(wides(pairs)) == super::shape::count(
                super::shape::joint(left, right)->0,
            )
        }),
{
    let whole = paired(left, right);
    let pairs = folded(whole);
    lemma_paired(left, right);
    lemma_folded(whole);
    lemma_wides_positive(pairs);
    lemma_narrow(pairs);
    super::shape::lemma_positive_is_countable(wides(pairs));
    super::shape::lemma_positive_is_countable(lefts(pairs));
    super::shape::lemma_positive_is_countable(rights(pairs));
    let rank = super::shape::joint_rank(left, right);
    assert forall|j: int| 0 <= j < right.len() implies #[trigger] right[j] >= 1 by {
        assert(whole[j + rank - right.len()].1 >= 1);
    }
    super::shape::lemma_positive_is_countable(right);
    assert forall|i: int| 0 <= i < pairs.len() implies #[trigger] super::shape::joint_at(
        lefts(pairs),
        rights(pairs),
        i,
    ) == Some(wides(pairs)[i]) by {
        assert(pairs[i].0 >= 1);
    }
    assert(super::shape::joint(lefts(pairs), rights(pairs))->0 =~= wides(pairs));
}

/// Neither side of proper pairs has more elements than the shape that they
/// broadcast to.
proof fn lemma_narrow(pairs: Seq<(usize, usize)>)
    requires
        proper(pairs),
    ensures
        forall|i: int| 0 <= i < pairs.len() ==> #[trigger] lefts(pairs)[i] >= 1,
        forall|i: int| 0 <= i < pairs.len() ==> #[trigger] rights(pairs)[i] >= 1,
        super::shape::count(lefts(pairs)) <= super::shape::count(wides(pairs)),
        super::shape::count(rights(pairs)) <= super::shape::count(wides(pairs)),
    decreases pairs.len(),
{
    assert forall|i: int| 0 <= i < pairs.len() implies #[trigger] lefts(pairs)[i] >= 1 by {
        assert(pairs[i].0 >= 1);
    }
    assert forall|i: int| 0 <= i < pairs.len() implies #[trigger] rights(pairs)[i] >= 1 by {
        assert(pairs[i].1 >= 1);
    }
    if pairs.len() > 0 {
        let init = pairs.drop_last();
        let last = pairs.last();
        assert(proper(init)) by {
            assert forall|i: int| 0 <= i < init.len() implies init[i] == #[trigger] pairs[i] by {}
        }
        assert(pairs[pairs.len() - 1].0 >= 1);
        lemma_narrow(init);
        assert(pairs == init.push(last));
        lemma_pair_counts(init, last);
        let (l, r, w) = (
            super::shape::count(lefts(init)),
            super::shape::count(rights(init)),
            super::shape::count(wides(init)),
        );
        assert(l * last.0 as nat <= w * wider(last) as nat) by (nonlinear_arith)
            requires
                l <= w,
                last.0 <= wider(last),
        ;
        assert(r * last.1 as nat <= w * wider(last) as nat) by (nonlinear_arith)
            requires
                r <= w,
                last.1 <= wider(last),
        ;
    }
}

/// Extents along which the right side is broadcast fold to one at most.
proof fn lemma_broadcast_folds(pairs: Seq<(usize, usize)>)
    requires
        proper(pairs),
        super::shape::count(wides(pairs)) <= usize::MAX,
        forall|i: int| 0 <= i < pairs.len() ==> (#[trigger] pairs[i]).1 == 1,
    ensures
        folded(pairs).len() <= 1,
        folded(pairs).len() == 1 ==> folded(pairs)[0].1 == 1,
    decreases pairs.len(),
{
    if pairs.len() > 0 {
        let init = pairs.drop_last();
        let last = pairs.last();
        assert(pairs == init.push(last));
        assert forall|i: int| 0 <= i < init.len() implies init[i] == #[trigger] pairs[i] by {}
        assert(proper(init));
        assert(pairs[pairs.len() - 1].0 >= 1);
        lemma_pair_counts(init, last);
        lemma_wides_positive(init);
        super::shape::lemma_factor(super::shape::count(wides(init)), wider(last) as nat);
        lemma_broadcast_folds(init);
        lemma_folded(init);
        if folded(init).len() == 1 {
            assert(folded(init)[0] != (1usize, 1usize));
        }
    }
}

/// A shape and its last extent fold to two extents at most.
pub proof fn lemma_last_extent_folds(front: Seq<usize>, last: usize)
    requires
        super::shape::allocatable(front.push(last), true),
        super::shape::count(front.push(last)) > 0,
    ensures
        folds(front.push(last), seq![last]),
{
    let left = front.push(last);
    let right = seq![last];
    lemma_joint_with_last_extent(front, last);
    lemma_paired(left, right);
    let pairs = paired(left, right);
    let init = pairs.drop_last();
    assert(pairs == init.push(pairs.last()));
    assert forall|i: int| 0 <= i < init.len() implies init[i] == #[trigger] pairs[i] by {}
    assert(proper(init));
    assert(pairs[pairs.len() - 1].0 >= 1);
    lemma_pair_counts(init, pairs.last());
    lemma_wides_positive(init);
    super::shape::lemma_factor(super::shape::count(wides(init)), wider(pairs.last()) as nat);
    lemma_broadcast_folds(init);
}

/// A shape and its last extent broadcast to that shape.
pub proof fn lemma_joint_with_last_extent(front: Seq<usize>, last: usize)
    ensures
        super::shape::joint(front.push(last), seq![last]) == Some(front.push(last)),
{
    let left = front.push(last);
    let right = seq![last];
    assert forall|i: int| 0 <= i < left.len() implies #[trigger] super::shape::joint_at(left, right, i)
        == Some(left[i]) by {}
    assert(super::shape::joint(left, right)->0 =~= left);
}

/// The shapes that two shapes fold to, and the one that they broadcast to.
#[derive(Debug)]
pub struct Folding {
    pub left: Vec<usize>,
    pub right: Vec<usize>,
    pub sum: Vec<usize>,
}

impl Folding {
    /// These are the shapes that `left` and `right` fold and broadcast to.
    pub open spec fn fits(self, left: Seq<usize>, right: Seq<usize>) -> bool {
        &&& folds(left, right)
        &&& self.left@ == lefts(folded(paired(left, right)))
        &&& self.right@ == rights(folded(paired(left, right)))
        &&& Some(self.sum@) == super::shape::joint(left, right)
    }
}

/// Takes alike extents of two shapes together, one pair after the other.
fn fold_all(left: &Vec<usize>, right: &Vec<usize>) -> (result: (Vec<usize>, Vec<usize>))
    requires
        super::shape::joint(left@, right@) is Some,
        0 < super::shape::count(super::shape::joint(left@, right@)->0) <= usize::MAX,
    ensures
        result.0@ == lefts(folded(paired(left@, right@))),
        result.1@ == rights(folded(paired(left@, right@))),
{
    let rank: usize = if left.len() < right.len() {
        right.len()
    } else {
        left.len()
    };
    let ghost pairs = paired(left@, right@);
    proof {
        lemma_paired(left@, right@);
        lemma_wides_positive(pairs);
    }
    let mut l_dims: Vec<usize> = Vec::new();
    let mut r_dims: Vec<usize> = Vec::new();
    let mut i: usize = 0;
    assert(pairs.take(0) == Seq::<(usize, usize)>::empty());
    while i < rank
        invariant
            i <= rank,
            rank == super::shape::joint_rank(left@, right@),
            left@.len() <= rank,
            right@.len() <= rank,
            pairs == paired(left@, right@),
            proper(pairs),
            super::shape::count(wides(pairs)) <= usize::MAX,
            forall|j: int| 0 <= j < pairs.len() ==> #[trigger] wides(pairs)[j] >= 1,
            l_dims@ == lefts(folded(pairs.take(i as int))),
            r_dims@ == rights(folded(pairs.take(i as int))),
        decreases rank - i,
    {
        let l: usize = super::shape::extent_at(left.as_slice(), rank, i);
        let r: usize = super::shape::extent_at(right.as_slice(), rank, i);
        let ghost seen = pairs.take(i as int);
        let ghost so_far = folded(seen);
        let ghost next = pairs.take(i + 1);
        proof {
            assert(pairs[i as int] == (l, r));
            assert(next.drop_last() == seen);
            assert(next.last() == (l, r));
            assert(next == seen.push((l, r)));
            assert(proper(seen)) by {
                assert forall|j: int| 0 <= j < seen.len() implies seen[j] == #[trigger] pairs[j] by {}
            }
            assert(wides(pairs).take(i + 1) == wides(next));
            assert(wides(pairs).take(i as int) == wides(seen));
            super::shape::lemma_parts_count_less(wides(pairs), i + 1);
            super::shape::lemma_parts_count_less(wides(pairs), i as int);
            lemma_folded(seen);
            lemma_pair_counts(seen, (l, r));
            lemma_fold_in(so_far, (l, r));
        }
        if l != 1 || r != 1 {
            let n: usize = l_dims.len();
            assert(so_far.len() == n && r_dims@.len() == n);
            let merge: bool = n > 0 && (l_dims[n - 1] == 1) == (l == 1) && (r_dims[n - 1] == 1) == (r == 1);
            if merge {
                assert(alike(so_far.last(), (l, r)));
                let l_last: usize = l_dims[n - 1] * l;
                let r_last: usize = r_dims[n - 1] * r;
                l_dims.set(n - 1, l_last);
                r_dims.set(n - 1, r_last);
            } else {
                l_dims.push(l);
                r_dims.push(r);
            }
        }
        assert(l_dims@ =~= lefts(folded(next)));
        assert(r_dims@ =~= rights(folded(next)));
        i += 1;
    }
    assert(pairs.take(rank as int) == pairs);
    (l_dims, r_dims)
}

/// How tensors of these shapes can be added along fewer extents, if they can.
pub fn folding(left: &Vec<usize>, right: &Vec<usize>) -> (result: Option<Folding>)
    ensures
        match result {
            Some(folding) => folding.fits(left@, right@),
            None => !folds(left@, right@),
        },
{
    let sum: Vec<usize> = match joint_dims(left.as_slice(), right.as_slice()) {
        Some(sum) => sum,
        None => return None,
    };
    match element_count(&sum) {
        Some(n) => {
            if n == 0 || n > isize::MAX as usize / 4 {
                return None;
            }
        },
        None => return None,
    }
    let (l_dims, r_dims) = fold_all(left, right);
    if l_dims.len() > MAX_SUM_RANK {
        return None;
    }
    Some(Folding { left: l_dims, right: r_dims, sum })
}

} // verus!
