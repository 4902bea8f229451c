//! What folding two shapes is for: along the extents that are taken together, both
//! tensors are walked as if along one, and no other way makes do with fewer.

use vstd::prelude::*;

use super::fold::Folding;

verus! {

/// `dims` with ones in front, so that there are `rank` extents.
pub open spec fn padded(dims: Seq<usize>, rank: nat) -> Seq<usize> {
    Seq::new((rank - dims.len()) as nat, |i: int| 1usize) + dims
}

/// Along these extents, of two shapes side by side, both tensors can be walked as if
/// along one: one of the two is broadcast along all of them, or neither along any.
pub open spec fn walked_as_one(left: Seq<usize>, right: Seq<usize>) -> bool {
    ||| forall|i: int| 0 <= i < left.len() ==> #[trigger] left[i] == 1
    ||| forall|i: int| 0 <= i < right.len() ==> #[trigger] right[i] == 1
    ||| left == right
}

/// `l` and `r` have one extent for each run of extents of `left` and `right` along
/// which both tensors can be walked as if along one: the number of elements along
/// it. Without a run, every extent is one.
pub open spec fn made_of_runs(left: Seq<usize>, right: Seq<usize>, l: Seq<usize>, r: Seq<usize>) -> bool
    decreases l.len(),
{
    if l.len() == 0 {
        &&& r.len() == 0
        &&& forall|i: int| 0 <= i < left.len() ==> #[trigger] left[i] == 1
        &&& forall|i: int| 0 <= i < right.len() ==> #[trigger] right[i] == 1
    } else {
        &&& r.len() == l.len()
        &&& exists|from: int| #[trigger]
            last_run_from(left, right, l.last(), r.last(), from) && made_of_runs(
                left.take(from),
                right.take(from),
                l.drop_last(),
                r.drop_last(),
            )
    }
}

/// The extents from place `from` on are a run with `l` and `r` elements along it.
pub open spec fn last_run_from(left: Seq<usize>, right: Seq<usize>, l: usize, r: usize, from: int) -> bool {
    &&& 0 <= from < left.len()
    &&& left.len() == right.len()
    &&& walked_as_one(left.skip(from), right.skip(from))
    &&& l == super::shape::count(left.skip(from))
    &&& r == super::shape::count(right.skip(from))
}

/// A product of extents that are not zero is one exactly where all of them are.
proof fn lemma_all_ones(dims: Seq<usize>)
    requires
        forall|i: int| 0 <= i < dims.len() ==> #[trigger] dims[i] >= 1,
    ensures
        super::shape::count(dims) == 1 <==> forall|i: int| 0 <= i < dims.len() ==> #[trigger] dims[i] == 1,
        super::shape::count(dims) >= 1,
    decreases dims.len(),
{
    if dims.len() > 0 {
        let init = dims.drop_last();
        let last = dims.last() as nat;
        assert forall|i: int| 0 <= i < init.len() implies #[trigger] init[i] == dims[i] by {}
        lemma_all_ones(init);
        assert(dims[dims.len() - 1] >= 1);
        super::shape::lemma_factor(super::shape::count(init), last);
        if super::shape::count(init) == 1 {
            super::shape::lemma_times_one(super::shape::count(init), last);
        }
        if super::shape::count(dims) == 1 {
            assert forall|i: int| 0 <= i < dims.len() implies #[trigger] dims[i] == 1 by {
                if i < init.len() {
                    assert(init[i] == 1);
                }
            }
        }
    }
}

/// What is known of the front of proper pairs, and of the last of them.
proof fn lemma_front(pairs: Seq<(usize, usize)>)
    requires
        pairs.len() > 0,
        super::fold::proper(pairs),
        super::shape::count(super::fold::wides(pairs)) <= usize::MAX,
    ensures
        ({
            let init = pairs.drop_last();
            let pair = pairs.last();
            &&& pairs == init.push(pair)
            &&& super::fold::proper(init)
            &&& super::shape::count(super::fold::wides(init)) <= usize::MAX
            &&& super::shape::count(super::fold::wides(init)) * super::fold::wider(pair) <= usize::MAX
            &&& pair.0 >= 1
            &&& pair.1 >= 1
            &&& pair.0 == pair.1 || pair.0 == 1 || pair.1 == 1
            &&& super::fold::lefts(pairs) == super::fold::lefts(init).push(pair.0)
            &&& super::fold::rights(pairs) == super::fold::rights(init).push(pair.1)
        }),
{
    let init = pairs.drop_last();
    let pair = pairs.last();
    assert(pairs == init.push(pair));
    assert forall|i: int| 0 <= i < init.len() implies init[i] == #[trigger] pairs[i] by {}
    assert(super::fold::proper(init));
    assert(pairs[pairs.len() - 1].0 >= 1);
    super::fold::lemma_pair_counts(init, pair);
    super::fold::lemma_wides_positive(init);
    super::shape::lemma_factor(
        super::shape::count(super::fold::wides(init)),
        super::fold::wider(pair) as nat,
    );
    assert(super::fold::lefts(pairs) =~= super::fold::lefts(init).push(pair.0));
    assert(super::fold::rights(pairs) =~= super::fold::rights(init).push(pair.1));
}

/// A run with one more pair behind it, which is alike with it or all ones, is a run.
proof fn lemma_longer_run(left: Seq<usize>, right: Seq<usize>, l: usize, r: usize, pair: (usize, usize))
    requires
        left.len() == right.len(),
        left.len() > 0,
        forall|i: int| 0 <= i < left.len() ==> #[trigger] left[i] >= 1,
        forall|i: int| 0 <= i < right.len() ==> #[trigger] right[i] >= 1,
        walked_as_one(left, right),
        l == super::shape::count(left),
        r == super::shape::count(right),
        pair.0 == pair.1 || pair.0 == 1 || pair.1 == 1,
        pair == (1usize, 1usize) || super::fold::alike((l, r), pair),
    ensures
        walked_as_one(left.push(pair.0), right.push(pair.1)),
        super::shape::count(left.push(pair.0)) == l * pair.0,
        super::shape::count(right.push(pair.1)) == r * pair.1,
{
    lemma_all_ones(left);
    lemma_all_ones(right);
    let longer_left = left.push(pair.0);
    let longer_right = right.push(pair.1);
    assert(longer_left.drop_last() == left);
    assert(longer_right.drop_last() == right);
    if pair == (1usize, 1usize) {
        if left == right {
            assert(longer_left == longer_right);
        }
    } else if l == 1 {
        assert forall|i: int| 0 <= i < longer_left.len() implies #[trigger] longer_left[i] == 1 by {
            if i < left.len() {
                assert(left[i] == 1);
            }
        }
    } else if r == 1 {
        assert forall|i: int| 0 <= i < longer_right.len() implies #[trigger] longer_right[i] == 1 by {
            if i < right.len() {
                assert(right[i] == 1);
            }
        }
    } else {
        assert(left == right);
        assert(longer_left == longer_right);
    }
}

/// What folding makes of proper pairs is made of runs.
proof fn lemma_folded_is_made_of_runs(pairs: Seq<(usize, usize)>)
    requires
        super::fold::proper(pairs),
        super::shape::count(super::fold::wides(pairs)) <= usize::MAX,
    ensures
        made_of_runs(
            super::fold::lefts(pairs),
            super::fold::rights(pairs),
            super::fold::lefts(super::fold::folded(pairs)),
            super::fold::rights(super::fold::folded(pairs)),
        ),
    decreases pairs.len(),
{
    if pairs.len() > 0 {
        let init = pairs.drop_last();
        let pair = pairs.last();
        let n = init.len() as int;
        lemma_front(pairs);
        lemma_folded_is_made_of_runs(init);
        super::fold::lemma_folded(init);
        super::fold::lemma_fold_in(super::fold::folded(init), pair);
        let before = super::fold::folded(init);
        let after = super::fold::folded(pairs);
        let left = super::fold::lefts(pairs);
        let right = super::fold::rights(pairs);
        let short_left = super::fold::lefts(init);
        let short_right = super::fold::rights(init);
        let (l, r) = (super::fold::lefts(after), super::fold::rights(after));
        let (bl, br) = (super::fold::lefts(before), super::fold::rights(before));
        assert forall|i: int| 0 <= i < left.len() implies #[trigger] left[i] >= 1 by {
            assert(pairs[i].0 >= 1);
        }
        assert forall|i: int| 0 <= i < right.len() implies #[trigger] right[i] >= 1 by {
            assert(pairs[i].1 >= 1);
        }
        if before.len() == 0 {
            if pair == (1usize, 1usize) {
                assert(l.len() == 0 && r.len() == 0);
                assert forall|i: int| 0 <= i < left.len() implies #[trigger] left[i] == 1 by {
                    if i < n {
                        assert(short_left[i] == 1);
                    }
                }
                assert forall|i: int| 0 <= i < right.len() implies #[trigger] right[i] == 1 by {
                    if i < n {
                        assert(short_right[i] == 1);
                    }
                }
            } else {
                assert(after == seq![pair]);
                assert(left.skip(0) == left && right.skip(0) == right);
                assert(left.drop_last() == short_left && right.drop_last() == short_right);
                assert forall|i: int| 0 <= i < n implies #[trigger] short_left[i] >= 1 by {
                    assert(left[i] >= 1);
                }
                assert forall|i: int| 0 <= i < n implies #[trigger] short_right[i] >= 1 by {
                    assert(right[i] >= 1);
                }
                lemma_all_ones(short_left);
                lemma_all_ones(short_right);
                super::shape::lemma_times_one(super::shape::count(short_left), pair.0 as nat);
                super::shape::lemma_times_one(super::shape::count(short_right), pair.1 as nat);
                assert(walked_as_one(left, right)) by {
                    if pair.0 == 1 {
                        assert forall|i: int| 0 <= i < left.len() implies #[trigger] left[i] == 1 by {
                            if i < n {
                                assert(short_left[i] == 1);
                            }
                        }
                    } else if pair.1 == 1 {
                        assert forall|i: int| 0 <= i < right.len() implies #[trigger] right[i] == 1 by {
                            if i < n {
                                assert(short_right[i] == 1);
                            }
                        }
                    } else {
                        assert forall|i: int| 0 <= i < left.len() implies left[i] == right[i] by {
                            if i < n {
                                assert(short_left[i] == 1 && short_right[i] == 1);
                            }
                        }
                        assert(left =~= right);
                    }
                }
                assert(last_run_from(left, right, l.last(), r.last(), 0));
                assert(made_of_runs(left.take(0), right.take(0), l.drop_last(), r.drop_last()));
            }
        } else {
            assert(bl.last() == before.last().0 && br.last() == before.last().1);
            if pair != (1usize, 1usize) && !super::fold::alike(before.last(), pair) {
                assert(after == before.push(pair));
                assert(left.skip(n) == seq![pair.0] && right.skip(n) == seq![pair.1]);
                super::shape::lemma_single_extent(pair.0);
                super::shape::lemma_single_extent(pair.1);
                assert(left.take(n) == short_left && right.take(n) == short_right);
                assert(l.drop_last() == bl && r.drop_last() == br);
                assert(l.last() == pair.0 && r.last() == pair.1);
                if pair.0 != 1 && pair.1 != 1 {
                    assert(left.skip(n) =~= right.skip(n));
                }
                assert(last_run_from(left, right, l.last(), r.last(), n));
            } else {
                let from = choose|from: int| #[trigger]
                    last_run_from(short_left, short_right, bl.last(), br.last(), from) && made_of_runs(
                        short_left.take(from),
                        short_right.take(from),
                        bl.drop_last(),
                        br.drop_last(),
                    );
                let run_left = short_left.skip(from);
                let run_right = short_right.skip(from);
                assert forall|i: int| 0 <= i < run_left.len() implies #[trigger] run_left[i] >= 1 by {
                    assert(left[from + i] >= 1);
                }
                assert forall|i: int| 0 <= i < run_right.len() implies #[trigger] run_right[i] >= 1 by {
                    assert(right[from + i] >= 1);
                }
                lemma_longer_run(run_left, run_right, bl.last(), br.last(), pair);
                assert(left.skip(from) == run_left.push(pair.0));
                assert(right.skip(from) == run_right.push(pair.1));
                assert(left.take(from) == short_left.take(from));
                assert(right.take(from) == short_right.take(from));
                if pair == (1usize, 1usize) {
                    assert(after == before);
                    super::shape::lemma_times_one(pair.0 as nat, bl.last() as nat);
                    super::shape::lemma_times_one(pair.1 as nat, br.last() as nat);
                } else {
                    assert(l.drop_last() =~= bl.drop_last());
                    assert(r.drop_last() =~= br.drop_last());
                }
                assert(last_run_from(left, right, l.last(), r.last(), from));
            }
        }
    }
}

/// The last pair that is not all ones is alike with the last extent of the fold.
proof fn lemma_last_kind(pairs: Seq<(usize, usize)>, i: int)
    requires
        super::fold::proper(pairs),
        super::shape::count(super::fold::wides(pairs)) <= usize::MAX,
        0 <= i < pairs.len(),
        pairs[i] != (1usize, 1usize),
        forall|j: int| i < j < pairs.len() ==> #[trigger] pairs[j] == (1usize, 1usize),
    ensures
        super::fold::folded(pairs).len() > 0,
        super::fold::alike(super::fold::folded(pairs).last(), pairs[i]),
    decreases pairs.len(),
{
    let init = pairs.drop_last();
    let pair = pairs.last();
    lemma_front(pairs);
    super::fold::lemma_folded(init);
    super::fold::lemma_fold_in(super::fold::folded(init), pair);
    if i < init.len() {
        assert(pairs[pairs.len() - 1] == (1usize, 1usize));
        assert forall|j: int| i < j < init.len() implies #[trigger] init[j] == (1usize, 1usize) by {
            assert(pairs[j] == (1usize, 1usize));
        }
        lemma_last_kind(init, i);
    } else {
        let before = super::fold::folded(init);
        if before.len() > 0 && super::fold::alike(before.last(), pair) {
            let a = before.last();
            assert(before[before.len() - 1] == a);
            if pair.0 == 1 {
                super::shape::lemma_times_one(pair.0 as nat, a.0 as nat);
            } else {
                super::shape::lemma_factor(a.0 as nat, pair.0 as nat);
            }
            if pair.1 == 1 {
                super::shape::lemma_times_one(pair.1 as nat, a.1 as nat);
            } else {
                super::shape::lemma_factor(a.1 as nat, pair.1 as nat);
            }
        }
    }
}

/// Pairs of ones behind others do not change the fold.
proof fn lemma_trailing_ones(pairs: Seq<(usize, usize)>, from: int)
    requires
        0 <= from <= pairs.len(),
        forall|j: int| from <= j < pairs.len() ==> #[trigger] pairs[j] == (1usize, 1usize),
    ensures
        super::fold::folded(pairs) == super::fold::folded(pairs.take(from)),
    decreases pairs.len(),
{
    if from == pairs.len() {
        assert(pairs.take(from) == pairs);
    } else {
        let init = pairs.drop_last();
        assert(pairs[pairs.len() - 1] == (1usize, 1usize));
        assert forall|j: int| from <= j < init.len() implies #[trigger] init[j] == (1usize, 1usize) by {
            assert(pairs[j] == (1usize, 1usize));
        }
        lemma_trailing_ones(init, from);
        assert(init.take(from) == pairs.take(from));
    }
}

/// A fold grows by one extent at most with each pair.
proof fn lemma_fold_grows_by_one(pairs: Seq<(usize, usize)>)
    requires
        pairs.len() > 0,
    ensures
        super::fold::folded(pairs).len() <= super::fold::folded(pairs.drop_last()).len() + 1,
{
}

/// What is known of a front of proper pairs.
proof fn lemma_proper_front(pairs: Seq<(usize, usize)>, to: int)
    requires
        super::fold::proper(pairs),
        super::shape::count(super::fold::wides(pairs)) <= usize::MAX,
        0 <= to <= pairs.len(),
    ensures
        super::fold::proper(pairs.take(to)),
        super::shape::count(super::fold::wides(pairs.take(to))) <= usize::MAX,
{
    assert forall|i: int| 0 <= i < to implies pairs.take(to)[i] == #[trigger] pairs[i] by {}
    super::fold::lemma_wides_positive(pairs);
    super::shape::lemma_parts_count_less(super::fold::wides(pairs), to);
    assert(super::fold::wides(pairs).take(to) =~= super::fold::wides(pairs.take(to)));
}

/// No way to cut pairs into runs makes do with fewer than folding does.
proof fn lemma_no_fewer_runs(pairs: Seq<(usize, usize)>, l: Seq<usize>, r: Seq<usize>)
    requires
        super::fold::proper(pairs),
        super::shape::count(super::fold::wides(pairs)) <= usize::MAX,
        made_of_runs(super::fold::lefts(pairs), super::fold::rights(pairs), l, r),
    ensures
        l.len() >= super::fold::folded(pairs).len(),
    decreases pairs.len(),
{
    let left = super::fold::lefts(pairs);
    let right = super::fold::rights(pairs);
    if l.len() == 0 {
        assert forall|j: int| 0 <= j < pairs.len() implies #[trigger] pairs[j] == (1usize, 1usize) by {
            assert(left[j] == 1 && right[j] == 1);
        }
        lemma_trailing_ones(pairs, 0);
    } else {
        let from = choose|from: int| #[trigger]
            last_run_from(left, right, l.last(), r.last(), from) && made_of_runs(
                left.take(from),
                right.take(from),
                l.drop_last(),
                r.drop_last(),
            );
        lemma_front(pairs);
        lemma_proper_front(pairs, from);
        assert(left.take(from) =~= super::fold::lefts(pairs.take(from)));
        assert(right.take(from) =~= super::fold::rights(pairs.take(from)));
        lemma_no_fewer_runs(pairs.take(from), l.drop_last(), r.drop_last());
        lemma_one_run_folds_to_one(pairs, from);
    }
}

/// One run behind others adds one extent to the fold at most.
proof fn lemma_one_run_folds_to_one(pairs: Seq<(usize, usize)>, from: int)
    requires
        super::fold::proper(pairs),
        super::shape::count(super::fold::wides(pairs)) <= usize::MAX,
        0 <= from <= pairs.len(),
        walked_as_one(super::fold::lefts(pairs).skip(from), super::fold::rights(pairs).skip(from)),
    ensures
        super::fold::folded(pairs).len() <= super::fold::folded(pairs.take(from)).len() + 1,
    decreases pairs.len(),
{
    if from == pairs.len() {
        assert(pairs.take(from) == pairs);
    } else {
        let init = pairs.drop_last();
        let pair = pairs.last();
        let n = init.len() as int;
        let left = super::fold::lefts(pairs).skip(from);
        let right = super::fold::rights(pairs).skip(from);
        lemma_front(pairs);
        assert(init.take(from) == pairs.take(from));
        if exists|j: int| from <= j < n && #[trigger] init[j] != (1usize, 1usize) {
            let j = lemma_last_other(init, from);
            lemma_last_kind(init, j);
            assert(left[j - from] == pairs[j].0 && right[j - from] == pairs[j].1);
            assert(left[n - from] == pair.0 && right[n - from] == pair.1);
            assert(pairs[j] == init[j]);
            assert(super::fold::lefts(init).skip(from) =~= left.drop_last());
            assert(super::fold::rights(init).skip(from) =~= right.drop_last());
            assert(walked_as_one(left.drop_last(), right.drop_last()));
            lemma_one_run_folds_to_one(init, from);
            assert(pair != (1usize, 1usize) ==> super::fold::alike(super::fold::folded(init).last(), pair));
        } else {
            assert forall|j: int| from <= j < init.len() implies #[trigger] init[j] == (1usize, 1usize) by {}
            lemma_trailing_ones(init, from);
            lemma_fold_grows_by_one(pairs);
        }
    }
}

/// The last pair that is not all ones, from place `from` on.
proof fn lemma_last_other(pairs: Seq<(usize, usize)>, from: int) -> (i: int)
    requires
        0 <= from,
        exists|j: int| from <= j < pairs.len() && #[trigger] pairs[j] != (1usize, 1usize),
    ensures
        from <= i < pairs.len(),
        pairs[i] != (1usize, 1usize),
        forall|j: int| i < j < pairs.len() ==> #[trigger] pairs[j] == (1usize, 1usize),
    decreases pairs.len(),
{
    let last = pairs.len() - 1;
    if pairs[last] != (1usize, 1usize) {
        last
    } else {
        let init = pairs.drop_last();
        let j = choose|j: int| from <= j < pairs.len() && #[trigger] pairs[j] != (1usize, 1usize);
        assert(init[j] != (1usize, 1usize));
        let i = lemma_last_other(init, from);
        assert(init[i] == pairs[i]);
        assert forall|j: int| i < j < pairs.len() implies #[trigger] pairs[j] == (1usize, 1usize) by {
            if j < init.len() {
                assert(init[j] == (1usize, 1usize));
            }
        }
        i
    }
}

/// The two sides of paired shapes are those shapes with ones in front.
proof fn lemma_padded(left: Seq<usize>, right: Seq<usize>, dims: Seq<usize>)
    requires
        super::shape::joint(left, right) == Some(dims),
    ensures
        super::fold::lefts(super::fold::paired(left, right)) == padded(left, dims.len()),
        super::fold::rights(super::fold::paired(left, right)) == padded(right, dims.len()),
{
    assert(super::fold::lefts(super::fold::paired(left, right)) =~= padded(left, dims.len()));
    assert(super::fold::rights(super::fold::paired(left, right)) =~= padded(right, dims.len()));
}

/// Where two shapes broadcast to `sum`, which has elements and can be allocated, what
/// they fold to is made of runs, and nothing that is made of runs has fewer.
pub proof fn law_no_fewer_runs_than_the_fold(
    left: Seq<usize>,
    right: Seq<usize>,
    sum: Seq<usize>,
    l: Seq<usize>,
    r: Seq<usize>,
)
    requires
        super::shape::joint(left, right) == Some(sum),
        super::shape::allocatable(sum, true),
        super::shape::count(sum) > 0,
    ensures
        ({
            let pairs = super::fold::folded(super::fold::paired(left, right));
            &&& made_of_runs(
                padded(left, sum.len()),
                padded(right, sum.len()),
                super::fold::lefts(pairs),
                super::fold::rights(pairs),
            )
            &&& made_of_runs(padded(left, sum.len()), padded(right, sum.len()), l, r) ==> l.len()
                >= pairs.len()
        }),
{
    let pairs = super::fold::paired(left, right);
    lemma_padded(left, right, sum);
    super::fold::lemma_paired(left, right);
    lemma_folded_is_made_of_runs(pairs);
    if made_of_runs(padded(left, sum.len()), padded(right, sum.len()), l, r) {
        lemma_no_fewer_runs(pairs, l, r);
    }
}

/// Two shapes fold exactly where their sum has elements and can be allocated, and
/// its extents can be cut into at most eight runs along which both tensors are
/// walked as if along one. What they fold to has one extent for each run.
pub proof fn law_shapes_fold_along_runs(left: &Vec<usize>, right: &Vec<usize>, result: Option<Folding>)
    requires
        call_ensures(super::fold::folding, (left, right), result),
    ensures
        match result {
            Some(folding) => {
                let sum = folding.sum@;
                &&& super::shape_laws::broadcasts_to(left@, right@, sum)
                &&& super::shape::allocatable(sum, true)
                &&& super::shape::count(sum) > 0
                &&& folding.left@.len() <= 8
                &&& made_of_runs(
                    padded(left@, sum.len()),
                    padded(right@, sum.len()),
                    folding.left@,
                    folding.right@,
                )
            },
            None => {
                ||| super::shape_laws::clash(left@, right@)
                ||| exists|sum: Seq<usize>| #[trigger]
                    super::shape_laws::broadcasts_to(left@, right@, sum) && (!super::shape::allocatable(
                        sum,
                        true,
                    ) || super::shape::count(sum) == 0 || forall|l: Seq<usize>, r: Seq<usize>| #[trigger]
                        made_of_runs(padded(left@, sum.len()), padded(right@, sum.len()), l, r) ==> l.len()
                            > 8)
            },
        },
{
    super::shape_laws::law_shapes_broadcast_from_the_back(left@, right@);
    if let Some(sum) = super::shape::joint(left@, right@) {
        assert(super::shape_laws::broadcasts_to(left@, right@, sum));
        if super::shape::allocatable(sum, true) && super::shape::count(sum) > 0 {
            let none = Seq::<usize>::empty();
            law_no_fewer_runs_than_the_fold(left@, right@, sum, none, none);
            assert forall|l: Seq<usize>, r: Seq<usize>| #[trigger]
                made_of_runs(padded(left@, sum.len()), padded(right@, sum.len()), l, r) implies l.len()
                >= super::fold::folded(super::fold::paired(left@, right@)).len() by {
                law_no_fewer_runs_than_the_fold(left@, right@, sum, l, r);
            }
        }
    }
}

} // verus!
