//! What holds of every plan: which converters run, in what order, and how the
//! hooks pair up.

use crate::plan::{
    all_conversions, closing, conversion, conversions, hooks_after, hooks_before,
    lemma_closing_converts_nothing, lemma_conversion_at_position, lemma_conversions_grow,
    lemma_conversions_only_in_range, opening, plan, position, walks, Shape, Step,
};
use crate::registry::floor_key;
use crate::sorted::{ascending, lemma_count_is_split, lemma_count_splits, slot};
use crate::version::{in_range, DataVersion};
use vstd::prelude::*;

verus! {

/// The steps `steps` start with the steps `start`.
pub open spec fn starts_with(steps: Seq<Step>, start: Seq<Step>) -> bool {
    start.len() <= steps.len() && steps.take(start.len() as int) == start
}

/// Every plan starts with the contributions of the converters: the plan of a
/// data type with walkers, and the part of a plan with discriminator dispatch
/// that comes before the dispatch.
pub proof fn law_plans_start_with_conversions(shape: Shape, from: DataVersion, to: DataVersion)
    ensures
        starts_with(plan(shape, from, to), all_conversions(shape, from, to)),
        starts_with(opening(shape, from, to), all_conversions(shape, from, to)),
{
    let start = all_conversions(shape, from, to);
    assert(plan(shape, from, to).take(start.len() as int) =~= start);
    assert(opening(shape, from, to).take(start.len() as int) =~= start);
}

/// In list order: of two converters whose versions are in range, the one that
/// stands first in the list runs first.
pub proof fn law_list_order(shape: Shape, from: DataVersion, to: DataVersion, i: int, j: int)
    requires
        0 <= i < j < shape.converters.len(),
        in_range(shape.converters[i], from, to),
        in_range(shape.converters[j], from, to),
    ensures
        0 <= position(shape, i, from, to) < position(shape, j, from, to) < all_conversions(
            shape,
            from,
            to,
        ).len(),
        all_conversions(shape, from, to)[position(shape, i, from, to)] == (Step::Convert {
            index: i,
        }),
        all_conversions(shape, from, to)[position(shape, j, from, to)] == (Step::Convert {
            index: j,
        }),
{
    let n = shape.converters.len();
    lemma_conversion_at_position(shape, n, i, from, to);
    lemma_conversion_at_position(shape, n, j, from, to);
    lemma_conversion_at_position(shape, (i + 1) as nat, i, from, to);
    lemma_conversions_grow(shape, (i + 1) as nat, j as nat, from, to);
}

/// In version order: of two converters whose versions are in range, the one
/// with the earlier version runs strictly before the other.
pub proof fn law_version_order(shape: Shape, from: DataVersion, to: DataVersion, i: int, j: int)
    requires
        ascending(shape.converters),
        0 <= i < shape.converters.len(),
        0 <= j < shape.converters.len(),
        in_range(shape.converters[i], from, to),
        in_range(shape.converters[j], from, to),
        shape.converters[i].before(shape.converters[j]),
    ensures
        0 <= position(shape, i, from, to) < position(shape, j, from, to) < all_conversions(
            shape,
            from,
            to,
        ).len(),
        all_conversions(shape, from, to)[position(shape, i, from, to)] == (Step::Convert {
            index: i,
        }),
        all_conversions(shape, from, to)[position(shape, j, from, to)] == (Step::Convert {
            index: j,
        }),
{
    if j < i {
        assert(shape.converters[j].at_most(shape.converters[i]));
    }
    law_list_order(shape, from, to, i, j);
}

/// The interval: a converter runs exactly if its version lies in `(from, to]`,
/// and then it runs once.
pub proof fn law_interval(shape: Shape, from: DataVersion, to: DataVersion, i: int)
    requires
        0 <= i < shape.converters.len(),
    ensures
        in_range(shape.converters[i], from, to) <==> plan(shape, from, to).contains(
            Step::Convert { index: i },
        ),
        forall|p: int, q: int|
            0 <= p < plan(shape, from, to).len() && 0 <= q < plan(shape, from, to).len() && plan(
                shape,
                from,
                to,
            )[p] == (Step::Convert { index: i }) && plan(shape, from, to)[q] == (Step::Convert {
                index: i,
            }) ==> p == q,
{
    let n = shape.converters.len();
    let start = all_conversions(shape, from, to);
    let whole = plan(shape, from, to);
    let step = Step::Convert { index: i };
    if in_range(shape.converters[i], from, to) {
        lemma_conversion_at_position(shape, n, i, from, to);
        assert(whole[position(shape, i, from, to)] == step);
    }
    assert forall|p: int| 0 <= p < whole.len() && whole[p] == step implies in_range(
        shape.converters[i],
        from,
        to,
    ) && p == position(shape, i, from, to) by {
        if p < start.len() {
            lemma_conversions_only_in_range(shape, n, from, to, p);
        } else {
            lemma_closing_converts_nothing(shape, to, p - start.len());
        }
    }
}

/// The interval, for a data type without walkers and for the part of a plan
/// before the dispatch: the same converters run, each once.
pub proof fn law_interval_of_conversions(
    shape: Shape,
    from: DataVersion,
    to: DataVersion,
    i: int,
)
    requires
        0 <= i < shape.converters.len(),
    ensures
        in_range(shape.converters[i], from, to) <==> all_conversions(shape, from, to).contains(
            Step::Convert { index: i },
        ),
        forall|p: int|
            0 <= p < all_conversions(shape, from, to).len() && all_conversions(shape, from, to)[p]
                == (Step::Convert { index: i }) ==> p == position(shape, i, from, to),
{
    let n = shape.converters.len();
    let start = all_conversions(shape, from, to);
    let step = Step::Convert { index: i };
    if in_range(shape.converters[i], from, to) {
        lemma_conversion_at_position(shape, n, i, from, to);
        assert(start[position(shape, i, from, to)] == step);
    }
    assert forall|p: int| 0 <= p < start.len() && start[p] == step implies in_range(
        shape.converters[i],
        from,
        to,
    ) && p == position(shape, i, from, to) by {
        lemma_conversions_only_in_range(shape, n, from, to, p);
    }
}

/// Without a version between `from` and `to` no converter runs: the plan is the
/// closing pass and nothing else. This is so for `from == to` and for every
/// `to` before `from`.
pub proof fn law_empty_range(shape: Shape, from: DataVersion, to: DataVersion)
    requires
        to.at_most(from),
    ensures
        all_conversions(shape, from, to) == Seq::<Step>::empty(),
        plan(shape, from, to) == closing(shape, to),
{
    lemma_nothing_in_range(shape, shape.converters.len(), from, to);
    assert(Seq::<Step>::empty() + closing(shape, to) =~= closing(shape, to));
}

proof fn lemma_nothing_in_range(shape: Shape, n: nat, from: DataVersion, to: DataVersion)
    requires
        to.at_most(from),
    ensures
        conversions(shape, n, from, to) == Seq::<Step>::empty(),
    decreases n,
{
    if n > 0 {
        lemma_nothing_in_range(shape, (n - 1) as nat, from, to);
        assert(!in_range(shape.converters[n - 1], from, to));
        assert(Seq::<Step>::empty() + Seq::<Step>::empty() =~= Seq::<Step>::empty());
    }
}

/// The closing pass is one pass: the pre-hooks in force at `to`, the walkers in
/// force at `to`, and the post-hooks in force at `to`, in that order, and it
/// converts nothing.
pub proof fn law_one_closing_pass(shape: Shape, to: DataVersion)
    ensures
        closing(shape, to) == hooks_before(shape.hooks, to) + walks(shape.walkers, to)
            + hooks_after(shape.hooks, to),
        forall|p: int| 0 <= p < closing(shape, to).len() ==> !(closing(shape, to)[p] is Convert),
{
    assert forall|p: int| 0 <= p < closing(shape, to).len() implies !(closing(shape, to)[p]
        is Convert) by {
        lemma_closing_converts_nothing(shape, to, p);
    }
}

/// Hooks pair up: the post-hooks in force at a version are the pre-hooks in
/// force there, one post-hook for each pre-hook, in the reverse order.
pub proof fn law_hooks_pair_up(hooks: Map<DataVersion, nat>, v: DataVersion)
    ensures
        hooks_after(hooks, v).len() == hooks_before(hooks, v).len(),
        forall|i: int|
            0 <= i < hooks_before(hooks, v).len() ==> {
                let opened = #[trigger] hooks_before(hooks, v)[i];
                let closed = hooks_after(hooks, v)[hooks_before(hooks, v).len() - 1 - i];
                &&& opened is PreHook
                &&& closed is PostHook
                &&& opened->PreHook_index == i
                &&& closed->PostHook_index == i
                &&& closed->PostHook_bucket == opened->PreHook_bucket
            },
{
}

/// Around a converter the hooks pair up where the same hooks are in force at
/// the converter's version and at `to`: then the converter stands between the
/// pre-hooks and the post-hooks of one list.
pub proof fn law_conversion_hooks_pair_up(
    shape: Shape,
    from: DataVersion,
    to: DataVersion,
    i: int,
)
    requires
        0 <= i < shape.converters.len(),
        in_range(shape.converters[i], from, to),
        floor_key(shape.hooks.dom(), shape.converters[i]) == floor_key(shape.hooks.dom(), to),
    ensures
        conversion(shape, i, from, to) == hooks_before(shape.hooks, to).push(
            Step::Convert { index: i },
        ) + hooks_after(shape.hooks, to),
{
}

/// Stable insertion: a version that is put into its slot a second time goes
/// right behind the first.
pub proof fn law_stable_insertion(versions: Seq<DataVersion>, v: DataVersion)
    requires
        ascending(versions),
    ensures
        slot(versions.insert(slot(versions, v), v), v) == slot(versions, v) + 1,
{
    lemma_count_splits(versions, v);
    let p = slot(versions, v);
    let longer = versions.insert(p, v);
    assert forall|k: int| 0 <= k < p + 1 implies (#[trigger] longer[k]).at_most(v) by {
        if k < p {
            assert(longer[k] == versions[k]);
        }
    }
    assert forall|k: int| p + 1 <= k < longer.len() implies v.before(#[trigger] longer[k]) by {
        assert(longer[k] == versions[k - 1]);
    }
    lemma_count_is_split(longer, v, p + 1);
}

/// Registration order: of two converters of one version, registered one after
/// the other, the first runs before the second whenever they run.
pub proof fn law_registration_order(
    versions: Seq<DataVersion>,
    v: DataVersion,
    hooks: Map<DataVersion, nat>,
    walkers: Map<DataVersion, nat>,
    from: DataVersion,
    to: DataVersion,
)
    requires
        ascending(versions),
        in_range(v, from, to),
    ensures
        ({
            let first = slot(versions, v);
            let once = versions.insert(first, v);
            let second = slot(once, v);
            let twice = once.insert(second, v);
            let shape = Shape { converters: twice, hooks, walkers };
            &&& second == first + 1
            &&& twice[first] == v
            &&& twice[second] == v
            &&& position(shape, first, from, to) < position(shape, second, from, to)
            &&& all_conversions(shape, from, to)[position(shape, first, from, to)]
                == (Step::Convert { index: first })
            &&& all_conversions(shape, from, to)[position(shape, second, from, to)]
                == (Step::Convert { index: second })
        }),
{
    law_stable_insertion(versions, v);
    crate::sorted::lemma_count_bounded(versions, v);
    let first = slot(versions, v);
    let once = versions.insert(first, v);
    let second = slot(once, v);
    let twice = once.insert(second, v);
    let shape = Shape { converters: twice, hooks, walkers };
    assert(twice[first] == once[first]);
    law_list_order(shape, from, to, first, second);
}

} // verus!
