//! The plan of a conversion: which converters, hooks and walkers a call runs,
//! and in what order. The plan depends only on the versions that were
//! registered, on how many items stand under each, and on the two versions of
//! the call.

use crate::registry::floor_key;
use crate::version::{in_range, DataVersion};
use java_string::JavaString;
use vstd::prelude::*;

verus! {

/// One call that a conversion makes.
pub enum Step {
    /// `pre_hook` of the hook at place `index` under the key `bucket`.
    PreHook { bucket: DataVersion, index: int },
    /// `convert` of the converter at place `index` of the converter list.
    Convert { index: int },
    /// `post_hook` of the hook at place `index` under the key `bucket`.
    PostHook { bucket: DataVersion, index: int },
    /// `walk` of the walker at place `index` under the key `bucket`.
    Walk { bucket: DataVersion, index: int },
    /// `walk` of the walker at place `index` under the key `bucket`, among the
    /// walkers registered for the discriminator value `id`.
    WalkForId { id: JavaString, bucket: DataVersion, index: int },
}

/// What a data type has registered, as far as the plan depends on it.
pub struct Shape {
    /// The version that each converter produces, in list order.
    pub converters: Seq<DataVersion>,
    /// The number of hooks under each key.
    pub hooks: Map<DataVersion, nat>,
    /// The number of walkers under each key.
    pub walkers: Map<DataVersion, nat>,
}

/// The pre-hooks in force at `v`, in list order.
pub open spec fn hooks_before(hooks: Map<DataVersion, nat>, v: DataVersion) -> Seq<Step> {
    match floor_key(hooks.dom(), v) {
        Some(k) => Seq::new(hooks[k], |i: int| Step::PreHook { bucket: k, index: i }),
        None => Seq::empty(),
    }
}

/// The post-hooks in force at `v`, in reverse list order.
pub open spec fn hooks_after(hooks: Map<DataVersion, nat>, v: DataVersion) -> Seq<Step> {
    match floor_key(hooks.dom(), v) {
        Some(k) => Seq::new(hooks[k], |i: int| Step::PostHook { bucket: k, index: hooks[k] - 1 - i }),
        None => Seq::empty(),
    }
}

/// The walkers in force at `v`, in list order.
pub open spec fn walks(walkers: Map<DataVersion, nat>, v: DataVersion) -> Seq<Step> {
    match floor_key(walkers.dom(), v) {
        Some(k) => Seq::new(walkers[k], |i: int| Step::Walk { bucket: k, index: i }),
        None => Seq::empty(),
    }
}

/// The walkers registered for `id` that are in force at `v`, in list order.
pub open spec fn walks_for_id(
    id: JavaString,
    walkers: Map<DataVersion, nat>,
    v: DataVersion,
) -> Seq<Step> {
    match floor_key(walkers.dom(), v) {
        Some(k) => Seq::new(walkers[k], |i: int| Step::WalkForId { id, bucket: k, index: i }),
        None => Seq::empty(),
    }
}

/// What the converter at place `i` contributes: nothing unless its version lies
/// in `(from, to]`; else the pre-hooks in force at its own version, the
/// converter, and the post-hooks in force at `to`.
pub open spec fn conversion(shape: Shape, i: int, from: DataVersion, to: DataVersion) -> Seq<
    Step,
> {
    if in_range(shape.converters[i], from, to) {
        hooks_before(shape.hooks, shape.converters[i]).push(Step::Convert { index: i })
            + hooks_after(shape.hooks, to)
    } else {
        Seq::empty()
    }
}

/// What the first `n` converters contribute, in list order.
pub open spec fn conversions(shape: Shape, n: nat, from: DataVersion, to: DataVersion) -> Seq<
    Step,
>
    decreases n,
{
    if n == 0 {
        Seq::empty()
    } else {
        conversions(shape, (n - 1) as nat, from, to) + conversion(shape, n - 1, from, to)
    }
}

/// Every converter's contribution: the whole plan of a data type without walkers.
pub open spec fn all_conversions(shape: Shape, from: DataVersion, to: DataVersion) -> Seq<Step> {
    conversions(shape, shape.converters.len(), from, to)
}

/// The closing pass at `to`: pre-hooks, walkers, post-hooks in reverse.
pub open spec fn closing(shape: Shape, to: DataVersion) -> Seq<Step> {
    hooks_before(shape.hooks, to) + walks(shape.walkers, to) + hooks_after(shape.hooks, to)
}

/// The plan of a data type with walkers: every converter's contribution, then
/// the closing pass.
pub open spec fn plan(shape: Shape, from: DataVersion, to: DataVersion) -> Seq<Step> {
    all_conversions(shape, from, to) + closing(shape, to)
}

/// The part of a plan with discriminator dispatch that comes before the
/// dispatch: every converter's contribution, the pre-hooks and the walkers of
/// the closing pass.
pub open spec fn opening(shape: Shape, from: DataVersion, to: DataVersion) -> Seq<Step> {
    all_conversions(shape, from, to) + hooks_before(shape.hooks, to) + walks(shape.walkers, to)
}

/// Where the converter at place `i` stands in the plan, if its version is in range.
pub open spec fn position(shape: Shape, i: int, from: DataVersion, to: DataVersion) -> int {
    (conversions(shape, i as nat, from, to).len() + hooks_before(
        shape.hooks,
        shape.converters[i],
    ).len()) as int
}

/// The first converters' contribution is the start of the later ones'.
pub proof fn lemma_conversions_grow(
    shape: Shape,
    m: nat,
    n: nat,
    from: DataVersion,
    to: DataVersion,
)
    requires
        m <= n,
    ensures
        conversions(shape, m, from, to).len() <= conversions(shape, n, from, to).len(),
        conversions(shape, n, from, to).take(conversions(shape, m, from, to).len() as int)
            == conversions(shape, m, from, to),
    decreases n - m,
{
    let short = conversions(shape, m, from, to);
    if m == n {
        assert(short.take(short.len() as int) =~= short);
    } else {
        lemma_conversions_grow(shape, m, (n - 1) as nat, from, to);
        let mid = conversions(shape, (n - 1) as nat, from, to);
        let long = conversions(shape, n, from, to);
        assert(long.take(short.len() as int) =~= mid.take(short.len() as int));
    }
}

/// A converter whose version is in range stands in the plan, at its position.
pub proof fn lemma_conversion_at_position(
    shape: Shape,
    n: nat,
    i: int,
    from: DataVersion,
    to: DataVersion,
)
    requires
        0 <= i < n,
        in_range(shape.converters[i], from, to),
    ensures
        0 <= position(shape, i, from, to) < conversions(shape, n, from, to).len(),
        conversions(shape, n, from, to)[position(shape, i, from, to)] == (Step::Convert {
            index: i,
        }),
{
    let upto = conversions(shape, i as nat, from, to);
    let with = conversions(shape, (i + 1) as nat, from, to);
    let own = conversion(shape, i, from, to);
    let p = position(shape, i, from, to);
    assert(with == upto + own);
    assert(own[p - upto.len()] == Step::Convert { index: i });
    assert(with[p] == Step::Convert { index: i });
    lemma_conversions_grow(shape, (i + 1) as nat, n, from, to);
    let all = conversions(shape, n, from, to);
    assert(all.take(with.len() as int)[p] == all[p]);
}

/// Each conversion step in the contribution of the first `n` converters is that
/// of a converter among them whose version is in range, at its position.
pub proof fn lemma_conversions_only_in_range(
    shape: Shape,
    n: nat,
    from: DataVersion,
    to: DataVersion,
    p: int,
)
    requires
        0 <= p < conversions(shape, n, from, to).len(),
        conversions(shape, n, from, to)[p] is Convert,
    ensures
        ({
            let i = conversions(shape, n, from, to)[p]->Convert_index;
            0 <= i < n && in_range(shape.converters[i], from, to) && p == position(
                shape,
                i,
                from,
                to,
            )
        }),
    decreases n,
{
    if n > 0 {
        let upto = conversions(shape, (n - 1) as nat, from, to);
        let own = conversion(shape, n - 1, from, to);
        if p < upto.len() {
            lemma_conversions_only_in_range(shape, (n - 1) as nat, from, to, p);
        } else {
            let q = p - upto.len();
            assert(own[q] is Convert);
            let before = hooks_before(shape.hooks, shape.converters[n - 1]);
            if q < before.len() {
                assert(before[q] is PreHook);
            } else if q > before.len() {
                assert(hooks_after(shape.hooks, to)[q - before.len() - 1] is PostHook);
            }
        }
    }
}

/// The closing pass holds no conversion step.
pub proof fn lemma_closing_converts_nothing(shape: Shape, to: DataVersion, p: int)
    requires
        0 <= p < closing(shape, to).len(),
    ensures
        !(closing(shape, to)[p] is Convert),
{
    let a = hooks_before(shape.hooks, to);
    let b = walks(shape.walkers, to);
    let c = hooks_after(shape.hooks, to);
    if p < a.len() {
        assert(a[p] is PreHook);
    } else if p < a.len() + b.len() {
        assert(b[p - a.len()] is Walk);
    } else {
        assert(c[p - a.len() - b.len()] is PostHook);
    }
}

/// A converter whose version is out of range contributes nothing.
pub proof fn lemma_conversions_skip(shape: Shape, n: nat, from: DataVersion, to: DataVersion)
    requires
        !in_range(shape.converters[n as int], from, to),
    ensures
        conversions(shape, n + 1, from, to) == conversions(shape, n, from, to),
{
    assert(conversions(shape, n, from, to) + Seq::<Step>::empty() =~= conversions(
        shape,
        n,
        from,
        to,
    ));
}

/// Once a converter's version lies beyond `to`, neither it nor a later
/// converter contributes, the versions being in ascending order.
pub proof fn lemma_conversions_stop(
    shape: Shape,
    m: nat,
    n: nat,
    from: DataVersion,
    to: DataVersion,
)
    requires
        crate::sorted::ascending(shape.converters),
        m <= n <= shape.converters.len(),
        m < shape.converters.len() ==> to.before(shape.converters[m as int]),
    ensures
        conversions(shape, n, from, to) == conversions(shape, m, from, to),
    decreases n - m,
{
    if m < n {
        lemma_conversions_stop(shape, m, (n - 1) as nat, from, to);
        assert(shape.converters[m as int].at_most(shape.converters[n - 1]));
        lemma_conversions_skip(shape, (n - 1) as nat, from, to);
    }
}

} // verus!
