//! Chains of steps: what it means that a value was taken through a sequence of
//! steps, one after the other, when each step is known by a relation between
//! the value before it and the value after it.

use vstd::prelude::*;

verus! {

/// `trace` records a run of `steps`: it starts with the value before the first
/// step and then holds the value after each step, and each step relates the
/// value before it to the value after it.
pub open spec fn follows<S, D>(
    rel: spec_fn(S, D, D) -> bool,
    steps: Seq<S>,
    trace: Seq<D>,
) -> bool {
    &&& trace.len() == steps.len() + 1
    &&& forall|k: int| 0 <= k < steps.len() ==> rel(steps[k], #[trigger] trace[k], trace[k + 1])
}

/// Some run of `steps`, in their order and each exactly once, takes `before` to `after`.
pub open spec fn leads<S, D>(
    rel: spec_fn(S, D, D) -> bool,
    steps: Seq<S>,
    before: D,
    after: D,
) -> bool {
    exists|trace: Seq<D>| #[trigger]
        follows(rel, steps, trace) && trace[0] == before && trace.last() == after
}

/// No steps leave the value as it is.
pub proof fn lemma_leads_nowhere<S, D>(rel: spec_fn(S, D, D) -> bool, value: D)
    ensures
        leads(rel, Seq::<S>::empty(), value, value),
{
    let trace = seq![value];
    assert(follows(rel, Seq::<S>::empty(), trace));
}

/// Without steps nothing changes.
pub proof fn lemma_leads_empty<S, D>(rel: spec_fn(S, D, D) -> bool, before: D, after: D)
    requires
        leads(rel, Seq::<S>::empty(), before, after),
    ensures
        before == after,
{
    let trace = choose|trace: Seq<D>| #[trigger]
        follows(rel, Seq::<S>::empty(), trace) && trace[0] == before && trace.last() == after;
    assert(trace.len() == 1);
}

/// A run can be extended by one more step.
pub proof fn lemma_leads_push<S, D>(
    rel: spec_fn(S, D, D) -> bool,
    steps: Seq<S>,
    step: S,
    before: D,
    middle: D,
    after: D,
)
    requires
        leads(rel, steps, before, middle),
        rel(step, middle, after),
    ensures
        leads(rel, steps.push(step), before, after),
{
    let trace = choose|trace: Seq<D>| #[trigger]
        follows(rel, steps, trace) && trace[0] == before && trace.last() == middle;
    let longer = trace.push(after);
    assert forall|k: int| 0 <= k < steps.push(step).len() implies rel(
        steps.push(step)[k],
        #[trigger] longer[k],
        longer[k + 1],
    ) by {
        if k < steps.len() {
            assert(rel(steps[k], trace[k], trace[k + 1]));
        }
    }
    assert(follows(rel, steps.push(step), longer));
}

/// A run of the first `n` steps can be extended by the step that follows them.
pub proof fn lemma_leads_extend<S, D>(
    rel: spec_fn(S, D, D) -> bool,
    steps: Seq<S>,
    n: int,
    before: D,
    middle: D,
    after: D,
)
    requires
        0 <= n < steps.len(),
        leads(rel, steps.take(n), before, middle),
        rel(steps[n], middle, after),
    ensures
        leads(rel, steps.take(n + 1), before, after),
{
    lemma_leads_push(rel, steps.take(n), steps[n], before, middle, after);
    assert(steps.take(n + 1) =~= steps.take(n).push(steps[n]));
}

/// A run under one relation is a run under every relation that allows each of
/// its steps.
pub proof fn lemma_leads_transfer<S, D>(
    rel: spec_fn(S, D, D) -> bool,
    other: spec_fn(S, D, D) -> bool,
    steps: Seq<S>,
    before: D,
    after: D,
)
    requires
        leads(rel, steps, before, after),
        forall|k: int, x: D, y: D|
            0 <= k < steps.len() && #[trigger] rel(steps[k], x, y) ==> other(steps[k], x, y),
    ensures
        leads(other, steps, before, after),
{
    let trace = choose|trace: Seq<D>| #[trigger]
        follows(rel, steps, trace) && trace[0] == before && trace.last() == after;
    assert forall|k: int| 0 <= k < steps.len() implies other(
        steps[k],
        #[trigger] trace[k],
        trace[k + 1],
    ) by {
        assert(rel(steps[k], trace[k], trace[k + 1]));
    }
    assert(follows(other, steps, trace));
}

/// A run of one step is that step.
pub proof fn lemma_leads_single<S, D>(rel: spec_fn(S, D, D) -> bool, step: S, before: D, after: D)
    ensures
        leads(rel, seq![step], before, after) <==> rel(step, before, after),
{
    if rel(step, before, after) {
        let trace = seq![before, after];
        assert(follows(rel, seq![step], trace));
    }
    if leads(rel, seq![step], before, after) {
        let trace = choose|trace: Seq<D>| #[trigger]
            follows(rel, seq![step], trace) && trace[0] == before && trace.last() == after;
        assert(rel(seq![step][0], trace[0], trace[1]));
    }
}

/// Two runs, the second starting where the first ended, make one run.
pub proof fn lemma_leads_concat<S, D>(
    rel: spec_fn(S, D, D) -> bool,
    first: Seq<S>,
    second: Seq<S>,
    before: D,
    middle: D,
    after: D,
)
    requires
        leads(rel, first, before, middle),
        leads(rel, second, middle, after),
    ensures
        leads(rel, first + second, before, after),
{
    let t1 = choose|trace: Seq<D>| #[trigger]
        follows(rel, first, trace) && trace[0] == before && trace.last() == middle;
    let t2 = choose|trace: Seq<D>| #[trigger]
        follows(rel, second, trace) && trace[0] == middle && trace.last() == after;
    let joined = t1 + t2.drop_first();
    let steps = first + second;
    assert forall|k: int| 0 <= k < steps.len() implies rel(
        steps[k],
        #[trigger] joined[k],
        joined[k + 1],
    ) by {
        if k < first.len() {
            assert(rel(first[k], t1[k], t1[k + 1]));
        } else {
            let j = k - first.len();
            assert(rel(second[j], t2[j], t2[j + 1]));
            assert(joined[k] == t2[j]);
            assert(joined[k + 1] == t2[j + 1]);
        }
    }
    assert(follows(rel, steps, joined));
}

} // verus!
