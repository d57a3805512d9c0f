//! The engine that all data types share: the registries of converters, hooks
//! and walkers for one type of document, and the loops that run them.

use crate::chain::{
    leads, lemma_leads_concat, lemma_leads_empty, lemma_leads_extend, lemma_leads_nowhere,
    lemma_leads_push, lemma_leads_single,
};
use crate::plan::{
    all_conversions, closing, conversion, conversions, hooks_after, hooks_before,
    lemma_conversions_skip, lemma_conversions_stop, plan, walks, Shape, Step,
};
use crate::registry::{appended, counts, inserted, lemma_counts, placed, SortedList, VersionedList};
use crate::sorted::{ascending, slot, versions, Versioned};
use crate::version::{in_range, DataVersion};
use vstd::prelude::*;

verus! {

/// What every rule of one flavour keeps of a document of type `D`, whatever
/// else it changes.
pub trait Kept<D> {
    /// `after` has what `before` had.
    spec fn alike(before: D, after: D) -> bool;

    proof fn lemma_alike_itself(value: D)
        ensures
            Self::alike(value, value),
    ;

    proof fn lemma_alike_onwards(first: D, second: D, third: D)
        requires
            Self::alike(first, second),
            Self::alike(second, third),
        ensures
            Self::alike(first, third),
    ;
}

/// The flavour whose rules are free to change all of a document.
pub struct Anything;

impl<D> Kept<D> for Anything {
    open spec fn alike(before: D, after: D) -> bool {
        true
    }

    proof fn lemma_alike_itself(value: D) {
    }

    proof fn lemma_alike_onwards(first: D, second: D, third: D) {
    }
}

/// Something that edits a document of type `D` in place: a converter or a walker.
pub trait Rule<D, M: Kept<D>> {
    /// Whether one call may turn `before` into `after`.
    spec fn allows(&self, before: D, from: DataVersion, to: DataVersion, after: D) -> bool;

    fn run(&self, data: &mut D, from_version: DataVersion, to_version: DataVersion)
        ensures
            M::alike(*old(data), *final(data)),
            self.allows(*old(data), from_version, to_version, *final(data)),
    ;
}

/// A pair of callbacks around an edit of a document of type `D`: a hook.
pub trait Bracket<D, M: Kept<D>> {
    /// Whether one call of `open` may turn `before` into `after`.
    spec fn opens(&self, before: D, from: DataVersion, to: DataVersion, after: D) -> bool;

    /// Whether one call of `close` may turn `before` into `after`.
    spec fn closes(&self, before: D, from: DataVersion, to: DataVersion, after: D) -> bool;

    fn open(&self, data: &mut D, from_version: DataVersion, to_version: DataVersion)
        ensures
            M::alike(*old(data), *final(data)),
            self.opens(*old(data), from_version, to_version, *final(data)),
    ;

    fn close(&self, data: &mut D, from_version: DataVersion, to_version: DataVersion)
        ensures
            M::alike(*old(data), *final(data)),
            self.closes(*old(data), from_version, to_version, *final(data)),
    ;
}

/// An item as a registry holds it.
pub struct Registered<T> {
    pub(crate) item: T,
}

impl<T> Registered<T> {
    /// The item that is held.
    pub closed spec fn item(&self) -> T {
        self.item
    }

    pub fn new(item: T) -> (r: Self)
        ensures
            r.item() == item,
    {
        Registered { item }
    }

    pub fn get(&self) -> (r: &T)
        ensures
            *r == self.item(),
    {
        &self.item
    }
}

/// The registered rule `stored` relates documents as the relation `rule` does.
pub open spec fn runs_as<D, M: Kept<D>, S: Rule<D, M>>(
    stored: S,
    rule: spec_fn(D, DataVersion, DataVersion, D) -> bool,
) -> bool {
    forall|before: D, from: DataVersion, to: DataVersion, after: D| #[trigger]
        stored.allows(before, from, to, after) == rule(before, from, to, after)
}

/// The registered hook `stored` relates documents as the relations `pre` and
/// `post` do, the one when it opens and the other when it closes.
pub open spec fn hooks_as<D, M: Kept<D>, S: Bracket<D, M>>(
    stored: S,
    pre: spec_fn(D, DataVersion, DataVersion, D) -> bool,
    post: spec_fn(D, DataVersion, DataVersion, D) -> bool,
) -> bool {
    &&& forall|before: D, from: DataVersion, to: DataVersion, after: D| #[trigger]
        stored.opens(before, from, to, after) == pre(before, from, to, after)
    &&& forall|before: D, from: DataVersion, to: DataVersion, after: D| #[trigger]
        stored.closes(before, from, to, after) == post(before, from, to, after)
}

/// What a data type has registered for documents of type `D`: converters in
/// version order, and walkers and hooks by version.
pub struct Rules<D, M, C, H, W> where
    M: Kept<D>,
    C: Versioned + Rule<D, M>,
    H: Bracket<D, M>,
    W: Rule<D, M>,
{
    converters: SortedList<C>,
    walkers: VersionedList<W>,
    hooks: VersionedList<H>,
    flavour: core::marker::PhantomData<(D, M)>,
}

impl<D, M, C, H, W> Rules<D, M, C, H, W> where
    M: Kept<D>,
    C: Versioned + Rule<D, M>,
    H: Bracket<D, M>,
    W: Rule<D, M>,
{
    /// The converters, in the order in which they run.
    pub closed spec fn converters(&self) -> Seq<C> {
        self.converters@
    }

    /// The walkers by version, each list in registration order.
    pub closed spec fn walkers(&self) -> Map<DataVersion, Seq<W>> {
        self.walkers@
    }

    /// The hooks by version, each list in registration order.
    pub closed spec fn hooks(&self) -> Map<DataVersion, Seq<H>> {
        self.hooks@
    }

    /// The converters stand in ascending order of their versions. This holds of
    /// all rules that exist at run time.
    pub open spec fn ordered(&self) -> bool {
        ascending(versions(self.converters()))
    }

    /// What the plan depends on.
    pub open spec fn shape(&self) -> Shape {
        Shape {
            converters: versions(self.converters()),
            hooks: counts(self.hooks()),
            walkers: counts(self.walkers()),
        }
    }

    /// Whether the call that `step` stands for may turn `before` into `after`.
    pub open spec fn step(
        &self,
        step: Step,
        before: D,
        from: DataVersion,
        to: DataVersion,
        after: D,
    ) -> bool {
        match step {
            Step::PreHook { bucket, index } => self.hooks()[bucket][index].opens(
                before,
                from,
                to,
                after,
            ),
            Step::Convert { index } => self.converters()[index].allows(
                before,
                from,
                to,
                after,
            ),
            Step::PostHook { bucket, index } => self.hooks()[bucket][index].closes(
                before,
                from,
                to,
                after,
            ),
            Step::Walk { bucket, index } => self.walkers()[bucket][index].allows(
                before,
                from,
                to,
                after,
            ),
            Step::WalkForId { .. } => false,
        }
    }

    /// The steps of a call from `from` to `to` as a relation between documents.
    pub open spec fn relation(&self, from: DataVersion, to: DataVersion) -> spec_fn(
        Step,
        D,
        D,
    ) -> bool {
        |step: Step, before: D, after: D| self.step(step, before, from, to, after)
    }

    pub fn new() -> (r: Self)
        ensures
            r.converters() == Seq::<C>::empty(),
            r.walkers() == Map::<DataVersion, Seq<W>>::empty(),
            r.hooks() == Map::<DataVersion, Seq<H>>::empty(),
            r.ordered(),
    {
        Rules {
            converters: SortedList::new(),
            walkers: VersionedList::new(),
            hooks: VersionedList::new(),
            flavour: core::marker::PhantomData,
        }
    }

    /// Registers a converter behind every converter whose version is at most its own.
    pub fn add_converter(&mut self, converter: C)
        ensures
            final(self).converters() == old(self).converters().insert(
                slot(versions(old(self).converters()), converter.version_of()),
                converter,
            ),
            placed(
                versions(old(self).converters()),
                converter.version_of(),
                versions(final(self).converters()),
            ),
            inserted(
                old(self).converters(),
                slot(versions(old(self).converters()), converter.version_of()),
                final(self).converters(),
            ),
            final(self).converters()[slot(
                versions(old(self).converters()),
                converter.version_of(),
            )] == converter,
            final(self).walkers() == old(self).walkers(),
            final(self).hooks() == old(self).hooks(),
            final(self).ordered(),
    {
        let ghost before = self.converters();
        let ghost version = converter.version_of();
        proof {
            crate::sorted::lemma_count_bounded(versions(before), version);
        }
        self.converters.insert(converter);
        proof {
            let place = slot(versions(before), version);
            assert(self.converters()[place] == converter);
            assert(versions(self.converters()) =~= versions(before).insert(place, version));
        }
    }

    /// Registers a walker at the end of the list at `version`.
    pub fn add_walker(&mut self, version: DataVersion, walker: W)
        ensures
            final(self).walkers() == old(self).walkers().insert(
                version,
                if old(self).walkers().contains_key(version) {
                    old(self).walkers()[version].push(walker)
                } else {
                    seq![walker]
                },
            ),
            appended(old(self).walkers(), version, final(self).walkers()),
            final(self).walkers()[version].last() == walker,
            final(self).converters() == old(self).converters(),
            final(self).hooks() == old(self).hooks(),
    {
        self.walkers.push(version, walker);
    }

    /// Registers a hook at the end of the list at `version`.
    pub fn add_hook(&mut self, version: DataVersion, hook: H)
        ensures
            final(self).hooks() == old(self).hooks().insert(
                version,
                if old(self).hooks().contains_key(version) {
                    old(self).hooks()[version].push(hook)
                } else {
                    seq![hook]
                },
            ),
            appended(old(self).hooks(), version, final(self).hooks()),
            final(self).hooks()[version].last() == hook,
            final(self).converters() == old(self).converters(),
            final(self).walkers() == old(self).walkers(),
    {
        self.hooks.push(version, hook);
    }

    /// Runs the pre-hooks in force at `version`, in list order.
    pub fn run_pre_hooks(
        &self,
        version: &DataVersion,
        data: &mut D,
        from_version: DataVersion,
        to_version: DataVersion,
    )
        ensures
            M::alike(*old(data), *final(data)),
            leads(
                self.relation(from_version, to_version),
                hooks_before(self.shape().hooks, *version),
                *old(data),
                *final(data),
            ),
    {
        let ghost rel = self.relation(from_version, to_version);
        let ghost steps = hooks_before(self.shape().hooks, *version);
        proof {
            lemma_counts(self.hooks());
            lemma_leads_nowhere::<Step, D>(rel, *data);
            M::lemma_alike_itself(*data);
        }
        match self.hooks.get_floor(version) {
            Some(list) => {
                let ghost k = self.hooks.floor(*version).unwrap();
                let mut i: usize = 0;
                assert(steps.take(0) =~= Seq::<Step>::empty());
                while i < list.len()
                    invariant
                        i <= list.len(),
                        steps.len() == list.len(),
                        list@ == self.hooks()[k],
                        rel == self.relation(from_version, to_version),
                        forall|j: int|
                            0 <= j < steps.len() ==> #[trigger] steps[j] == (Step::PreHook {
                                bucket: k,
                                index: j,
                            }),
                        M::alike(*old(data), *data),
                        leads(rel, steps.take(i as int), *old(data), *data),
                    decreases list.len() - i,
                {
                    let ghost middle = *data;
                    list[i].open(data, from_version, to_version);
                    proof {
                        M::lemma_alike_onwards(*old(data), middle, *data);
                        assert(rel(steps[i as int], middle, *data));
                        lemma_leads_extend(rel, steps, i as int, *old(data), middle, *data);
                    }
                    i += 1;
                }
                assert(steps.take(i as int) =~= steps);
            },
            None => {},
        }
    }

    /// Runs the post-hooks in force at `version`, in reverse list order.
    pub fn run_post_hooks(
        &self,
        version: &DataVersion,
        data: &mut D,
        from_version: DataVersion,
        to_version: DataVersion,
    )
        ensures
            M::alike(*old(data), *final(data)),
            leads(
                self.relation(from_version, to_version),
                hooks_after(self.shape().hooks, *version),
                *old(data),
                *final(data),
            ),
    {
        let ghost rel = self.relation(from_version, to_version);
        let ghost steps = hooks_after(self.shape().hooks, *version);
        proof {
            lemma_counts(self.hooks());
            lemma_leads_nowhere::<Step, D>(rel, *data);
            M::lemma_alike_itself(*data);
        }
        match self.hooks.get_floor(version) {
            Some(list) => {
                let ghost k = self.hooks.floor(*version).unwrap();
                let mut i: usize = list.len();
                assert(steps.take(0) =~= Seq::<Step>::empty());
                while i > 0
                    invariant
                        i <= list.len(),
                        steps.len() == list.len(),
                        list@ == self.hooks()[k],
                        rel == self.relation(from_version, to_version),
                        forall|j: int|
                            0 <= j < steps.len() ==> #[trigger] steps[j] == (Step::PostHook {
                                bucket: k,
                                index: list.len() - 1 - j,
                            }),
                        M::alike(*old(data), *data),
                        leads(rel, steps.take(list.len() - i), *old(data), *data),
                    decreases i,
                {
                    let ghost middle = *data;
                    i -= 1;
                    list[i].close(data, from_version, to_version);
                    proof {
                        M::lemma_alike_onwards(*old(data), middle, *data);
                        let n = list.len() - 1 - i;
                        assert(rel(steps[n], middle, *data));
                        lemma_leads_extend(rel, steps, n, *old(data), middle, *data);
                    }
                }
                assert(steps.take(list.len() as int) =~= steps);
            },
            None => {},
        }
    }

    /// Runs the walkers in force at `version`, in list order.
    pub fn run_walkers(
        &self,
        version: &DataVersion,
        data: &mut D,
        from_version: DataVersion,
        to_version: DataVersion,
    )
        ensures
            M::alike(*old(data), *final(data)),
            leads(
                self.relation(from_version, to_version),
                walks(self.shape().walkers, *version),
                *old(data),
                *final(data),
            ),
    {
        let ghost rel = self.relation(from_version, to_version);
        let ghost steps = walks(self.shape().walkers, *version);
        proof {
            lemma_counts(self.walkers());
            lemma_leads_nowhere::<Step, D>(rel, *data);
            M::lemma_alike_itself(*data);
        }
        match self.walkers.get_floor(version) {
            Some(list) => {
                let ghost k = self.walkers.floor(*version).unwrap();
                let mut i: usize = 0;
                assert(steps.take(0) =~= Seq::<Step>::empty());
                while i < list.len()
                    invariant
                        i <= list.len(),
                        steps.len() == list.len(),
                        list@ == self.walkers()[k],
                        rel == self.relation(from_version, to_version),
                        forall|j: int|
                            0 <= j < steps.len() ==> #[trigger] steps[j] == (Step::Walk {
                                bucket: k,
                                index: j,
                            }),
                        M::alike(*old(data), *data),
                        leads(rel, steps.take(i as int), *old(data), *data),
                    decreases list.len() - i,
                {
                    let ghost middle = *data;
                    list[i].run(data, from_version, to_version);
                    proof {
                        M::lemma_alike_onwards(*old(data), middle, *data);
                        assert(rel(steps[i as int], middle, *data));
                        lemma_leads_extend(rel, steps, i as int, *old(data), middle, *data);
                    }
                    i += 1;
                }
                assert(steps.take(i as int) =~= steps);
            },
            None => {},
        }
    }

    /// Runs each converter whose version lies in `(from_version, to_version]`, in
    /// list order, between the pre-hooks in force at its version and the
    /// post-hooks in force at `to_version`.
    pub fn run_conversions(
        &self,
        data: &mut D,
        from_version: DataVersion,
        to_version: DataVersion,
    )
        ensures
            self.ordered(),
            M::alike(*old(data), *final(data)),
            leads(
                self.relation(from_version, to_version),
                all_conversions(self.shape(), from_version, to_version),
                *old(data),
                *final(data),
            ),
    {
        let ghost rel = self.relation(from_version, to_version);
        let ghost shape = self.shape();
        let n = self.converters.len();
        let mut i: usize = 0;
        proof {
            lemma_leads_nowhere::<Step, D>(rel, *data);
            M::lemma_alike_itself(*data);
        }
        while i < n
            invariant
                i <= n,
                n == self.converters().len(),
                n == shape.converters.len(),
                shape == self.shape(),
                ascending(shape.converters),
                rel == self.relation(from_version, to_version),
                M::alike(*old(data), *data),
                leads(rel, conversions(shape, i as nat, from_version, to_version), *old(data), *data),
            ensures
                M::alike(*old(data), *data),
                leads(rel, all_conversions(shape, from_version, to_version), *old(data), *data),
            decreases n - i,
        {
            let converter = self.converters.get(i);
            let version = converter.version();
            assert(version == shape.converters[i as int]) by {
                assert(self.converters()[i as int].version_of() == version);
            }
            if version.is_at_most(&from_version) {
                proof {
                    lemma_conversions_skip(shape, i as nat, from_version, to_version);
                }
                i += 1;
                continue ;
            }
            if to_version.is_before(&version) {
                proof {
                    lemma_conversions_stop(shape, i as nat, n as nat, from_version, to_version);
                }
                break ;
            }
            let ghost start = *data;
            let ghost done = conversions(shape, i as nat, from_version, to_version);
            let ghost before = hooks_before(shape.hooks, version);
            let ghost after = hooks_after(shape.hooks, to_version);
            self.run_pre_hooks(&version, data, from_version, to_version);
            let ghost prepared = *data;
            converter.run(data, from_version, to_version);
            let ghost converted = *data;
            self.run_post_hooks(&to_version, data, from_version, to_version);
            proof {
                M::lemma_alike_onwards(*old(data), start, prepared);
                M::lemma_alike_onwards(*old(data), prepared, converted);
                M::lemma_alike_onwards(*old(data), converted, *data);
                assert(rel(Step::Convert { index: i as int }, prepared, converted));
                lemma_leads_push(
                    rel,
                    before,
                    Step::Convert { index: i as int },
                    start,
                    prepared,
                    converted,
                );
                lemma_leads_concat(
                    rel,
                    before.push(Step::Convert { index: i as int }),
                    after,
                    start,
                    converted,
                    *data,
                );
                assert(conversion(shape, i as int, from_version, to_version) == before.push(
                    Step::Convert { index: i as int },
                ) + after);
                lemma_leads_concat(
                    rel,
                    done,
                    conversion(shape, i as int, from_version, to_version),
                    *old(data),
                    start,
                    *data,
                );
            }
            i += 1;
        }
    }

    /// Runs the closing pass at `to_version`: pre-hooks, walkers, post-hooks in reverse.
    pub fn run_closing(
        &self,
        data: &mut D,
        from_version: DataVersion,
        to_version: DataVersion,
    )
        ensures
            M::alike(*old(data), *final(data)),
            leads(
                self.relation(from_version, to_version),
                closing(self.shape(), to_version),
                *old(data),
                *final(data),
            ),
    {
        let ghost rel = self.relation(from_version, to_version);
        let ghost shape = self.shape();
        self.run_pre_hooks(&to_version, data, from_version, to_version);
        let ghost prepared = *data;
        self.run_walkers(&to_version, data, from_version, to_version);
        let ghost walked = *data;
        self.run_post_hooks(&to_version, data, from_version, to_version);
        proof {
            M::lemma_alike_onwards(*old(data), prepared, walked);
            M::lemma_alike_onwards(*old(data), walked, *data);
            lemma_leads_concat(
                rel,
                hooks_before(shape.hooks, to_version),
                walks(shape.walkers, to_version),
                *old(data),
                prepared,
                walked,
            );
            lemma_leads_concat(
                rel,
                hooks_before(shape.hooks, to_version) + walks(shape.walkers, to_version),
                hooks_after(shape.hooks, to_version),
                *old(data),
                walked,
                *data,
            );
        }
    }
}

/// With nothing registered a conversion leaves a document as it is.
pub proof fn law_nothing_registered<D, M, C, H, W>(
    rules: Rules<D, M, C, H, W>,
    before: D,
    from: DataVersion,
    to: DataVersion,
    after: D,
) where M: Kept<D>, C: Versioned + Rule<D, M>, H: Bracket<D, M>, W: Rule<D, M>
    requires
        rules.converters().len() == 0,
        rules.hooks().dom().is_empty(),
        rules.walkers().dom().is_empty(),
    ensures
        leads(rules.relation(from, to), plan(rules.shape(), from, to), before, after) <==> after
            == before,
{
    let shape = rules.shape();
    lemma_counts(rules.hooks());
    lemma_counts(rules.walkers());
    lemma_no_keys(shape.hooks.dom(), to);
    lemma_no_keys(shape.walkers.dom(), to);
    assert(conversions(shape, 0, from, to) =~= Seq::<Step>::empty());
    assert(plan(shape, from, to) =~= Seq::<Step>::empty());
    lemma_leads_nowhere::<Step, D>(rules.relation(from, to), before);
    if leads(rules.relation(from, to), Seq::<Step>::empty(), before, after) {
        lemma_leads_empty::<Step, D>(rules.relation(from, to), before, after);
    }
}

/// A data type that holds one converter and nothing else converts as that
/// converter does, where the converter's version is in range.
pub proof fn law_lone_converter<D, M, C, H, W>(
    rules: Rules<D, M, C, H, W>,
    before: D,
    from: DataVersion,
    to: DataVersion,
    after: D,
) where M: Kept<D>, C: Versioned + Rule<D, M>, H: Bracket<D, M>, W: Rule<D, M>
    requires
        rules.converters().len() == 1,
        rules.hooks().dom().is_empty(),
        rules.walkers().dom().is_empty(),
        in_range(rules.converters()[0].version_of(), from, to),
    ensures
        leads(rules.relation(from, to), plan(rules.shape(), from, to), before, after)
            <==> rules.converters()[0].allows(before, from, to, after),
{
    let shape = rules.shape();
    let rel = rules.relation(from, to);
    let step = Step::Convert { index: 0 };
    lemma_counts(rules.hooks());
    lemma_counts(rules.walkers());
    lemma_no_keys(shape.hooks.dom(), to);
    lemma_no_keys(shape.hooks.dom(), shape.converters[0]);
    lemma_no_keys(shape.walkers.dom(), to);
    assert(conversions(shape, 0, from, to) =~= Seq::<Step>::empty());
    assert(conversion(shape, 0, from, to) =~= seq![step]);
    assert(conversions(shape, 1, from, to) =~= seq![step]);
    assert(plan(shape, from, to) =~= seq![step]);
    lemma_leads_single(rel, step, before, after);
}

proof fn lemma_no_keys(keys: Set<DataVersion>, v: DataVersion)
    requires
        keys.is_empty(),
    ensures
        crate::registry::floor_key(keys, v) is None,
{
    assert forall|k: DataVersion| keys.contains(k) implies !#[trigger] k.at_most(v) by {
        assert(keys.len() == 0);
        if keys.contains(k) {
            assert(keys =~= Set::<DataVersion>::empty());
        }
    }
    crate::registry::lemma_floor_key_none(keys, v);
}

} // verus!
