//! The data type for compounds that carry a discriminator: besides what every
//! data type for compounds has, it holds walkers that run only for documents
//! whose `"id"` field has a given value.

use crate::chain::{
    leads, lemma_leads_concat, lemma_leads_extend, lemma_leads_nowhere, lemma_leads_transfer,
};
use crate::converter::{
    hold_map_converter, lemma_map_converter_runs, MapDataConverter, MapDataConverterFunc,
};
use crate::engine::{hooks_as, runs_as, Registered, Rule, Rules};
use crate::hook::{hold_map_hook, lemma_registered_map_hook, MapDataHook};
use crate::id_table::{append_shared, clone_shared, extended, lists_of, IdTable};
use crate::map_type::{AbstractMapDataType, MapRules};
use crate::nbt::{
    compound_entries, compound_get, java_string_eq, java_string_from_str, java_string_of, JCompound,
};
use crate::plan::{all_conversions, hooks_after, hooks_before, opening, walks, walks_for_id, Step};
use crate::registry::{appended, counts, floor_key, inserted, lemma_counts, placed};
use crate::sorted::{slot, versions, Versioned};
use crate::version::DataVersion;
use crate::walker::{
    hold_map_walker, lemma_registered_map_walker, lemma_shared_map_walker, MapDataWalker,
};
use java_string::JavaString;
use std::rc::Rc;
use vstd::prelude::*;

verus! {

/// A walker as the discriminator table holds it: shared, so that one walker can
/// stand under several discriminator values.
pub type SharedMapWalker<'a> = Rc<Registered<Box<dyn MapDataWalker + 'a>>>;

/// The discriminator of a document: the string under `"id"`, if there is one.
pub open spec fn id_of(data: JCompound) -> Option<JavaString> {
    match compound_entries(data).get(java_string_of("id"@)) {
        Some(valence_nbt::Value::String(id)) => Some(id),
        _ => None,
    }
}

/// Reads the discriminator of a document.
pub fn get_id<'d>(data: &'d JCompound) -> (r: Option<&'d JavaString>)
    ensures
        match r {
            Some(id) => id_of(*data) == Some(*id),
            None => id_of(*data) is None,
        },
{
    let key = java_string_from_str("id");
    match compound_get(data, &key) {
        Some(value) => match value {
            valence_nbt::Value::String(id) => Some(id),
            _ => None,
        },
        None => None,
    }
}

/// A converter that works only on documents with one discriminator value and
/// leaves every other document as it is.
pub struct ForId<F: MapDataConverterFunc> {
    id: JavaString,
    inner: F,
}

impl<F: MapDataConverterFunc> ForId<F> {
    /// The discriminator value that the converter works on.
    pub closed spec fn id(&self) -> JavaString {
        self.id
    }

    /// The converter that does the work.
    pub closed spec fn inner(&self) -> F {
        self.inner
    }

    pub fn new(id: JavaString, inner: F) -> (r: Self)
        ensures
            r.id() == id,
            r.inner() == inner,
    {
        ForId { id, inner }
    }
}

impl<F: MapDataConverterFunc> MapDataConverterFunc for ForId<F> {
    open spec fn converts(
        &self,
        before: JCompound,
        from: DataVersion,
        to: DataVersion,
        after: JCompound,
    ) -> bool {
        if id_of(before) == Some(self.id()) {
            self.inner().converts(before, from, to, after)
        } else {
            after == before
        }
    }

    fn convert(&self, data: &mut JCompound, from_version: DataVersion, to_version: DataVersion) {
        let matches = match get_id(data) {
            Some(id) => java_string_eq(id, &self.id),
            None => false,
        };
        if matches {
            self.inner.convert(data, from_version, to_version);
        }
    }
}

/// A data type for compounds with a discriminator: a named set of converters,
/// hooks and walkers, and walkers by discriminator value.
pub struct IdDataType<'a> {
    pub name: String,
    /// What is registered for every document.
    pub rules: MapRules<'a>,
    /// The walkers registered for documents with one discriminator value.
    pub walkers_by_id: IdTable<SharedMapWalker<'a>>,
}

impl<'a> IdDataType<'a> {
    /// Whether the call that `step` stands for may turn `before` into `after`.
    pub open spec fn step(
        &self,
        step: Step,
        before: JCompound,
        from: DataVersion,
        to: DataVersion,
        after: JCompound,
    ) -> bool {
        match step {
            Step::WalkForId { id, bucket, index } => self.walkers_by_id@[id][bucket][index].allows(
                before,
                from,
                to,
                after,
            ),
            _ => self.rules.step(step, before, from, to, after),
        }
    }

    /// The steps of a call from `from` to `to` as a relation between documents.
    pub open spec fn relation(&self, from: DataVersion, to: DataVersion) -> spec_fn(
        Step,
        JCompound,
        JCompound,
    ) -> bool {
        |step: Step, before: JCompound, after: JCompound| self.step(step, before, from, to, after)
    }

    /// The walkers that run for the document `data` because of its discriminator:
    /// those registered for its value that are in force at `to`; none where the
    /// document has no discriminator or nothing is registered for it.
    pub open spec fn dispatch(&self, data: JCompound, to: DataVersion) -> Seq<Step> {
        match id_of(data) {
            Some(id) => if self.walkers_by_id@.contains_key(id) {
                walks_for_id(id, counts(self.walkers_by_id@[id]), to)
            } else {
                Seq::empty()
            },
            None => Seq::empty(),
        }
    }

    /// A data type with the name `name` and nothing registered.
    pub fn named(name: &str) -> (r: Self)
        ensures
            r.name@ == name@,
            r.rules.ordered(),
            r.rules.converters().len() == 0,
            r.rules.walkers().dom().is_empty(),
            r.rules.hooks().dom().is_empty(),
            r.walkers_by_id@.dom().is_empty(),
    {
        Self { name: name.to_owned(), rules: Rules::new(), walkers_by_id: IdTable::new() }
    }

    /// As `named`, with the name that `name` converts into.
    pub fn new<N: Into<String>>(name: N) -> (r: Self)
        ensures
            call_ensures(N::into, (name,), r.name),
            r.rules.ordered(),
            r.rules.converters().len() == 0,
            r.rules.walkers().dom().is_empty(),
            r.rules.hooks().dom().is_empty(),
            r.walkers_by_id@.dom().is_empty(),
    {
        Self { name: name.into(), rules: Rules::new(), walkers_by_id: IdTable::new() }
    }

    /// Registers a converter that produces `version`. It runs after every
    /// converter registered so far whose version is at most `version`, and
    /// before those of later versions.
    pub fn add_structure_converter_at(
        &mut self,
        version: DataVersion,
        func: impl MapDataConverterFunc + 'a,
    )
        ensures
            final(self).name == old(self).name,
            final(self).rules.walkers() == old(self).rules.walkers(),
            final(self).rules.hooks() == old(self).rules.hooks(),
            final(self).walkers_by_id == old(self).walkers_by_id,
            final(self).rules.ordered(),
            placed(
                versions(old(self).rules.converters()),
                version,
                versions(final(self).rules.converters()),
            ),
            inserted(
                old(self).rules.converters(),
                slot(versions(old(self).rules.converters()), version),
                final(self).rules.converters(),
            ),
            final(self).rules.converters()[slot(
                versions(old(self).rules.converters()),
                version,
            )].version_of() == version,
            runs_as(
                final(self).rules.converters()[slot(
                    versions(old(self).rules.converters()),
                    version,
                )],
                |before: JCompound, from: DataVersion, to: DataVersion, after: JCompound|
                    func.converts(before, from, to, after),
            ),
    {
        let converter = MapDataConverter::at(version, hold_map_converter(func));
        proof {
            lemma_map_converter_runs(converter);
        }
        self.rules.add_converter(converter);
    }

    /// As `add_structure_converter_at`, at the version that `version` converts into.
    pub fn add_structure_converter<V: Into<DataVersion>>(
        &mut self,
        version: V,
        func: impl MapDataConverterFunc + 'a,
    )
        ensures
            final(self).name == old(self).name,
            final(self).rules.walkers() == old(self).rules.walkers(),
            final(self).rules.hooks() == old(self).rules.hooks(),
            final(self).walkers_by_id == old(self).walkers_by_id,
            final(self).rules.ordered(),
            exists|at: DataVersion| #[trigger]
                call_ensures(V::into, (version,), at) && placed(
                    versions(old(self).rules.converters()),
                    at,
                    versions(final(self).rules.converters()),
                ) && inserted(
                    old(self).rules.converters(),
                    slot(versions(old(self).rules.converters()), at),
                    final(self).rules.converters(),
                ) && runs_as(
                    final(self).rules.converters()[slot(
                        versions(old(self).rules.converters()),
                        at,
                    )],
                    |before: JCompound, from: DataVersion, to: DataVersion, after: JCompound|
                        func.converts(before, from, to, after),
                ),
    {
        let at = version.into();
        self.add_structure_converter_at(at, func);
        assert(call_ensures(V::into, (version,), at));
    }

    /// Registers a walker at `version`, behind those already registered there.
    pub fn add_structure_walker_at(
        &mut self,
        version: DataVersion,
        value: impl MapDataWalker + 'a,
    )
        ensures
            final(self).name == old(self).name,
            final(self).rules.converters() == old(self).rules.converters(),
            final(self).rules.hooks() == old(self).rules.hooks(),
            final(self).walkers_by_id == old(self).walkers_by_id,
            appended(
                old(self).rules.walkers(),
                version,
                final(self).rules.walkers(),
            ),
            runs_as(
                final(self).rules.walkers()[version].last(),
                |before: JCompound, from: DataVersion, to: DataVersion, after: JCompound|
                    value.walks(before, from, to, after),
            ),
    {
        let stored = hold_map_walker(value);
        proof {
            lemma_registered_map_walker(stored);
        }
        self.rules.add_walker(version, stored);
    }

    /// As `add_structure_walker_at`, at the version that `version` converts into.
    pub fn add_structure_walker<V: Into<DataVersion>>(
        &mut self,
        version: V,
        value: impl MapDataWalker + 'a,
    )
        ensures
            final(self).name == old(self).name,
            final(self).rules.converters() == old(self).rules.converters(),
            final(self).rules.hooks() == old(self).rules.hooks(),
            final(self).walkers_by_id == old(self).walkers_by_id,
            exists|at: DataVersion| #[trigger]
                call_ensures(V::into, (version,), at) && appended(
                    old(self).rules.walkers(),
                    at,
                    final(self).rules.walkers(),
                ) && runs_as(
                    final(self).rules.walkers()[at].last(),
                    |before: JCompound, from: DataVersion, to: DataVersion, after: JCompound|
                        value.walks(before, from, to, after),
                ),
    {
        let at = version.into();
        self.add_structure_walker_at(at, value);
        assert(call_ensures(V::into, (version,), at));
    }

    /// Registers a hook at `version`, behind those already registered there.
    pub fn add_structure_hook_at(
        &mut self,
        version: DataVersion,
        value: impl MapDataHook + 'a,
    )
        ensures
            final(self).name == old(self).name,
            final(self).rules.converters() == old(self).rules.converters(),
            final(self).rules.walkers() == old(self).rules.walkers(),
            final(self).walkers_by_id == old(self).walkers_by_id,
            appended(
                old(self).rules.hooks(),
                version,
                final(self).rules.hooks(),
            ),
            hooks_as(
                final(self).rules.hooks()[version].last(),
                |before: JCompound, from: DataVersion, to: DataVersion, after: JCompound|
                    value.pre_hooks(before, from, to, after),
                |before: JCompound, from: DataVersion, to: DataVersion, after: JCompound|
                    value.post_hooks(before, from, to, after),
            ),
    {
        let stored = hold_map_hook(value);
        proof {
            lemma_registered_map_hook(stored);
        }
        self.rules.add_hook(version, stored);
    }

    /// As `add_structure_hook_at`, at the version that `version` converts into.
    pub fn add_structure_hook<V: Into<DataVersion>>(
        &mut self,
        version: V,
        value: impl MapDataHook + 'a,
    )
        ensures
            final(self).name == old(self).name,
            final(self).rules.converters() == old(self).rules.converters(),
            final(self).rules.walkers() == old(self).rules.walkers(),
            final(self).walkers_by_id == old(self).walkers_by_id,
            exists|at: DataVersion| #[trigger]
                call_ensures(V::into, (version,), at) && appended(
                    old(self).rules.hooks(),
                    at,
                    final(self).rules.hooks(),
                ) && hooks_as(
                    final(self).rules.hooks()[at].last(),
                    |before: JCompound, from: DataVersion, to: DataVersion, after: JCompound|
                        value.pre_hooks(before, from, to, after),
                    |before: JCompound, from: DataVersion, to: DataVersion, after: JCompound|
                        value.post_hooks(before, from, to, after),
                ),
    {
        let at = version.into();
        self.add_structure_hook_at(at, value);
        assert(call_ensures(V::into, (version,), at));
    }

    /// Registers a converter that produces `version` and works only on documents
    /// whose discriminator is `id`. It takes its place among the converters as
    /// every converter does.
    pub fn add_converter_for_id_at(
        &mut self,
        id: &str,
        version: DataVersion,
        converter_func: impl MapDataConverterFunc + 'a,
    )
        ensures
            final(self).name == old(self).name,
            final(self).rules.walkers() == old(self).rules.walkers(),
            final(self).rules.hooks() == old(self).rules.hooks(),
            final(self).walkers_by_id == old(self).walkers_by_id,
            final(self).rules.ordered(),
            placed(
                versions(old(self).rules.converters()),
                version,
                versions(final(self).rules.converters()),
            ),
            inserted(
                old(self).rules.converters(),
                slot(versions(old(self).rules.converters()), version),
                final(self).rules.converters(),
            ),
            final(self).rules.converters()[slot(
                versions(old(self).rules.converters()),
                version,
            )].version_of() == version,
            runs_as(
                final(self).rules.converters()[slot(
                    versions(old(self).rules.converters()),
                    version,
                )],
                |before: JCompound, from: DataVersion, to: DataVersion, after: JCompound|
                    if id_of(before) == Some(java_string_of(id@)) {
                        converter_func.converts(before, from, to, after)
                    } else {
                        after == before
                    },
            ),
    {
        let guarded = ForId::new(java_string_from_str(id), converter_func);
        self.add_structure_converter_at(version, guarded);
    }

    /// As `add_converter_for_id_at`, at the version that `version` converts into.
    pub fn add_converter_for_id<V: Into<DataVersion>>(
        &mut self,
        id: &str,
        version: V,
        converter_func: impl MapDataConverterFunc + 'a,
    )
        ensures
            final(self).name == old(self).name,
            final(self).rules.walkers() == old(self).rules.walkers(),
            final(self).rules.hooks() == old(self).rules.hooks(),
            final(self).walkers_by_id == old(self).walkers_by_id,
            final(self).rules.ordered(),
            exists|at: DataVersion| #[trigger]
                call_ensures(V::into, (version,), at) && placed(
                    versions(old(self).rules.converters()),
                    at,
                    versions(final(self).rules.converters()),
                ) && inserted(
                    old(self).rules.converters(),
                    slot(versions(old(self).rules.converters()), at),
                    final(self).rules.converters(),
                ) && runs_as(
                    final(self).rules.converters()[slot(
                        versions(old(self).rules.converters()),
                        at,
                    )],
                    |before: JCompound, from: DataVersion, to: DataVersion, after: JCompound|
                        if id_of(before) == Some(java_string_of(id@)) {
                            converter_func.converts(before, from, to, after)
                        } else {
                            after == before
                        },
                ),
    {
        let at = version.into();
        self.add_converter_for_id_at(id, at, converter_func);
        assert(call_ensures(V::into, (version,), at));
    }

    /// Registers a walker for documents whose discriminator is `id`, at `version`,
    /// behind those already registered there. What is registered for other
    /// discriminator values stays as it is.
    pub fn add_walker_for_id_at(
        &mut self,
        version: DataVersion,
        id: &str,
        walker: impl MapDataWalker + 'a,
    )
        ensures
            final(self).name == old(self).name,
            final(self).rules == old(self).rules,
            final(self).walkers_by_id@.contains_key(java_string_of(id@)),
            final(self).walkers_by_id@ == old(self).walkers_by_id@.insert(
                java_string_of(id@),
                final(self).walkers_by_id@[java_string_of(id@)],
            ),
            appended(
                lists_of(old(self).walkers_by_id@, java_string_of(id@)),
                version,
                final(self).walkers_by_id@[java_string_of(id@)],
            ),
            runs_as(
                final(self).walkers_by_id@[java_string_of(id@)][version].last(),
                |before: JCompound, from: DataVersion, to: DataVersion, after: JCompound|
                    walker.walks(before, from, to, after),
            ),
    {
        let key = java_string_from_str(id);
        let shared = Rc::new(hold_map_walker(walker));
        proof {
            lemma_shared_map_walker(shared);
        }
        self.walkers_by_id.push(&key, version, shared);
    }

    /// As `add_walker_for_id_at`, at the version that `version` converts into.
    pub fn add_walker_for_id<V: Into<DataVersion>>(
        &mut self,
        version: V,
        id: &str,
        walker: impl MapDataWalker + 'a,
    )
        ensures
            final(self).name == old(self).name,
            final(self).rules == old(self).rules,
            final(self).walkers_by_id@.contains_key(java_string_of(id@)),
            final(self).walkers_by_id@ == old(self).walkers_by_id@.insert(
                java_string_of(id@),
                final(self).walkers_by_id@[java_string_of(id@)],
            ),
            exists|at: DataVersion| #[trigger]
                call_ensures(V::into, (version,), at) && appended(
                    lists_of(old(self).walkers_by_id@, java_string_of(id@)),
                    at,
                    final(self).walkers_by_id@[java_string_of(id@)],
                ) && runs_as(
                    final(self).walkers_by_id@[java_string_of(id@)][at].last(),
                    |before: JCompound, from: DataVersion, to: DataVersion, after: JCompound|
                        walker.walks(before, from, to, after),
                ),
    {
        let at = version.into();
        self.add_walker_for_id_at(at, id, walker);
        assert(call_ensures(V::into, (version,), at));
    }

    /// Gives the walkers that are in force for `from_id` at `version` to `to_id`
    /// as well: they are added, in order, at the end of the list of `to_id` at
    /// `version`. The walkers are shared, not copied. Where none is in force for
    /// `from_id` at `version`, nothing changes.
    pub fn copy_walkers_at(&mut self, version: DataVersion, from_id: &str, to_id: &str)
        ensures
            final(self).name == old(self).name,
            final(self).rules == old(self).rules,
            extended(
                old(self).walkers_by_id@,
                java_string_of(to_id@),
                version,
                in_force_for(old(self).walkers_by_id@, java_string_of(from_id@), version),
                final(self).walkers_by_id@,
            ),
    {
        let from_key = java_string_from_str(from_id);
        let to_key = java_string_from_str(to_id);
        let copies: Vec<SharedMapWalker<'a>> = match self.walkers_by_id.get(&from_key) {
            Some(lists) => match lists.get_floor(&version) {
                Some(list) => clone_shared(list),
                None => Vec::new(),
            },
            None => Vec::new(),
        };
        append_shared(&mut self.walkers_by_id, &to_key, version, &copies);
    }

    /// As `copy_walkers_at`, at the version that `version` converts into.
    pub fn copy_walkers<V: Into<DataVersion>>(&mut self, version: V, from_id: &str, to_id: &str)
        ensures
            final(self).name == old(self).name,
            final(self).rules == old(self).rules,
            exists|at: DataVersion| #[trigger]
                call_ensures(V::into, (version,), at) && extended(
                    old(self).walkers_by_id@,
                    java_string_of(to_id@),
                    at,
                    in_force_for(old(self).walkers_by_id@, java_string_of(from_id@), at),
                    final(self).walkers_by_id@,
                ),
    {
        let at = version.into();
        self.copy_walkers_at(at, from_id, to_id);
        assert(call_ensures(V::into, (version,), at));
    }
}

/// The items in force for `id` at `v`: those under the greatest key at or below
/// `v` among the lists of `id`; none where `id` has no such list.
pub open spec fn in_force_for<T>(
    table: Map<JavaString, Map<DataVersion, Seq<T>>>,
    id: JavaString,
    v: DataVersion,
) -> Seq<T> {
    match floor_key(lists_of(table, id).dom(), v) {
        Some(k) => lists_of(table, id)[k],
        None => Seq::empty(),
    }
}

impl<'a> AbstractMapDataType for IdDataType<'a> {
    /// The document is taken through every converter whose version lies in
    /// `(from, to]`, in list order, which is the order of the versions, and
    /// between its hooks, then through the
    /// pre-hooks and the walkers in force at `to`. The document that this gives
    /// decides the dispatch: the walkers registered for its discriminator run
    /// next, and the post-hooks in force at `to` close the pass.
    open spec fn converts(
        &self,
        before: JCompound,
        from: DataVersion,
        to: DataVersion,
        after: JCompound,
    ) -> bool {
        self.rules.ordered() && exists|middle: JCompound|
            {
                &&& #[trigger] leads(
                    self.relation(from, to),
                    opening(self.rules.shape(), from, to),
                    before,
                    middle,
                )
                &&& leads(
                    self.relation(from, to),
                    self.dispatch(middle, to) + hooks_after(self.rules.shape().hooks, to),
                    middle,
                    after,
                )
            }
    }

    fn convert(&self, data: &mut JCompound, from_version: DataVersion, to_version: DataVersion) {
        let ghost rel = self.relation(from_version, to_version);
        let ghost inner = self.rules.relation(from_version, to_version);
        let ghost shape = self.rules.shape();
        assert forall|step: Step, x: JCompound, y: JCompound| #[trigger] inner(step, x, y) implies rel(
            step,
            x,
            y,
        ) by {
            assert(self.rules.step(step, x, from_version, to_version, y));
        }
        self.rules.run_conversions(data, from_version, to_version);
        let ghost converted = *data;
        self.rules.run_pre_hooks(&to_version, data, from_version, to_version);
        let ghost prepared = *data;
        self.rules.run_walkers(&to_version, data, from_version, to_version);
        let ghost middle = *data;
        proof {
            lemma_leads_concat(
                inner,
                all_conversions(shape, from_version, to_version),
                hooks_before(shape.hooks, to_version),
                *old(data),
                converted,
                prepared,
            );
            lemma_leads_concat(
                inner,
                all_conversions(shape, from_version, to_version) + hooks_before(
                    shape.hooks,
                    to_version,
                ),
                walks(shape.walkers, to_version),
                *old(data),
                prepared,
                middle,
            );
            lemma_leads_transfer(
                inner,
                rel,
                opening(shape, from_version, to_version),
                *old(data),
                middle,
            );
        }
        let ghost steps = self.dispatch(middle, to_version);
        let found: Option<&Vec<SharedMapWalker<'a>>> = match get_id(data) {
            Some(id) => match self.walkers_by_id.get(id) {
                Some(lists) => {
                    proof {
                        lemma_counts(lists@);
                    }
                    lists.get_floor(&to_version)
                },
                None => None,
            },
            None => None,
        };
        proof {
            lemma_leads_nowhere::<Step, JCompound>(rel, middle);
        }
        match found {
            Some(list) => {
                let ghost id = id_of(middle).unwrap();
                let ghost k = floor_key(self.walkers_by_id@[id].dom(), to_version).unwrap();
                let mut i: usize = 0;
                assert(steps.take(0) =~= Seq::<Step>::empty());
                while i < list.len()
                    invariant
                        i <= list.len(),
                        steps.len() == list.len(),
                        self.walkers_by_id@.contains_key(id),
                        self.walkers_by_id@[id].contains_key(k),
                        list@ == self.walkers_by_id@[id][k],
                        rel == self.relation(from_version, to_version),
                        forall|j: int|
                            0 <= j < steps.len() ==> #[trigger] steps[j] == (Step::WalkForId {
                                id,
                                bucket: k,
                                index: j,
                            }),
                        leads(rel, steps.take(i as int), middle, *data),
                    decreases list.len() - i,
                {
                    let ghost at = *data;
                    list[i].run(data, from_version, to_version);
                    proof {
                        assert(rel(steps[i as int], at, *data));
                        lemma_leads_extend(rel, steps, i as int, middle, at, *data);
                    }
                    i += 1;
                }
                assert(steps.take(i as int) =~= steps);
            },
            None => {
                assert(steps =~= Seq::<Step>::empty());
            },
        }
        let ghost walked = *data;
        self.rules.run_post_hooks(&to_version, data, from_version, to_version);
        proof {
            lemma_leads_transfer(
                inner,
                rel,
                hooks_after(shape.hooks, to_version),
                walked,
                *data,
            );
            lemma_leads_concat(
                rel,
                steps,
                hooks_after(shape.hooks, to_version),
                middle,
                walked,
                *data,
            );
        }
    }
}

/// Dispatch goes by the discriminator: every walker that runs for a document
/// because of its discriminator is registered for the value that the document
/// has under `"id"`. A document without a string there has no such walker.
pub proof fn law_dispatch_by_id<'a>(typ: IdDataType<'a>, data: JCompound, to: DataVersion, p: int)
    requires
        0 <= p < typ.dispatch(data, to).len(),
    ensures
        typ.dispatch(data, to)[p] is WalkForId,
        id_of(data) == Some(typ.dispatch(data, to)[p]->WalkForId_id),
{
}

/// Isolation: where two data types differ only in what is registered for `id`,
/// a document with another discriminator, or with none, has the same dispatch
/// in both.
pub proof fn law_dispatch_elsewhere<'a>(
    before: IdDataType<'a>,
    after: IdDataType<'a>,
    id: JavaString,
    data: JCompound,
    to: DataVersion,
)
    requires
        forall|other: JavaString|
            other != id ==> #[trigger] lists_of(after.walkers_by_id@, other) == lists_of(
                before.walkers_by_id@,
                other,
            ),
        id_of(data) != Some(id),
    ensures
        after.dispatch(data, to) == before.dispatch(data, to),
{
    match id_of(data) {
        Some(other) => {
            let a = lists_of(before.walkers_by_id@, other);
            let b = lists_of(after.walkers_by_id@, other);
            assert(a == b);
            lemma_counts(a);
            lemma_counts(Map::<DataVersion, Seq<SharedMapWalker<'a>>>::empty());
            crate::registry::lemma_floor_key_none(
                Map::<DataVersion, Seq<SharedMapWalker<'a>>>::empty().dom(),
                to,
            );
            assert(walks_for_id(other, counts(a), to) == walks_for_id(other, counts(b), to));
        },
        None => {},
    }
}

/// Reach: a document whose discriminator is `id` is walked by the walkers that
/// are registered for `id` under the key in force at `to`, each once and in
/// list order.
pub proof fn law_dispatch_reaches<'a>(
    typ: IdDataType<'a>,
    data: JCompound,
    to: DataVersion,
    id: JavaString,
    at: DataVersion,
)
    requires
        id_of(data) == Some(id),
        typ.walkers_by_id@.contains_key(id),
        floor_key(typ.walkers_by_id@[id].dom(), to) == Some(at),
    ensures
        typ.dispatch(data, to).len() == typ.walkers_by_id@[id][at].len(),
        forall|i: int|
            0 <= i < typ.dispatch(data, to).len() ==> #[trigger] typ.dispatch(data, to)[i]
                == (Step::WalkForId { id, bucket: at, index: i }),
{
    lemma_counts(typ.walkers_by_id@[id]);
}

} // verus!
