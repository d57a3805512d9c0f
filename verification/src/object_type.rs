//! The data type for values whose active case stays as it is.

use crate::chain::leads;
use crate::converter::{
    hold_value_converter, lemma_value_converter_runs, ValueDataConverter, ValueDataConverterFunc,
};
use crate::engine::{hooks_as, runs_as, Registered, Rule, Rules};
use crate::hook::{hold_value_hook, lemma_registered_value_hook, ValueDataHook};
use crate::nbt::{value_tag, JValue, SameCase};
use crate::plan::all_conversions;
use crate::registry::{appended, inserted, placed};
use crate::sorted::{slot, versions, Versioned};
use crate::version::DataVersion;
use vstd::prelude::*;

verus! {

/// A data type that converts values whose active case stays as it is.
pub trait AbstractValueDataType {
    /// Whether one call of `convert` may turn `before` into `after`.
    open spec fn converts(
        &self,
        before: JValue,
        from: DataVersion,
        to: DataVersion,
        after: JValue,
    ) -> bool {
        true
    }

    fn convert(&self, data: &mut JValue, from_version: DataVersion, to_version: DataVersion)
        ensures
            value_tag(*final(data)) == value_tag(*old(data)),
            self.converts(*old(data), from_version, to_version, *final(data)),
    ;
}

impl<T: AbstractValueDataType> AbstractValueDataType for &T {
    open spec fn converts(
        &self,
        before: JValue,
        from: DataVersion,
        to: DataVersion,
        after: JValue,
    ) -> bool {
        (**self).converts(before, from, to, after)
    }

    fn convert(&self, data: &mut JValue, from_version: DataVersion, to_version: DataVersion) {
        T::convert(self, data, from_version, to_version)
    }
}

/// The walker of a data type that has none: it leaves a document as it is.
pub struct Unwalked;

impl Rule<JValue, SameCase> for Unwalked {
    open spec fn allows(
        &self,
        before: JValue,
        from: DataVersion,
        to: DataVersion,
        after: JValue,
    ) -> bool {
        after == before
    }

    fn run(&self, data: &mut JValue, from_version: DataVersion, to_version: DataVersion) {
    }
}

/// What a `ObjectDataType` registers into.
pub type ValueRules<'a> = Rules<
    JValue,
    SameCase,
    ValueDataConverter<Registered<Box<dyn ValueDataConverterFunc + 'a>>>,
    Registered<Box<dyn ValueDataHook + 'a>>,
    Unwalked,
>;

/// A data type for values whose active case stays as it is: a named set of converters and hooks.
pub struct ObjectDataType<'a> {
    pub name: String,
    /// What is registered.
    pub rules: ValueRules<'a>,
}

impl<'a> ObjectDataType<'a> {
    /// A data type with the name `name` and nothing registered.
    pub fn named(name: &str) -> (r: Self)
        ensures
            r.name@ == name@,
            r.rules.ordered(),
            r.rules.converters().len() == 0,
            r.rules.walkers().dom().is_empty(),
            r.rules.hooks().dom().is_empty(),
    {
        Self { name: name.to_owned(), rules: Rules::new() }
    }

    /// As `named`, with the name that `name` converts into.
    pub fn new<N: Into<String>>(name: N) -> (r: Self)
        ensures
            call_ensures(N::into, (name,), r.name),
            r.rules.ordered(),
            r.rules.converters().len() == 0,
            r.rules.walkers().dom().is_empty(),
            r.rules.hooks().dom().is_empty(),
    {
        Self { name: name.into(), rules: Rules::new() }
    }

    /// Registers a converter that produces `version`. It runs after every
    /// converter registered so far whose version is at most `version`, and
    /// before those of later versions.
    pub fn add_structure_converter_at(
        &mut self,
        version: DataVersion,
        func: impl ValueDataConverterFunc + 'a,
    )
        ensures
            final(self).name == old(self).name,
            final(self).rules.walkers() == old(self).rules.walkers(),
            final(self).rules.hooks() == old(self).rules.hooks(),
            final(self).rules.ordered(),
            placed(
                versions(old(self).rules.converters()),
                version,
                versions(final(self).rules.converters()),
            ),
            inserted(
                old(self).rules.converters(),
                slot(versions(old(self).rules.converters()), version),
                final(self).rules.converters(),
            ),
            final(self).rules.converters()[slot(
                versions(old(self).rules.converters()),
                version,
            )].version_of() == version,
            runs_as(
                final(self).rules.converters()[slot(
                    versions(old(self).rules.converters()),
                    version,
                )],
                |before: JValue, from: DataVersion, to: DataVersion, after: JValue|
                    func.converts(before, from, to, after),
            ),
    {
        let converter = ValueDataConverter::at(version, hold_value_converter(func));
        proof {
            lemma_value_converter_runs(converter);
        }
        self.rules.add_converter(converter);
    }

    /// As `add_structure_converter_at`, at the version that `version` converts into.
    pub fn add_structure_converter<V: Into<DataVersion>>(
        &mut self,
        version: V,
        func: impl ValueDataConverterFunc + 'a,
    )
        ensures
            final(self).name == old(self).name,
            final(self).rules.walkers() == old(self).rules.walkers(),
            final(self).rules.hooks() == old(self).rules.hooks(),
            final(self).rules.ordered(),
            exists|at: DataVersion| #[trigger]
                call_ensures(V::into, (version,), at) && placed(
                    versions(old(self).rules.converters()),
                    at,
                    versions(final(self).rules.converters()),
                ) && inserted(
                    old(self).rules.converters(),
                    slot(versions(old(self).rules.converters()), at),
                    final(self).rules.converters(),
                ) && runs_as(
                    final(self).rules.converters()[slot(
                        versions(old(self).rules.converters()),
                        at,
                    )],
                    |before: JValue, from: DataVersion, to: DataVersion, after: JValue|
                        func.converts(before, from, to, after),
                ),
    {
        let at = version.into();
        self.add_structure_converter_at(at, func);
        assert(call_ensures(V::into, (version,), at));
    }

    /// Registers a hook at `version`, behind those already registered there.
    pub fn add_structure_hook_at(
        &mut self,
        version: DataVersion,
        value: impl ValueDataHook + 'a,
    )
        ensures
            final(self).name == old(self).name,
            final(self).rules.converters() == old(self).rules.converters(),
            final(self).rules.walkers() == old(self).rules.walkers(),
            appended(
                old(self).rules.hooks(),
                version,
                final(self).rules.hooks(),
            ),
            hooks_as(
                final(self).rules.hooks()[version].last(),
                |before: JValue, from: DataVersion, to: DataVersion, after: JValue|
                    value.pre_hooks(before, from, to, after),
                |before: JValue, from: DataVersion, to: DataVersion, after: JValue|
                    value.post_hooks(before, from, to, after),
            ),
    {
        let stored = hold_value_hook(value);
        proof {
            lemma_registered_value_hook(stored);
        }
        self.rules.add_hook(version, stored);
    }

    /// As `add_structure_hook_at`, at the version that `version` converts into.
    pub fn add_structure_hook<V: Into<DataVersion>>(
        &mut self,
        version: V,
        value: impl ValueDataHook + 'a,
    )
        ensures
            final(self).name == old(self).name,
            final(self).rules.converters() == old(self).rules.converters(),
            final(self).rules.walkers() == old(self).rules.walkers(),
            exists|at: DataVersion| #[trigger]
                call_ensures(V::into, (version,), at) && appended(
                    old(self).rules.hooks(),
                    at,
                    final(self).rules.hooks(),
                ) && hooks_as(
                    final(self).rules.hooks()[at].last(),
                    |before: JValue, from: DataVersion, to: DataVersion, after: JValue|
                        value.pre_hooks(before, from, to, after),
                    |before: JValue, from: DataVersion, to: DataVersion, after: JValue|
                        value.post_hooks(before, from, to, after),
                ),
    {
        let at = version.into();
        self.add_structure_hook_at(at, value);
        assert(call_ensures(V::into, (version,), at));
    }
}

impl<'a> AbstractValueDataType for ObjectDataType<'a> {
    /// The document is taken through the plan: each converter whose version lies
    /// in `(from, to]`, in list order, which is the order of the versions, and
    /// between its hooks. There is no closing pass: a value of this kind has
    /// nothing nested to walk.
    open spec fn converts(
        &self,
        before: JValue,
        from: DataVersion,
        to: DataVersion,
        after: JValue,
    ) -> bool {
        &&& self.rules.ordered()
        &&& leads(
            self.rules.relation(from, to),
            all_conversions(self.rules.shape(), from, to),
            before,
            after,
        )
    }

    fn convert(&self, data: &mut JValue, from_version: DataVersion, to_version: DataVersion) {
        self.rules.run_conversions(data, from_version, to_version);
    }
}

} // verus!
