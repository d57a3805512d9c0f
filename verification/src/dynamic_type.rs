//! The data type for values of any shape.

use crate::chain::{leads, lemma_leads_concat};
use crate::converter::{
    hold_dynamic_converter, lemma_dynamic_converter_runs, DynamicDataConverter,
    DynamicDataConverterFunc,
};
use crate::engine::{hooks_as, runs_as, Anything, Registered, Rules};
use crate::hook::{hold_dynamic_hook, lemma_registered_dynamic_hook, DynamicDataHook};
use crate::nbt::JValue;
use crate::plan::{all_conversions, closing, plan};
use crate::registry::{appended, inserted, placed};
use crate::sorted::{slot, versions, Versioned};
use crate::version::DataVersion;
use crate::walker::{hold_dynamic_walker, lemma_registered_dynamic_walker, DynamicDataWalker};
use vstd::prelude::*;

verus! {

/// A data type that converts values of any shape.
pub trait AbstractDynamicDataType {
    /// Whether one call of `convert` may turn `before` into `after`.
    open spec fn converts(
        &self,
        before: JValue,
        from: DataVersion,
        to: DataVersion,
        after: JValue,
    ) -> bool {
        true
    }

    fn convert(&self, data: &mut JValue, from_version: DataVersion, to_version: DataVersion)
        ensures
            self.converts(*old(data), from_version, to_version, *final(data)),
    ;
}

impl<T: AbstractDynamicDataType> AbstractDynamicDataType for &T {
    open spec fn converts(
        &self,
        before: JValue,
        from: DataVersion,
        to: DataVersion,
        after: JValue,
    ) -> bool {
        (**self).converts(before, from, to, after)
    }

    fn convert(&self, data: &mut JValue, from_version: DataVersion, to_version: DataVersion) {
        T::convert(self, data, from_version, to_version)
    }
}

/// What a `DynamicDataType` registers into.
pub type DynamicRules<'a> = Rules<
    JValue,
    Anything,
    DynamicDataConverter<Registered<Box<dyn DynamicDataConverterFunc + 'a>>>,
    Registered<Box<dyn DynamicDataHook + 'a>>,
    Registered<Box<dyn DynamicDataWalker + 'a>>,
>;

/// A data type for values of any shape: a named set of converters, hooks and walkers.
pub struct DynamicDataType<'a> {
    pub name: String,
    /// What is registered.
    pub rules: DynamicRules<'a>,
}

impl<'a> DynamicDataType<'a> {
    /// A data type with the name `name` and nothing registered.
    pub fn named(name: &str) -> (r: Self)
        ensures
            r.name@ == name@,
            r.rules.ordered(),
            r.rules.converters().len() == 0,
            r.rules.walkers().dom().is_empty(),
            r.rules.hooks().dom().is_empty(),
    {
        Self { name: name.to_owned(), rules: Rules::new() }
    }

    /// As `named`, with the name that `name` converts into.
    pub fn new<N: Into<String>>(name: N) -> (r: Self)
        ensures
            call_ensures(N::into, (name,), r.name),
            r.rules.ordered(),
            r.rules.converters().len() == 0,
            r.rules.walkers().dom().is_empty(),
            r.rules.hooks().dom().is_empty(),
    {
        Self { name: name.into(), rules: Rules::new() }
    }

    /// Registers a converter that produces `version`. It runs after every
    /// converter registered so far whose version is at most `version`, and
    /// before those of later versions.
    pub fn add_structure_converter_at(
        &mut self,
        version: DataVersion,
        func: impl DynamicDataConverterFunc + 'a,
    )
        ensures
            final(self).name == old(self).name,
            final(self).rules.walkers() == old(self).rules.walkers(),
            final(self).rules.hooks() == old(self).rules.hooks(),
            final(self).rules.ordered(),
            placed(
                versions(old(self).rules.converters()),
                version,
                versions(final(self).rules.converters()),
            ),
            inserted(
                old(self).rules.converters(),
                slot(versions(old(self).rules.converters()), version),
                final(self).rules.converters(),
            ),
            final(self).rules.converters()[slot(
                versions(old(self).rules.converters()),
                version,
            )].version_of() == version,
            runs_as(
                final(self).rules.converters()[slot(
                    versions(old(self).rules.converters()),
                    version,
                )],
                |before: JValue, from: DataVersion, to: DataVersion, after: JValue|
                    func.converts(before, from, to, after),
            ),
    {
        let converter = DynamicDataConverter::at(version, hold_dynamic_converter(func));
        proof {
            lemma_dynamic_converter_runs(converter);
        }
        self.rules.add_converter(converter);
    }

    /// As `add_structure_converter_at`, at the version that `version` converts into.
    pub fn add_structure_converter<V: Into<DataVersion>>(
        &mut self,
        version: V,
        func: impl DynamicDataConverterFunc + 'a,
    )
        ensures
            final(self).name == old(self).name,
            final(self).rules.walkers() == old(self).rules.walkers(),
            final(self).rules.hooks() == old(self).rules.hooks(),
            final(self).rules.ordered(),
            exists|at: DataVersion| #[trigger]
                call_ensures(V::into, (version,), at) && placed(
                    versions(old(self).rules.converters()),
                    at,
                    versions(final(self).rules.converters()),
                ) && inserted(
                    old(self).rules.converters(),
                    slot(versions(old(self).rules.converters()), at),
                    final(self).rules.converters(),
                ) && runs_as(
                    final(self).rules.converters()[slot(
                        versions(old(self).rules.converters()),
                        at,
                    )],
                    |before: JValue, from: DataVersion, to: DataVersion, after: JValue|
                        func.converts(before, from, to, after),
                ),
    {
        let at = version.into();
        self.add_structure_converter_at(at, func);
        assert(call_ensures(V::into, (version,), at));
    }

    /// Registers a walker at `version`, behind those already registered there.
    pub fn add_structure_walker_at(
        &mut self,
        version: DataVersion,
        value: impl DynamicDataWalker + 'a,
    )
        ensures
            final(self).name == old(self).name,
            final(self).rules.converters() == old(self).rules.converters(),
            final(self).rules.hooks() == old(self).rules.hooks(),
            appended(
                old(self).rules.walkers(),
                version,
                final(self).rules.walkers(),
            ),
            runs_as(
                final(self).rules.walkers()[version].last(),
                |before: JValue, from: DataVersion, to: DataVersion, after: JValue|
                    value.walks(before, from, to, after),
            ),
    {
        let stored = hold_dynamic_walker(value);
        proof {
            lemma_registered_dynamic_walker(stored);
        }
        self.rules.add_walker(version, stored);
    }

    /// As `add_structure_walker_at`, at the version that `version` converts into.
    pub fn add_structure_walker<V: Into<DataVersion>>(
        &mut self,
        version: V,
        value: impl DynamicDataWalker + 'a,
    )
        ensures
            final(self).name == old(self).name,
            final(self).rules.converters() == old(self).rules.converters(),
            final(self).rules.hooks() == old(self).rules.hooks(),
            exists|at: DataVersion| #[trigger]
                call_ensures(V::into, (version,), at) && appended(
                    old(self).rules.walkers(),
                    at,
                    final(self).rules.walkers(),
                ) && runs_as(
                    final(self).rules.walkers()[at].last(),
                    |before: JValue, from: DataVersion, to: DataVersion, after: JValue|
                        value.walks(before, from, to, after),
                ),
    {
        let at = version.into();
        self.add_structure_walker_at(at, value);
        assert(call_ensures(V::into, (version,), at));
    }

    /// Registers a hook at `version`, behind those already registered there.
    pub fn add_structure_hook_at(
        &mut self,
        version: DataVersion,
        value: impl DynamicDataHook + 'a,
    )
        ensures
            final(self).name == old(self).name,
            final(self).rules.converters() == old(self).rules.converters(),
            final(self).rules.walkers() == old(self).rules.walkers(),
            appended(
                old(self).rules.hooks(),
                version,
                final(self).rules.hooks(),
            ),
            hooks_as(
                final(self).rules.hooks()[version].last(),
                |before: JValue, from: DataVersion, to: DataVersion, after: JValue|
                    value.pre_hooks(before, from, to, after),
                |before: JValue, from: DataVersion, to: DataVersion, after: JValue|
                    value.post_hooks(before, from, to, after),
            ),
    {
        let stored = hold_dynamic_hook(value);
        proof {
            lemma_registered_dynamic_hook(stored);
        }
        self.rules.add_hook(version, stored);
    }

    /// As `add_structure_hook_at`, at the version that `version` converts into.
    pub fn add_structure_hook<V: Into<DataVersion>>(
        &mut self,
        version: V,
        value: impl DynamicDataHook + 'a,
    )
        ensures
            final(self).name == old(self).name,
            final(self).rules.converters() == old(self).rules.converters(),
            final(self).rules.walkers() == old(self).rules.walkers(),
            exists|at: DataVersion| #[trigger]
                call_ensures(V::into, (version,), at) && appended(
                    old(self).rules.hooks(),
                    at,
                    final(self).rules.hooks(),
                ) && hooks_as(
                    final(self).rules.hooks()[at].last(),
                    |before: JValue, from: DataVersion, to: DataVersion, after: JValue|
                        value.pre_hooks(before, from, to, after),
                    |before: JValue, from: DataVersion, to: DataVersion, after: JValue|
                        value.post_hooks(before, from, to, after),
                ),
    {
        let at = version.into();
        self.add_structure_hook_at(at, value);
        assert(call_ensures(V::into, (version,), at));
    }
}

impl<'a> AbstractDynamicDataType for DynamicDataType<'a> {
    /// The document is taken through the plan: each converter whose version lies
    /// in `(from, to]`, in list order, which is the order of the versions, and
    /// between its hooks, and then the closing pass at `to`.
    open spec fn converts(
        &self,
        before: JValue,
        from: DataVersion,
        to: DataVersion,
        after: JValue,
    ) -> bool {
        &&& self.rules.ordered()
        &&& leads(self.rules.relation(from, to), plan(self.rules.shape(), from, to), before, after)
    }

    fn convert(&self, data: &mut JValue, from_version: DataVersion, to_version: DataVersion) {
        self.rules.run_conversions(data, from_version, to_version);
        let ghost middle = *data;
        self.rules.run_closing(data, from_version, to_version);
        proof {
            lemma_leads_concat(
                self.rules.relation(from_version, to_version),
                all_conversions(self.rules.shape(), from_version, to_version),
                closing(self.rules.shape(), to_version),
                *old(data),
                middle,
                *data,
            );
        }
    }
}

} // verus!
