//! Walkers: callbacks that, once a document has the shape of the target
//! version, reach into its fields and convert what is nested there.

use crate::engine::{Anything, Registered, Rule};
use crate::nbt::{JCompound, JValue};
use crate::version::DataVersion;
use std::rc::Rc;
use vstd::prelude::*;

verus! {

/// A callback that converts what is nested in a compound.
pub trait MapDataWalker {
    /// Whether one call may turn `before` into `after`.
    open spec fn walks(
        &self,
        before: JCompound,
        from: DataVersion,
        to: DataVersion,
        after: JCompound,
    ) -> bool {
        true
    }

    fn walk(&self, data: &mut JCompound, from_version: DataVersion, to_version: DataVersion)
        ensures
            self.walks(*old(data), from_version, to_version, *final(data)),
    ;
}

/// A closure in the place of a walker of compounds. Its relation says nothing
/// of the closure; what is known is that a call is one call of it.
pub struct MapDataWalkerFn<F: Fn(&mut JCompound, DataVersion, DataVersion)> {
    func: F,
}

impl<F: Fn(&mut JCompound, DataVersion, DataVersion)> MapDataWalkerFn<F> {
    #[verifier::type_invariant]
    spec fn callable(&self) -> bool {
        forall|data: &mut JCompound, from: DataVersion, to: DataVersion|
            call_requires(self.func, (data, from, to))
    }

    /// The closure.
    pub closed spec fn func(&self) -> F {
        self.func
    }
}

impl<F: Fn(&mut JCompound, DataVersion, DataVersion)> MapDataWalker for MapDataWalkerFn<F> {
    /// Makes one call of the closure, on the document and the two versions: the
    /// document is then what that call left of it.
    fn walk(&self, data: &mut JCompound, from_version: DataVersion, to_version: DataVersion)
        ensures
            exists|target: &mut JCompound|
                *target == *old(data) && *final(target) == *final(data) && #[trigger] call_ensures(
                    self.func(),
                    (target, from_version, to_version),
                    (),
                ),
    {
        proof {
            use_type_invariant(self);
        }
        (self.func)(data, from_version, to_version);
        proof {
            let target = choose|target: &mut JCompound|
                *target == *old(data) && *final(target) == *data && #[trigger] call_ensures(
                    self.func,
                    (target, from_version, to_version),
                    (),
                );
            assert(call_ensures(self.func(), (target, from_version, to_version), ()));
        }
    }
}

/// Makes a walker of compounds out of a closure that can be called on every
/// document and every pair of versions.
/// A call of the result is one call of the closure.
pub fn map_data_walker<'a, F>(func: F) -> (r: MapDataWalkerFn<F>) where
    F: Fn(&mut JCompound, DataVersion, DataVersion) + 'a,

    requires
        forall|data: &mut JCompound, from: DataVersion, to: DataVersion|
            call_requires(func, (data, from, to)),
    ensures
        r.func() == func,
{
    MapDataWalkerFn { func }
}

/// A callback that converts what is nested in a value of any shape.
pub trait DynamicDataWalker {
    /// Whether one call may turn `before` into `after`.
    open spec fn walks(
        &self,
        before: JValue,
        from: DataVersion,
        to: DataVersion,
        after: JValue,
    ) -> bool {
        true
    }

    fn walk(&self, data: &mut JValue, from_version: DataVersion, to_version: DataVersion)
        ensures
            self.walks(*old(data), from_version, to_version, *final(data)),
    ;
}

/// A closure in the place of a walker of values. Its relation says nothing of
/// the closure; what is known is that a call is one call of it.
pub struct DynamicDataWalkerFn<F: Fn(&mut JValue, DataVersion, DataVersion)> {
    func: F,
}

impl<F: Fn(&mut JValue, DataVersion, DataVersion)> DynamicDataWalkerFn<F> {
    #[verifier::type_invariant]
    spec fn callable(&self) -> bool {
        forall|data: &mut JValue, from: DataVersion, to: DataVersion|
            call_requires(self.func, (data, from, to))
    }

    /// The closure.
    pub closed spec fn func(&self) -> F {
        self.func
    }
}

impl<F: Fn(&mut JValue, DataVersion, DataVersion)> DynamicDataWalker for DynamicDataWalkerFn<F> {
    /// Makes one call of the closure, on the document and the two versions: the
    /// document is then what that call left of it.
    fn walk(&self, data: &mut JValue, from_version: DataVersion, to_version: DataVersion)
        ensures
            exists|target: &mut JValue|
                *target == *old(data) && *final(target) == *final(data) && #[trigger] call_ensures(
                    self.func(),
                    (target, from_version, to_version),
                    (),
                ),
    {
        proof {
            use_type_invariant(self);
        }
        (self.func)(data, from_version, to_version);
        proof {
            let target = choose|target: &mut JValue|
                *target == *old(data) && *final(target) == *data && #[trigger] call_ensures(
                    self.func,
                    (target, from_version, to_version),
                    (),
                );
            assert(call_ensures(self.func(), (target, from_version, to_version), ()));
        }
    }
}

/// Makes a walker of values out of a closure that can be called on every
/// document and every pair of versions.
/// A call of the result is one call of the closure.
pub fn dynamic_data_walker<'a, F>(func: F) -> (r: DynamicDataWalkerFn<F>) where
    F: Fn(&mut JValue, DataVersion, DataVersion) + 'a,

    requires
        forall|data: &mut JValue, from: DataVersion, to: DataVersion|
            call_requires(func, (data, from, to)),
    ensures
        r.func() == func,
{
    DynamicDataWalkerFn { func }
}

impl<T: MapDataWalker + ?Sized> MapDataWalker for Box<T> {
    open spec fn walks(
        &self,
        before: JCompound,
        from: DataVersion,
        to: DataVersion,
        after: JCompound,
    ) -> bool {
        (**self).walks(before, from, to, after)
    }

    fn walk(&self, data: &mut JCompound, from_version: DataVersion, to_version: DataVersion) {
        T::walk(self, data, from_version, to_version)
    }
}

impl<T: MapDataWalker> MapDataWalker for Registered<T> {
    open spec fn walks(
        &self,
        before: JCompound,
        from: DataVersion,
        to: DataVersion,
        after: JCompound,
    ) -> bool {
        self.item().walks(before, from, to, after)
    }

    fn walk(&self, data: &mut JCompound, from_version: DataVersion, to_version: DataVersion) {
        self.get().walk(data, from_version, to_version)
    }
}

/// `Box::new` and the coercion of the box to a trait object: what is held is
/// `walker` as a trait object, and a call of it is a call of `walker`.
#[verifier::external_body]
pub(crate) fn hold_map_walker<'a, W: MapDataWalker + 'a>(walker: W) -> (r: Registered<
    Box<dyn MapDataWalker + 'a>,
>)
    ensures
        forall|before: JCompound, from: DataVersion, to: DataVersion, after: JCompound| #[trigger]
            r.walks(before, from, to, after) == walker.walks(before, from, to, after),
{
    Registered { item: Box::new(walker) }
}

impl<W: MapDataWalker> Rule<JCompound, Anything> for Registered<W> {
    open spec fn allows(
        &self,
        before: JCompound,
        from: DataVersion,
        to: DataVersion,
        after: JCompound,
    ) -> bool {
        self.walks(before, from, to, after)
    }

    fn run(&self, data: &mut JCompound, from_version: DataVersion, to_version: DataVersion) {
        self.walk(data, from_version, to_version)
    }
}

impl<W: MapDataWalker> Rule<JCompound, Anything> for Rc<W> {
    open spec fn allows(
        &self,
        before: JCompound,
        from: DataVersion,
        to: DataVersion,
        after: JCompound,
    ) -> bool {
        (**self).walks(before, from, to, after)
    }

    fn run(&self, data: &mut JCompound, from_version: DataVersion, to_version: DataVersion) {
        W::walk(self, data, from_version, to_version)
    }
}

impl<T: DynamicDataWalker + ?Sized> DynamicDataWalker for Box<T> {
    open spec fn walks(
        &self,
        before: JValue,
        from: DataVersion,
        to: DataVersion,
        after: JValue,
    ) -> bool {
        (**self).walks(before, from, to, after)
    }

    fn walk(&self, data: &mut JValue, from_version: DataVersion, to_version: DataVersion) {
        T::walk(self, data, from_version, to_version)
    }
}

impl<T: DynamicDataWalker> DynamicDataWalker for Registered<T> {
    open spec fn walks(
        &self,
        before: JValue,
        from: DataVersion,
        to: DataVersion,
        after: JValue,
    ) -> bool {
        self.item().walks(before, from, to, after)
    }

    fn walk(&self, data: &mut JValue, from_version: DataVersion, to_version: DataVersion) {
        self.get().walk(data, from_version, to_version)
    }
}

/// `Box::new` and the coercion of the box to a trait object: what is held is
/// `walker` as a trait object, and a call of it is a call of `walker`.
#[verifier::external_body]
pub(crate) fn hold_dynamic_walker<'a, W: DynamicDataWalker + 'a>(walker: W) -> (r: Registered<
    Box<dyn DynamicDataWalker + 'a>,
>)
    ensures
        forall|before: JValue, from: DataVersion, to: DataVersion, after: JValue| #[trigger]
            r.walks(before, from, to, after) == walker.walks(before, from, to, after),
{
    Registered { item: Box::new(walker) }
}

impl<W: DynamicDataWalker> Rule<JValue, Anything> for Registered<W> {
    open spec fn allows(
        &self,
        before: JValue,
        from: DataVersion,
        to: DataVersion,
        after: JValue,
    ) -> bool {
        self.walks(before, from, to, after)
    }

    fn run(&self, data: &mut JValue, from_version: DataVersion, to_version: DataVersion) {
        self.walk(data, from_version, to_version)
    }
}

/// A registered walker runs as the walker that it holds.
pub proof fn lemma_registered_map_walker<W: MapDataWalker>(stored: Registered<W>)
    ensures
        forall|before: JCompound, from: DataVersion, to: DataVersion, after: JCompound| #[trigger]
            stored.allows(before, from, to, after) == stored.walks(before, from, to, after),
{
}

/// A shared walker runs as the walker that it points to.
pub proof fn lemma_shared_map_walker<W: MapDataWalker>(stored: Rc<W>)
    ensures
        forall|before: JCompound, from: DataVersion, to: DataVersion, after: JCompound| #[trigger]
            stored.allows(before, from, to, after) == (*stored).walks(before, from, to, after),
{
}

/// A registered walker runs as the walker that it holds.
pub proof fn lemma_registered_dynamic_walker<W: DynamicDataWalker>(stored: Registered<W>)
    ensures
        forall|before: JValue, from: DataVersion, to: DataVersion, after: JValue| #[trigger]
            stored.allows(before, from, to, after) == stored.walks(before, from, to, after),
{
}

} // verus!
