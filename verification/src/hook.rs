//! Hooks: paired callbacks that bracket a converter or the walker pass.

use crate::engine::{Anything, Bracket, Registered};
use crate::nbt::{value_tag, JCompound, JValue, SameCase};
use crate::version::DataVersion;
use vstd::prelude::*;

verus! {

/// A pair of callbacks around an edit of a compound.
pub trait MapDataHook {
    /// Whether one call of `pre_hook` may turn `before` into `after`.
    open spec fn pre_hooks(
        &self,
        before: JCompound,
        from: DataVersion,
        to: DataVersion,
        after: JCompound,
    ) -> bool {
        true
    }

    /// Whether one call of `post_hook` may turn `before` into `after`.
    open spec fn post_hooks(
        &self,
        before: JCompound,
        from: DataVersion,
        to: DataVersion,
        after: JCompound,
    ) -> bool {
        true
    }

    fn pre_hook(&self, data: &mut JCompound, from_version: DataVersion, to_version: DataVersion)
        ensures
            self.pre_hooks(*old(data), from_version, to_version, *final(data)),
    ;

    fn post_hook(&self, data: &mut JCompound, from_version: DataVersion, to_version: DataVersion)
        ensures
            self.post_hooks(*old(data), from_version, to_version, *final(data)),
    ;
}

/// A pair of callbacks around an edit of a value whose active case stays as it is.
pub trait ValueDataHook {
    /// Whether one call of `pre_hook` may turn `before` into `after`.
    open spec fn pre_hooks(
        &self,
        before: JValue,
        from: DataVersion,
        to: DataVersion,
        after: JValue,
    ) -> bool {
        true
    }

    /// Whether one call of `post_hook` may turn `before` into `after`.
    open spec fn post_hooks(
        &self,
        before: JValue,
        from: DataVersion,
        to: DataVersion,
        after: JValue,
    ) -> bool {
        true
    }

    fn pre_hook(&self, data: &mut JValue, from_version: DataVersion, to_version: DataVersion)
        ensures
            value_tag(*final(data)) == value_tag(*old(data)),
            self.pre_hooks(*old(data), from_version, to_version, *final(data)),
    ;

    fn post_hook(&self, data: &mut JValue, from_version: DataVersion, to_version: DataVersion)
        ensures
            value_tag(*final(data)) == value_tag(*old(data)),
            self.post_hooks(*old(data), from_version, to_version, *final(data)),
    ;
}

/// A pair of callbacks around an edit of any value.
pub trait DynamicDataHook {
    /// Whether one call of `pre_hook` may turn `before` into `after`.
    open spec fn pre_hooks(
        &self,
        before: JValue,
        from: DataVersion,
        to: DataVersion,
        after: JValue,
    ) -> bool {
        true
    }

    /// Whether one call of `post_hook` may turn `before` into `after`.
    open spec fn post_hooks(
        &self,
        before: JValue,
        from: DataVersion,
        to: DataVersion,
        after: JValue,
    ) -> bool {
        true
    }

    fn pre_hook(&self, data: &mut JValue, from_version: DataVersion, to_version: DataVersion)
        ensures
            self.pre_hooks(*old(data), from_version, to_version, *final(data)),
    ;

    fn post_hook(&self, data: &mut JValue, from_version: DataVersion, to_version: DataVersion)
        ensures
            self.post_hooks(*old(data), from_version, to_version, *final(data)),
    ;
}

impl<T: MapDataHook + ?Sized> MapDataHook for Box<T> {
    open spec fn pre_hooks(
        &self,
        before: JCompound,
        from: DataVersion,
        to: DataVersion,
        after: JCompound,
    ) -> bool {
        (**self).pre_hooks(before, from, to, after)
    }

    open spec fn post_hooks(
        &self,
        before: JCompound,
        from: DataVersion,
        to: DataVersion,
        after: JCompound,
    ) -> bool {
        (**self).post_hooks(before, from, to, after)
    }

    fn pre_hook(&self, data: &mut JCompound, from_version: DataVersion, to_version: DataVersion) {
        T::pre_hook(self, data, from_version, to_version)
    }

    fn post_hook(&self, data: &mut JCompound, from_version: DataVersion, to_version: DataVersion) {
        T::post_hook(self, data, from_version, to_version)
    }
}

impl<T: MapDataHook> MapDataHook for Registered<T> {
    open spec fn pre_hooks(
        &self,
        before: JCompound,
        from: DataVersion,
        to: DataVersion,
        after: JCompound,
    ) -> bool {
        self.item().pre_hooks(before, from, to, after)
    }

    open spec fn post_hooks(
        &self,
        before: JCompound,
        from: DataVersion,
        to: DataVersion,
        after: JCompound,
    ) -> bool {
        self.item().post_hooks(before, from, to, after)
    }

    fn pre_hook(&self, data: &mut JCompound, from_version: DataVersion, to_version: DataVersion) {
        self.get().pre_hook(data, from_version, to_version)
    }

    fn post_hook(&self, data: &mut JCompound, from_version: DataVersion, to_version: DataVersion) {
        self.get().post_hook(data, from_version, to_version)
    }
}

/// `Box::new` and the coercion of the box to a trait object: what is held is
/// `hook` as a trait object, and a call of it is a call of `hook`.
#[verifier::external_body]
pub(crate) fn hold_map_hook<'a, H: MapDataHook + 'a>(hook: H) -> (r: Registered<Box<dyn MapDataHook + 'a>>)
    ensures
        forall|before: JCompound, from: DataVersion, to: DataVersion, after: JCompound| #[trigger]
            r.pre_hooks(before, from, to, after) == hook.pre_hooks(before, from, to, after),
        forall|before: JCompound, from: DataVersion, to: DataVersion, after: JCompound| #[trigger]
            r.post_hooks(before, from, to, after) == hook.post_hooks(before, from, to, after),
{
    Registered { item: Box::new(hook) }
}

impl<H: MapDataHook> Bracket<JCompound, Anything> for Registered<H> {
    open spec fn opens(
        &self,
        before: JCompound,
        from: DataVersion,
        to: DataVersion,
        after: JCompound,
    ) -> bool {
        self.pre_hooks(before, from, to, after)
    }

    open spec fn closes(
        &self,
        before: JCompound,
        from: DataVersion,
        to: DataVersion,
        after: JCompound,
    ) -> bool {
        self.post_hooks(before, from, to, after)
    }

    fn open(&self, data: &mut JCompound, from_version: DataVersion, to_version: DataVersion) {
        self.pre_hook(data, from_version, to_version)
    }

    fn close(&self, data: &mut JCompound, from_version: DataVersion, to_version: DataVersion) {
        self.post_hook(data, from_version, to_version)
    }
}

impl<T: ValueDataHook + ?Sized> ValueDataHook for Box<T> {
    open spec fn pre_hooks(
        &self,
        before: JValue,
        from: DataVersion,
        to: DataVersion,
        after: JValue,
    ) -> bool {
        (**self).pre_hooks(before, from, to, after)
    }

    open spec fn post_hooks(
        &self,
        before: JValue,
        from: DataVersion,
        to: DataVersion,
        after: JValue,
    ) -> bool {
        (**self).post_hooks(before, from, to, after)
    }

    fn pre_hook(&self, data: &mut JValue, from_version: DataVersion, to_version: DataVersion) {
        T::pre_hook(self, data, from_version, to_version)
    }

    fn post_hook(&self, data: &mut JValue, from_version: DataVersion, to_version: DataVersion) {
        T::post_hook(self, data, from_version, to_version)
    }
}

impl<T: ValueDataHook> ValueDataHook for Registered<T> {
    open spec fn pre_hooks(
        &self,
        before: JValue,
        from: DataVersion,
        to: DataVersion,
        after: JValue,
    ) -> bool {
        self.item().pre_hooks(before, from, to, after)
    }

    open spec fn post_hooks(
        &self,
        before: JValue,
        from: DataVersion,
        to: DataVersion,
        after: JValue,
    ) -> bool {
        self.item().post_hooks(before, from, to, after)
    }

    fn pre_hook(&self, data: &mut JValue, from_version: DataVersion, to_version: DataVersion) {
        self.get().pre_hook(data, from_version, to_version)
    }

    fn post_hook(&self, data: &mut JValue, from_version: DataVersion, to_version: DataVersion) {
        self.get().post_hook(data, from_version, to_version)
    }
}

/// `Box::new` and the coercion of the box to a trait object: what is held is
/// `hook` as a trait object, and a call of it is a call of `hook`.
#[verifier::external_body]
pub(crate) fn hold_value_hook<'a, H: ValueDataHook + 'a>(hook: H) -> (r: Registered<Box<dyn ValueDataHook + 'a>>)
    ensures
        forall|before: JValue, from: DataVersion, to: DataVersion, after: JValue| #[trigger]
            r.pre_hooks(before, from, to, after) == hook.pre_hooks(before, from, to, after),
        forall|before: JValue, from: DataVersion, to: DataVersion, after: JValue| #[trigger]
            r.post_hooks(before, from, to, after) == hook.post_hooks(before, from, to, after),
{
    Registered { item: Box::new(hook) }
}

impl<H: ValueDataHook> Bracket<JValue, SameCase> for Registered<H> {
    open spec fn opens(
        &self,
        before: JValue,
        from: DataVersion,
        to: DataVersion,
        after: JValue,
    ) -> bool {
        self.pre_hooks(before, from, to, after)
    }

    open spec fn closes(
        &self,
        before: JValue,
        from: DataVersion,
        to: DataVersion,
        after: JValue,
    ) -> bool {
        self.post_hooks(before, from, to, after)
    }

    fn open(&self, data: &mut JValue, from_version: DataVersion, to_version: DataVersion) {
        self.pre_hook(data, from_version, to_version)
    }

    fn close(&self, data: &mut JValue, from_version: DataVersion, to_version: DataVersion) {
        self.post_hook(data, from_version, to_version)
    }
}

impl<T: DynamicDataHook + ?Sized> DynamicDataHook for Box<T> {
    open spec fn pre_hooks(
        &self,
        before: JValue,
        from: DataVersion,
        to: DataVersion,
        after: JValue,
    ) -> bool {
        (**self).pre_hooks(before, from, to, after)
    }

    open spec fn post_hooks(
        &self,
        before: JValue,
        from: DataVersion,
        to: DataVersion,
        after: JValue,
    ) -> bool {
        (**self).post_hooks(before, from, to, after)
    }

    fn pre_hook(&self, data: &mut JValue, from_version: DataVersion, to_version: DataVersion) {
        T::pre_hook(self, data, from_version, to_version)
    }

    fn post_hook(&self, data: &mut JValue, from_version: DataVersion, to_version: DataVersion) {
        T::post_hook(self, data, from_version, to_version)
    }
}

impl<T: DynamicDataHook> DynamicDataHook for Registered<T> {
    open spec fn pre_hooks(
        &self,
        before: JValue,
        from: DataVersion,
        to: DataVersion,
        after: JValue,
    ) -> bool {
        self.item().pre_hooks(before, from, to, after)
    }

    open spec fn post_hooks(
        &self,
        before: JValue,
        from: DataVersion,
        to: DataVersion,
        after: JValue,
    ) -> bool {
        self.item().post_hooks(before, from, to, after)
    }

    fn pre_hook(&self, data: &mut JValue, from_version: DataVersion, to_version: DataVersion) {
        self.get().pre_hook(data, from_version, to_version)
    }

    fn post_hook(&self, data: &mut JValue, from_version: DataVersion, to_version: DataVersion) {
        self.get().post_hook(data, from_version, to_version)
    }
}

/// `Box::new` and the coercion of the box to a trait object: what is held is
/// `hook` as a trait object, and a call of it is a call of `hook`.
#[verifier::external_body]
pub(crate) fn hold_dynamic_hook<'a, H: DynamicDataHook + 'a>(hook: H) -> (r: Registered<Box<dyn DynamicDataHook + 'a>>)
    ensures
        forall|before: JValue, from: DataVersion, to: DataVersion, after: JValue| #[trigger]
            r.pre_hooks(before, from, to, after) == hook.pre_hooks(before, from, to, after),
        forall|before: JValue, from: DataVersion, to: DataVersion, after: JValue| #[trigger]
            r.post_hooks(before, from, to, after) == hook.post_hooks(before, from, to, after),
{
    Registered { item: Box::new(hook) }
}

impl<H: DynamicDataHook> Bracket<JValue, Anything> for Registered<H> {
    open spec fn opens(
        &self,
        before: JValue,
        from: DataVersion,
        to: DataVersion,
        after: JValue,
    ) -> bool {
        self.pre_hooks(before, from, to, after)
    }

    open spec fn closes(
        &self,
        before: JValue,
        from: DataVersion,
        to: DataVersion,
        after: JValue,
    ) -> bool {
        self.post_hooks(before, from, to, after)
    }

    fn open(&self, data: &mut JValue, from_version: DataVersion, to_version: DataVersion) {
        self.pre_hook(data, from_version, to_version)
    }

    fn close(&self, data: &mut JValue, from_version: DataVersion, to_version: DataVersion) {
        self.post_hook(data, from_version, to_version)
    }
}

/// A registered hook runs as the hook that it holds.
pub proof fn lemma_registered_map_hook<H: MapDataHook>(stored: Registered<H>)
    ensures
        forall|before: JCompound, from: DataVersion, to: DataVersion, after: JCompound| #[trigger]
            stored.opens(before, from, to, after) == stored.pre_hooks(before, from, to, after),
        forall|before: JCompound, from: DataVersion, to: DataVersion, after: JCompound| #[trigger]
            stored.closes(before, from, to, after) == stored.post_hooks(before, from, to, after),
{
}

/// A registered hook runs as the hook that it holds.
pub proof fn lemma_registered_value_hook<H: ValueDataHook>(stored: Registered<H>)
    ensures
        forall|before: JValue, from: DataVersion, to: DataVersion, after: JValue| #[trigger]
            stored.opens(before, from, to, after) == stored.pre_hooks(before, from, to, after),
        forall|before: JValue, from: DataVersion, to: DataVersion, after: JValue| #[trigger]
            stored.closes(before, from, to, after) == stored.post_hooks(before, from, to, after),
{
}

/// A registered hook runs as the hook that it holds.
pub proof fn lemma_registered_dynamic_hook<H: DynamicDataHook>(stored: Registered<H>)
    ensures
        forall|before: JValue, from: DataVersion, to: DataVersion, after: JValue| #[trigger]
            stored.opens(before, from, to, after) == stored.pre_hooks(before, from, to, after),
        forall|before: JValue, from: DataVersion, to: DataVersion, after: JValue| #[trigger]
            stored.closes(before, from, to, after) == stored.post_hooks(before, from, to, after),
{
}

} // verus!
