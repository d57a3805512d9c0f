//! Converters: the versioned rules that edit a document in place.
//!
//! There are three flavours, by the shape of document they work on: a compound,
//! a value whose active case stays as it is, and any value. A converter is known
//! to the verifier by a relation between the document before a call and the
//! document after it; an implementation that states none may do anything.

use crate::engine::{Anything, Registered, Rule};
use crate::nbt::{
    value_as_value_mut, value_mut_target, value_tag, JCompound, JValue, JValueMut, SameCase,
};
use crate::sorted::Versioned;
use crate::version::DataVersion;
use std::cmp::Ordering;
use vstd::prelude::*;
use vstd::std_specs::cmp::{PartialEqSpecImpl, PartialOrdSpecImpl};

verus! {

/// A rule that edits a compound.
pub trait MapDataConverterFunc {
    /// Whether one call may turn `before` into `after`.
    open spec fn converts(
        &self,
        before: JCompound,
        from: DataVersion,
        to: DataVersion,
        after: JCompound,
    ) -> bool {
        true
    }

    fn convert(&self, data: &mut JCompound, from_version: DataVersion, to_version: DataVersion)
        ensures
            self.converts(*old(data), from_version, to_version, *final(data)),
    ;
}

impl<T: MapDataConverterFunc + ?Sized> MapDataConverterFunc for &T {
    open spec fn converts(
        &self,
        before: JCompound,
        from: DataVersion,
        to: DataVersion,
        after: JCompound,
    ) -> bool {
        (**self).converts(before, from, to, after)
    }

    fn convert(&self, data: &mut JCompound, from_version: DataVersion, to_version: DataVersion) {
        T::convert(self, data, from_version, to_version)
    }
}

impl<T: MapDataConverterFunc + ?Sized> MapDataConverterFunc for Box<T> {
    open spec fn converts(
        &self,
        before: JCompound,
        from: DataVersion,
        to: DataVersion,
        after: JCompound,
    ) -> bool {
        (**self).converts(before, from, to, after)
    }

    fn convert(&self, data: &mut JCompound, from_version: DataVersion, to_version: DataVersion) {
        T::convert(self, data, from_version, to_version)
    }
}

/// A closure in the place of a converter of compounds. Its relation says
/// nothing of the closure; what is known is that a call is one call of it.
pub struct MapDataConverterFn<F: Fn(&mut JCompound, DataVersion, DataVersion)> {
    func: F,
}

impl<F: Fn(&mut JCompound, DataVersion, DataVersion)> MapDataConverterFn<F> {
    #[verifier::type_invariant]
    spec fn callable(&self) -> bool {
        forall|data: &mut JCompound, from: DataVersion, to: DataVersion|
            call_requires(self.func, (data, from, to))
    }

    /// The closure.
    pub closed spec fn func(&self) -> F {
        self.func
    }
}

impl<F: Fn(&mut JCompound, DataVersion, DataVersion)> MapDataConverterFunc for MapDataConverterFn<F> {
    /// Makes one call of the closure, on the document and the two versions: the
    /// document is then what that call left of it.
    fn convert(&self, data: &mut JCompound, from_version: DataVersion, to_version: DataVersion)
        ensures
            exists|target: &mut JCompound|
                *target == *old(data) && *final(target) == *final(data) && #[trigger] call_ensures(
                    self.func(),
                    (target, from_version, to_version),
                    (),
                ),
    {
        proof {
            use_type_invariant(self);
        }
        (self.func)(data, from_version, to_version);
        proof {
            let target = choose|target: &mut JCompound|
                *target == *old(data) && *final(target) == *data && #[trigger] call_ensures(
                    self.func,
                    (target, from_version, to_version),
                    (),
                );
            assert(call_ensures(self.func(), (target, from_version, to_version), ()));
        }
    }
}

/// Makes a converter of compounds out of a closure that can be called on
/// every document and every pair of versions. A call of the result is one call
/// of the closure.
pub fn map_data_converter_func<'a, F>(func: F) -> (r: MapDataConverterFn<F>) where
    F: Fn(&mut JCompound, DataVersion, DataVersion) + 'a,

    requires
        forall|data: &mut JCompound, from: DataVersion, to: DataVersion|
            call_requires(func, (data, from, to)),
    ensures
        r.func() == func,
{
    MapDataConverterFn { func }
}

impl<T: MapDataConverterFunc> MapDataConverterFunc for Registered<T> {
    open spec fn converts(
        &self,
        before: JCompound,
        from: DataVersion,
        to: DataVersion,
        after: JCompound,
    ) -> bool {
        self.item().converts(before, from, to, after)
    }

    fn convert(&self, data: &mut JCompound, from_version: DataVersion, to_version: DataVersion) {
        self.get().convert(data, from_version, to_version)
    }
}

/// `Box::new` and the coercion of the box to a trait object: what is held is
/// `func` as a trait object, and a call of it is a call of `func`.
#[verifier::external_body]
pub(crate) fn hold_map_converter<'a, F: MapDataConverterFunc + 'a>(func: F) -> (r: Registered<
    Box<dyn MapDataConverterFunc + 'a>,
>)
    ensures
        forall|before: JCompound, from: DataVersion, to: DataVersion, after: JCompound| #[trigger]
            r.converts(before, from, to, after) == func.converts(before, from, to, after),
{
    Registered { item: Box::new(func) }
}

/// A converter of compounds with the version that it produces.
pub struct MapDataConverter<F: MapDataConverterFunc> {
    to_version: DataVersion,
    conversion_func: F,
}

impl<F: MapDataConverterFunc> MapDataConverter<F> {
    /// The rule itself.
    pub closed spec fn func(&self) -> F {
        self.conversion_func
    }

    /// As `at`, with the version that `to_version` converts into.
    pub fn new<V: Into<DataVersion>>(to_version: V, conversion_func: F) -> (r: Self)
        ensures
            r.func() == conversion_func,
            call_ensures(V::into, (to_version,), r.version_of()),
    {
        Self::at(to_version.into(), conversion_func)
    }

    /// A converter that produces `to_version`.
    pub fn at(to_version: DataVersion, conversion_func: F) -> (r: Self)
        ensures
            r.func() == conversion_func,
            r.version_of() == to_version,
    {
        Self { to_version, conversion_func }
    }

    #[inline]
    pub fn get_to_version(&self) -> (r: DataVersion)
        ensures
            r == self.version_of(),
    {
        self.to_version
    }

    /// Runs the rule on a document that is taken from `from_version` to `to_version`.
    pub fn convert_at(
        &self,
        data: &mut JCompound,
        from_version: DataVersion,
        to_version: DataVersion,
    )
        ensures
            self.func().converts(*old(data), from_version, to_version, *final(data)),
    {
        self.conversion_func.convert(data, from_version, to_version);
    }

    /// As `convert_at`, with the versions that the two arguments convert into.
    pub fn convert<V: Into<DataVersion>, W: Into<DataVersion>>(
        &self,
        data: &mut JCompound,
        from_version: V,
        to_version: W,
    )
        ensures
            exists|from: DataVersion, to: DataVersion|
                {
                    &&& call_ensures(V::into, (from_version,), from)
                    &&& call_ensures(W::into, (to_version,), to)
                    &&& #[trigger] self.func().converts(*old(data), from, to, *final(data))
                },
    {
        let from = from_version.into();
        let to = to_version.into();
        self.convert_at(data, from, to);
        assert(self.func().converts(*old(data), from, to, *data));
    }
}

impl<F: MapDataConverterFunc> Versioned for MapDataConverter<F> {
    /// The version that a document has after this converter.
    closed spec fn version_of(&self) -> DataVersion {
        self.to_version
    }

    fn version(&self) -> (r: DataVersion) {
        self.to_version
    }
}

/// Two converters are equal where they produce the same version.
impl<F: MapDataConverterFunc> PartialEq for MapDataConverter<F> {
    fn eq(&self, other: &Self) -> (r: bool) {
        self.to_version == other.to_version
    }
}

impl<F: MapDataConverterFunc> PartialEqSpecImpl for MapDataConverter<F> {
    open spec fn obeys_eq_spec() -> bool {
        true
    }

    open spec fn eq_spec(&self, other: &Self) -> bool {
        self.version_of() == other.version_of()
    }
}

impl<F: MapDataConverterFunc> Eq for MapDataConverter<F> {
}

/// Converters are ordered by the version that they produce.
impl<F: MapDataConverterFunc> PartialOrd for MapDataConverter<F> {
    fn partial_cmp(&self, other: &Self) -> (r: Option<Ordering>) {
        self.to_version.partial_cmp(&other.to_version)
    }
}

impl<F: MapDataConverterFunc> PartialOrdSpecImpl for MapDataConverter<F> {
    open spec fn obeys_partial_cmp_spec() -> bool {
        true
    }

    open spec fn partial_cmp_spec(&self, other: &Self) -> Option<Ordering> {
        Some(self.version_of().ordering(other.version_of()))
    }
}

impl<F: MapDataConverterFunc> Rule<JCompound, Anything> for MapDataConverter<F> {
    open spec fn allows(
        &self,
        before: JCompound,
        from: DataVersion,
        to: DataVersion,
        after: JCompound,
    ) -> bool {
        self.func().converts(before, from, to, after)
    }

    fn run(&self, data: &mut JCompound, from_version: DataVersion, to_version: DataVersion) {
        self.conversion_func.convert(data, from_version, to_version)
    }
}

/// A rule that edits a value and keeps its active case.
pub trait ValueDataConverterFunc {
    /// Whether one call may turn `before` into `after`.
    open spec fn converts(
        &self,
        before: JValue,
        from: DataVersion,
        to: DataVersion,
        after: JValue,
    ) -> bool {
        true
    }

    fn convert(&self, data: &mut JValue, from_version: DataVersion, to_version: DataVersion)
        ensures
            value_tag(*final(data)) == value_tag(*old(data)),
            self.converts(*old(data), from_version, to_version, *final(data)),
    ;
}

impl<T: ValueDataConverterFunc + ?Sized> ValueDataConverterFunc for &T {
    open spec fn converts(
        &self,
        before: JValue,
        from: DataVersion,
        to: DataVersion,
        after: JValue,
    ) -> bool {
        (**self).converts(before, from, to, after)
    }

    fn convert(&self, data: &mut JValue, from_version: DataVersion, to_version: DataVersion) {
        T::convert(self, data, from_version, to_version)
    }
}

impl<T: ValueDataConverterFunc + ?Sized> ValueDataConverterFunc for Box<T> {
    open spec fn converts(
        &self,
        before: JValue,
        from: DataVersion,
        to: DataVersion,
        after: JValue,
    ) -> bool {
        (**self).converts(before, from, to, after)
    }

    fn convert(&self, data: &mut JValue, from_version: DataVersion, to_version: DataVersion) {
        T::convert(self, data, from_version, to_version)
    }
}

/// A closure in the place of a converter of values whose active case stays. Its
/// relation says nothing of the closure; what is known is that a call is one
/// call of it.
pub struct ValueDataConverterFn<F: Fn(&mut JValueMut, DataVersion, DataVersion)> {
    func: F,
}

impl<F: Fn(&mut JValueMut, DataVersion, DataVersion)> ValueDataConverterFn<F> {
    #[verifier::type_invariant]
    spec fn callable(&self) -> bool {
        forall|data: &mut JValueMut, from: DataVersion, to: DataVersion|
            call_requires(self.func, (data, from, to))
    }

    /// The closure.
    pub closed spec fn func(&self) -> F {
        self.func
    }
}

impl<F: Fn(&mut JValueMut, DataVersion, DataVersion)> ValueDataConverterFunc for ValueDataConverterFn<F> {
    /// Makes one call of the closure, on mutable access to what the value holds
    /// and the two versions.
    fn convert(&self, data: &mut JValue, from_version: DataVersion, to_version: DataVersion)
        ensures
            exists|target: &mut JValueMut|
                value_mut_target(*target) == *old(data) && #[trigger] call_ensures(
                    self.func(),
                    (target, from_version, to_version),
                    (),
                ),
    {
        proof {
            use_type_invariant(self);
        }
        let mut content = value_as_value_mut(data);
        let ghost handed = content;
        (self.func)(&mut content, from_version, to_version);
        proof {
            let target = choose|target: &mut JValueMut|
                *target == handed && #[trigger] call_ensures(
                    self.func,
                    (target, from_version, to_version),
                    (),
                );
            assert(call_ensures(self.func(), (target, from_version, to_version), ()));
        }
    }
}

/// Makes a converter of values whose active case stays out of a closure that can be called on
/// every document and every pair of versions. The closure gets mutable
/// access to what the value holds: it can change the content, not the active case.
/// A call of the result is one call of the closure.
pub fn value_data_converter_func<'a, F>(func: F) -> (r: ValueDataConverterFn<F>) where
    F: Fn(&mut JValueMut, DataVersion, DataVersion) + 'a,

    requires
        forall|data: &mut JValueMut, from: DataVersion, to: DataVersion|
            call_requires(func, (data, from, to)),
    ensures
        r.func() == func,
{
    ValueDataConverterFn { func }
}

impl<T: ValueDataConverterFunc> ValueDataConverterFunc for Registered<T> {
    open spec fn converts(
        &self,
        before: JValue,
        from: DataVersion,
        to: DataVersion,
        after: JValue,
    ) -> bool {
        self.item().converts(before, from, to, after)
    }

    fn convert(&self, data: &mut JValue, from_version: DataVersion, to_version: DataVersion) {
        self.get().convert(data, from_version, to_version)
    }
}

/// `Box::new` and the coercion of the box to a trait object: what is held is
/// `func` as a trait object, and a call of it is a call of `func`.
#[verifier::external_body]
pub(crate) fn hold_value_converter<'a, F: ValueDataConverterFunc + 'a>(func: F) -> (r: Registered<
    Box<dyn ValueDataConverterFunc + 'a>,
>)
    ensures
        forall|before: JValue, from: DataVersion, to: DataVersion, after: JValue| #[trigger]
            r.converts(before, from, to, after) == func.converts(before, from, to, after),
{
    Registered { item: Box::new(func) }
}

/// A converter of values whose active case stays with the version that it produces.
pub struct ValueDataConverter<F: ValueDataConverterFunc> {
    to_version: DataVersion,
    conversion_func: F,
}

impl<F: ValueDataConverterFunc> ValueDataConverter<F> {
    /// The rule itself.
    pub closed spec fn func(&self) -> F {
        self.conversion_func
    }

    /// As `at`, with the version that `to_version` converts into.
    pub fn new<V: Into<DataVersion>>(to_version: V, conversion_func: F) -> (r: Self)
        ensures
            r.func() == conversion_func,
            call_ensures(V::into, (to_version,), r.version_of()),
    {
        Self::at(to_version.into(), conversion_func)
    }

    /// A converter that produces `to_version`.
    pub fn at(to_version: DataVersion, conversion_func: F) -> (r: Self)
        ensures
            r.func() == conversion_func,
            r.version_of() == to_version,
    {
        Self { to_version, conversion_func }
    }

    #[inline]
    pub fn get_to_version(&self) -> (r: DataVersion)
        ensures
            r == self.version_of(),
    {
        self.to_version
    }

    /// Runs the rule on a document that is taken from `from_version` to `to_version`.
    pub fn convert_at(
        &self,
        data: &mut JValue,
        from_version: DataVersion,
        to_version: DataVersion,
    )
        ensures
            value_tag(*final(data)) == value_tag(*old(data)),
            self.func().converts(*old(data), from_version, to_version, *final(data)),
    {
        self.conversion_func.convert(data, from_version, to_version);
    }

    /// As `convert_at`, with the versions that the two arguments convert into.
    pub fn convert<V: Into<DataVersion>, W: Into<DataVersion>>(
        &self,
        data: &mut JValue,
        from_version: V,
        to_version: W,
    )
        ensures
            value_tag(*final(data)) == value_tag(*old(data)),
            exists|from: DataVersion, to: DataVersion|
                {
                    &&& call_ensures(V::into, (from_version,), from)
                    &&& call_ensures(W::into, (to_version,), to)
                    &&& #[trigger] self.func().converts(*old(data), from, to, *final(data))
                },
    {
        let from = from_version.into();
        let to = to_version.into();
        self.convert_at(data, from, to);
        assert(self.func().converts(*old(data), from, to, *data));
    }
}

impl<F: ValueDataConverterFunc> Versioned for ValueDataConverter<F> {
    /// The version that a document has after this converter.
    closed spec fn version_of(&self) -> DataVersion {
        self.to_version
    }

    fn version(&self) -> (r: DataVersion) {
        self.to_version
    }
}

/// Two converters are equal where they produce the same version.
impl<F: ValueDataConverterFunc> PartialEq for ValueDataConverter<F> {
    fn eq(&self, other: &Self) -> (r: bool) {
        self.to_version == other.to_version
    }
}

impl<F: ValueDataConverterFunc> PartialEqSpecImpl for ValueDataConverter<F> {
    open spec fn obeys_eq_spec() -> bool {
        true
    }

    open spec fn eq_spec(&self, other: &Self) -> bool {
        self.version_of() == other.version_of()
    }
}

impl<F: ValueDataConverterFunc> Eq for ValueDataConverter<F> {
}

/// Converters are ordered by the version that they produce.
impl<F: ValueDataConverterFunc> PartialOrd for ValueDataConverter<F> {
    fn partial_cmp(&self, other: &Self) -> (r: Option<Ordering>) {
        self.to_version.partial_cmp(&other.to_version)
    }
}

impl<F: ValueDataConverterFunc> PartialOrdSpecImpl for ValueDataConverter<F> {
    open spec fn obeys_partial_cmp_spec() -> bool {
        true
    }

    open spec fn partial_cmp_spec(&self, other: &Self) -> Option<Ordering> {
        Some(self.version_of().ordering(other.version_of()))
    }
}

impl<F: ValueDataConverterFunc> Rule<JValue, SameCase> for ValueDataConverter<F> {
    open spec fn allows(
        &self,
        before: JValue,
        from: DataVersion,
        to: DataVersion,
        after: JValue,
    ) -> bool {
        self.func().converts(before, from, to, after)
    }

    fn run(&self, data: &mut JValue, from_version: DataVersion, to_version: DataVersion) {
        self.conversion_func.convert(data, from_version, to_version)
    }
}

/// A rule that edits a value of any shape.
pub trait DynamicDataConverterFunc {
    /// Whether one call may turn `before` into `after`.
    open spec fn converts(
        &self,
        before: JValue,
        from: DataVersion,
        to: DataVersion,
        after: JValue,
    ) -> bool {
        true
    }

    fn convert(&self, data: &mut JValue, from_version: DataVersion, to_version: DataVersion)
        ensures
            self.converts(*old(data), from_version, to_version, *final(data)),
    ;
}

impl<T: DynamicDataConverterFunc + ?Sized> DynamicDataConverterFunc for &T {
    open spec fn converts(
        &self,
        before: JValue,
        from: DataVersion,
        to: DataVersion,
        after: JValue,
    ) -> bool {
        (**self).converts(before, from, to, after)
    }

    fn convert(&self, data: &mut JValue, from_version: DataVersion, to_version: DataVersion) {
        T::convert(self, data, from_version, to_version)
    }
}

impl<T: DynamicDataConverterFunc + ?Sized> DynamicDataConverterFunc for Box<T> {
    open spec fn converts(
        &self,
        before: JValue,
        from: DataVersion,
        to: DataVersion,
        after: JValue,
    ) -> bool {
        (**self).converts(before, from, to, after)
    }

    fn convert(&self, data: &mut JValue, from_version: DataVersion, to_version: DataVersion) {
        T::convert(self, data, from_version, to_version)
    }
}

/// A closure in the place of a converter of values of any shape. Its relation
/// says nothing of the closure; what is known is that a call is one call of it.
pub struct DynamicDataConverterFn<F: Fn(&mut JValue, DataVersion, DataVersion)> {
    func: F,
}

impl<F: Fn(&mut JValue, DataVersion, DataVersion)> DynamicDataConverterFn<F> {
    #[verifier::type_invariant]
    spec fn callable(&self) -> bool {
        forall|data: &mut JValue, from: DataVersion, to: DataVersion|
            call_requires(self.func, (data, from, to))
    }

    /// The closure.
    pub closed spec fn func(&self) -> F {
        self.func
    }
}

impl<F: Fn(&mut JValue, DataVersion, DataVersion)> DynamicDataConverterFunc for DynamicDataConverterFn<F> {
    /// Makes one call of the closure, on the document and the two versions: the
    /// document is then what that call left of it.
    fn convert(&self, data: &mut JValue, from_version: DataVersion, to_version: DataVersion)
        ensures
            exists|target: &mut JValue|
                *target == *old(data) && *final(target) == *final(data) && #[trigger] call_ensures(
                    self.func(),
                    (target, from_version, to_version),
                    (),
                ),
    {
        proof {
            use_type_invariant(self);
        }
        (self.func)(data, from_version, to_version);
        proof {
            let target = choose|target: &mut JValue|
                *target == *old(data) && *final(target) == *data && #[trigger] call_ensures(
                    self.func,
                    (target, from_version, to_version),
                    (),
                );
            assert(call_ensures(self.func(), (target, from_version, to_version), ()));
        }
    }
}

/// Makes a converter of values of any shape out of a closure that can be called on
/// every document and every pair of versions. A call of the result is one call
/// of the closure.
pub fn dynamic_data_converter_func<'a, F>(func: F) -> (r: DynamicDataConverterFn<F>) where
    F: Fn(&mut JValue, DataVersion, DataVersion) + 'a,

    requires
        forall|data: &mut JValue, from: DataVersion, to: DataVersion|
            call_requires(func, (data, from, to)),
    ensures
        r.func() == func,
{
    DynamicDataConverterFn { func }
}

impl<T: DynamicDataConverterFunc> DynamicDataConverterFunc for Registered<T> {
    open spec fn converts(
        &self,
        before: JValue,
        from: DataVersion,
        to: DataVersion,
        after: JValue,
    ) -> bool {
        self.item().converts(before, from, to, after)
    }

    fn convert(&self, data: &mut JValue, from_version: DataVersion, to_version: DataVersion) {
        self.get().convert(data, from_version, to_version)
    }
}

/// `Box::new` and the coercion of the box to a trait object: what is held is
/// `func` as a trait object, and a call of it is a call of `func`.
#[verifier::external_body]
pub(crate) fn hold_dynamic_converter<'a, F: DynamicDataConverterFunc + 'a>(func: F) -> (r: Registered<
    Box<dyn DynamicDataConverterFunc + 'a>,
>)
    ensures
        forall|before: JValue, from: DataVersion, to: DataVersion, after: JValue| #[trigger]
            r.converts(before, from, to, after) == func.converts(before, from, to, after),
{
    Registered { item: Box::new(func) }
}

/// A converter of values of any shape with the version that it produces.
pub struct DynamicDataConverter<F: DynamicDataConverterFunc> {
    to_version: DataVersion,
    conversion_func: F,
}

impl<F: DynamicDataConverterFunc> DynamicDataConverter<F> {
    /// The rule itself.
    pub closed spec fn func(&self) -> F {
        self.conversion_func
    }

    /// As `at`, with the version that `to_version` converts into.
    pub fn new<V: Into<DataVersion>>(to_version: V, conversion_func: F) -> (r: Self)
        ensures
            r.func() == conversion_func,
            call_ensures(V::into, (to_version,), r.version_of()),
    {
        Self::at(to_version.into(), conversion_func)
    }

    /// A converter that produces `to_version`.
    pub fn at(to_version: DataVersion, conversion_func: F) -> (r: Self)
        ensures
            r.func() == conversion_func,
            r.version_of() == to_version,
    {
        Self { to_version, conversion_func }
    }

    #[inline]
    pub fn get_to_version(&self) -> (r: DataVersion)
        ensures
            r == self.version_of(),
    {
        self.to_version
    }

    /// Runs the rule on a document that is taken from `from_version` to `to_version`.
    pub fn convert_at(
        &self,
        data: &mut JValue,
        from_version: DataVersion,
        to_version: DataVersion,
    )
        ensures
            self.func().converts(*old(data), from_version, to_version, *final(data)),
    {
        self.conversion_func.convert(data, from_version, to_version);
    }

    /// As `convert_at`, with the versions that the two arguments convert into.
    pub fn convert<V: Into<DataVersion>, W: Into<DataVersion>>(
        &self,
        data: &mut JValue,
        from_version: V,
        to_version: W,
    )
        ensures
            exists|from: DataVersion, to: DataVersion|
                {
                    &&& call_ensures(V::into, (from_version,), from)
                    &&& call_ensures(W::into, (to_version,), to)
                    &&& #[trigger] self.func().converts(*old(data), from, to, *final(data))
                },
    {
        let from = from_version.into();
        let to = to_version.into();
        self.convert_at(data, from, to);
        assert(self.func().converts(*old(data), from, to, *data));
    }
}

impl<F: DynamicDataConverterFunc> Versioned for DynamicDataConverter<F> {
    /// The version that a document has after this converter.
    closed spec fn version_of(&self) -> DataVersion {
        self.to_version
    }

    fn version(&self) -> (r: DataVersion) {
        self.to_version
    }
}

/// Two converters are equal where they produce the same version.
impl<F: DynamicDataConverterFunc> PartialEq for DynamicDataConverter<F> {
    fn eq(&self, other: &Self) -> (r: bool) {
        self.to_version == other.to_version
    }
}

impl<F: DynamicDataConverterFunc> PartialEqSpecImpl for DynamicDataConverter<F> {
    open spec fn obeys_eq_spec() -> bool {
        true
    }

    open spec fn eq_spec(&self, other: &Self) -> bool {
        self.version_of() == other.version_of()
    }
}

impl<F: DynamicDataConverterFunc> Eq for DynamicDataConverter<F> {
}

/// Converters are ordered by the version that they produce.
impl<F: DynamicDataConverterFunc> PartialOrd for DynamicDataConverter<F> {
    fn partial_cmp(&self, other: &Self) -> (r: Option<Ordering>) {
        self.to_version.partial_cmp(&other.to_version)
    }
}

impl<F: DynamicDataConverterFunc> PartialOrdSpecImpl for DynamicDataConverter<F> {
    open spec fn obeys_partial_cmp_spec() -> bool {
        true
    }

    open spec fn partial_cmp_spec(&self, other: &Self) -> Option<Ordering> {
        Some(self.version_of().ordering(other.version_of()))
    }
}

impl<F: DynamicDataConverterFunc> Rule<JValue, Anything> for DynamicDataConverter<F> {
    open spec fn allows(
        &self,
        before: JValue,
        from: DataVersion,
        to: DataVersion,
        after: JValue,
    ) -> bool {
        self.func().converts(before, from, to, after)
    }

    fn run(&self, data: &mut JValue, from_version: DataVersion, to_version: DataVersion) {
        self.conversion_func.convert(data, from_version, to_version)
    }
}

/// A converter with its version runs as the rule that it holds.
pub proof fn lemma_map_converter_runs<F: MapDataConverterFunc>(stored: MapDataConverter<F>)
    ensures
        forall|before: JCompound, from: DataVersion, to: DataVersion, after: JCompound| #[trigger]
            stored.allows(before, from, to, after) == stored.func().converts(
                before,
                from,
                to,
                after,
            ),
{
}

/// A converter with its version runs as the rule that it holds.
pub proof fn lemma_value_converter_runs<F: ValueDataConverterFunc>(stored: ValueDataConverter<F>)
    ensures
        forall|before: JValue, from: DataVersion, to: DataVersion, after: JValue| #[trigger]
            stored.allows(before, from, to, after) == stored.func().converts(
                before,
                from,
                to,
                after,
            ),
{
}

/// A converter with its version runs as the rule that it holds.
pub proof fn lemma_dynamic_converter_runs<F: DynamicDataConverterFunc>(stored: DynamicDataConverter<F>)
    ensures
        forall|before: JValue, from: DataVersion, to: DataVersion, after: JValue| #[trigger]
            stored.allows(before, from, to, after) == stored.func().converts(
                before,
                from,
                to,
                after,
            ),
{
}

} // verus!
