//! Data versions: the ordering key of every converter, hook bucket and walker bucket.

use std::cmp::Ordering;
use vstd::prelude::*;
use vstd::std_specs::cmp::PartialOrdSpecImpl;
use vstd::std_specs::convert::FromSpecImpl;

verus! {

/// A migration checkpoint: a major version and a step within it.
///
/// Versions are totally ordered, by major version first and by step second.
#[derive(Clone, Copy, Debug, PartialEq, Eq, Structural, Hash, Ord)]
pub struct DataVersion {
    pub version: u32,
    pub step: u32,
}

impl DataVersion {
    /// `self` comes strictly before `other`.
    pub open spec fn before(self, other: DataVersion) -> bool {
        self.version < other.version || (self.version == other.version && self.step < other.step)
    }

    /// `self` comes before `other` or is `other`.
    pub open spec fn at_most(self, other: DataVersion) -> bool {
        self.before(other) || self == other
    }

    /// How `self` stands to `other` in the total order.
    pub open spec fn ordering(self, other: DataVersion) -> Ordering {
        if self.before(other) {
            Ordering::Less
        } else if self == other {
            Ordering::Equal
        } else {
            Ordering::Greater
        }
    }

    pub fn new(version: u32, step: u32) -> (r: Self)
        ensures
            r == (DataVersion { version, step }),
    {
        Self { version, step }
    }

    #[inline]
    pub fn get_version(&self) -> (r: u32)
        ensures
            r == self.version,
    {
        self.version
    }

    #[inline]
    pub fn get_step(&self) -> (r: u32)
        ensures
            r == self.step,
    {
        self.step
    }

    /// Tests `self < other`.
    pub fn is_before(&self, other: &DataVersion) -> (r: bool)
        ensures
            r == self.before(*other),
    {
        self.version < other.version || (self.version == other.version && self.step < other.step)
    }

    /// Tests `self <= other`.
    pub fn is_at_most(&self, other: &DataVersion) -> (r: bool)
        ensures
            r == self.at_most(*other),
    {
        self.version < other.version || (self.version == other.version && self.step <= other.step)
    }

    /// Tests `from < self <= to`: whether a converter that produces `self` is due
    /// when a document is taken from `from` to `to`.
    pub fn is_within(&self, from: &DataVersion, to: &DataVersion) -> (r: bool)
        ensures
            r == in_range(*self, *from, *to),
    {
        from.is_before(self) && self.is_at_most(to)
    }
}

/// The half-open interval test `from < v <= to`.
pub open spec fn in_range(v: DataVersion, from: DataVersion, to: DataVersion) -> bool {
    from.before(v) && v.at_most(to)
}

impl PartialOrd for DataVersion {
    fn partial_cmp(&self, other: &Self) -> (r: Option<Ordering>) {
        if self.is_before(other) {
            Some(Ordering::Less)
        } else if self.version == other.version && self.step == other.step {
            Some(Ordering::Equal)
        } else {
            Some(Ordering::Greater)
        }
    }
}

impl PartialOrdSpecImpl for DataVersion {
    open spec fn obeys_partial_cmp_spec() -> bool {
        true
    }

    open spec fn partial_cmp_spec(&self, other: &Self) -> Option<Ordering> {
        Some(self.ordering(*other))
    }
}

impl From<u32> for DataVersion {
    fn from(value: u32) -> (r: Self) {
        DataVersion::new(value, 0)
    }
}

impl FromSpecImpl<u32> for DataVersion {
    open spec fn obeys_from_spec() -> bool {
        true
    }

    open spec fn from_spec(value: u32) -> Self {
        DataVersion { version: value, step: 0 }
    }
}

/// The order is irreflexive.
pub proof fn law_before_irreflexive(a: DataVersion)
    ensures
        !a.before(a),
{
}

/// The order is transitive.
pub proof fn law_before_transitive(a: DataVersion, b: DataVersion, c: DataVersion)
    requires
        a.before(b),
        b.before(c),
    ensures
        a.before(c),
{
}

/// The order is total: of two versions, one comes before the other or they are equal.
pub proof fn law_order_total(a: DataVersion, b: DataVersion)
    ensures
        a.before(b) || a == b || b.before(a),
        !(a.before(b) && b.before(a)),
        a.at_most(b) <==> !b.before(a),
{
}

} // verus!
