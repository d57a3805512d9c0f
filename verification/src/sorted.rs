//! Sequences of versions in ascending order: how many keys lie at or below a
//! version, where a new key goes, and the binary search that finds both.

use crate::version::DataVersion;
use vstd::prelude::*;

verus! {

/// Each key is at most the keys after it.
pub open spec fn ascending(keys: Seq<DataVersion>) -> bool {
    forall|i: int, j: int| 0 <= i < j < keys.len() ==> keys[i].at_most(keys[j])
}

/// Each key comes strictly before the keys after it: ascending, and no key twice.
pub open spec fn strictly_ascending(keys: Seq<DataVersion>) -> bool {
    forall|i: int, j: int| 0 <= i < j < keys.len() ==> keys[i].before(keys[j])
}

/// The number of keys that are at most `v`.
pub open spec fn count_at_most(keys: Seq<DataVersion>, v: DataVersion) -> nat
    decreases keys.len(),
{
    if keys.len() == 0 {
        0
    } else {
        count_at_most(keys.drop_last(), v) + if keys.last().at_most(v) {
            1nat
        } else {
            0nat
        }
    }
}

/// Where a new key `v` goes: behind every key that is at most `v`, so behind its equals.
pub open spec fn slot(keys: Seq<DataVersion>, v: DataVersion) -> int {
    count_at_most(keys, v) as int
}

pub proof fn lemma_count_bounded(keys: Seq<DataVersion>, v: DataVersion)
    ensures
        count_at_most(keys, v) <= keys.len(),
    decreases keys.len(),
{
    if keys.len() > 0 {
        lemma_count_bounded(keys.drop_last(), v);
    }
}

/// A place that has only keys at most `v` before it and only later keys from it
/// on is the number of keys at most `v`.
pub proof fn lemma_count_is_split(keys: Seq<DataVersion>, v: DataVersion, p: int)
    requires
        0 <= p <= keys.len(),
        forall|i: int| 0 <= i < p ==> (#[trigger] keys[i]).at_most(v),
        forall|i: int| p <= i < keys.len() ==> v.before(#[trigger] keys[i]),
    ensures
        count_at_most(keys, v) == p,
    decreases keys.len(),
{
    if keys.len() > 0 {
        let shorter = keys.drop_last();
        if p == keys.len() {
            assert(keys.last() == keys[p - 1]);
            lemma_count_is_split(shorter, v, p - 1);
        } else {
            assert(v.before(keys[keys.len() - 1]));
            lemma_count_is_split(shorter, v, p);
        }
    }
}

/// In an ascending sequence the keys at most `v` are exactly those before the count.
pub proof fn lemma_count_splits(keys: Seq<DataVersion>, v: DataVersion)
    requires
        ascending(keys),
    ensures
        count_at_most(keys, v) <= keys.len(),
        forall|i: int| 0 <= i < count_at_most(keys, v) ==> (#[trigger] keys[i]).at_most(v),
        forall|i: int| count_at_most(keys, v) <= i < keys.len() ==> v.before(#[trigger] keys[i]),
    decreases keys.len(),
{
    if keys.len() > 0 {
        let shorter = keys.drop_last();
        let last = keys.len() - 1;
        assert(ascending(shorter)) by {
            assert forall|i: int, j: int| 0 <= i < j < shorter.len() implies shorter[i].at_most(
                shorter[j],
            ) by {
                assert(keys[i].at_most(keys[j]));
            }
        }
        lemma_count_splits(shorter, v);
        let n = count_at_most(shorter, v);
        if keys[last].at_most(v) {
            if n < shorter.len() {
                assert(v.before(shorter[n as int]));
                assert(keys[n as int].at_most(keys[last]));
                assert(false);
            }
            assert forall|i: int| 0 <= i < count_at_most(keys, v) implies (#[trigger] keys[i]).at_most(
                v,
            ) by {
                if i < last {
                    assert(shorter[i].at_most(v));
                }
            }
        } else {
            assert forall|i: int| 0 <= i < count_at_most(keys, v) implies (#[trigger] keys[i]).at_most(
                v,
            ) by {
                assert(shorter[i].at_most(v));
            }
            assert forall|i: int| count_at_most(keys, v) <= i < keys.len() implies v.before(
                #[trigger] keys[i],
            ) by {
                if i < last {
                    assert(v.before(shorter[i]));
                }
            }
        }
    }
}

/// Putting a key into its slot keeps the sequence ascending.
pub proof fn lemma_insert_keeps_ascending(keys: Seq<DataVersion>, v: DataVersion)
    requires
        ascending(keys),
    ensures
        0 <= slot(keys, v) <= keys.len(),
        ascending(keys.insert(slot(keys, v), v)),
{
    lemma_count_splits(keys, v);
    let p = slot(keys, v);
    let longer = keys.insert(p, v);
    assert forall|i: int, j: int| 0 <= i < j < longer.len() implies longer[i].at_most(
        longer[j],
    ) by {
        if j < p {
            assert(longer[i] == keys[i] && longer[j] == keys[j]);
        } else if j == p {
            assert(longer[i] == keys[i]);
            assert(keys[i].at_most(v));
        } else if i < p {
            assert(longer[i] == keys[i] && longer[j] == keys[j - 1]);
            assert(keys[i].at_most(v));
            assert(v.before(keys[j - 1]));
        } else if i == p {
            assert(longer[j] == keys[j - 1]);
            assert(v.before(keys[j - 1]));
        } else {
            assert(longer[i] == keys[i - 1] && longer[j] == keys[j - 1]);
        }
    }
}

/// Putting a key that is not present into its slot keeps the sequence strictly ascending.
pub proof fn lemma_insert_keeps_strictly_ascending(keys: Seq<DataVersion>, v: DataVersion)
    requires
        strictly_ascending(keys),
        !keys.contains(v),
    ensures
        0 <= slot(keys, v) <= keys.len(),
        strictly_ascending(keys.insert(slot(keys, v), v)),
{
    assert(ascending(keys)) by {
        assert forall|i: int, j: int| 0 <= i < j < keys.len() implies keys[i].at_most(keys[j]) by {
            assert(keys[i].before(keys[j]));
        }
    }
    lemma_count_splits(keys, v);
    let p = slot(keys, v);
    let longer = keys.insert(p, v);
    assert forall|i: int, j: int| 0 <= i < j < longer.len() implies longer[i].before(
        longer[j],
    ) by {
        if j < p {
            assert(longer[i] == keys[i] && longer[j] == keys[j]);
        } else if j == p {
            assert(longer[i] == keys[i]);
            assert(keys[i].at_most(v));
            assert(keys.contains(keys[i]));
        } else if i < p {
            assert(longer[i] == keys[i] && longer[j] == keys[j - 1]);
            assert(keys[i].at_most(v));
            assert(v.before(keys[j - 1]));
        } else if i == p {
            assert(longer[j] == keys[j - 1]);
            assert(v.before(keys[j - 1]));
        } else {
            assert(longer[i] == keys[i - 1] && longer[j] == keys[j - 1]);
        }
    }
}

/// Something that carries the version it is ordered by.
pub trait Versioned {
    /// The version this item is ordered by.
    spec fn version_of(&self) -> DataVersion;

    fn version(&self) -> (r: DataVersion)
        ensures
            r == self.version_of(),
    ;
}

/// The versions of a sequence of items, in order.
pub open spec fn versions<K: Versioned>(items: Seq<K>) -> Seq<DataVersion> {
    items.map_values(|item: K| item.version_of())
}

/// Binary search for the number of items whose version is at most `v`.
pub fn upper_bound<K: Versioned>(items: &Vec<K>, v: &DataVersion) -> (r: usize)
    requires
        ascending(versions(items@)),
    ensures
        r == count_at_most(versions(items@), *v),
        r <= items.len(),
{
    let ghost keys = versions(items@);
    let mut lo: usize = 0;
    let mut hi: usize = items.len();
    while lo < hi
        invariant
            keys == versions(items@),
            ascending(keys),
            0 <= lo <= hi <= items.len(),
            forall|i: int| 0 <= i < lo ==> (#[trigger] keys[i]).at_most(*v),
            forall|i: int| hi <= i < keys.len() ==> v.before(#[trigger] keys[i]),
        decreases hi - lo,
    {
        let mid: usize = lo + (hi - lo) / 2;
        let at_mid = items[mid].version();
        assert(at_mid == keys[mid as int]);
        if at_mid.is_at_most(v) {
            assert forall|i: int| 0 <= i < mid + 1 implies (#[trigger] keys[i]).at_most(*v) by {
                if i < mid {
                    assert(keys[i].at_most(keys[mid as int]));
                }
            }
            lo = mid + 1;
        } else {
            assert forall|i: int| mid <= i < keys.len() implies v.before(#[trigger] keys[i]) by {
                if mid < i {
                    assert(keys[mid as int].at_most(keys[i]));
                }
            }
            hi = mid;
        }
    }
    proof {
        lemma_count_is_split(keys, *v, lo as int);
    }
    lo
}

} // verus!
