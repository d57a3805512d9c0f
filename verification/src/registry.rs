//! The two containers that a data type registers into: a list of items kept in
//! version order, and lists of items bucketed by version with floor lookup.

use crate::sorted::{
    ascending, lemma_count_splits, lemma_insert_keeps_ascending, slot, strictly_ascending,
    upper_bound, versions, Versioned,
};
use crate::version::DataVersion;
use vstd::prelude::*;

verus! {

/// `k` is the floor of `v` among `keys`: the greatest key that is at most `v`.
pub open spec fn is_floor(keys: Set<DataVersion>, v: DataVersion, k: DataVersion) -> bool {
    &&& keys.contains(k)
    &&& k.at_most(v)
    &&& forall|other: DataVersion|
        keys.contains(other) && other.at_most(v) ==> #[trigger] other.at_most(k)
}

/// The greatest key that is at most `v`, if any key is.
pub open spec fn floor_key(keys: Set<DataVersion>, v: DataVersion) -> Option<DataVersion> {
    if exists|k: DataVersion| is_floor(keys, v, k) {
        Some(choose|k: DataVersion| is_floor(keys, v, k))
    } else {
        None
    }
}

/// There is at most one floor.
pub proof fn lemma_floor_unique(keys: Set<DataVersion>, v: DataVersion, a: DataVersion, b: DataVersion)
    requires
        is_floor(keys, v, a),
        is_floor(keys, v, b),
    ensures
        a == b,
{
    assert(a.at_most(b));
    assert(b.at_most(a));
}

/// A key that is the floor is what `floor_key` gives.
pub proof fn lemma_floor_key_is(keys: Set<DataVersion>, v: DataVersion, k: DataVersion)
    requires
        is_floor(keys, v, k),
    ensures
        floor_key(keys, v) == Some(k),
{
    let chosen = choose|k: DataVersion| is_floor(keys, v, k);
    lemma_floor_unique(keys, v, k, chosen);
}

/// Where no key is at most `v`, there is no floor.
pub proof fn lemma_floor_key_none(keys: Set<DataVersion>, v: DataVersion)
    requires
        forall|k: DataVersion| keys.contains(k) ==> !#[trigger] k.at_most(v),
    ensures
        floor_key(keys, v) is None,
{
}

/// A key that is present is its own floor.
pub proof fn law_floor_of_present_key(keys: Set<DataVersion>, k: DataVersion)
    requires
        keys.contains(k),
    ensures
        floor_key(keys, k) == Some(k),
{
    assert(is_floor(keys, k, k));
    lemma_floor_key_is(keys, k, k);
}

/// `after` is `before` with one more item in place `place`.
pub open spec fn inserted<K>(before: Seq<K>, place: int, after: Seq<K>) -> bool {
    &&& 0 <= place <= before.len()
    &&& after.len() == before.len() + 1
    &&& after == before.insert(place, after[place])
}

/// `after` is `before` with the version `v` put into its slot: behind every
/// version that is at most `v`.
pub open spec fn placed(before: Seq<DataVersion>, v: DataVersion, after: Seq<DataVersion>) -> bool {
    after == before.insert(slot(before, v), v)
}

/// `after` is `before` with one more item at the end of the list under `key`,
/// which is a list of that one item if there was none.
pub open spec fn appended<T>(
    before: Map<DataVersion, Seq<T>>,
    key: DataVersion,
    after: Map<DataVersion, Seq<T>>,
) -> bool {
    &&& after.contains_key(key)
    &&& after[key].len() > 0
    &&& after == before.insert(
        key,
        if before.contains_key(key) {
            before[key].push(after[key].last())
        } else {
            seq![after[key].last()]
        },
    )
}

/// The number of items under each key.
pub open spec fn counts<T>(lists: Map<DataVersion, Seq<T>>) -> Map<DataVersion, nat> {
    Map::new(|k: DataVersion| lists.contains_key(k), |k: DataVersion| lists[k].len())
}

/// The counts have the keys of the lists.
pub proof fn lemma_counts<T>(lists: Map<DataVersion, Seq<T>>)
    ensures
        counts(lists).dom() == lists.dom(),
        forall|k: DataVersion| lists.contains_key(k) ==> #[trigger] counts(lists)[k] == lists[k].len(),
{
    assert(counts(lists).dom() =~= lists.dom());
}

/// A list of items in ascending order of their versions. Items of one version
/// stay in the order in which they were put in.
pub struct SortedList<K: Versioned> {
    items: Vec<K>,
}

impl<K: Versioned> SortedList<K> {
    #[verifier::type_invariant]
    spec fn ordered(&self) -> bool {
        ascending(versions(self.items@))
    }

    /// The items, in order.
    pub closed spec fn view(&self) -> Seq<K> {
        self.items@
    }

    /// The versions are in ascending order. This holds of every list that exists
    /// at run time.
    pub open spec fn wf(&self) -> bool {
        ascending(versions(self@))
    }

    pub fn new() -> (r: Self)
        ensures
            r@ == Seq::<K>::empty(),
            r.wf(),
    {
        let items: Vec<K> = Vec::new();
        assert(versions(items@) =~= Seq::<DataVersion>::empty());
        SortedList { items }
    }

    pub fn len(&self) -> (r: usize)
        ensures
            r == self@.len(),
            self.wf(),
    {
        proof {
            use_type_invariant(self);
        }
        self.items.len()
    }

    pub fn get(&self, i: usize) -> (r: &K)
        requires
            i < self@.len(),
        ensures
            *r == self@[i as int],
    {
        &self.items[i]
    }

    /// Puts `item` behind every item whose version is at most its own.
    pub fn insert(&mut self, item: K)
        ensures
            final(self)@ == old(self)@.insert(
                slot(versions(old(self)@), item.version_of()),
                item,
            ),
            0 <= slot(versions(old(self)@), item.version_of()) <= old(self)@.len(),
            final(self).wf(),
    {
        proof {
            use_type_invariant(&*self);
        }
        let v = item.version();
        let index = upper_bound(&self.items, &v);
        let mut items: Vec<K> = Vec::new();
        proof {
            assert(versions(items@) =~= Seq::<DataVersion>::empty());
        }
        std::mem::swap(&mut self.items, &mut items);
        proof {
            lemma_insert_keeps_ascending(versions(items@), v);
            assert(versions(items@.insert(index as int, item)) =~= versions(items@).insert(
                index as int,
                v,
            ));
        }
        items.insert(index, item);
        std::mem::swap(&mut self.items, &mut items);
    }
}

/// The items registered for one version.
pub struct Bucket<T> {
    version: DataVersion,
    items: Vec<T>,
}

impl<T> Versioned for Bucket<T> {
    closed spec fn version_of(&self) -> DataVersion {
        self.version
    }

    fn version(&self) -> (r: DataVersion) {
        self.version
    }
}

/// Lists of items keyed by version. The items in force at a version are those of
/// the greatest key at or below it.
pub struct VersionedList<T> {
    buckets: Vec<Bucket<T>>,
}

impl<T> VersionedList<T> {
    #[verifier::type_invariant]
    spec fn ordered(&self) -> bool {
        strictly_ascending(versions(self.buckets@))
    }

    spec fn keys(&self) -> Seq<DataVersion> {
        versions(self.buckets@)
    }

    /// The registered lists by their version.
    pub closed spec fn view(&self) -> Map<DataVersion, Seq<T>> {
        Map::new(
            |k: DataVersion| self.keys().contains(k),
            |k: DataVersion| self.buckets@[self.keys().index_of(k)].items@,
        )
    }

    /// The key in force at `v`: the greatest key at or below `v`.
    pub open spec fn floor(&self, v: DataVersion) -> Option<DataVersion> {
        floor_key(self@.dom(), v)
    }

    /// The items in force at `v`, in the order in which they were registered;
    /// none where no key is at or below `v`.
    pub open spec fn in_force(&self, v: DataVersion) -> Seq<T> {
        match self.floor(v) {
            Some(k) => self@[k],
            None => Seq::empty(),
        }
    }

    proof fn lemma_view(&self)
        requires
            self.ordered(),
        ensures
            self.keys().no_duplicates(),
            forall|i: int|
                0 <= i < self.buckets@.len() ==> self@.contains_key(#[trigger] self.keys()[i])
                    && self@[self.keys()[i]] == self.buckets@[i].items@,
            forall|k: DataVersion| #[trigger]
                self@.contains_key(k) ==> self.keys().contains(k),
    {
        let keys = self.keys();
        assert forall|i: int, j: int| 0 <= i < keys.len() && 0 <= j < keys.len() && i != j implies keys[i]
            != keys[j] by {
            if i < j {
                assert(keys[i].before(keys[j]));
            } else {
                assert(keys[j].before(keys[i]));
            }
        }
        assert forall|i: int| 0 <= i < self.buckets@.len() implies self@.contains_key(
            #[trigger] keys[i],
        ) && self@[keys[i]] == self.buckets@[i].items@ by {
            assert(keys.contains(keys[i]));
            let j = keys.index_of(keys[i]);
            assert(keys[j] == keys[i]);
        }
    }

    pub fn new() -> (r: Self)
        ensures
            r@ == Map::<DataVersion, Seq<T>>::empty(),
    {
        let buckets: Vec<Bucket<T>> = Vec::new();
        let r = VersionedList { buckets };
        assert(r.keys() =~= Seq::<DataVersion>::empty());
        assert(r@ =~= Map::<DataVersion, Seq<T>>::empty());
        r
    }

    /// Floor lookup: the list in force at `v`, if there is one.
    pub fn get_floor(&self, v: &DataVersion) -> (r: Option<&Vec<T>>)
        ensures
            match r {
                Some(items) => self.floor(*v) is Some && items@ == self.in_force(*v),
                None => self.floor(*v) is None,
            },
    {
        proof {
            use_type_invariant(self);
            self.lemma_view();
            self.lemma_keys_ascending();
            lemma_count_splits(self.keys(), *v);
        }
        let n = upper_bound(&self.buckets, v);
        let ghost keys = self.keys();
        if n == 0 {
            proof {
                assert forall|k: DataVersion| self@.dom().contains(k) implies !#[trigger] k.at_most(
                    *v,
                ) by {
                    let i = keys.index_of(k);
                    assert(v.before(keys[i]));
                }
                lemma_floor_key_none(self@.dom(), *v);
            }
            None
        } else {
            proof {
                let k = keys[n - 1];
                assert forall|other: DataVersion|
                    self@.dom().contains(other) && other.at_most(*v) implies #[trigger] other.at_most(
                    k,
                ) by {
                    let i = keys.index_of(other);
                    if i >= n {
                        assert(v.before(keys[i]));
                    } else if i < n - 1 {
                        assert(keys[i].before(keys[n - 1]));
                    }
                }
                assert(is_floor(self@.dom(), *v, k));
                lemma_floor_key_is(self@.dom(), *v, k);
            }
            Some(&self.buckets[n - 1].items)
        }
    }

    proof fn lemma_keys_ascending(&self)
        requires
            self.ordered(),
        ensures
            ascending(self.keys()),
    {
        let keys = self.keys();
        assert forall|i: int, j: int| 0 <= i < j < keys.len() implies keys[i].at_most(keys[j]) by {
            assert(keys[i].before(keys[j]));
        }
    }

    /// Appends `value` to the list at `version`, which is created if it is not there.
    pub fn push(&mut self, version: DataVersion, value: T)
        ensures
            final(self)@ == old(self)@.insert(
                version,
                if old(self)@.contains_key(version) {
                    old(self)@[version].push(value)
                } else {
                    seq![value]
                },
            ),
            appended(old(self)@, version, final(self)@),
            final(self)@[version].last() == value,
    {
        proof {
            use_type_invariant(&*self);
            self.lemma_view();
            self.lemma_keys_ascending();
            lemma_count_splits(self.keys(), version);
        }
        let ghost before = *self;
        let ghost keys = self.keys();
        let n = upper_bound(&self.buckets, &version);
        let found = n > 0 && self.buckets[n - 1].version == version;
        let mut buckets: Vec<Bucket<T>> = Vec::new();
        proof {
            assert(versions(buckets@) =~= Seq::<DataVersion>::empty());
        }
        std::mem::swap(&mut self.buckets, &mut buckets);
        if found {
            buckets[n - 1].items.push(value);
            proof {
                assert(versions(buckets@) =~= keys);
            }
            std::mem::swap(&mut self.buckets, &mut buckets);
            proof {
                assert(self.keys() =~= keys);
                self.lemma_view();
                assert(keys[n - 1] == version);
                assert(before@.contains_key(version) && before@[version] == before.buckets@[n
                    - 1].items@);
                let target = before@.insert(version, before@[version].push(value));
                assert forall|k: DataVersion| self@.contains_key(k) implies #[trigger] self@[k]
                    == target[k] by {
                    let i = keys.index_of(k);
                    assert(keys[i] == k);
                    assert(self@[k] == self.buckets@[i].items@);
                    assert(before@[k] == before.buckets@[i].items@);
                    if i != n - 1 {
                        assert(self.buckets@[i] == before.buckets@[i]);
                    } else {
                        assert(self.buckets@[i].items@ == before.buckets@[i].items@.push(value));
                    }
                }
                assert(self@ =~= target);
            }
        } else {
            proof {
                assert(!keys.contains(version)) by {
                    if keys.contains(version) {
                        let i = keys.index_of(version);
                        assert(keys[i] == version);
                        if i < n {
                            if i < n - 1 {
                                assert(keys[i].before(keys[n - 1]));
                                assert(keys[n - 1].at_most(version));
                            }
                        } else {
                            assert(version.before(keys[i]));
                        }
                    }
                }
                crate::sorted::lemma_insert_keeps_strictly_ascending(keys, version);
            }
            let mut items: Vec<T> = Vec::new();
            items.push(value);
            let bucket = Bucket { version, items };
            proof {
                assert(versions(buckets@.insert(n as int, bucket)) =~= keys.insert(
                    n as int,
                    version,
                ));
            }
            buckets.insert(n, bucket);
            std::mem::swap(&mut self.buckets, &mut buckets);
            proof {
                let longer = self.keys();
                assert(longer == keys.insert(n as int, version));
                self.lemma_view();
                let target = before@.insert(version, seq![value]);
                assert forall|k: DataVersion| self@.contains_key(k) <==> target.contains_key(
                    k,
                ) by {
                    if self@.contains_key(k) {
                        let i = longer.index_of(k);
                        assert(longer[i] == k);
                        if i < n {
                            assert(keys[i] == k);
                        } else if i > n {
                            assert(keys[i - 1] == k);
                        }
                    }
                    if target.contains_key(k) {
                        if k == version {
                            assert(longer[n as int] == k);
                        } else {
                            let i = keys.index_of(k);
                            assert(keys[i] == k);
                            if i < n {
                                assert(longer[i] == k);
                            } else {
                                assert(longer[i + 1] == k);
                            }
                        }
                    }
                }
                assert forall|k: DataVersion| self@.contains_key(k) implies #[trigger] self@[k]
                    == target[k] by {
                    let i = longer.index_of(k);
                    assert(longer[i] == k);
                    if i < n {
                        assert(keys[i] == k);
                        assert(self.buckets@[i] == before.buckets@[i]);
                    } else if i > n {
                        assert(keys[i - 1] == k);
                        assert(self.buckets@[i] == before.buckets@[i - 1]);
                    } else {
                        assert(self.buckets@[i].items@ =~= seq![value]);
                    }
                }
                assert(self@ =~= target);
            }
        }
    }
}

} // verus!
