//! Versioned lists by discriminator value: what a data type with discriminator
//! dispatch registers its walkers into.

use crate::nbt::{java_string_clone, java_string_eq};
use crate::registry::{appended, VersionedList};
use crate::version::DataVersion;
use java_string::JavaString;
use std::rc::Rc;
use vstd::prelude::*;

verus! {

/// The lists registered for one discriminator value.
pub struct IdEntry<T> {
    id: JavaString,
    lists: VersionedList<T>,
}

/// Versioned lists of items, one set of lists for each discriminator value.
pub struct IdTable<T> {
    entries: Vec<IdEntry<T>>,
}

/// The lists under `id`, none where `id` is not there.
pub open spec fn lists_of<T>(
    table: Map<JavaString, Map<DataVersion, Seq<T>>>,
    id: JavaString,
) -> Map<DataVersion, Seq<T>> {
    if table.contains_key(id) {
        table[id]
    } else {
        Map::empty()
    }
}

/// The list under `id` and `version`, empty where there is none.
pub open spec fn list_of<T>(
    table: Map<JavaString, Map<DataVersion, Seq<T>>>,
    id: JavaString,
    version: DataVersion,
) -> Seq<T> {
    if lists_of(table, id).contains_key(version) {
        lists_of(table, id)[version]
    } else {
        Seq::empty()
    }
}

/// `after` is `before` with `items` added, in order, at the end of the list under
/// `id` and `version`; nothing else differs. Without items nothing differs at all.
pub open spec fn extended<T>(
    before: Map<JavaString, Map<DataVersion, Seq<T>>>,
    id: JavaString,
    version: DataVersion,
    items: Seq<T>,
    after: Map<JavaString, Map<DataVersion, Seq<T>>>,
) -> bool {
    if items.len() == 0 {
        after == before
    } else {
        after == before.insert(
            id,
            lists_of(before, id).insert(version, list_of(before, id, version) + items),
        )
    }
}

impl<T> IdTable<T> {
    #[verifier::type_invariant]
    spec fn distinct(&self) -> bool {
        forall|i: int, j: int|
            0 <= i < self.entries@.len() && 0 <= j < self.entries@.len() && i != j
                ==> self.entries@[i].id != self.entries@[j].id
    }

    spec fn place_of(&self, id: JavaString) -> int {
        choose|i: int| 0 <= i < self.entries@.len() && self.entries@[i].id == id
    }

    spec fn has(&self, id: JavaString) -> bool {
        exists|i: int| 0 <= i < self.entries@.len() && self.entries@[i].id == id
    }

    /// The registered lists by discriminator value and version.
    pub closed spec fn view(&self) -> Map<JavaString, Map<DataVersion, Seq<T>>> {
        Map::new(|id: JavaString| self.has(id), |id: JavaString| self.entries@[self.place_of(id)].lists@)
    }

    proof fn lemma_view(&self)
        requires
            self.distinct(),
        ensures
            forall|i: int|
                0 <= i < self.entries@.len() ==> self@.contains_key(#[trigger] self.entries@[i].id)
                    && self@[self.entries@[i].id] == self.entries@[i].lists@,
            forall|id: JavaString| #[trigger] self@.contains_key(id) ==> self.has(id),
    {
        assert forall|i: int| 0 <= i < self.entries@.len() implies self@.contains_key(
            #[trigger] self.entries@[i].id,
        ) && self@[self.entries@[i].id] == self.entries@[i].lists@ by {
            let id = self.entries@[i].id;
            assert(self.has(id));
            let j = self.place_of(id);
            assert(j == i);
        }
    }

    pub fn new() -> (r: Self)
        ensures
            r@ == Map::<JavaString, Map<DataVersion, Seq<T>>>::empty(),
    {
        let r = IdTable { entries: Vec::new() };
        assert(r@ =~= Map::<JavaString, Map<DataVersion, Seq<T>>>::empty());
        r
    }

    /// The place of the entry for `id`, if there is one.
    fn find(&self, id: &JavaString) -> (r: Option<usize>)
        ensures
            match r {
                Some(i) => i < self.entries@.len() && self.entries@[i as int].id == *id,
                None => !self.has(*id),
            },
    {
        let mut i: usize = 0;
        while i < self.entries.len()
            invariant
                i <= self.entries.len(),
                forall|j: int| 0 <= j < i ==> self.entries@[j].id != *id,
            decreases self.entries.len() - i,
        {
            if java_string_eq(&self.entries[i].id, id) {
                return Some(i);
            }
            i += 1;
        }
        None
    }

    /// The lists registered for `id`, if there are any.
    pub fn get(&self, id: &JavaString) -> (r: Option<&VersionedList<T>>)
        ensures
            match r {
                Some(lists) => self@.contains_key(*id) && lists@ == self@[*id] && *lists
                    == self.spec_lists(*id),
                None => !self@.contains_key(*id),
            },
    {
        proof {
            use_type_invariant(self);
            self.lemma_view();
        }
        match self.find(id) {
            Some(i) => {
                proof {
                    assert(self.has(*id));
                    assert(self.place_of(*id) == i);
                }
                Some(&self.entries[i].lists)
            },
            None => None,
        }
    }

    /// The lists registered for `id`, as the container that holds them.
    pub closed spec fn spec_lists(&self, id: JavaString) -> VersionedList<T> {
        self.entries@[self.place_of(id)].lists
    }

    /// Appends `value` to the list under `id` and `version`; both are created
    /// where they are not there.
    pub fn push(&mut self, id: &JavaString, version: DataVersion, value: T)
        ensures
            final(self)@.contains_key(*id),
            appended(lists_of(old(self)@, *id), version, final(self)@[*id]),
            final(self)@[*id][version].last() == value,
            final(self)@ == old(self)@.insert(*id, final(self)@[*id]),
            extended(old(self)@, *id, version, seq![value], final(self)@),
    {
        proof {
            use_type_invariant(&*self);
            self.lemma_view();
        }
        let ghost before = *self;
        let found = self.find(id);
        let mut entries: Vec<IdEntry<T>> = Vec::new();
        std::mem::swap(&mut self.entries, &mut entries);
        match found {
            Some(i) => {
                entries[i].lists.push(version, value);
                proof {
                    assert forall|a: int, b: int|
                        0 <= a < entries@.len() && 0 <= b < entries@.len() && a != b implies entries@[a].id
                        != entries@[b].id by {
                        assert(entries@[a].id == before.entries@[a].id);
                        assert(entries@[b].id == before.entries@[b].id);
                    }
                }
                std::mem::swap(&mut self.entries, &mut entries);
                proof {
                    self.lemma_view();
                    assert(self.entries@[i as int].id == *id);
                    let lists = self.entries@[i as int].lists@;
                    assert(self@[*id] == lists);
                    assert(before@[*id] == before.entries@[i as int].lists@);
                    assert forall|k: JavaString| self@.contains_key(k) <==> before@.contains_key(
                        k,
                    ) by {
                        if self@.contains_key(k) {
                            let j = self.place_of(k);
                            assert(before.entries@[j].id == k);
                        }
                        if before@.contains_key(k) {
                            let j = before.place_of(k);
                            assert(self.entries@[j].id == k);
                        }
                    }
                    assert forall|k: JavaString| self@.contains_key(k) implies #[trigger] self@[k]
                        == before@.insert(*id, lists)[k] by {
                        let j = self.place_of(k);
                        assert(before.entries@[j].id == k);
                        if j != i {
                            assert(self.entries@[j] == before.entries@[j]);
                        }
                    }
                    assert(self@ =~= before@.insert(*id, lists));
                }
            },
            None => {
                let mut lists: VersionedList<T> = VersionedList::new();
                lists.push(version, value);
                let entry = IdEntry { id: java_string_clone(id), lists };
                entries.push(entry);
                proof {
                    assert forall|a: int, b: int|
                        0 <= a < entries@.len() && 0 <= b < entries@.len() && a != b implies entries@[a].id
                        != entries@[b].id by {
                        if a < before.entries@.len() {
                            assert(entries@[a] == before.entries@[a]);
                        }
                        if b < before.entries@.len() {
                            assert(entries@[b] == before.entries@[b]);
                        }
                    }
                }
                std::mem::swap(&mut self.entries, &mut entries);
                proof {
                    self.lemma_view();
                    let n = before.entries@.len() as int;
                    assert(self.entries@[n].id == *id);
                    assert(self@[*id] == lists@);
                    assert forall|k: JavaString| self@.contains_key(k) <==> before@.insert(
                        *id,
                        lists@,
                    ).contains_key(k) by {
                        if self@.contains_key(k) && k != *id {
                            let j = self.place_of(k);
                            assert(before.entries@[j].id == k);
                        }
                        if before@.contains_key(k) {
                            let j = before.place_of(k);
                            assert(self.entries@[j].id == k);
                        }
                    }
                    assert forall|k: JavaString| self@.contains_key(k) implies #[trigger] self@[k]
                        == before@.insert(*id, lists@)[k] by {
                        let j = self.place_of(k);
                        if j < n {
                            assert(self.entries@[j] == before.entries@[j]);
                        }
                    }
                    assert(self@ =~= before@.insert(*id, lists@));
                }
            },
        }
        proof {
            let after = self@;
            let old_lists = lists_of(before@, *id);
            let new_lists = after[*id];
            assert(new_lists == old_lists.insert(
                version,
                if old_lists.contains_key(version) {
                    old_lists[version].push(new_lists[version].last())
                } else {
                    seq![new_lists[version].last()]
                },
            ));
            assert(list_of(before@, *id, version) + seq![value] =~= if old_lists.contains_key(
                version,
            ) {
                old_lists[version].push(value)
            } else {
                seq![value]
            });
        }
    }
}

/// Copies of the shared handles in `list`, in order: each copy points to what
/// the handle in `list` points to.
pub fn clone_shared<T>(list: &Vec<Rc<T>>) -> (r: Vec<Rc<T>>)
    ensures
        r@ == list@,
{
    let mut copies: Vec<Rc<T>> = Vec::new();
    let mut i: usize = 0;
    while i < list.len()
        invariant
            i <= list.len(),
            copies@ == list@.take(i as int),
        decreases list.len() - i,
    {
        let copy = Rc::clone(&list[i]);
        copies.push(copy);
        assert(list@.take(i + 1) =~= list@.take(i as int).push(list@[i as int]));
        i += 1;
    }
    assert(list@.take(list.len() as int) =~= list@);
    copies
}

/// Appends the shared handles in `items`, in order, to the list under `id` and
/// `version`. What they point to is shared, not copied.
pub fn append_shared<T>(
    table: &mut IdTable<Rc<T>>,
    id: &JavaString,
    version: DataVersion,
    items: &Vec<Rc<T>>,
)
    ensures
        extended(old(table)@, *id, version, items@, final(table)@),
{
    let mut i: usize = 0;
    while i < items.len()
        invariant
            i <= items.len(),
            extended(old(table)@, *id, version, items@.take(i as int), table@),
        decreases items.len() - i,
    {
        let ghost middle = table@;
        let copy = Rc::clone(&items[i]);
        table.push(id, version, copy);
        proof {
            let start = old(table)@;
            let done = items@.take(i as int);
            let next = items@.take(i + 1);
            assert(next =~= done.push(items@[i as int]));
            let base = list_of(start, *id, version);
            if i == 0 {
                assert(done =~= Seq::<Rc<T>>::empty());
                assert(next =~= seq![copy]);
                assert(middle == start);
            } else {
                assert(lists_of(middle, *id) == lists_of(start, *id).insert(version, base + done));
                assert(list_of(middle, *id, version) == base + done);
                assert((base + done) + seq![copy] =~= base + next);
                assert(lists_of(middle, *id).insert(version, base + next) =~= lists_of(
                    start,
                    *id,
                ).insert(version, base + next));
                assert(middle.insert(*id, lists_of(start, *id).insert(version, base + next))
                    =~= start.insert(*id, lists_of(start, *id).insert(version, base + next)));
            }
        }
        i += 1;
    }
    assert(items@.take(items.len() as int) =~= items@);
}

/// What was added is there: after items were added under `id` and `version`,
/// the list there holds what it held and then the items, one by one and as
/// they were.
pub proof fn law_extended_holds_items<T>(
    before: Map<JavaString, Map<DataVersion, Seq<T>>>,
    id: JavaString,
    version: DataVersion,
    items: Seq<T>,
    after: Map<JavaString, Map<DataVersion, Seq<T>>>,
    i: int,
)
    requires
        extended(before, id, version, items, after),
        0 <= i < items.len(),
    ensures
        after.contains_key(id),
        after[id].contains_key(version),
        after[id][version] == list_of(before, id, version) + items,
        after[id][version][list_of(before, id, version).len() + i] == items[i],
{
}

/// What was added is nowhere else: the lists of every other discriminator value
/// stay as they were.
pub proof fn law_extended_elsewhere<T>(
    before: Map<JavaString, Map<DataVersion, Seq<T>>>,
    id: JavaString,
    version: DataVersion,
    items: Seq<T>,
    after: Map<JavaString, Map<DataVersion, Seq<T>>>,
    other: JavaString,
)
    requires
        extended(before, id, version, items, after),
        other != id,
    ensures
        after.contains_key(other) == before.contains_key(other),
        lists_of(after, other) == lists_of(before, other),
{
}

} // verus!
