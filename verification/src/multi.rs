//! Simultaneous mutable access to several fields of a compound.

use crate::nbt::{
    compound_entries, compound_iter_mut, java_string_eq, java_string_from_str, java_string_of,
    JCompound, JValue,
};
use java_string::JavaString;
use vstd::prelude::*;

verus! {

/// No key occurs twice.
pub open spec fn all_unique(keys: Seq<&str>) -> bool {
    forall|i: int, j: int| 0 <= i < j < keys.len() ==> keys[i]@ != keys[j]@
}

/// The keys as the compound has them.
pub open spec fn as_java(keys: Seq<&str>) -> Seq<JavaString> {
    keys.map_values(|key: &str| java_string_of(key@))
}

/// The keys as `JavaString`s. Keys that differ give `JavaString`s that differ.
fn to_java(keys: &[&str]) -> (r: Vec<JavaString>)
    ensures
        r@ == as_java(keys@),
        forall|i: int, j: int|
            0 <= i < keys@.len() && 0 <= j < keys@.len() ==> ((#[trigger] r@[i] == #[trigger] r@[j])
                <==> keys@[i]@ == keys@[j]@),
{
    let mut wanted: Vec<JavaString> = Vec::new();
    let mut i: usize = 0;
    while i < keys.len()
        invariant
            i <= keys.len(),
            wanted@.len() == i,
            forall|j: int| 0 <= j < i ==> #[trigger] wanted@[j] == java_string_of(keys@[j]@),
            forall|j: int, other: Seq<char>|
                0 <= j < i && #[trigger] java_string_of(other) == #[trigger] wanted@[j] ==> other
                    == keys@[j]@,
        decreases keys.len() - i,
    {
        wanted.push(java_string_from_str(keys[i]));
        i += 1;
    }
    assert(wanted@ =~= as_java(keys@));
    wanted
}

/// Tests whether no key occurs twice.
pub fn keys_are_unique(keys: &[&str]) -> (r: bool)
    ensures
        r == all_unique(keys@),
{
    let wanted = to_java(keys);
    let mut i: usize = 0;
    while i < wanted.len()
        invariant
            i <= wanted.len(),
            wanted@.len() == keys@.len(),
            forall|a: int, b: int|
                0 <= a < keys@.len() && 0 <= b < keys@.len() ==> ((#[trigger] wanted@[a]
                    == #[trigger] wanted@[b]) <==> keys@[a]@ == keys@[b]@),
            forall|a: int, b: int| 0 <= a < i && a < b < keys@.len() ==> keys@[a]@ != keys@[b]@,
        decreases wanted.len() - i,
    {
        let mut j: usize = i + 1;
        while j < wanted.len()
            invariant
                i < j <= wanted.len(),
                wanted@.len() == keys@.len(),
                forall|a: int, b: int|
                    0 <= a < keys@.len() && 0 <= b < keys@.len() ==> ((#[trigger] wanted@[a]
                        == #[trigger] wanted@[b]) <==> keys@[a]@ == keys@[b]@),
                forall|b: int| i < b < j ==> keys@[i as int]@ != keys@[b]@,
            decreases wanted.len() - j,
        {
            if java_string_eq(&wanted[i], &wanted[j]) {
                assert(keys@[i as int]@ == keys@[j as int]@);
                return false;
            }
            j += 1;
        }
        i += 1;
    }
    true
}

/// The place of `key` among the wanted keys, if it is among them.
fn place_of(wanted: &Vec<JavaString>, key: &JavaString) -> (r: Option<usize>)
    ensures
        match r {
            Some(i) => i < wanted@.len() && wanted@[i as int] == *key,
            None => forall|i: int| 0 <= i < wanted@.len() ==> wanted@[i] != *key,
        },
{
    let mut i: usize = 0;
    while i < wanted.len()
        invariant
            i <= wanted.len(),
            forall|j: int| 0 <= j < i ==> wanted@[j] != *key,
        decreases wanted.len() - i,
    {
        if java_string_eq(&wanted[i], key) {
            return Some(i);
        }
        i += 1;
    }
    None
}

/// Mutable references to the values under `keys`, all at once: one for each key,
/// in the order of the keys, `None` for a key that the compound does not have.
/// The keys must differ from each other, so that no two references lead to one
/// value. What the caller leaves behind a reference is what the compound then
/// holds under its key; every other entry stays as it is.
pub fn get_mut_multi<'a>(map: &'a mut JCompound, keys: &[&str]) -> (r: Vec<Option<&'a mut JValue>>)
    requires
        all_unique(keys@),
    ensures
        r@.len() == keys@.len(),
        forall|i: int|
            0 <= i < keys@.len() ==> match #[trigger] r@[i] {
                Some(value) => compound_entries(*old(map)).contains_key(
                    java_string_of(keys@[i]@),
                ) && *value == compound_entries(*old(map))[java_string_of(keys@[i]@)],
                None => !compound_entries(*old(map)).contains_key(java_string_of(keys@[i]@)),
            },
        compound_entries(*final(map)).dom() == compound_entries(*old(map)).dom(),
        forall|i: int|
            0 <= i < keys@.len() ==> match #[trigger] r@[i] {
                Some(value) => compound_entries(*final(map))[java_string_of(keys@[i]@)] == *final(value),
                None => true,
            },
        forall|k: JavaString|
            compound_entries(*old(map)).contains_key(k) && !as_java(keys@).contains(k)
                ==> #[trigger] compound_entries(*final(map))[k] == compound_entries(*old(map))[k],
{
    let wanted = to_java(keys);
    let mut result: Vec<Option<&'a mut JValue>> = Vec::new();
    let mut n: usize = 0;
    while n < keys.len()
        invariant
            n <= keys.len(),
            result@.len() == n,
            forall|i: int| 0 <= i < n ==> #[trigger] result@[i] is None,
        decreases keys.len() - n,
    {
        result.push(None);
        n += 1;
    }
    assert forall|a: int, b: int|
        0 <= a < wanted@.len() && 0 <= b < wanted@.len() && a != b implies #[trigger] wanted@[a]
        != #[trigger] wanted@[b] by {
        if a < b {
            assert(keys@[a]@ != keys@[b]@);
        } else {
            assert(keys@[b]@ != keys@[a]@);
        }
    }
    let mut entries = compound_iter_mut(map);
    let ghost all = entries@;
    while entries.len() > 0
        invariant
            entries@ == all.take(entries@.len() as int),
            wanted@.len() == keys@.len(),
            forall|a: int, b: int|
                0 <= a < wanted@.len() && 0 <= b < wanted@.len() && a != b ==> #[trigger] wanted@[a]
                    != #[trigger] wanted@[b],
            entries@.len() <= all.len(),
            result@.len() == keys@.len(),
            wanted@ == as_java(keys@),
            forall|i: int|
                0 <= i < result@.len() ==> match #[trigger] result@[i] {
                    Some(value) => exists|j: int|
                        entries@.len() <= j < all.len() && (#[trigger] all[j]).0 == wanted@[i]
                            && *value == *all[j].1 && *final(value) == *final(all[j].1),
                    None => forall|j: int|
                        entries@.len() <= j < all.len() ==> (#[trigger] all[j]).0 != wanted@[i],
                },
            forall|j: int|
                entries@.len() <= j < all.len() && !wanted@.contains((#[trigger] all[j]).0)
                    ==> *final(all[j].1) == *all[j].1,
        decreases entries@.len(),
    {
        let ghost j = entries@.len() - 1;
        let ghost held = result@;
        let entry = entries.pop();
        match entry {
            Some((key, value)) => {
                assert(key == all[j].0 && value == all[j].1);
                match place_of(&wanted, &key) {
                    Some(i) => {
                        let ghost taken = value;
                        result[i] = Some(value);
                        proof {
                            assert(result@.len() == held.len());
                            assert(forall|o: int| 0 <= o < held.len() && o != i ==> result@[o] == held[o]);
                            assert(result@[i as int] is Some);
                            assert(*(result@[i as int]->0) == *taken);
                            assert(*final(result@[i as int]->0) == *final(taken));
                            assert(taken == all[j].1);
                            assert(wanted@.contains(all[j].0));
                            assert forall|other: int|
                                0 <= other < result@.len() implies match #[trigger] result@[other] {
                                Some(value) => exists|at: int|
                                    j <= at < all.len() && (#[trigger] all[at]).0 == wanted@[other]
                                        && *value == *all[at].1
                                        && *final(value) == *final(all[at].1),
                                None => forall|at: int|
                                    j <= at < all.len() ==> (#[trigger] all[at]).0
                                        != wanted@[other],
                            } by {
                                if other == i {
                                    assert(all[j].0 == wanted@[other] && taken == all[j].1);
                                } else {
                                    assert(result@[other] == held[other]);
                                    assert(wanted@[other] != wanted@[i as int]);
                                    match held[other] {
                                        Some(value) => {
                                            let at = choose|at: int|
                                                j + 1 <= at < all.len() && (#[trigger] all[at]).0
                                                    == wanted@[other] && *value == *all[at].1
                                                    && *final(value) == *final(all[at].1);
                                            assert(all[at].0 == wanted@[other]);
                                        },
                                        None => {
                                            assert forall|at: int| j <= at < all.len() implies (
                                            #[trigger] all[at]).0 != wanted@[other] by {
                                                if at == j {
                                                    assert(all[j].0 == wanted@[i as int]);
                                                }
                                            }
                                        },
                                    }
                                }
                            }
                        }
                    },
                    None => {
                        proof {
                            assert(!wanted@.contains(all[j].0)) by {
                                if wanted@.contains(all[j].0) {
                                    let at = wanted@.index_of(all[j].0);
                                    assert(wanted@[at] == all[j].0);
                                }
                            }
                            assert(*final(value) == *value);
                            assert forall|other: int|
                                0 <= other < result@.len() implies match #[trigger] result@[other] {
                                Some(value) => exists|at: int|
                                    j <= at < all.len() && (#[trigger] all[at]).0 == wanted@[other]
                                        && *value == *all[at].1
                                        && *final(value) == *final(all[at].1),
                                None => forall|at: int|
                                    j <= at < all.len() ==> (#[trigger] all[at]).0
                                        != wanted@[other],
                            } by {
                                match held[other] {
                                    Some(value) => {
                                        let at = choose|at: int|
                                            j + 1 <= at < all.len() && (#[trigger] all[at]).0
                                                == wanted@[other] && *value == *all[at].1
                                                && *final(value) == *final(all[at].1);
                                        assert(all[at].0 == wanted@[other]);
                                    },
                                    None => {},
                                }
                            }
                        }
                    },
                }
            },
            None => {},
        }
        assert(entries@ =~= all.take(entries@.len() as int));
    }
    result
}

} // verus!
