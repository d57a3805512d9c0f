//! From documents with Rust strings to documents with `JavaString`s.

use crate::nbt::{
    compound_entries, compound_insert, compound_new, java_string_from_string, java_string_of,
    string_compound_entries, string_compound_into_entries, JCompound, JList, JValue,
};
use java_string::JavaString;
use vstd::prelude::*;

verus! {

/// `to` says in `JavaString`s what `from` says in Rust strings, down to `depth`
/// levels of nesting.
pub open spec fn value_mirrors(depth: nat, from: valence_nbt::Value<String>, to: JValue) -> bool
    decreases depth, 2nat,
{
    match from {
        valence_nbt::Value::Byte(v) => to == JValue::Byte(v),
        valence_nbt::Value::Short(v) => to == JValue::Short(v),
        valence_nbt::Value::Int(v) => to == JValue::Int(v),
        valence_nbt::Value::Long(v) => to == JValue::Long(v),
        valence_nbt::Value::Float(v) => to == JValue::Float(v),
        valence_nbt::Value::Double(v) => to == JValue::Double(v),
        valence_nbt::Value::ByteArray(v) => to == JValue::ByteArray(v),
        valence_nbt::Value::String(v) => to == JValue::String(java_string_of(v@)),
        valence_nbt::Value::List(v) => to matches valence_nbt::Value::List(list) && list_mirrors(
            depth,
            v,
            list,
        ),
        valence_nbt::Value::Compound(v) => to matches valence_nbt::Value::Compound(compound)
            && compound_mirrors(depth, v, compound),
        valence_nbt::Value::IntArray(v) => to == JValue::IntArray(v),
        valence_nbt::Value::LongArray(v) => to == JValue::LongArray(v),
    }
}

/// `to` is the list `from` with `JavaString`s for its Rust strings, down to
/// `depth` levels of nesting.
pub open spec fn list_mirrors(depth: nat, from: valence_nbt::List<String>, to: JList) -> bool
    decreases depth, 1nat,
{
    match from {
        valence_nbt::List::End => to is End,
        valence_nbt::List::Byte(v) => to == JList::Byte(v),
        valence_nbt::List::Short(v) => to == JList::Short(v),
        valence_nbt::List::Int(v) => to == JList::Int(v),
        valence_nbt::List::Long(v) => to == JList::Long(v),
        valence_nbt::List::Float(v) => to == JList::Float(v),
        valence_nbt::List::Double(v) => to == JList::Double(v),
        valence_nbt::List::ByteArray(v) => to == JList::ByteArray(v),
        valence_nbt::List::String(v) => to matches valence_nbt::List::String(strings) && strings@
            == v@.map_values(|s: String| java_string_of(s@)),
        valence_nbt::List::List(v) => to matches valence_nbt::List::List(lists) && lists@.len()
            == v@.len() && (depth > 0 ==> forall|i: int|
            0 <= i < v@.len() ==> list_mirrors((depth - 1) as nat, v@[i], #[trigger] lists@[i])),
        valence_nbt::List::Compound(v) => to matches valence_nbt::List::Compound(compounds)
            && compounds@.len() == v@.len() && forall|i: int|
            0 <= i < v@.len() ==> compound_mirrors(depth, v@[i], #[trigger] compounds@[i]),
        valence_nbt::List::IntArray(v) => to == JList::IntArray(v),
        valence_nbt::List::LongArray(v) => to == JList::LongArray(v),
    }
}

/// `to` has the entries of `from`, each key as a `JavaString` and, down to
/// `depth` levels of nesting, each value with `JavaString`s for its Rust strings.
pub open spec fn compound_mirrors(
    depth: nat,
    from: valence_nbt::Compound<String>,
    to: JCompound,
) -> bool
    decreases depth, 0nat,
{
    let entries = string_compound_entries(from);
    let mirrored = compound_entries(to);
    &&& forall|key: Seq<char>|
        entries.contains_key(key) ==> #[trigger] mirrored.contains_key(java_string_of(key))
    &&& forall|key: JavaString|
        mirrored.contains_key(key) ==> exists|k: Seq<char>|
            entries.contains_key(k) && #[trigger] java_string_of(k) == key
    &&& depth > 0 ==> forall|key: Seq<char>|
        entries.contains_key(key) ==> value_mirrors(
            (depth - 1) as nat,
            entries[key],
            #[trigger] mirrored[java_string_of(key)],
        )
}

/// Turns a value with Rust strings into the same value with `JavaString`s.
pub fn value_to_java(value: valence_nbt::Value<String>) -> (r: JValue)
    ensures
        forall|depth: nat| value_mirrors(depth, value, r),
    decreases value,
{
    let r = match value {
        valence_nbt::Value::Byte(v) => JValue::Byte(v),
        valence_nbt::Value::Short(v) => JValue::Short(v),
        valence_nbt::Value::Int(v) => JValue::Int(v),
        valence_nbt::Value::Long(v) => JValue::Long(v),
        valence_nbt::Value::Float(v) => JValue::Float(v),
        valence_nbt::Value::Double(v) => JValue::Double(v),
        valence_nbt::Value::ByteArray(v) => JValue::ByteArray(v),
        valence_nbt::Value::String(v) => JValue::String(java_string_from_string(v)),
        valence_nbt::Value::List(v) => JValue::List(list_to_java(v)),
        valence_nbt::Value::Compound(v) => JValue::Compound(compound_to_java(v)),
        valence_nbt::Value::IntArray(v) => JValue::IntArray(v),
        valence_nbt::Value::LongArray(v) => JValue::LongArray(v),
    };
    proof {
        assert forall|depth: nat| value_mirrors(depth, value, r) by {
            match value {
                valence_nbt::Value::List(v) => {
                    assert(r matches valence_nbt::Value::List(out) && list_mirrors(depth, v, out));
                },
                valence_nbt::Value::Compound(v) => {
                    assert(r matches valence_nbt::Value::Compound(out) && compound_mirrors(depth, v, out));
                },
                _ => {},
            }
        }
    }
    r
}

/// Turns a list with Rust strings into the same list with `JavaString`s.
pub fn list_to_java(list: valence_nbt::List<String>) -> (r: JList)
    ensures
        forall|depth: nat| list_mirrors(depth, list, r),
    decreases list,
{
    match list {
        valence_nbt::List::End => JList::End,
        valence_nbt::List::Byte(v) => JList::Byte(v),
        valence_nbt::List::Short(v) => JList::Short(v),
        valence_nbt::List::Int(v) => JList::Int(v),
        valence_nbt::List::Long(v) => JList::Long(v),
        valence_nbt::List::Float(v) => JList::Float(v),
        valence_nbt::List::Double(v) => JList::Double(v),
        valence_nbt::List::ByteArray(v) => JList::ByteArray(v),
        valence_nbt::List::String(v) => {
            let mut strings = v;
            let ghost start = strings@;
            let mut out: Vec<JavaString> = Vec::new();
            let mut i: usize = 0;
            while i < strings.len()
                invariant
                    i <= strings.len(),
                    strings@.len() == start.len(),
                    out@.len() == i,
                    forall|j: int| 0 <= j < i ==> #[trigger] out@[j] == java_string_of(start[j]@),
                    forall|j: int| i <= j < strings.len() ==> strings@[j] == start[j],
                decreases strings.len() - i,
            {
                let mut taken = String::new();
                std::mem::swap(&mut strings[i], &mut taken);
                out.push(java_string_from_string(taken));
                i += 1;
            }
            assert(out@ =~= start.map_values(|s: String| java_string_of(s@)));
            let r = JList::String(out);
            assert(forall|depth: nat| list_mirrors(depth, list, r));
            r
        },
        valence_nbt::List::List(v) => {
            let mut lists = v;
            let ghost start = lists@;
            let mut out: Vec<JList> = Vec::new();
            let mut i: usize = 0;
            while i < lists.len()
                invariant
                    i <= lists.len(),
                    lists@.len() == start.len(),
                    out@.len() == i,
                    forall|j: int| 0 <= j < start.len() ==> decreases_to!(list => start[j]),
                    forall|j: int, depth: nat|
                        0 <= j < i ==> #[trigger] list_mirrors(depth, start[j], out@[j]),
                    forall|j: int| i <= j < lists.len() ==> lists@[j] == start[j],
                decreases lists.len() - i,
            {
                let mut taken = valence_nbt::List::End;
                std::mem::swap(&mut lists[i], &mut taken);
                assert(taken == start[i as int]);
                assert(decreases_to!(list => start[i as int]));
                out.push(list_to_java(taken));
                i += 1;
            }
            let r = JList::List(out);
            proof {
                assert forall|depth: nat| list_mirrors(depth, list, r) by {
                    if depth > 0 {
                        assert forall|k: int| 0 <= k < start.len() implies list_mirrors(
                            (depth - 1) as nat,
                            start[k],
                            #[trigger] out@[k],
                        ) by {}
                    }
                }
            }
            r
        },
        valence_nbt::List::Compound(v) => {
            let mut compounds = v;
            let ghost start = compounds@;
            let mut out: Vec<JCompound> = Vec::new();
            while compounds.len() > 0
                invariant
                    compounds@ == start.take(compounds@.len() as int),
                    compounds@.len() <= start.len(),
                    out@.len() == start.len() - compounds@.len(),
                    forall|j: int| 0 <= j < start.len() ==> decreases_to!(list => start[j]),
                    forall|j: int, depth: nat|
                        0 <= j < out@.len() ==> #[trigger] compound_mirrors(
                            depth,
                            start[start.len() - 1 - j],
                            out@[j],
                        ),
                decreases compounds@.len(),
            {
                match compounds.pop() {
                    Some(compound) => {
                        out.push(compound_to_java(compound));
                    },
                    None => {},
                }
                assert(compounds@ =~= start.take(compounds@.len() as int));
            }
            let mut ordered: Vec<JCompound> = Vec::new();
            while out.len() > 0
                invariant
                    out@.len() + ordered@.len() == start.len(),
                    forall|j: int, depth: nat|
                        0 <= j < out@.len() ==> #[trigger] compound_mirrors(
                            depth,
                            start[start.len() - 1 - j],
                            out@[j],
                        ),
                    forall|j: int, depth: nat|
                        0 <= j < ordered@.len() ==> #[trigger] compound_mirrors(
                            depth,
                            start[j],
                            ordered@[j],
                        ),
                decreases out@.len(),
            {
                let ghost last = out@.len() - 1;
                let ghost had = ordered@;
                let ghost rest = out@;
                match out.pop() {
                    Some(compound) => {
                        assert(compound == rest[last]);
                        ordered.push(compound);
                        proof {
                            assert forall|j: int, depth: nat|
                                0 <= j < ordered@.len() implies #[trigger] compound_mirrors(
                                depth,
                                start[j],
                                ordered@[j],
                            ) by {
                                if j < had.len() {
                                    assert(ordered@[j] == had[j]);
                                    assert(compound_mirrors(depth, start[j], had[j]));
                                } else {
                                    assert(compound_mirrors(
                                        depth,
                                        start[start.len() - 1 - last],
                                        rest[last],
                                    ));
                                }
                            }
                            assert forall|j: int, depth: nat|
                                0 <= j < out@.len() implies #[trigger] compound_mirrors(
                                depth,
                                start[start.len() - 1 - j],
                                out@[j],
                            ) by {
                                assert(out@[j] == rest[j]);
                                assert(compound_mirrors(depth, start[start.len() - 1 - j], rest[j]));
                            }
                        }
                    },
                    None => {},
                }
            }
            let r = JList::Compound(ordered);
            proof {
                assert forall|depth: nat| list_mirrors(depth, list, r) by {
                    assert forall|k: int| 0 <= k < start.len() implies compound_mirrors(
                        depth,
                        start[k],
                        #[trigger] ordered@[k],
                    ) by {}
                }
            }
            r
        },
        valence_nbt::List::IntArray(v) => JList::IntArray(v),
        valence_nbt::List::LongArray(v) => JList::LongArray(v),
    }
}

/// Turns a compound with Rust strings into the same compound with `JavaString`s.
pub fn compound_to_java(compound: valence_nbt::Compound<String>) -> (r: JCompound)
    ensures
        forall|depth: nat| compound_mirrors(depth, compound, r),
    decreases compound,
{
    let ghost from = string_compound_entries(compound);
    let mut entries = string_compound_into_entries(compound);
    let ghost all = entries@;
    let mut result = compound_new();
    while entries.len() > 0
        invariant
            entries@ == all.take(entries@.len() as int),
            entries@.len() <= all.len(),
            forall|j: int|
                0 <= j < all.len() ==> from.contains_key((#[trigger] all[j]).0@) && from[all[j].0@]
                    == all[j].1,
            forall|i: int, j: int| 0 <= i < j < all.len() ==> all[i].0@ != all[j].0@,
            forall|j: int| 0 <= j < all.len() ==> decreases_to!(compound => (#[trigger] all[j]).1),
            forall|j: int|
                entries@.len() <= j < all.len() ==> compound_entries(result).contains_key(
                    java_string_of((#[trigger] all[j]).0@),
                ) && forall|other: Seq<char>| #[trigger]
                    java_string_of(other) == java_string_of(all[j].0@) ==> other == all[j].0@,
            forall|j: int, depth: nat|
                entries@.len() <= j < all.len() ==> #[trigger] value_mirrors(
                    depth,
                    all[j].1,
                    compound_entries(result)[java_string_of(all[j].0@)],
                ),
            forall|key: JavaString|
                compound_entries(result).contains_key(key) ==> exists|j: int|
                    entries@.len() <= j < all.len() && java_string_of((#[trigger] all[j]).0@)
                        == key,
        decreases entries@.len(),
    {
        let ghost at = entries@.len() - 1;
        let ghost held = compound_entries(result);
        match entries.pop() {
            Some((key, value)) => {
                assert(key == all[at].0 && value == all[at].1);
                let java_key = java_string_from_string(key);
                let java_value = value_to_java(value);
                compound_insert(&mut result, java_key, java_value);
                proof {
                    assert forall|j: int| at + 1 <= j < all.len() implies java_string_of(
                        (#[trigger] all[j]).0@,
                    ) != java_key by {
                        assert(all[at].0@ != all[j].0@);
                    }
                    assert forall|j: int, depth: nat| at <= j < all.len() implies #[trigger] value_mirrors(
                        depth,
                        all[j].1,
                        compound_entries(result)[java_string_of(all[j].0@)],
                    ) by {
                        if j > at {
                            assert(compound_entries(result)[java_string_of(all[j].0@)]
                                == held[java_string_of(all[j].0@)]);
                        }
                    }
                    assert forall|k: JavaString|
                        compound_entries(result).contains_key(k) implies exists|j: int|
                        at <= j < all.len() && java_string_of((#[trigger] all[j]).0@) == k by {
                        if k == java_key {
                            assert(java_string_of(all[at].0@) == k);
                        } else {
                            let j = choose|j: int|
                                at + 1 <= j < all.len() && java_string_of((#[trigger] all[j]).0@)
                                    == k;
                            assert(java_string_of(all[j].0@) == k);
                        }
                    }
                }
            },
            None => {},
        }
        assert(entries@ =~= all.take(entries@.len() as int));
    }
    proof {
        assert forall|depth: nat| compound_mirrors(depth, compound, result) by {
            let mirrored = compound_entries(result);
            assert forall|key: Seq<char>| from.contains_key(key) implies #[trigger] mirrored.contains_key(
                java_string_of(key),
            ) by {
                let j = choose|j: int| 0 <= j < all.len() && (#[trigger] all[j]).0@ == key;
                assert(mirrored.contains_key(java_string_of(all[j].0@)));
            }
            assert forall|key: JavaString| mirrored.contains_key(key) implies exists|k: Seq<char>|
                from.contains_key(k) && #[trigger] java_string_of(k) == key by {
                let j = choose|j: int|
                    0 <= j < all.len() && java_string_of((#[trigger] all[j]).0@) == key;
                assert(from.contains_key(all[j].0@) && java_string_of(all[j].0@) == key);
            }
            if depth > 0 {
                assert forall|key: Seq<char>| from.contains_key(key) implies value_mirrors(
                    (depth - 1) as nat,
                    from[key],
                    #[trigger] mirrored[java_string_of(key)],
                ) by {
                    let j = choose|j: int| 0 <= j < all.len() && (#[trigger] all[j]).0@ == key;
                    assert(value_mirrors((depth - 1) as nat, all[j].1, mirrored[java_string_of(all[j].0@)]));
                }
            }
        }
    }
    result
}

} // verus!
