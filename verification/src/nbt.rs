//! The document types and what this library needs from them.
//!
//! Documents are trees of `valence_nbt` values with `JavaString` keys and strings.
//! The tag, value and list enums are declared with their variants, so the
//! verifier reads them as `valence_nbt` defines them and nothing is assumed of
//! them. A compound and a `JavaString` are opaque: what a compound holds is
//! `compound_entries`, and the functions of this file are the only ones that
//! call into `valence_nbt` and `java_string`. Their contracts are not proved;
//! each says above itself what it takes for granted.

use crate::engine::Kept;
use java_string::JavaString;
use vstd::prelude::*;

verus! {

#[verifier::external_type_specification]
#[verifier::external_body]
pub struct ExJavaString(java_string::JavaString);

#[verifier::external_type_specification]
pub struct ExTag(valence_nbt::Tag);

#[verifier::external_type_specification]
#[verifier::external_body]
#[verifier::reject_recursive_types(S)]
pub struct ExCompound<S>(valence_nbt::Compound<S>);

#[verifier::external_type_specification]
#[verifier::reject_recursive_types(S)]
pub struct ExValue<S>(valence_nbt::Value<S>);

#[verifier::external_type_specification]
#[verifier::reject_recursive_types(S)]
pub struct ExList<S>(valence_nbt::List<S>);

#[verifier::external_type_specification]
#[verifier::external_body]
#[verifier::reject_recursive_types(S)]
pub struct ExValueMut<'a, S>(valence_nbt::value::ValueMut<'a, S>);

pub type JCompound = valence_nbt::Compound<JavaString>;

pub type JList = valence_nbt::List<JavaString>;

pub type JValue = valence_nbt::Value<JavaString>;

pub type JValueMut<'a> = valence_nbt::value::ValueMut<'a, JavaString>;

/// The entries of a compound: each key with the value stored under it.
pub uninterp spec fn compound_entries(c: JCompound) -> Map<JavaString, JValue>;

/// The elements of a list, in order, each as a value of its own.
pub open spec fn list_values(l: JList) -> Seq<JValue> {
    match l {
        valence_nbt::List::End => Seq::empty(),
        valence_nbt::List::Byte(items) => Seq::new(
            items@.len(),
            |i: int| valence_nbt::Value::Byte(items@[i]),
        ),
        valence_nbt::List::Short(items) => Seq::new(
            items@.len(),
            |i: int| valence_nbt::Value::Short(items@[i]),
        ),
        valence_nbt::List::Int(items) => Seq::new(
            items@.len(),
            |i: int| valence_nbt::Value::Int(items@[i]),
        ),
        valence_nbt::List::Long(items) => Seq::new(
            items@.len(),
            |i: int| valence_nbt::Value::Long(items@[i]),
        ),
        valence_nbt::List::Float(items) => Seq::new(
            items@.len(),
            |i: int| valence_nbt::Value::Float(items@[i]),
        ),
        valence_nbt::List::Double(items) => Seq::new(
            items@.len(),
            |i: int| valence_nbt::Value::Double(items@[i]),
        ),
        valence_nbt::List::ByteArray(items) => Seq::new(
            items@.len(),
            |i: int| valence_nbt::Value::ByteArray(items@[i]),
        ),
        valence_nbt::List::String(items) => Seq::new(
            items@.len(),
            |i: int| valence_nbt::Value::String(items@[i]),
        ),
        valence_nbt::List::List(items) => Seq::new(
            items@.len(),
            |i: int| valence_nbt::Value::List(items@[i]),
        ),
        valence_nbt::List::Compound(items) => Seq::new(
            items@.len(),
            |i: int| valence_nbt::Value::Compound(items@[i]),
        ),
        valence_nbt::List::IntArray(items) => Seq::new(
            items@.len(),
            |i: int| valence_nbt::Value::IntArray(items@[i]),
        ),
        valence_nbt::List::LongArray(items) => Seq::new(
            items@.len(),
            |i: int| valence_nbt::Value::LongArray(items@[i]),
        ),
    }
}

/// The `JavaString` that holds the characters of a Rust string.
pub uninterp spec fn java_string_of(s: Seq<char>) -> JavaString;

/// The value that mutable access leads to: what `to_value` gives.
pub uninterp spec fn value_mut_target(m: JValueMut) -> JValue;

/// Which case of the value enum is active.
pub open spec fn value_tag(v: JValue) -> valence_nbt::Tag {
    match v {
        valence_nbt::Value::Byte(_) => valence_nbt::Tag::Byte,
        valence_nbt::Value::Short(_) => valence_nbt::Tag::Short,
        valence_nbt::Value::Int(_) => valence_nbt::Tag::Int,
        valence_nbt::Value::Long(_) => valence_nbt::Tag::Long,
        valence_nbt::Value::Float(_) => valence_nbt::Tag::Float,
        valence_nbt::Value::Double(_) => valence_nbt::Tag::Double,
        valence_nbt::Value::ByteArray(_) => valence_nbt::Tag::ByteArray,
        valence_nbt::Value::String(_) => valence_nbt::Tag::String,
        valence_nbt::Value::List(_) => valence_nbt::Tag::List,
        valence_nbt::Value::Compound(_) => valence_nbt::Tag::Compound,
        valence_nbt::Value::IntArray(_) => valence_nbt::Tag::IntArray,
        valence_nbt::Value::LongArray(_) => valence_nbt::Tag::LongArray,
    }
}

/// The element type of a list; `End` for the list that has none yet.
pub open spec fn list_tag(l: JList) -> valence_nbt::Tag {
    match l {
        valence_nbt::List::End => valence_nbt::Tag::End,
        valence_nbt::List::Byte(_) => valence_nbt::Tag::Byte,
        valence_nbt::List::Short(_) => valence_nbt::Tag::Short,
        valence_nbt::List::Int(_) => valence_nbt::Tag::Int,
        valence_nbt::List::Long(_) => valence_nbt::Tag::Long,
        valence_nbt::List::Float(_) => valence_nbt::Tag::Float,
        valence_nbt::List::Double(_) => valence_nbt::Tag::Double,
        valence_nbt::List::ByteArray(_) => valence_nbt::Tag::ByteArray,
        valence_nbt::List::String(_) => valence_nbt::Tag::String,
        valence_nbt::List::List(_) => valence_nbt::Tag::List,
        valence_nbt::List::Compound(_) => valence_nbt::Tag::Compound,
        valence_nbt::List::IntArray(_) => valence_nbt::Tag::IntArray,
        valence_nbt::List::LongArray(_) => valence_nbt::Tag::LongArray,
    }
}

/// The flavour whose rules keep the active case of a value.
pub struct SameCase;

impl Kept<JValue> for SameCase {
    open spec fn alike(before: JValue, after: JValue) -> bool {
        value_tag(after) == value_tag(before)
    }

    proof fn lemma_alike_itself(value: JValue) {
    }

    proof fn lemma_alike_onwards(first: JValue, second: JValue, third: JValue) {
    }
}

/// `JavaString::from` on a `&str`: the result is the `JavaString` of those
/// characters, which holds their bytes, so no other characters give it.
#[verifier::external_body]
pub(crate) fn java_string_from_str(s: &str) -> (r: JavaString)
    ensures
        r == java_string_of(s@),
        forall|other: Seq<char>| #[trigger] java_string_of(other) == r ==> other == s@,
{
    JavaString::from(s)
}

/// `==` of two `JavaString`s, which compares their bytes: true exactly for equal strings.
#[verifier::external_body]
pub(crate) fn java_string_eq(a: &JavaString, b: &JavaString) -> (r: bool)
    ensures
        r == (*a == *b),
{
    a == b
}

/// `JavaString::clone`: a copy of the string.
#[verifier::external_body]
pub(crate) fn java_string_clone(s: &JavaString) -> (r: JavaString)
    ensures
        r == *s,
{
    s.clone()
}

/// `Compound::get`: the value stored under `key`, if there is one.
#[verifier::external_body]
pub(crate) fn compound_get<'a>(data: &'a JCompound, key: &JavaString) -> (r: Option<&'a JValue>)
    ensures
        match r {
            Some(value) => compound_entries(*data).contains_key(*key) && *value
                == compound_entries(*data)[*key],
            None => !compound_entries(*data).contains_key(*key),
        },
{
    data.get(key.as_java_str())
}

/// `Compound::get_mut`: a mutable reference to the value stored under `key`, if
/// there is one. What the caller leaves in that place is what the compound then
/// holds under `key`; nothing else in the compound changes.
#[verifier::external_body]
pub(crate) fn compound_get_mut<'a>(data: &'a mut JCompound, key: &JavaString) -> (r: Option<
    &'a mut JValue,
>)
    ensures
        match r {
            Some(value) => {
                &&& compound_entries(*old(data)).contains_key(*key)
                &&& *value == compound_entries(*old(data))[*key]
                &&& compound_entries(*final(data)) == compound_entries(*old(data)).insert(
                    *key,
                    *final(value),
                )
                &&& *final(value) == *value ==> *final(data) == *old(data)
            },
            None => {
                &&& !compound_entries(*old(data)).contains_key(*key)
                &&& *final(data) == *old(data)
            },
        },
{
    data.get_mut(key.as_java_str())
}

/// `Compound::remove`: takes the entry under `key` out and returns its value.
#[verifier::external_body]
pub(crate) fn compound_remove(data: &mut JCompound, key: &JavaString) -> (r: Option<JValue>)
    ensures
        match r {
            Some(value) => {
                &&& compound_entries(*old(data)).contains_key(*key)
                &&& value == compound_entries(*old(data))[*key]
                &&& compound_entries(*final(data)) == compound_entries(*old(data)).remove(*key)
            },
            None => {
                &&& !compound_entries(*old(data)).contains_key(*key)
                &&& *final(data) == *old(data)
            },
        },
{
    data.remove(key.as_java_str())
}

/// `Compound::insert`: stores `value` under `key`, in place of what was there.
#[verifier::external_body]
pub(crate) fn compound_insert(data: &mut JCompound, key: JavaString, value: JValue)
    ensures
        compound_entries(*final(data)) == compound_entries(*old(data)).insert(key, value),
{
    data.insert(key, value);
}

/// `Compound::keys`: every key of the compound, once.
#[verifier::external_body]
pub(crate) fn compound_keys(data: &JCompound) -> (r: Vec<JavaString>)
    ensures
        r@.no_duplicates(),
        r@.to_set() == compound_entries(*data).dom(),
{
    data.keys().cloned().collect()
}

/// `Value::as_value_mut`: mutable access to what a value holds. It leads to the
/// value as it is. Through it the content can be changed, the active case cannot.
#[verifier::external_body]
pub(crate) fn value_as_value_mut<'a>(value: &'a mut JValue) -> (r: JValueMut<'a>)
    ensures
        value_mut_target(r) == *old(value),
        value_tag(*final(value)) == value_tag(*old(value)),
{
    value.as_value_mut()
}

/// `List::len`: the number of elements.
#[verifier::external_body]
pub(crate) fn list_len(list: &JList) -> (r: usize)
    ensures
        r == list_values(*list).len(),
{
    list.len()
}

/// `List::into_iter`: the elements of the list, in order. Each has the list's
/// element type, and the list without an element type has no elements.
#[verifier::external_body]
pub(crate) fn list_into_values(list: JList) -> (r: Vec<JValue>)
    ensures
        r@ == list_values(list),
        forall|i: int| 0 <= i < r@.len() ==> value_tag(#[trigger] r@[i]) == list_tag(list),
{
    list.into_iter().collect()
}

/// `List::try_push`: appends `value` if the list has no element type yet or has
/// the type of `value`, and says whether it did. Otherwise the list stays as it is.
#[verifier::external_body]
pub(crate) fn list_try_push(list: &mut JList, value: JValue) -> (r: bool)
    ensures
        r == (list_tag(*old(list)) == valence_nbt::Tag::End || list_tag(*old(list)) == value_tag(
            value,
        )),
        r ==> list_values(*final(list)) == list_values(*old(list)).push(value) && list_tag(
            *final(list),
        ) == value_tag(value),
        !r ==> *final(list) == *old(list),
{
    list.try_push(value)
}

/// `Compound::iter_mut`: every entry of the compound once, each key with a
/// mutable reference to its value. What the caller leaves behind the
/// references is what the compound then holds under the keys.
#[verifier::external_body]
pub(crate) fn compound_iter_mut<'a>(data: &'a mut JCompound) -> (r: Vec<
    (JavaString, &'a mut JValue),
>)
    ensures
        forall|j: int|
            0 <= j < r@.len() ==> compound_entries(*old(data)).contains_key((#[trigger] r@[j]).0)
                && *r@[j].1 == compound_entries(*old(data))[r@[j].0],
        forall|i: int, j: int| 0 <= i < j < r@.len() ==> r@[i].0 != r@[j].0,
        forall|k: JavaString|
            compound_entries(*old(data)).contains_key(k) ==> exists|j: int|
                0 <= j < r@.len() && (#[trigger] r@[j]).0 == k,
        compound_entries(*final(data)).dom() == compound_entries(*old(data)).dom(),
        forall|j: int|
            0 <= j < r@.len() ==> compound_entries(*final(data))[(#[trigger] r@[j]).0]
                == *final(r@[j].1),
{
    data.iter_mut().map(|(key, value)| (key.clone(), value)).collect()
}

/// The entries of a compound with Rust strings: each key with the value stored under it.
pub uninterp spec fn string_compound_entries(c: valence_nbt::Compound<String>) -> Map<
    Seq<char>,
    valence_nbt::Value<String>,
>;

/// `JavaString::from` on a `String`: the result is the `JavaString` of its
/// characters, which holds their bytes, so no other characters give it.
#[verifier::external_body]
pub(crate) fn java_string_from_string(s: String) -> (r: JavaString)
    ensures
        r == java_string_of(s@),
        forall|other: Seq<char>| #[trigger] java_string_of(other) == r ==> other == s@,
{
    JavaString::from(s)
}

/// No entries.
pub open spec fn no_entries() -> Map<JavaString, JValue> {
    Map::empty()
}

/// `Compound::new`: a compound without entries.
#[verifier::external_body]
pub(crate) fn compound_new() -> (r: JCompound)
    ensures
        compound_entries(r) == no_entries(),
{
    JCompound::new()
}

/// `Compound::into_iter`: every entry of the compound once, as a key and the
/// value that was stored under it. A value is a part of the compound it comes from.
#[verifier::external_body]
pub(crate) fn string_compound_into_entries(c: valence_nbt::Compound<String>) -> (r: Vec<
    (String, valence_nbt::Value<String>),
>)
    ensures
        forall|j: int|
            0 <= j < r@.len() ==> string_compound_entries(c).contains_key((#[trigger] r@[j]).0@)
                && string_compound_entries(c)[r@[j].0@] == r@[j].1,
        forall|i: int, j: int| 0 <= i < j < r@.len() ==> r@[i].0@ != r@[j].0@,
        forall|k: Seq<char>|
            string_compound_entries(c).contains_key(k) ==> exists|j: int|
                0 <= j < r@.len() && (#[trigger] r@[j]).0@ == k,
        forall|j: int| 0 <= j < r@.len() ==> decreases_to!(c => (#[trigger] r@[j]).1),
{
    c.into_iter().collect()
}

} // verus!
