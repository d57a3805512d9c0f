//! Bridges between a document and a data type for what is nested in it.

use crate::dynamic_type::AbstractDynamicDataType;
use crate::map_type::AbstractMapDataType;
use crate::nbt::{
    compound_entries, compound_get_mut, compound_insert, compound_keys, compound_new,
    compound_remove, java_string_clone, java_string_from_str, java_string_of, list_into_values,
    list_len, list_tag, list_try_push, list_values, no_entries, value_tag, JCompound, JList, JValue,
};
use crate::object_type::AbstractValueDataType;
use crate::version::DataVersion;
use java_string::JavaString;
use vstd::prelude::*;

verus! {

/// What `convert_map_in_map` makes of a document: where a compound stands under
/// `path`, it is converted in its place; else the document stays as it is.
pub open spec fn map_in_map<T: AbstractMapDataType>(
    data_type: T,
    before: JCompound,
    path: Seq<char>,
    from: DataVersion,
    to: DataVersion,
    after: JCompound,
) -> bool {
    let key = java_string_of(path);
    match compound_entries(before).get(key) {
        Some(valence_nbt::Value::Compound(inner)) => exists|out: JCompound|
            {
                &&& #[trigger] data_type.converts(inner, from, to, out)
                &&& compound_entries(after) == compound_entries(before).insert(
                    key,
                    valence_nbt::Value::Compound(out),
                )
            },
        _ => after == before,
    }
}

/// Converts the compound under `path`, if there is one.
pub fn convert_map_in_map<T>(
    data_type: T,
    data: &mut JCompound,
    path: &str,
    from_version: DataVersion,
    to_version: DataVersion,
) where T: AbstractMapDataType
    ensures
        map_in_map(data_type, *old(data), path@, from_version, to_version, *final(data)),
{
    let key = java_string_from_str(path);
    let ghost mut out: Option<JCompound> = None;
    match compound_get_mut(data, &key) {
        Some(value) => match value {
            valence_nbt::Value::Compound(map) => {
                let ghost inner = *map;
                data_type.convert(map, from_version, to_version);
                proof {
                    out = Some(*map);
                    assert(data_type.converts(inner, from_version, to_version, *map));
                }
            },
            _ => {},
        },
        None => {},
    }
    proof {
        match compound_entries(*old(data)).get(key) {
            Some(valence_nbt::Value::Compound(inner)) => {
                assert(data_type.converts(inner, from_version, to_version, out.unwrap()));
            },
            _ => {},
        }
    }
}

/// What `convert_map_list_in_map` makes of a document: where a list of compounds
/// stands under `path`, each of them is converted in its place; else the
/// document stays as it is.
pub open spec fn map_list_in_map<T: AbstractMapDataType>(
    data_type: T,
    before: JCompound,
    path: Seq<char>,
    from: DataVersion,
    to: DataVersion,
    after: JCompound,
) -> bool {
    let key = java_string_of(path);
    match compound_entries(before).get(key) {
        Some(valence_nbt::Value::List(valence_nbt::List::Compound(items))) => exists|
            outs: Vec<JCompound>,
        |
            {
                &&& #[trigger] each_converted(data_type, items@, from, to, outs@)
                &&& compound_entries(after) == compound_entries(before).insert(
                    key,
                    valence_nbt::Value::List(valence_nbt::List::Compound(outs)),
                )
            },
        _ => after == before,
    }
}

/// `outs` holds, place by place, what `data_type` may make of the compounds in `items`.
pub open spec fn each_converted<T: AbstractMapDataType>(
    data_type: T,
    items: Seq<JCompound>,
    from: DataVersion,
    to: DataVersion,
    outs: Seq<JCompound>,
) -> bool {
    &&& outs.len() == items.len()
    &&& forall|i: int|
        0 <= i < items.len() ==> data_type.converts(#[trigger] items[i], from, to, outs[i])
}

/// Converts each compound of the list under `path`, if a list of compounds is there.
pub fn convert_map_list_in_map<T>(
    data_type: T,
    data: &mut JCompound,
    path: &str,
    from_version: DataVersion,
    to_version: DataVersion,
) where T: AbstractMapDataType
    ensures
        map_list_in_map(data_type, *old(data), path@, from_version, to_version, *final(data)),
{
    let key = java_string_from_str(path);
    let ghost mut outs: Option<Vec<JCompound>> = None;
    match compound_get_mut(data, &key) {
        Some(value) => match value {
            valence_nbt::Value::List(list) => match list {
                valence_nbt::List::Compound(items) => {
                    let ghost start = items@;
                    let mut i: usize = 0;
                    while i < items.len()
                        invariant
                            i <= items.len(),
                            items@.len() == start.len(),
                            forall|j: int|
                                0 <= j < i ==> data_type.converts(
                                    #[trigger] start[j],
                                    from_version,
                                    to_version,
                                    items@[j],
                                ),
                            forall|j: int| i <= j < items.len() ==> items@[j] == start[j],
                        decreases items.len() - i,
                    {
                        data_type.convert(&mut items[i], from_version, to_version);
                        i += 1;
                    }
                    proof {
                        outs = Some(*items);
                    }
                },
                _ => {},
            },
            _ => {},
        },
        None => {},
    }
    proof {
        match compound_entries(*old(data)).get(key) {
            Some(valence_nbt::Value::List(valence_nbt::List::Compound(items))) => {
                assert(each_converted(data_type, items@, from_version, to_version, outs.unwrap()@));
            },
            _ => {},
        }
    }
}

/// What `convert_object_in_map` makes of a document: the value under `path`, if
/// there is one, is converted in its place and keeps its active case; else the
/// document stays as it is.
pub open spec fn object_in_map<T: AbstractValueDataType>(
    data_type: T,
    before: JCompound,
    path: Seq<char>,
    from: DataVersion,
    to: DataVersion,
    after: JCompound,
) -> bool {
    let key = java_string_of(path);
    match compound_entries(before).get(key) {
        Some(value) => exists|out: JValue|
            {
                &&& #[trigger] data_type.converts(value, from, to, out)
                &&& value_tag(out) == value_tag(value)
                &&& compound_entries(after) == compound_entries(before).insert(key, out)
            },
        None => after == before,
    }
}

/// Converts the value under `path`, if there is one.
pub fn convert_object_in_map<T>(
    data_type: T,
    data: &mut JCompound,
    path: &str,
    from_version: DataVersion,
    to_version: DataVersion,
) where T: AbstractValueDataType
    ensures
        object_in_map(data_type, *old(data), path@, from_version, to_version, *final(data)),
{
    let key = java_string_from_str(path);
    let ghost mut out: Option<JValue> = None;
    match compound_get_mut(data, &key) {
        Some(value) => {
            let ghost start = *value;
            data_type.convert(value, from_version, to_version);
            proof {
                out = Some(*value);
                assert(data_type.converts(start, from_version, to_version, *value));
            }
        },
        None => {},
    }
    proof {
        match compound_entries(*old(data)).get(key) {
            Some(value) => {
                assert(data_type.converts(value, from_version, to_version, out.unwrap()));
            },
            None => {},
        }
    }
}

/// `outs` holds, place by place, what `data_type` may make of the values in
/// `items`, each with the active case that it had.
pub open spec fn each_object_converted<T: AbstractValueDataType>(
    data_type: T,
    items: Seq<JValue>,
    from: DataVersion,
    to: DataVersion,
    outs: Seq<JValue>,
) -> bool {
    &&& outs.len() == items.len()
    &&& forall|i: int|
        0 <= i < items.len() ==> data_type.converts(#[trigger] items[i], from, to, outs[i])
            && value_tag(outs[i]) == value_tag(items[i])
}

/// What `convert_object_list` makes of a list: each element is converted in its
/// place; the list keeps its length and its element type.
pub open spec fn object_list<T: AbstractValueDataType>(
    data_type: T,
    before: JList,
    from: DataVersion,
    to: DataVersion,
    after: JList,
) -> bool {
    if list_values(before).len() == 0 {
        after == before
    } else {
        exists|outs: Seq<JValue>|
            {
                &&& #[trigger] each_object_converted(data_type, list_values(before), from, to, outs)
                &&& list_values(after) == outs
                &&& list_tag(after) == list_tag(before)
            }
    }
}

/// Converts each element of a list.
pub fn convert_object_list<T>(
    data_type: T,
    data: &mut JList,
    from_version: DataVersion,
    to_version: DataVersion,
) where T: AbstractValueDataType
    ensures
        object_list(data_type, *old(data), from_version, to_version, *final(data)),
{
    if list_len(data) == 0 {
        return ;
    }
    let mut taken = valence_nbt::List::End;
    std::mem::swap(data, &mut taken);
    let ghost tag = list_tag(taken);
    let mut values = list_into_values(taken);
    let ghost items = values@;
    let mut i: usize = 0;
    while i < values.len()
        invariant
            i <= values.len(),
            values@.len() == items.len(),
            forall|j: int|
                0 <= j < i ==> data_type.converts(
                    #[trigger] items[j],
                    from_version,
                    to_version,
                    values@[j],
                ) && value_tag(values@[j]) == value_tag(items[j]),
            forall|j: int| i <= j < values.len() ==> values@[j] == items[j],
        decreases values.len() - i,
    {
        data_type.convert(&mut values[i], from_version, to_version);
        i += 1;
    }
    let ghost outs = values@;
    assert forall|j: int| 0 <= j < outs.len() implies value_tag(#[trigger] outs[j]) == tag by {
        assert(value_tag(items[j]) == tag);
    }
    let mut k: usize = 0;
    while k < values.len()
        invariant
            k <= values.len(),
            values@.len() == outs.len(),
            outs.len() == items.len(),
            outs.len() > 0,
            forall|j: int| 0 <= j < outs.len() ==> value_tag(#[trigger] outs[j]) == tag,
            forall|j: int| k <= j < values.len() ==> values@[j] == outs[j],
            list_values(*data) == outs.take(k as int),
            list_tag(*data) == if k == 0 {
                valence_nbt::Tag::End
            } else {
                tag
            },
        decreases values.len() - k,
    {
        let mut value = valence_nbt::Value::Byte(0);
        std::mem::swap(&mut values[k], &mut value);
        assert(value == outs[k as int]);
        assert(value_tag(value) == tag);
        let pushed = list_try_push(data, value);
        assert(pushed);
        assert(outs.take(k + 1) =~= outs.take(k as int).push(outs[k as int]));
        k += 1;
    }
    proof {
        assert(outs.take(outs.len() as int) =~= outs);
        assert(each_object_converted(data_type, items, from_version, to_version, outs));
    }
}

/// What `convert_object_list_in_map` makes of a document: where a list stands
/// under `path`, each of its elements is converted in its place; else the
/// document stays as it is.
pub open spec fn object_list_in_map<T: AbstractValueDataType>(
    data_type: T,
    before: JCompound,
    path: Seq<char>,
    from: DataVersion,
    to: DataVersion,
    after: JCompound,
) -> bool {
    let key = java_string_of(path);
    match compound_entries(before).get(key) {
        Some(valence_nbt::Value::List(list)) => exists|out: JList|
            {
                &&& #[trigger] object_list(data_type, list, from, to, out)
                &&& compound_entries(after) == compound_entries(before).insert(
                    key,
                    valence_nbt::Value::List(out),
                )
            },
        _ => after == before,
    }
}

/// Converts each element of the list under `path`, if there is a list.
pub fn convert_object_list_in_map<T>(
    data_type: T,
    data: &mut JCompound,
    path: &str,
    from_version: DataVersion,
    to_version: DataVersion,
) where T: AbstractValueDataType
    ensures
        object_list_in_map(data_type, *old(data), path@, from_version, to_version, *final(data)),
{
    let key = java_string_from_str(path);
    let ghost mut out: Option<JList> = None;
    match compound_get_mut(data, &key) {
        Some(value) => match value {
            valence_nbt::Value::List(list) => {
                let ghost start = *list;
                convert_object_list(data_type, list, from_version, to_version);
                proof {
                    out = Some(*list);
                    assert(object_list(data_type, start, from_version, to_version, *list));
                }
            },
            _ => {},
        },
        None => {},
    }
    proof {
        match compound_entries(*old(data)).get(key) {
            Some(valence_nbt::Value::List(list)) => {
                assert(object_list(data_type, list, from_version, to_version, out.unwrap()));
            },
            _ => {},
        }
    }
}

/// What `convert_dynamic_in_map` makes of a document: the value under `path`, if
/// there is one, is converted in its place; else the document stays as it is.
pub open spec fn dynamic_in_map<T: AbstractDynamicDataType>(
    data_type: T,
    before: JCompound,
    path: Seq<char>,
    from: DataVersion,
    to: DataVersion,
    after: JCompound,
) -> bool {
    let key = java_string_of(path);
    match compound_entries(before).get(key) {
        Some(value) => exists|out: JValue|
            {
                &&& #[trigger] data_type.converts(value, from, to, out)
                &&& compound_entries(after) == compound_entries(before).insert(key, out)
            },
        None => after == before,
    }
}

/// Converts the value under `path`, whatever its shape, if there is one.
pub fn convert_dynamic_in_map<T>(
    data_type: T,
    data: &mut JCompound,
    path: &str,
    from_version: DataVersion,
    to_version: DataVersion,
) where T: AbstractDynamicDataType
    ensures
        dynamic_in_map(data_type, *old(data), path@, from_version, to_version, *final(data)),
{
    let key = java_string_from_str(path);
    let ghost mut out: Option<JValue> = None;
    match compound_get_mut(data, &key) {
        Some(value) => {
            let ghost start = *value;
            data_type.convert(value, from_version, to_version);
            proof {
                out = Some(*value);
                assert(data_type.converts(start, from_version, to_version, *value));
            }
        },
        None => {},
    }
    proof {
        match compound_entries(*old(data)).get(key) {
            Some(value) => {
                assert(data_type.converts(value, from_version, to_version, out.unwrap()));
            },
            None => {},
        }
    }
}

/// `outs` holds, place by place, what `data_type` may make of the values in `items`.
pub open spec fn each_dynamic_converted<T: AbstractDynamicDataType>(
    data_type: T,
    items: Seq<JValue>,
    from: DataVersion,
    to: DataVersion,
    outs: Seq<JValue>,
) -> bool {
    &&& outs.len() == items.len()
    &&& forall|i: int|
        0 <= i < items.len() ==> data_type.converts(#[trigger] items[i], from, to, outs[i])
}

/// All values have the active case of the first.
pub open spec fn uniform(values: Seq<JValue>) -> bool {
    forall|i: int| 0 <= i < values.len() ==> value_tag(#[trigger] values[i]) == value_tag(values[0])
}

/// `list` holds the values, in order, as a list of their one type; without
/// values it is the list without element type.
pub open spec fn gathered(values: Seq<JValue>, list: JList) -> bool {
    &&& list_values(list) == values
    &&& list_tag(list) == if values.len() == 0 {
        valence_nbt::Tag::End
    } else {
        value_tag(values[0])
    }
}

/// The key under which a value stands in an element of a mixed list: the empty string.
pub open spec fn mixed_key() -> JavaString {
    java_string_of(""@)
}

/// `list` holds the values, in order, as a mixed list: a list of compounds, one
/// for each value, and each compound holds its value under the empty key and
/// nothing else.
pub open spec fn mixed(values: Seq<JValue>, list: JList) -> bool {
    list matches valence_nbt::List::Compound(items) && items@.len() == values.len() && forall|
        i: int,
    |
        0 <= i < values.len() ==> compound_entries(#[trigger] items@[i]) == no_entries().insert(
            mixed_key(),
            values[i],
        )
}

/// `list` holds every one of the values, in order: as a list of their type where
/// they are of one type, and as a mixed list where they are not.
pub open spec fn listed(values: Seq<JValue>, list: JList) -> bool {
    if uniform(values) {
        gathered(values, list)
    } else {
        mixed(values, list)
    }
}

/// Nothing is lost: a list that holds the values, as a list of one type or as a
/// mixed list, has as many elements as there are values; and in a mixed list
/// the element at each place is the compound that holds the value of that place.
pub proof fn law_listed_keeps_all(values: Seq<JValue>, list: JList)
    requires
        listed(values, list),
    ensures
        list_values(list).len() == values.len(),
        uniform(values) ==> list_values(list) == values,
        !uniform(values) ==> forall|i: int|
            0 <= i < values.len() ==> (#[trigger] list_values(list)[i]
                matches valence_nbt::Value::Compound(item) && compound_entries(item)
                == no_entries().insert(mixed_key(), values[i])),
{
}

/// What `convert_dynamic_list_in_map` makes of a document, and what it returns:
/// where a list stands under `path`, each element is converted as a value of its
/// own, and the list is made anew of all that came out, in order. Where the
/// converted elements are no longer of one type, the new list is a mixed list,
/// and the function returns `false`. Else the document stays as it is.
pub open spec fn dynamic_list_in_map<T: AbstractDynamicDataType>(
    data_type: T,
    before: JCompound,
    path: Seq<char>,
    from: DataVersion,
    to: DataVersion,
    after: JCompound,
    uniform_result: bool,
) -> bool {
    let key = java_string_of(path);
    match compound_entries(before).get(key) {
        Some(valence_nbt::Value::List(list)) => exists|outs: Seq<JValue>, out: JList|
            {
                &&& #[trigger] each_dynamic_converted(data_type, list_values(list), from, to, outs)
                &&& #[trigger] listed(outs, out)
                &&& uniform_result == uniform(outs)
                &&& compound_entries(after) == compound_entries(before).insert(
                    key,
                    valence_nbt::Value::List(out),
                )
            },
        _ => after == before && uniform_result,
    }
}

/// Tests whether two values have the same active case.
pub fn same_case(a: &JValue, b: &JValue) -> (r: bool)
    ensures
        r == (value_tag(*a) == value_tag(*b)),
{
    match a {
        valence_nbt::Value::Byte(_) => match b {
            valence_nbt::Value::Byte(_) => true,
            _ => false,
        },
        valence_nbt::Value::Short(_) => match b {
            valence_nbt::Value::Short(_) => true,
            _ => false,
        },
        valence_nbt::Value::Int(_) => match b {
            valence_nbt::Value::Int(_) => true,
            _ => false,
        },
        valence_nbt::Value::Long(_) => match b {
            valence_nbt::Value::Long(_) => true,
            _ => false,
        },
        valence_nbt::Value::Float(_) => match b {
            valence_nbt::Value::Float(_) => true,
            _ => false,
        },
        valence_nbt::Value::Double(_) => match b {
            valence_nbt::Value::Double(_) => true,
            _ => false,
        },
        valence_nbt::Value::ByteArray(_) => match b {
            valence_nbt::Value::ByteArray(_) => true,
            _ => false,
        },
        valence_nbt::Value::String(_) => match b {
            valence_nbt::Value::String(_) => true,
            _ => false,
        },
        valence_nbt::Value::List(_) => match b {
            valence_nbt::Value::List(_) => true,
            _ => false,
        },
        valence_nbt::Value::Compound(_) => match b {
            valence_nbt::Value::Compound(_) => true,
            _ => false,
        },
        valence_nbt::Value::IntArray(_) => match b {
            valence_nbt::Value::IntArray(_) => true,
            _ => false,
        },
        valence_nbt::Value::LongArray(_) => match b {
            valence_nbt::Value::LongArray(_) => true,
            _ => false,
        },
    }
}

/// Tests whether all values have the active case of the first.
pub fn all_same_case(values: &Vec<JValue>) -> (r: bool)
    ensures
        r == uniform(values@),
{
    let mut i: usize = 1;
    while i < values.len()
        invariant
            1 <= i,
            forall|j: int|
                0 <= j < i && j < values@.len() ==> value_tag(#[trigger] values@[j]) == value_tag(
                    values@[0],
                ),
        decreases values.len() - i,
    {
        if !same_case(&values[i], &values[0]) {
            return false;
        }
        i += 1;
    }
    true
}

/// Makes a list of the values, all of one type: a list of that type, which
/// holds them in order.
fn gather(values: Vec<JValue>) -> (list: JList)
    requires
        uniform(values@),
    ensures
        gathered(values@, list),
{
    let mut values = values;
    let ghost outs = values@;
    let mut list = valence_nbt::List::End;
    let mut k: usize = 0;
    while k < values.len()
        invariant
            k <= values.len(),
            values@.len() == outs.len(),
            uniform(outs),
            forall|j: int| k <= j < values.len() ==> values@[j] == outs[j],
            list_values(list) == outs.take(k as int),
            list_tag(list) == if k == 0 {
                valence_nbt::Tag::End
            } else {
                value_tag(outs[0])
            },
        decreases values.len() - k,
    {
        let mut element = valence_nbt::Value::Byte(0);
        std::mem::swap(&mut values[k], &mut element);
        assert(element == outs[k as int]);
        assert(value_tag(outs[k as int]) == value_tag(outs[0]));
        let pushed = list_try_push(&mut list, element);
        assert(pushed);
        assert(outs.take(k + 1) =~= outs.take(k as int).push(outs[k as int]));
        k += 1;
    }
    assert(outs.take(outs.len() as int) =~= outs);
    list
}

/// Makes a mixed list of the values: a list of compounds, each of which holds
/// one of the values, in order, under the empty key.
fn mix(values: Vec<JValue>) -> (list: JList)
    ensures
        mixed(values@, list),
{
    let mut values = values;
    let ghost outs = values@;
    let mut items: Vec<JCompound> = Vec::new();
    let mut k: usize = 0;
    while k < values.len()
        invariant
            k <= values.len(),
            values@.len() == outs.len(),
            items@.len() == k,
            forall|j: int| k <= j < values.len() ==> values@[j] == outs[j],
            forall|j: int|
                0 <= j < k ==> compound_entries(#[trigger] items@[j]) == no_entries().insert(
                    mixed_key(),
                    outs[j],
                ),
        decreases values.len() - k,
    {
        let mut element = valence_nbt::Value::Byte(0);
        std::mem::swap(&mut values[k], &mut element);
        assert(element == outs[k as int]);
        let mut item = compound_new();
        compound_insert(&mut item, java_string_from_str(""), element);
        items.push(item);
        k += 1;
    }
    valence_nbt::List::Compound(items)
}

/// Converts each element of the list under `path` as a value of any shape, if
/// there is a list, and makes the list anew of all that came out. It returns
/// whether the list is still a list of one type; where it is not, the list is
/// now a mixed list.
pub fn convert_dynamic_list_in_map<T>(
    data_type: T,
    data: &mut JCompound,
    path: &str,
    from_version: DataVersion,
    to_version: DataVersion,
) -> (uniform_result: bool) where T: AbstractDynamicDataType
    ensures
        dynamic_list_in_map(
            data_type,
            *old(data),
            path@,
            from_version,
            to_version,
            *final(data),
            uniform_result,
        ),
{
    let key = java_string_from_str(path);
    let ghost mut witness: Option<(Seq<JValue>, JList)> = None;
    let mut all_uniform = true;
    match compound_get_mut(data, &key) {
        Some(value) => match value {
            valence_nbt::Value::List(list) => {
                let mut taken = valence_nbt::List::End;
                std::mem::swap(list, &mut taken);
                let mut values = list_into_values(taken);
                let ghost items = values@;
                let mut i: usize = 0;
                while i < values.len()
                    invariant
                        i <= values.len(),
                        values@.len() == items.len(),
                        forall|j: int|
                            0 <= j < i ==> data_type.converts(
                                #[trigger] items[j],
                                from_version,
                                to_version,
                                values@[j],
                            ),
                        forall|j: int| i <= j < values.len() ==> values@[j] == items[j],
                    decreases values.len() - i,
                {
                    data_type.convert(&mut values[i], from_version, to_version);
                    i += 1;
                }
                let ghost outs = values@;
                all_uniform = all_same_case(&values);
                if all_uniform {
                    *list = gather(values);
                } else {
                    *list = mix(values);
                }
                proof {
                    witness = Some((outs, *list));
                    assert(each_dynamic_converted(data_type, items, from_version, to_version, outs));
                    assert(listed(outs, *list));
                }
            },
            _ => {},
        },
        None => {},
    }
    proof {
        match compound_entries(*old(data)).get(key) {
            Some(valence_nbt::Value::List(list)) => {
                let (outs, out) = witness.unwrap();
                assert(each_dynamic_converted(
                    data_type,
                    list_values(list),
                    from_version,
                    to_version,
                    outs,
                ));
                assert(listed(outs, out));
            },
            _ => {},
        }
    }
    all_uniform
}

/// `out` is what `data_type` may make of `value` where `value` is a compound,
/// and is `value` where it is not.
pub open spec fn value_converted<T: AbstractMapDataType>(
    data_type: T,
    value: JValue,
    from: DataVersion,
    to: DataVersion,
    out: JValue,
) -> bool {
    match value {
        valence_nbt::Value::Compound(inner) => out matches valence_nbt::Value::Compound(converted)
            && data_type.converts(inner, from, to, converted),
        _ => out == value,
    }
}

/// What `convert_values` makes of a document: the keys stay, each value that is a
/// compound is converted in its place, and every other value stays as it is.
pub open spec fn values_converted<T: AbstractMapDataType>(
    data_type: T,
    before: JCompound,
    from: DataVersion,
    to: DataVersion,
    after: JCompound,
) -> bool {
    &&& compound_entries(after).dom() == compound_entries(before).dom()
    &&& forall|key: JavaString|
        compound_entries(before).contains_key(key) ==> value_converted(
            data_type,
            compound_entries(before)[key],
            from,
            to,
            #[trigger] compound_entries(after)[key],
        )
}

/// Converts every value of the document that is a compound.
pub fn convert_values<T>(
    data_type: T,
    data: &mut JCompound,
    from_version: DataVersion,
    to_version: DataVersion,
) where T: AbstractMapDataType
    ensures
        values_converted(data_type, *old(data), from_version, to_version, *final(data)),
{
    let keys = compound_keys(data);
    let ghost start = compound_entries(*data);
    let mut i: usize = 0;
    while i < keys.len()
        invariant
            i <= keys.len(),
            keys@.no_duplicates(),
            keys@.to_set() == start.dom(),
            start == compound_entries(*old(data)),
            compound_entries(*data).dom() == start.dom(),
            forall|j: int|
                0 <= j < i ==> value_converted(
                    data_type,
                    start[keys@[j]],
                    from_version,
                    to_version,
                    #[trigger] compound_entries(*data)[keys@[j]],
                ),
            forall|j: int|
                i <= j < keys.len() ==> #[trigger] compound_entries(*data)[keys@[j]]
                    == start[keys@[j]],
        decreases keys.len() - i,
    {
        let ghost current = compound_entries(*data);
        let ghost key = keys@[i as int];
        assert(keys@.to_set().contains(key));
        match compound_get_mut(data, &keys[i]) {
            Some(value) => match value {
                valence_nbt::Value::Compound(map) => {
                    data_type.convert(map, from_version, to_version);
                },
                _ => {},
            },
            None => {},
        }
        proof {
            assert(compound_entries(*data).dom() =~= start.dom());
            assert forall|j: int| 0 <= j < i + 1 implies value_converted(
                data_type,
                start[keys@[j]],
                from_version,
                to_version,
                #[trigger] compound_entries(*data)[keys@[j]],
            ) by {
                if j < i {
                    assert(keys@[j] != key);
                    assert(compound_entries(*data)[keys@[j]] == current[keys@[j]]);
                }
            }
            assert forall|j: int| i + 1 <= j < keys.len() implies #[trigger] compound_entries(
                *data,
            )[keys@[j]] == start[keys@[j]] by {
                assert(keys@[j] != key);
                assert(compound_entries(*data)[keys@[j]] == current[keys@[j]]);
            }
        }
        i += 1;
    }
    proof {
        assert forall|key: JavaString| start.contains_key(key) implies value_converted(
            data_type,
            start[key],
            from_version,
            to_version,
            #[trigger] compound_entries(*data)[key],
        ) by {
            assert(keys@.to_set().contains(key));
            let j = keys@.index_of(key);
            assert(keys@[j] == key);
        }
    }
}

/// What `convert_values_in_map` makes of a document: where a compound stands
/// under `path`, each value of it that is a compound is converted in its place;
/// else the document stays as it is.
pub open spec fn values_in_map<T: AbstractMapDataType>(
    data_type: T,
    before: JCompound,
    path: Seq<char>,
    from: DataVersion,
    to: DataVersion,
    after: JCompound,
) -> bool {
    let key = java_string_of(path);
    match compound_entries(before).get(key) {
        Some(valence_nbt::Value::Compound(inner)) => exists|out: JCompound|
            {
                &&& #[trigger] values_converted(data_type, inner, from, to, out)
                &&& compound_entries(after) == compound_entries(before).insert(
                    key,
                    valence_nbt::Value::Compound(out),
                )
            },
        _ => after == before,
    }
}

/// Converts every value that is a compound in the compound under `path`, if
/// there is one.
pub fn convert_values_in_map<T>(
    data_type: T,
    data: &mut JCompound,
    path: &str,
    from_version: DataVersion,
    to_version: DataVersion,
) where T: AbstractMapDataType
    ensures
        values_in_map(data_type, *old(data), path@, from_version, to_version, *final(data)),
{
    let key = java_string_from_str(path);
    let ghost mut out: Option<JCompound> = None;
    match compound_get_mut(data, &key) {
        Some(value) => match value {
            valence_nbt::Value::Compound(map) => {
                let ghost inner = *map;
                convert_values(data_type, map, from_version, to_version);
                proof {
                    out = Some(*map);
                    assert(values_converted(data_type, inner, from_version, to_version, *map));
                }
            },
            _ => {},
        },
        None => {},
    }
    proof {
        match compound_entries(*old(data)).get(key) {
            Some(valence_nbt::Value::Compound(inner)) => {
                assert(values_converted(data_type, inner, from_version, to_version, out.unwrap()));
            },
            _ => {},
        }
    }
}

/// What `rename_key` makes of the entries of a document: the value under `from`
/// stands under `to` instead, where it takes the place of what was there;
/// without a value under `from` nothing changes.
pub open spec fn renamed(
    before: Map<JavaString, JValue>,
    from: JavaString,
    to: JavaString,
) -> Map<JavaString, JValue> {
    if before.contains_key(from) {
        before.remove(from).insert(to, before[from])
    } else {
        before
    }
}

/// Moves the value under `from` to `to`.
#[inline]
pub fn rename_key(map: &mut JCompound, from: &str, to: &str)
    ensures
        compound_entries(*final(map)) == renamed(
            compound_entries(*old(map)),
            java_string_of(from@),
            java_string_of(to@),
        ),
        !compound_entries(*old(map)).contains_key(java_string_of(from@)) ==> *final(map) == *old(
            map,
        ),
{
    let from_key = java_string_from_str(from);
    match compound_remove(map, &from_key) {
        Some(value) => {
            compound_insert(map, java_string_from_str(to), value);
        },
        None => {},
    }
}

/// The old keys of the first `n` renamings.
pub open spec fn old_keys(pairs: Seq<(JavaString, JavaString)>, n: int) -> Set<JavaString> {
    Set::new(|key: JavaString| exists|i: int| 0 <= i < n && (#[trigger] pairs[i]).0 == key)
}

/// `pairs` is what the renamer said of the keys of `before`: each pair is a key
/// of `before` with the new key that the renamer gave for it, no key has two
/// pairs, and for every key without a pair the renamer gave none.
pub open spec fn renamings<F: Fn(&JavaString) -> Option<JavaString>>(
    renamer: F,
    before: Map<JavaString, JValue>,
    pairs: Seq<(JavaString, JavaString)>,
) -> bool {
    &&& forall|i: int|
        0 <= i < pairs.len() ==> before.contains_key((#[trigger] pairs[i]).0) && call_ensures(
            renamer,
            (&pairs[i].0,),
            Some(pairs[i].1),
        )
    &&& forall|i: int, j: int| 0 <= i < j < pairs.len() ==> pairs[i].0 != pairs[j].0
    &&& forall|key: JavaString|
        before.contains_key(key) && !old_keys(pairs, pairs.len() as int).contains(key)
            ==> call_ensures(renamer, (&key,), None::<JavaString>)
}

/// The entries after the first `n` renamings: every renamed key is taken out
/// first, then the values go in under their new keys, pair by pair, each in
/// the place of what is there.
pub open spec fn moved(
    before: Map<JavaString, JValue>,
    pairs: Seq<(JavaString, JavaString)>,
    n: nat,
) -> Map<JavaString, JValue>
    decreases n,
{
    if n == 0 {
        before.remove_keys(old_keys(pairs, pairs.len() as int))
    } else {
        moved(before, pairs, (n - 1) as nat).insert(pairs[n - 1].1, before[pairs[n - 1].0])
    }
}

/// Renames every key for which `renamer` gives a new key. All these keys are
/// taken out before the first value is put back under its new key.
pub fn rename_keys<F>(map: &mut JCompound, renamer: F) where
    F: Fn(&JavaString) -> Option<JavaString>,

    requires
        forall|key: JavaString| call_requires(renamer, (&key,)),
    ensures
        exists|pairs: Seq<(JavaString, JavaString)>| #[trigger]
            renamings(renamer, compound_entries(*old(map)), pairs) && compound_entries(
                *final(map),
            ) == moved(compound_entries(*old(map)), pairs, pairs.len()),
{
    let ghost before = compound_entries(*map);
    let keys = compound_keys(map);
    let mut pairs: Vec<(JavaString, JavaString)> = Vec::new();
    let mut i: usize = 0;
    while i < keys.len()
        invariant
            i <= keys.len(),
            keys@.no_duplicates(),
            keys@.to_set() == before.dom(),
            forall|p: int|
                0 <= p < pairs@.len() ==> before.contains_key((#[trigger] pairs@[p]).0)
                    && call_ensures(renamer, (&pairs@[p].0,), Some(pairs@[p].1)),
            forall|p: int|
                0 <= p < pairs@.len() ==> exists|k: int|
                    0 <= k < i && keys@[k] == (#[trigger] pairs@[p]).0,
            forall|p: int, q: int| 0 <= p < q < pairs@.len() ==> pairs@[p].0 != pairs@[q].0,
            forall|k: int|
                0 <= k < i && !old_keys(pairs@, pairs@.len() as int).contains(#[trigger] keys@[k])
                    ==> call_ensures(renamer, (&keys@[k],), None::<JavaString>),
            forall|requires_all: JavaString| call_requires(renamer, (&requires_all,)),
        decreases keys.len() - i,
    {
        let ghost had = pairs@;
        assert(keys@.to_set().contains(keys@[i as int]));
        match renamer(&keys[i]) {
            Some(new_key) => {
                pairs.push((java_string_clone(&keys[i]), new_key));
                proof {
                    let last = had.len() as int;
                    assert(pairs@[last].0 == keys@[i as int]);
                    assert forall|p: int, q: int| 0 <= p < q < pairs@.len() implies pairs@[p].0
                        != pairs@[q].0 by {
                        if q == last {
                            assert(pairs@[p] == had[p]);
                            let k = choose|k: int| 0 <= k < i && keys@[k] == (#[trigger] had[p]).0;
                            assert(keys@[k] != keys@[i as int]);
                        } else {
                            assert(pairs@[p] == had[p] && pairs@[q] == had[q]);
                        }
                    }
                    assert forall|p: int| 0 <= p < pairs@.len() implies exists|k: int|
                        0 <= k < i + 1 && keys@[k] == (#[trigger] pairs@[p]).0 by {
                        if p == last {
                            assert(keys@[i as int] == pairs@[p].0);
                        } else {
                            assert(pairs@[p] == had[p]);
                            let k = choose|k: int| 0 <= k < i && keys@[k] == (#[trigger] had[p]).0;
                            assert(keys@[k] == pairs@[p].0);
                        }
                    }
                    assert forall|k: int|
                        0 <= k < i + 1 && !old_keys(pairs@, pairs@.len() as int).contains(
                            #[trigger] keys@[k],
                        ) implies call_ensures(renamer, (&keys@[k],), None::<JavaString>) by {
                        if k == i {
                            assert(old_keys(pairs@, pairs@.len() as int).contains(pairs@[last].0));
                        } else {
                            if old_keys(had, had.len() as int).contains(keys@[k]) {
                                let p = choose|p: int|
                                    0 <= p < had.len() && (#[trigger] had[p]).0 == keys@[k];
                                assert(pairs@[p].0 == keys@[k]);
                            }
                        }
                    }
                }
            },
            None => {
                proof {
                    assert forall|k: int|
                        0 <= k < i + 1 && !old_keys(pairs@, pairs@.len() as int).contains(
                            #[trigger] keys@[k],
                        ) implies call_ensures(renamer, (&keys@[k],), None::<JavaString>) by {}
                }
            },
        }
        i += 1;
    }
    proof {
        assert forall|key: JavaString|
            before.contains_key(key) && !old_keys(pairs@, pairs@.len() as int).contains(
                key,
            ) implies call_ensures(renamer, (&key,), None::<JavaString>) by {
            assert(keys@.to_set().contains(key));
            let k = keys@.index_of(key);
            assert(keys@[k] == key);
        }
        assert(renamings(renamer, before, pairs@));
    }
    let mut values: Vec<JValue> = Vec::new();
    let mut r: usize = 0;
    while r < pairs.len()
        invariant
            r <= pairs.len(),
            values@.len() == r,
            forall|p: int|
                0 <= p < pairs@.len() ==> before.contains_key((#[trigger] pairs@[p]).0),
            forall|p: int, q: int| 0 <= p < q < pairs@.len() ==> pairs@[p].0 != pairs@[q].0,
            forall|p: int| 0 <= p < r ==> #[trigger] values@[p] == before[pairs@[p].0],
            compound_entries(*map) == before.remove_keys(old_keys(pairs@, r as int)),
        decreases pairs.len() - r,
    {
        let ghost current = compound_entries(*map);
        let ghost key = pairs@[r as int].0;
        proof {
            assert(!old_keys(pairs@, r as int).contains(key)) by {
                if old_keys(pairs@, r as int).contains(key) {
                    let p = choose|p: int| 0 <= p < r && (#[trigger] pairs@[p]).0 == key;
                    assert(pairs@[p].0 != pairs@[r as int].0);
                }
            }
            assert(current.contains_key(key));
        }
        match compound_remove(map, &pairs[r].0) {
            Some(value) => {
                values.push(value);
            },
            None => {
                assert(false);
                return ;
            },
        }
        proof {
            assert(old_keys(pairs@, r + 1) =~= old_keys(pairs@, r as int).insert(key)) by {
                assert forall|k: JavaString| old_keys(pairs@, r + 1).contains(k) implies old_keys(
                    pairs@,
                    r as int,
                ).insert(key).contains(k) by {
                    let p = choose|p: int| 0 <= p < r + 1 && (#[trigger] pairs@[p]).0 == k;
                    if p < r {
                        assert(pairs@[p].0 == k);
                    }
                }
                assert forall|k: JavaString|
                    old_keys(pairs@, r as int).insert(key).contains(k) implies old_keys(
                    pairs@,
                    r + 1,
                ).contains(k) by {
                    if k == key {
                        assert(pairs@[r as int].0 == k);
                    } else {
                        let p = choose|p: int| 0 <= p < r && (#[trigger] pairs@[p]).0 == k;
                        assert(pairs@[p].0 == k);
                    }
                }
            }
            assert(compound_entries(*map) =~= before.remove_keys(old_keys(pairs@, r + 1)));
        }
        r += 1;
    }
    let mut w: usize = 0;
    while w < pairs.len()
        invariant
            w <= pairs.len(),
            values@.len() == pairs@.len(),
            forall|p: int| w <= p < pairs@.len() ==> #[trigger] values@[p] == before[pairs@[p].0],
            compound_entries(*map) == moved(before, pairs@, w as nat),
        decreases pairs.len() - w,
    {
        let mut value = valence_nbt::Value::Byte(0);
        std::mem::swap(&mut values[w], &mut value);
        assert(value == before[pairs@[w as int].0]);
        compound_insert(map, java_string_clone(&pairs[w].1), value);
        w += 1;
    }
}

} // verus!
