//! A versioned conversion engine for tree-shaped documents.
//!
//! A data type holds converters, hooks and walkers, each registered for a
//! version. `convert` takes a document from one version to another: it runs the
//! converters whose versions lie in the interval, in order and between their
//! hooks, and then walks into what is nested.

pub mod chain;
pub mod converter;
pub mod dynamic_type;
pub mod engine;
pub mod error;
pub mod hook;
pub mod id_table;
pub mod id_type;
pub mod java;
pub mod laws;
pub mod map_type;
pub mod multi;
pub mod nbt;
pub mod object_type;
pub mod path_walkers;
pub mod plan;
pub mod registry;
pub mod sorted;
pub mod traverse;
pub mod version;
pub mod walker;

pub use crate::converter::{
    dynamic_data_converter_func, map_data_converter_func, value_data_converter_func,
    DynamicDataConverter, DynamicDataConverterFn, DynamicDataConverterFunc, MapDataConverter,
    MapDataConverterFn, MapDataConverterFunc, ValueDataConverter, ValueDataConverterFn,
    ValueDataConverterFunc,
};
pub use crate::dynamic_type::{AbstractDynamicDataType, DynamicDataType};
pub use crate::error::ConversionError;
pub use crate::hook::{DynamicDataHook, MapDataHook, ValueDataHook};
pub use crate::id_type::IdDataType;
pub use crate::java::{compound_to_java, list_to_java, value_to_java};
pub use crate::map_type::{AbstractMapDataType, MapDataType};
pub use crate::multi::{get_mut_multi, keys_are_unique};
pub use crate::nbt::{JCompound, JList, JValue, JValueMut};
pub use crate::object_type::{AbstractValueDataType, ObjectDataType};
pub use crate::path_walkers::{
    DataWalkerDynamicListPaths, DataWalkerDynamicTypePaths, DataWalkerMapListPaths,
    DataWalkerMapTypePaths, DataWalkerObjectListPaths, DataWalkerObjectTypePaths,
};
pub use crate::traverse::{
    all_same_case, convert_dynamic_in_map, convert_dynamic_list_in_map, convert_map_in_map,
    convert_map_list_in_map, convert_object_in_map, convert_object_list,
    convert_object_list_in_map, convert_values, convert_values_in_map, rename_key, rename_keys,
    same_case,
};
pub use crate::version::DataVersion;
pub use crate::walker::{
    dynamic_data_walker, map_data_walker, DynamicDataWalker, DynamicDataWalkerFn, MapDataWalker,
    MapDataWalkerFn,
};
