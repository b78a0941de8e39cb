//! The schema catalog: a read-only table mapping (class, property) to a
//! declared property type, with inheritance-aware fallback over the class's
//! ancestor chain.
//!
//! The table itself is the bundled reflection database of the
//! `rbx_reflection_database` crate; each of its three lookups stands behind a
//! trusted wrapper whose result is named by an uninterpreted spec function
//! (the bundled table is embedded in the crate, so each lookup is a function
//! of its arguments alone). The ancestor walk over those lookups is verified.

use vstd::prelude::*;

use rbx_dom_weak::types::VariantType;
use rbx_reflection::DataType;

use crate::value::PropertyType;
use crate::value::PropertyTypeS;

verus! {

/// Upper bound on the length of an ancestor chain the lookup will follow; no
/// chain of the bundled table comes near it.
pub const MAX_ANCESTRY: u64 = 64;

/// The superclass that the bundled reflection table declares for a class, if
/// the class is known and has one.
pub uninterp spec fn db_superclass_of(class: Seq<char>) -> Option<Seq<char>>;

/// The property type that the bundled reflection table declares directly on
/// a class (not on an ancestor) for a property name, if any.
pub uninterp spec fn db_declared_type_of(class: Seq<char>, prop: Seq<char>) -> Option<
    PropertyTypeS,
>;

/// The numeric id that the bundled reflection table gives an item of an
/// enumeration, if the enumeration and the item are known.
pub uninterp spec fn db_enum_item_id(enum_name: Seq<char>, item: Seq<char>) -> Option<int>;

/// Relies on `rbx_reflection_database::get_bundled` and the `classes` table
/// of `rbx_reflection::ReflectionDatabase`: the superclass declared for
/// `class`.
#[verifier::external_body]
fn db_superclass(class: &str) -> (r: Option<String>)
    ensures
        match r {
            Some(s) => db_superclass_of(class@) == Some(s@),
            None => db_superclass_of(class@) is None,
        },
{
    let db = rbx_reflection_database::get_bundled();
    let descriptor = db.classes.get(class)?;
    descriptor.superclass.as_ref().map(|s| s.to_string())
}

/// Relies on `rbx_reflection_database::get_bundled` and the `properties`
/// table of `rbx_reflection::ClassDescriptor`: the data type declared
/// directly on `class` for `prop`, translated variant for variant.
#[verifier::external_body]
fn db_property_type(class: &str, prop: &str) -> (r: Option<PropertyType>)
    ensures
        match r {
            Some(t) => db_declared_type_of(class@, prop@) == Some(t@),
            None => db_declared_type_of(class@, prop@) is None,
        },
{
    let descriptor = rbx_reflection_database::get_bundled().classes.get(class)?.properties.get(prop)?;
    Some(match &descriptor.data_type {
        DataType::Enum(e) => PropertyType::Enum(e.to_string()),
        DataType::Value(VariantType::Bool) => PropertyType::Bool,
        DataType::Value(VariantType::Int32) => PropertyType::Int32,
        DataType::Value(VariantType::Int64) => PropertyType::Int64,
        DataType::Value(VariantType::Float32) => PropertyType::Float32,
        DataType::Value(VariantType::Float64) => PropertyType::Float64,
        DataType::Value(VariantType::String) => PropertyType::Text,
        DataType::Value(VariantType::Vector3) => PropertyType::Vector3,
        DataType::Value(VariantType::Color3) => PropertyType::Color3,
        DataType::Value(VariantType::CFrame) => PropertyType::Rotation,
        DataType::Value(VariantType::Ref) => PropertyType::Referent,
        _ => PropertyType::Other,
    })
}

/// Relies on `rbx_reflection_database::get_bundled` and the `items` table of
/// `rbx_reflection::EnumDescriptor`: the numeric id of `item` in the
/// enumeration named `enum_name`.
#[verifier::external_body]
fn db_enum_item(enum_name: &str, item: &str) -> (r: Option<u32>)
    ensures
        match r {
            Some(id) => db_enum_item_id(enum_name@, item@) == Some(id as int),
            None => db_enum_item_id(enum_name@, item@) is None,
        },
{
    let db = rbx_reflection_database::get_bundled();
    db.enums.get(enum_name)?.items.get(item).copied()
}

/// The declared type of `prop` on `class`, walking the ancestor chain most
/// specific first, giving up after `fuel` steps.
pub open spec fn schema_lookup_fueled(class: Seq<char>, prop: Seq<char>, fuel: nat) -> Option<
    PropertyTypeS,
>
    decreases fuel,
{
    if fuel == 0 {
        None
    } else {
        match db_declared_type_of(class, prop) {
            Some(t) => Some(t),
            None => match db_superclass_of(class) {
                Some(sup) => schema_lookup_fueled(sup, prop, (fuel - 1) as nat),
                None => None,
            },
        }
    }
}

/// The declared type of `prop` on `class` or its nearest ancestor that
/// declares it.
pub open spec fn schema_lookup(class: Seq<char>, prop: Seq<char>) -> Option<PropertyTypeS> {
    schema_lookup_fueled(class, prop, MAX_ANCESTRY as nat)
}

/// Walks the ancestor chain of `class`, most specific first, until some
/// ancestor declares `prop`; `None` when none does.
pub fn lookup(class: &str, prop: &str) -> (r: Option<PropertyType>)
    ensures
        match r {
            Some(t) => schema_lookup(class@, prop@) == Some(t@),
            None => schema_lookup(class@, prop@) is None,
        },
{
    let mut cur: String = class.to_owned();
    let mut fuel: u64 = MAX_ANCESTRY;
    while fuel > 0
        invariant
            schema_lookup(class@, prop@) == schema_lookup_fueled(cur@, prop@, fuel as nat),
        decreases fuel,
    {
        match db_property_type(cur.as_str(), prop) {
            Some(t) => {
                return Some(t);
            },
            None => {
                match db_superclass(cur.as_str()) {
                    Some(sup) => {
                        cur = sup;
                    },
                    None => {
                        return None;
                    },
                }
            },
        }
        fuel = fuel - 1;
    }
    None
}

/// The numeric id of `item` in the enumeration named `enum_name`, from the
/// bundled reflection table.
pub fn enum_item_id(enum_name: &str, item: &str) -> (r: Option<u32>)
    ensures
        match r {
            Some(id) => db_enum_item_id(enum_name@, item@) == Some(id as int),
            None => db_enum_item_id(enum_name@, item@) is None,
        },
{
    db_enum_item(enum_name, item)
}

} // verus!
