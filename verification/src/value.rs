//! The value model: raw (untyped) values as the input format produces them,
//! declared property types as the schema states them, and resolved (typed)
//! values as the builder attaches them to instances.
//!
//! Fractional numbers are carried in fixed-point form: an `i64` counting
//! millionths of a unit (`MICROS_PER_UNIT`). All arithmetic on them is exact
//! integer arithmetic, so every numeric rule of the resolver is stated and
//! proved over `int`.

use vstd::prelude::*;

verus! {

/// Number of fixed-point steps in one unit: raw numbers are held as
/// millionths.
pub const MICROS_PER_UNIT: i64 = 1_000_000;

/// An untyped value as produced by the input format, before its target type
/// is known.
#[derive(Debug)]
pub enum RawValue {
    Null,
    Bool(bool),
    /// A number, in millionths of a unit.
    Number(i64),
    Text(String),
    /// A sequence of numbers, each in millionths of a unit.
    NumberSeq(Vec<i64>),
    TextSeq(Vec<String>),
    /// A nested mapping. No declared property type accepts one, so its
    /// contents are never inspected by resolution.
    Mapping(Vec<(String, RawValue)>),
}

/// Specification-level mirror of `RawValue`. The mapping variant drops its
/// payload: resolution rejects mappings without reading them.
pub enum RawValueS {
    Null,
    Bool(bool),
    Number(int),
    Text(Seq<char>),
    NumberSeq(Seq<int>),
    TextSeq(Seq<Seq<char>>),
    Mapping,
}

impl View for RawValue {
    type V = RawValueS;

    open spec fn view(&self) -> RawValueS {
        match self {
            RawValue::Null => RawValueS::Null,
            RawValue::Bool(b) => RawValueS::Bool(*b),
            RawValue::Number(n) => RawValueS::Number(*n as int),
            RawValue::Text(s) => RawValueS::Text(s@),
            RawValue::NumberSeq(v) => RawValueS::NumberSeq(v@.map_values(|x: i64| x as int)),
            RawValue::TextSeq(v) => RawValueS::TextSeq(v.deep_view()),
            RawValue::Mapping(_) => RawValueS::Mapping,
        }
    }
}

/// A declared property type, as the schema states it for one
/// (class, property) pair.
#[derive(Debug, Clone, PartialEq, Eq)]
pub enum PropertyType {
    Bool,
    Int32,
    Int64,
    Float32,
    Float64,
    Text,
    Vector3,
    Color3,
    /// A coordinate frame: a position vector and a 3x3 rotation basis.
    Rotation,
    /// An enumeration; the payload names the enumeration.
    Enum(String),
    /// A reference to another instance of the tree.
    Referent,
    /// A declared type that resolution does not handle; every raw shape is
    /// rejected against it.
    Other,
}

/// Specification-level mirror of `PropertyType`.
pub enum PropertyTypeS {
    Bool,
    Int32,
    Int64,
    Float32,
    Float64,
    Text,
    Vector3,
    Color3,
    Rotation,
    Enum(Seq<char>),
    Referent,
    Other,
}

impl View for PropertyType {
    type V = PropertyTypeS;

    open spec fn view(&self) -> PropertyTypeS {
        match self {
            PropertyType::Bool => PropertyTypeS::Bool,
            PropertyType::Int32 => PropertyTypeS::Int32,
            PropertyType::Int64 => PropertyTypeS::Int64,
            PropertyType::Float32 => PropertyTypeS::Float32,
            PropertyType::Float64 => PropertyTypeS::Float64,
            PropertyType::Text => PropertyTypeS::Text,
            PropertyType::Vector3 => PropertyTypeS::Vector3,
            PropertyType::Color3 => PropertyTypeS::Color3,
            PropertyType::Rotation => PropertyTypeS::Rotation,
            PropertyType::Enum(e) => PropertyTypeS::Enum(e@),
            PropertyType::Referent => PropertyTypeS::Referent,
            PropertyType::Other => PropertyTypeS::Other,
        }
    }
}

/// A three-component vector, each component in millionths of a unit.
#[derive(Debug, Clone, PartialEq, Eq, Structural)]
pub struct Vector3 {
    pub x: i64,
    pub y: i64,
    pub z: i64,
}

/// A coordinate frame: a position and a 3x3 rotation basis in row-major
/// order, every component in millionths of a unit.
#[derive(Debug, Clone, PartialEq, Eq)]
pub struct Rotation {
    pub position: Vector3,
    pub basis: [i64; 9],
}

/// A value that has been matched to a concrete declared property type.
/// Numeric payloads of the floating variants are in millionths of a unit;
/// integer variants hold whole units.
#[derive(Debug, Clone, PartialEq, Eq)]
pub enum ResolvedValue {
    Bool(bool),
    Int32(i32),
    Int64(i64),
    Float32(i64),
    Float64(i64),
    Text(String),
    Vector3(Vector3),
    /// A color; each channel is an integer in 0..=255.
    Color3 { r: u8, g: u8, b: u8 },
    Rotation(Rotation),
    EnumToken(u32),
    /// A reference to another instance, by its index in the built tree;
    /// `None` until (and unless) the reference pass resolves it.
    Referent(Option<usize>),
}

/// Specification-level mirror of `ResolvedValue`.
pub enum ResolvedValueS {
    Bool(bool),
    Int32(int),
    Int64(int),
    Float32(int),
    Float64(int),
    Text(Seq<char>),
    Vector3 { x: int, y: int, z: int },
    Color3 { r: int, g: int, b: int },
    Rotation { position: (int, int, int), basis: Seq<int> },
    EnumToken(int),
    Referent(Option<int>),
}

impl View for ResolvedValue {
    type V = ResolvedValueS;

    open spec fn view(&self) -> ResolvedValueS {
        match self {
            ResolvedValue::Bool(b) => ResolvedValueS::Bool(*b),
            ResolvedValue::Int32(n) => ResolvedValueS::Int32(*n as int),
            ResolvedValue::Int64(n) => ResolvedValueS::Int64(*n as int),
            ResolvedValue::Float32(n) => ResolvedValueS::Float32(*n as int),
            ResolvedValue::Float64(n) => ResolvedValueS::Float64(*n as int),
            ResolvedValue::Text(s) => ResolvedValueS::Text(s@),
            ResolvedValue::Vector3(v) => ResolvedValueS::Vector3 {
                x: v.x as int,
                y: v.y as int,
                z: v.z as int,
            },
            ResolvedValue::Color3 { r, g, b } => ResolvedValueS::Color3 {
                r: *r as int,
                g: *g as int,
                b: *b as int,
            },
            ResolvedValue::Rotation(rot) => ResolvedValueS::Rotation {
                position: (rot.position.x as int, rot.position.y as int, rot.position.z as int),
                basis: rot.basis@.map_values(|c: i64| c as int),
            },
            ResolvedValue::EnumToken(id) => ResolvedValueS::EnumToken(*id as int),
            ResolvedValue::Referent(t) => ResolvedValueS::Referent(
                match t {
                    Some(i) => Some(*i as int),
                    None => None,
                },
            ),
        }
    }
}

/// Why one property failed to resolve. A failing property is always skipped
/// with a warning; it never aborts its instance.
#[derive(Debug, Clone, PartialEq, Eq, Structural)]
pub enum ResolutionError {
    /// No ancestor of the class declares the property.
    UnknownProperty,
    /// The raw shape cannot be coerced to the declared type.
    TypeMismatch,
    /// A numeric value lies outside the declared integer width.
    NumericOverflow,
    /// An enumeration has no item of the given name.
    UnknownEnumValue,
    /// A shape with more than one plausible target type was resolved without
    /// schema context.
    NotUnambiguous,
}

} // verus!
