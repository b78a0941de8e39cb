//! The value resolver: converts an untyped raw value into a concrete typed
//! value, either against the declared type of a (class, property) pair, or,
//! where no such context exists yet, only for shapes with exactly one
//! possible interpretation.

use vstd::prelude::*;

use crate::schema::db_enum_item_id;
use crate::schema::enum_item_id;
use crate::schema::lookup;
use crate::schema::schema_lookup;
use crate::strutil::str_starts_with;
use crate::strutil::str_suffix;
use crate::value::PropertyType;
use crate::value::PropertyTypeS;
use crate::value::RawValue;
use crate::value::RawValueS;
use crate::value::ResolutionError;
use crate::value::ResolvedValue;
use crate::value::ResolvedValueS;
use crate::value::Rotation;
use crate::value::Vector3;
use crate::value::MICROS_PER_UNIT;

verus! {

/// `v` clamped to the unit interval, in millionths.
pub open spec fn clamp_unit(v: int) -> int {
    if v < 0 {
        0
    } else if v > MICROS_PER_UNIT {
        MICROS_PER_UNIT as int
    } else {
        v
    }
}

/// A color channel: the clamped value scaled to 0..=255 and rounded to the
/// nearest integer, halves away from zero.
pub open spec fn channel_of(v: int) -> int {
    (clamp_unit(v) * 255 + 500_000) / 1_000_000
}

/// The whole-unit part of a fixed-point value, truncated toward zero.
pub open spec fn whole_units(m: int) -> int {
    if m >= 0 {
        m / 1_000_000
    } else {
        -((-m) / 1_000_000)
    }
}

/// Computes `channel_of` on fixed-point input.
pub fn color_channel(v: i64) -> (c: u8)
    ensures
        c as int == channel_of(v as int),
{
    let clamped: i64 = if v < 0 {
        0
    } else if v > MICROS_PER_UNIT {
        MICROS_PER_UNIT
    } else {
        v
    };
    let numerator: u64 = (clamped as u64) * 255 + 500_000;
    let channel: u64 = numerator / 1_000_000;
    assert(channel <= 255);
    channel as u8
}

/// Computes `whole_units` on fixed-point input.
pub fn to_whole_units(m: i64) -> (w: i64)
    ensures
        w as int == whole_units(m as int),
{
    if m >= 0 {
        ((m as u64) / 1_000_000) as i64
    } else {
        let magnitude: u64 = (-(m as i128)) as u64;
        let quotient: u64 = magnitude / 1_000_000;
        assert(quotient <= 0x7fff_ffff_ffff_ffff);
        -(quotient as i64)
    }
}

/// The marker that distinguishes a synthetic-reference string from an inline
/// literal.
pub open spec fn ref_marker() -> Seq<char> {
    "RojoId_"@
}

/// Does a raw string denote a synthetic reference?
pub open spec fn is_synthetic_ref(s: Seq<char>) -> bool {
    s.len() >= ref_marker().len() && s.subrange(0, ref_marker().len() as int) == ref_marker()
}

/// The synthetic id that a reference string names: what follows the marker.
pub open spec fn synthetic_ref_target(s: Seq<char>) -> Seq<char> {
    s.subrange(ref_marker().len() as int, s.len() as int)
}

/// What resolution returns for a raw value against a declared type. Every
/// (shape, type) pairing not listed here is a `TypeMismatch`.
pub open spec fn resolve_typed(t: PropertyTypeS, raw: RawValueS) -> Result<
    ResolvedValueS,
    ResolutionError,
> {
    match (t, raw) {
        (PropertyTypeS::Bool, RawValueS::Bool(b)) => Ok(ResolvedValueS::Bool(b)),
        (PropertyTypeS::Int32, RawValueS::Number(n)) => if -0x8000_0000 <= whole_units(n)
            <= 0x7fff_ffff {
            Ok(ResolvedValueS::Int32(whole_units(n)))
        } else {
            Err(ResolutionError::NumericOverflow)
        },
        (PropertyTypeS::Int64, RawValueS::Number(n)) => Ok(ResolvedValueS::Int64(whole_units(n))),
        (PropertyTypeS::Float32, RawValueS::Number(n)) => Ok(ResolvedValueS::Float32(n)),
        (PropertyTypeS::Float64, RawValueS::Number(n)) => Ok(ResolvedValueS::Float64(n)),
        (PropertyTypeS::Text, RawValueS::Text(s)) => Ok(ResolvedValueS::Text(s)),
        (PropertyTypeS::Enum(e), RawValueS::Text(s)) => match db_enum_item_id(e, s) {
            Some(id) => Ok(ResolvedValueS::EnumToken(id)),
            None => Err(ResolutionError::UnknownEnumValue),
        },
        (PropertyTypeS::Vector3, RawValueS::NumberSeq(v)) => if v.len() == 3 {
            Ok(ResolvedValueS::Vector3 { x: v[0], y: v[1], z: v[2] })
        } else {
            Err(ResolutionError::TypeMismatch)
        },
        (PropertyTypeS::Color3, RawValueS::NumberSeq(v)) => if v.len() == 3 {
            Ok(
                ResolvedValueS::Color3 {
                    r: channel_of(v[0]),
                    g: channel_of(v[1]),
                    b: channel_of(v[2]),
                },
            )
        } else {
            Err(ResolutionError::TypeMismatch)
        },
        (PropertyTypeS::Rotation, RawValueS::NumberSeq(v)) => if v.len() == 12 {
            Ok(
                ResolvedValueS::Rotation {
                    position: (v[0], v[1], v[2]),
                    basis: v.subrange(3, 12),
                },
            )
        } else {
            Err(ResolutionError::TypeMismatch)
        },
        // Only a plain string can carry the synthetic-id marker; a numeric
        // or string sequence has no id convention, so both fall through to
        // the mismatch arm below.
        (PropertyTypeS::Referent, RawValueS::Text(s)) => if is_synthetic_ref(s) {
            Ok(ResolvedValueS::Referent(None))
        } else {
            Err(ResolutionError::TypeMismatch)
        },
        _ => Err(ResolutionError::TypeMismatch),
    }
}

/// What schema-aware resolution returns: the schema's declared type for the
/// pair, or `UnknownProperty` when no ancestor declares the property, then
/// the typed dispatch above.
pub open spec fn resolve_spec(class: Seq<char>, prop: Seq<char>, raw: RawValueS) -> Result<
    ResolvedValueS,
    ResolutionError,
> {
    match schema_lookup(class, prop) {
        None => Err(ResolutionError::UnknownProperty),
        Some(t) => resolve_typed(t, raw),
    }
}

/// A reference discovered during the walk, waiting for the finalize pass:
/// which instance held it, under which property, and which synthetic id it
/// names.
#[derive(Debug, Clone)]
pub struct PendingReference {
    pub source: usize,
    pub prop: String,
    pub target: String,
}

/// Specification-level mirror of `PendingReference`.
pub struct PendingReferenceS {
    pub source: int,
    pub prop: Seq<char>,
    pub target: Seq<char>,
}

impl View for PendingReference {
    type V = PendingReferenceS;

    open spec fn view(&self) -> PendingReferenceS {
        PendingReferenceS { source: self.source as int, prop: self.prop@, target: self.target@ }
    }
}

/// The views of a list of pending references.
pub open spec fn pending_view(s: Seq<PendingReference>) -> Seq<PendingReferenceS> {
    s.map_values(|p: PendingReference| p@)
}

/// Does resolving `raw` for `prop` on `class` register a pending reference?
pub open spec fn registers_pending(class: Seq<char>, prop: Seq<char>, raw: RawValueS) -> bool {
    schema_lookup(class, prop) == Some(PropertyTypeS::Referent) && match raw {
        RawValueS::Text(s) => is_synthetic_ref(s),
        _ => false,
    }
}

/// The pending record that such a resolution registers.
pub open spec fn pending_record(source: int, prop: Seq<char>, raw: RawValueS) -> PendingReferenceS {
    PendingReferenceS { source, prop, target: synthetic_ref_target(raw->Text_0) }
}

/// Schema-aware resolution of one raw value for the property `prop` of an
/// instance of `class`. On the reference branch it also registers a pending
/// reference for `source`, the only side effect of resolution; `pending` is
/// untouched on every other branch.
pub fn resolve(
    raw: &RawValue,
    class: &str,
    prop: &str,
    source: usize,
    pending: &mut Vec<PendingReference>,
) -> (r: Result<ResolvedValue, ResolutionError>)
    ensures
        (match r {
            Ok(v) => resolve_spec(class@, prop@, raw@) == Ok::<ResolvedValueS, ResolutionError>(
                v@,
            ),
            Err(e) => resolve_spec(class@, prop@, raw@) == Err::<ResolvedValueS, ResolutionError>(
                e,
            ),
        }),
        registers_pending(class@, prop@, raw@) ==> pending_view(final(pending)@) == pending_view(
            old(pending)@,
        ).push(pending_record(source as int, prop@, raw@)),
        !registers_pending(class@, prop@, raw@) ==> final(pending)@ == old(pending)@,
        old(pending)@.len() <= final(pending)@.len(),
        forall|j: int| 0 <= j < old(pending)@.len() ==> final(pending)@[j] == old(pending)@[j],
{
    let declared = match lookup(class, prop) {
        None => {
            return Err(ResolutionError::UnknownProperty);
        },
        Some(t) => t,
    };
    match (&declared, raw) {
        (PropertyType::Bool, RawValue::Bool(b)) => Ok(ResolvedValue::Bool(*b)),
        (PropertyType::Int32, RawValue::Number(n)) => {
            let whole: i64 = to_whole_units(*n);
            if -0x8000_0000 <= whole && whole <= 0x7fff_ffff {
                Ok(ResolvedValue::Int32(whole as i32))
            } else {
                Err(ResolutionError::NumericOverflow)
            }
        },
        (PropertyType::Int64, RawValue::Number(n)) => Ok(ResolvedValue::Int64(to_whole_units(*n))),
        (PropertyType::Float32, RawValue::Number(n)) => Ok(ResolvedValue::Float32(*n)),
        (PropertyType::Float64, RawValue::Number(n)) => Ok(ResolvedValue::Float64(*n)),
        (PropertyType::Text, RawValue::Text(s)) => Ok(ResolvedValue::Text(s.clone())),
        (PropertyType::Enum(e), RawValue::Text(s)) => {
            match enum_item_id(e.as_str(), s.as_str()) {
                Some(id) => Ok(ResolvedValue::EnumToken(id)),
                None => Err(ResolutionError::UnknownEnumValue),
            }
        },
        (PropertyType::Vector3, RawValue::NumberSeq(v)) => {
            if v.len() == 3 {
                Ok(ResolvedValue::Vector3(Vector3 { x: v[0], y: v[1], z: v[2] }))
            } else {
                Err(ResolutionError::TypeMismatch)
            }
        },
        (PropertyType::Color3, RawValue::NumberSeq(v)) => {
            if v.len() == 3 {
                Ok(
                    ResolvedValue::Color3 {
                        r: color_channel(v[0]),
                        g: color_channel(v[1]),
                        b: color_channel(v[2]),
                    },
                )
            } else {
                Err(ResolutionError::TypeMismatch)
            }
        },
        (PropertyType::Rotation, RawValue::NumberSeq(v)) => {
            if v.len() == 12 {
                let basis: [i64; 9] = [v[3], v[4], v[5], v[6], v[7], v[8], v[9], v[10], v[11]];
                let rotation = Rotation {
                    position: Vector3 { x: v[0], y: v[1], z: v[2] },
                    basis,
                };
                let resolved = ResolvedValue::Rotation(rotation);
                proof {
                    assert(resolved@->Rotation_basis =~= raw@->NumberSeq_0.subrange(3, 12));
                }
                Ok(resolved)
            } else {
                Err(ResolutionError::TypeMismatch)
            }
        },
        (PropertyType::Referent, RawValue::Text(s)) => {
            if str_starts_with(s.as_str(), "RojoId_") {
                let target: String = str_suffix(s.as_str(), "RojoId_".unicode_len());
                pending.push(
                    PendingReference { source, prop: prop.to_owned(), target },
                );
                proof {
                    assert(pending_view(pending@) =~= pending_view(old(pending)@).push(
                        pending_record(source as int, prop@, raw@),
                    ));
                }
                Ok(ResolvedValue::Referent(None))
            } else {
                Err(ResolutionError::TypeMismatch)
            }
        },
        _ => Err(ResolutionError::TypeMismatch),
    }
}

/// What context-free resolution returns: only shapes with exactly one
/// plausible target type succeed; sequences and mappings are legitimately
/// polymorphic and are refused, not guessed.
pub open spec fn resolve_unambiguous_spec(raw: RawValueS) -> Result<
    ResolvedValueS,
    ResolutionError,
> {
    match raw {
        RawValueS::Bool(b) => Ok(ResolvedValueS::Bool(b)),
        RawValueS::Number(n) => Ok(ResolvedValueS::Float64(n)),
        RawValueS::Text(s) => Ok(ResolvedValueS::Text(s)),
        _ => Err(ResolutionError::NotUnambiguous),
    }
}

/// Context-free resolution, for the few shapes with exactly one possible
/// interpretation; used where no (class, property) pair is available yet.
pub fn resolve_unambiguous(raw: &RawValue) -> (r: Result<ResolvedValue, ResolutionError>)
    ensures
        (match r {
            Ok(v) => resolve_unambiguous_spec(raw@) == Ok::<ResolvedValueS, ResolutionError>(v@),
            Err(e) => resolve_unambiguous_spec(raw@) == Err::<ResolvedValueS, ResolutionError>(e),
        }),
{
    match raw {
        RawValue::Bool(b) => Ok(ResolvedValue::Bool(*b)),
        RawValue::Number(n) => Ok(ResolvedValue::Float64(*n)),
        RawValue::Text(s) => Ok(ResolvedValue::Text(s.clone())),
        _ => Err(ResolutionError::NotUnambiguous),
    }
}

} // verus!
