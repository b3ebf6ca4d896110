//! Property values and their coercions.
//!
//! The payload of a decoded reply is a tagged union over the JSON scalar
//! kinds the player uses. Coercion to a specific expected kind is explicit
//! and fallible: a value of the wrong kind is a coercion error, never a
//! crash.

use vstd::prelude::*;
use crate::ascii::chars_of_bytes;
use crate::error::MpvError;
use crate::fixed::{Fixed, spec_render_micros, spec_render_int, render_i64, MAX_UNITS,
    MICROS_PER_UNIT};

verus! {

/// The mathematical form of a property value.
pub enum SpecValue {
    Bool(bool),
    /// A fractional number, in millionths of a unit.
    Num(int),
    Int(int),
    Str(Seq<char>),
    Null,
}

/// A decoded property value: one JSON scalar.
#[derive(Debug, Clone)]
pub enum PropertyValue {
    Bool(bool),
    /// A number that carried a fractional part on the wire.
    Num(Fixed),
    /// A number that was written as a plain integer on the wire.
    Int(i64),
    Str(String),
    Null,
}

impl View for PropertyValue {
    type V = SpecValue;

    open spec fn view(&self) -> SpecValue {
        match self {
            PropertyValue::Bool(b) => SpecValue::Bool(*b),
            PropertyValue::Num(f) => SpecValue::Num(f.micros as int),
            PropertyValue::Int(n) => SpecValue::Int(*n as int),
            PropertyValue::Str(s) => SpecValue::Str(s@),
            PropertyValue::Null => SpecValue::Null,
        }
    }
}

/// The display form of a value: the text a caller sees for a property that
/// is reported as-is rather than coerced.
pub open spec fn spec_display(v: SpecValue) -> Seq<char> {
    match v {
        SpecValue::Bool(b) => if b {
            "true"@
        } else {
            "false"@
        },
        SpecValue::Num(m) => chars_of_bytes(spec_render_micros(m)),
        SpecValue::Int(n) => chars_of_bytes(spec_render_int(n)),
        SpecValue::Str(s) => s,
        SpecValue::Null => "null"@,
    }
}

impl PropertyValue {
    /// The boolean this value holds; any other kind is a coercion error.
    pub fn as_bool(&self) -> (r: Result<bool, MpvError>)
        ensures
            r is Ok <==> self@ is Bool,
            r is Ok ==> self@ == SpecValue::Bool(r->Ok_0),
            r is Err ==> r->Err_0 == MpvError::Coercion,
    {
        match self {
            PropertyValue::Bool(b) => Ok(*b),
            _ => Err(MpvError::Coercion),
        }
    }

    /// The number this value holds. A whole number coerces too, when its
    /// micro count fits; anything else is a coercion error.
    pub fn as_num(&self) -> (r: Result<Fixed, MpvError>)
        ensures
            r is Ok <==> (self@ is Num || (self@ is Int && -MAX_UNITS <= self@->Int_0
                <= MAX_UNITS)),
            self@ is Num ==> r == Ok::<Fixed, MpvError>(Fixed { micros: self@->Num_0 as i64 }),
            r is Ok && self@ is Int ==> r->Ok_0.micros == self@->Int_0 * (MICROS_PER_UNIT as int),
            r is Err ==> r->Err_0 == MpvError::Coercion,
    {
        match self {
            PropertyValue::Num(f) => Ok(*f),
            PropertyValue::Int(n) => match Fixed::from_units(*n) {
                Some(f) => Ok(f),
                None => Err(MpvError::Coercion),
            },
            _ => Err(MpvError::Coercion),
        }
    }

    /// The integer this value holds; a fractional number does not coerce.
    pub fn as_i64(&self) -> (r: Result<i64, MpvError>)
        ensures
            r is Ok <==> self@ is Int,
            r is Ok ==> self@ == SpecValue::Int(r->Ok_0 as int),
            r is Err ==> r->Err_0 == MpvError::Coercion,
    {
        match self {
            PropertyValue::Int(n) => Ok(*n),
            _ => Err(MpvError::Coercion),
        }
    }

    /// The display form of this value.
    pub fn to_display_string(&self) -> (r: String)
        ensures
            r@ == spec_display(self@),
    {
        match self {
            PropertyValue::Bool(b) => {
                if *b {
                    String::from_str("true")
                } else {
                    String::from_str("false")
                }
            },
            PropertyValue::Num(f) => f.to_decimal_string(),
            PropertyValue::Int(n) => {
                let bytes = render_i64(*n);
                crate::ascii::string_from_ascii(&bytes)
            },
            PropertyValue::Str(s) => s.clone(),
            PropertyValue::Null => String::from_str("null"),
        }
    }
}

} // verus!
