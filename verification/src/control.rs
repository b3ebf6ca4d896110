//! Control operations.
//!
//! Each operation is one short plan over the codec: the query line to send
//! first, and, for the read-modify-write operations, the follow-up line
//! computed from the raw reply. The caller owns the socket; it sends the
//! query, hands back the reply line, and sends what it is given.

use vstd::prelude::*;
use crate::ascii::{chars_of_bytes, string_from_ascii};
use crate::codec::{decode_reply, encode_get_property, encode_set_property_bool,
    encode_set_property_string, spec_encode_get, spec_encode_set_bool, spec_encode_set_string};
use crate::error::{MpvError, ProtocolError};
use crate::fixed::{Fixed, spec_render_micros, spec_render_int, render_i64, MAX_UNITS,
    MICROS_PER_UNIT};
use crate::json::spec_reply_data;
use crate::value::SpecValue;

verus! {

/// The volume step of one `volume_up` or `volume_down`, in millionths:
/// two units.
pub const VOLUME_STEP_MICROS: i64 = 2_000_000;

/// The seek step of one `skip_forward` or `skip_backward`, in millionths:
/// ten seconds.
pub const SKIP_STEP_MICROS: i64 = 10_000_000;

/// The micro count a value coerces to as a number: a fractional number as
/// it stands, a whole number scaled up when that fits, anything else
/// nothing. This is exactly the coercion `as_num` performs.
pub open spec fn spec_num_of(v: SpecValue) -> Option<int> {
    match v {
        SpecValue::Num(m) => Some(m),
        SpecValue::Int(n) => if -MAX_UNITS <= n <= MAX_UNITS {
            Some(n * (MICROS_PER_UNIT as int))
        } else {
            None
        },
        _ => None,
    }
}

/// The query line that starts a pause toggle: a read of `pause`.
pub fn toggle_pause_query() -> (r: String)
    ensures
        r@ == spec_encode_get("pause"@),
{
    encode_get_property("pause")
}

/// The follow-up of a pause toggle: given the raw reply to the `pause`
/// read, the line that sets `pause` to the negation of the reported state.
/// A reply that does not decode is a protocol error; one whose payload is
/// not a boolean is a coercion error.
pub fn toggle_pause_reply(raw: &[u8]) -> (r: Result<String, MpvError>)
    ensures
        r is Ok <==> (spec_reply_data(raw@) matches Some(v) && v is Bool),
        r matches Ok(cmd) ==> cmd@ == spec_encode_set_bool(
            "pause"@,
            !spec_reply_data(raw@)->Some_0->Bool_0,
        ),
        r is Err && spec_reply_data(raw@) is None ==> r->Err_0 == MpvError::Protocol(
            ProtocolError::Malformed,
        ),
        r is Err && spec_reply_data(raw@) is Some ==> r->Err_0 == MpvError::Coercion,
{
    match decode_reply(raw) {
        Ok(v) => match v.as_bool() {
            Ok(b) => Ok(encode_set_property_bool("pause", !b)),
            Err(_) => Err(MpvError::Coercion),
        },
        Err(_) => Err(MpvError::Protocol(ProtocolError::Malformed)),
    }
}

/// The query line that starts a volume step: a read of `volume`.
pub fn volume_query() -> (r: String)
    ensures
        r@ == spec_encode_get("volume"@),
{
    encode_get_property("volume")
}

/// The query line that starts a seek: a read of `time-pos`.
pub fn position_query() -> (r: String)
    ensures
        r@ == spec_encode_get("time-pos"@),
{
    encode_get_property("time-pos")
}

/// The follow-up of a read-modify-write step: given the raw reply to the
/// read of `name`, the line that writes the reported number moved by
/// `delta` millionths, in its decimal string form. A reply that does not
/// decode is a protocol error; a payload that is not a number, or a result
/// that leaves the representable range, is a coercion error.
fn adjust_reply(raw: &[u8], name: &str, delta: i64) -> (r: Result<String, MpvError>)
    ensures
        r is Ok <==> (spec_reply_data(raw@) matches Some(v) && spec_num_of(v) matches Some(m)
            && i64::MIN <= m + delta <= i64::MAX),
        r matches Ok(cmd) ==> cmd@ == spec_encode_set_string(
            name@,
            chars_of_bytes(
                spec_render_micros(spec_num_of(spec_reply_data(raw@)->Some_0)->Some_0 + delta),
            ),
        ),
        r is Err && spec_reply_data(raw@) is None ==> r->Err_0 == MpvError::Protocol(
            ProtocolError::Malformed,
        ),
        r is Err && spec_reply_data(raw@) is Some ==> r->Err_0 == MpvError::Coercion,
{
    match decode_reply(raw) {
        Ok(v) => match v.as_num() {
            Ok(f) => match f.checked_add(Fixed { micros: delta }) {
                Some(moved) => {
                    let text = moved.to_decimal_string();
                    Ok(encode_set_property_string(name, text.as_str()))
                },
                None => Err(MpvError::Coercion),
            },
            Err(_) => Err(MpvError::Coercion),
        },
        Err(_) => Err(MpvError::Protocol(ProtocolError::Malformed)),
    }
}

/// The follow-up of `volume_up`: writes the reported volume plus two.
pub fn volume_up_reply(raw: &[u8]) -> (r: Result<String, MpvError>)
    ensures
        r is Ok <==> (spec_reply_data(raw@) matches Some(v) && spec_num_of(v) matches Some(m)
            && i64::MIN <= m + VOLUME_STEP_MICROS <= i64::MAX),
        r matches Ok(cmd) ==> cmd@ == spec_encode_set_string(
            "volume"@,
            chars_of_bytes(
                spec_render_micros(
                    spec_num_of(spec_reply_data(raw@)->Some_0)->Some_0 + VOLUME_STEP_MICROS,
                ),
            ),
        ),
        r is Err && spec_reply_data(raw@) is None ==> r->Err_0 == MpvError::Protocol(
            ProtocolError::Malformed,
        ),
        r is Err && spec_reply_data(raw@) is Some ==> r->Err_0 == MpvError::Coercion,
{
    adjust_reply(raw, "volume", VOLUME_STEP_MICROS)
}

/// The follow-up of `volume_down`: writes the reported volume minus two.
pub fn volume_down_reply(raw: &[u8]) -> (r: Result<String, MpvError>)
    ensures
        r is Ok <==> (spec_reply_data(raw@) matches Some(v) && spec_num_of(v) matches Some(m)
            && i64::MIN <= m - VOLUME_STEP_MICROS <= i64::MAX),
        r matches Ok(cmd) ==> cmd@ == spec_encode_set_string(
            "volume"@,
            chars_of_bytes(
                spec_render_micros(
                    spec_num_of(spec_reply_data(raw@)->Some_0)->Some_0 - VOLUME_STEP_MICROS,
                ),
            ),
        ),
        r is Err && spec_reply_data(raw@) is None ==> r->Err_0 == MpvError::Protocol(
            ProtocolError::Malformed,
        ),
        r is Err && spec_reply_data(raw@) is Some ==> r->Err_0 == MpvError::Coercion,
{
    adjust_reply(raw, "volume", -VOLUME_STEP_MICROS)
}

/// The follow-up of `skip_forward`: writes the reported position plus ten.
pub fn skip_forward_reply(raw: &[u8]) -> (r: Result<String, MpvError>)
    ensures
        r is Ok <==> (spec_reply_data(raw@) matches Some(v) && spec_num_of(v) matches Some(m)
            && i64::MIN <= m + SKIP_STEP_MICROS <= i64::MAX),
        r matches Ok(cmd) ==> cmd@ == spec_encode_set_string(
            "time-pos"@,
            chars_of_bytes(
                spec_render_micros(
                    spec_num_of(spec_reply_data(raw@)->Some_0)->Some_0 + SKIP_STEP_MICROS,
                ),
            ),
        ),
        r is Err && spec_reply_data(raw@) is None ==> r->Err_0 == MpvError::Protocol(
            ProtocolError::Malformed,
        ),
        r is Err && spec_reply_data(raw@) is Some ==> r->Err_0 == MpvError::Coercion,
{
    adjust_reply(raw, "time-pos", SKIP_STEP_MICROS)
}

/// The follow-up of `skip_backward`: writes the reported position minus
/// ten.
pub fn skip_backward_reply(raw: &[u8]) -> (r: Result<String, MpvError>)
    ensures
        r is Ok <==> (spec_reply_data(raw@) matches Some(v) && spec_num_of(v) matches Some(m)
            && i64::MIN <= m - SKIP_STEP_MICROS <= i64::MAX),
        r matches Ok(cmd) ==> cmd@ == spec_encode_set_string(
            "time-pos"@,
            chars_of_bytes(
                spec_render_micros(
                    spec_num_of(spec_reply_data(raw@)->Some_0)->Some_0 - SKIP_STEP_MICROS,
                ),
            ),
        ),
        r is Err && spec_reply_data(raw@) is None ==> r->Err_0 == MpvError::Protocol(
            ProtocolError::Malformed,
        ),
        r is Err && spec_reply_data(raw@) is Some ==> r->Err_0 == MpvError::Coercion,
{
    adjust_reply(raw, "time-pos", -SKIP_STEP_MICROS)
}

/// The line that sets the volume to a whole number of units, written as
/// its decimal string form.
pub fn set_volume_command(volume: i16) -> (r: String)
    ensures
        r@ == spec_encode_set_string("volume"@, chars_of_bytes(spec_render_int(volume as int))),
{
    let bytes = render_i64(volume as i64);
    let text = string_from_ascii(&bytes);
    encode_set_property_string("volume", text.as_str())
}

/// The line that selects the subtitle track with the given identifier.
pub fn set_subtitle_command(id: i64) -> (r: String)
    ensures
        r@ == spec_encode_set_string("sid"@, chars_of_bytes(spec_render_int(id as int))),
{
    let bytes = render_i64(id);
    let text = string_from_ascii(&bytes);
    encode_set_property_string("sid", text.as_str())
}

} // verus!
