use mpv_remote::control::{position_query, set_subtitle_command, set_volume_command,
    skip_backward_reply, skip_forward_reply, toggle_pause_query, toggle_pause_reply,
    volume_down_reply, volume_query, volume_up_reply};
use mpv_remote::error::{MpvError, ProtocolError};

#[test]
fn queries_read_the_right_properties() {
    assert_eq!(toggle_pause_query(), "{\"command\":[\"get_property\",\"pause\"]}\n");
    assert_eq!(volume_query(), "{\"command\":[\"get_property\",\"volume\"]}\n");
    assert_eq!(position_query(), "{\"command\":[\"get_property\",\"time-pos\"]}\n");
}

#[test]
fn toggle_pause_writes_the_negation() {
    let cmd = toggle_pause_reply(b"{\"data\":false}").unwrap();
    assert_eq!(cmd, "{\"command\":[\"set_property\",\"pause\",true]}\n");
    let cmd = toggle_pause_reply(b"{\"data\":true}").unwrap();
    assert_eq!(cmd, "{\"command\":[\"set_property\",\"pause\",false]}\n");
}

#[test]
fn toggle_pause_rejects_non_boolean_payload() {
    assert_eq!(toggle_pause_reply(b"{\"data\":1}").unwrap_err(), MpvError::Coercion);
    assert_eq!(
        toggle_pause_reply(b"{\"error\":\"x\"}").unwrap_err(),
        MpvError::Protocol(ProtocolError::Malformed)
    );
}

#[test]
fn volume_up_adds_two_units() {
    let cmd = volume_up_reply(b"{\"data\":48.0}").unwrap();
    assert_eq!(cmd, "{\"command\":[\"set_property_string\",\"volume\",\"50\"]}\n");
}

#[test]
fn volume_up_then_down_restores_the_volume() {
    let up = volume_up_reply(b"{\"data\":48.0}").unwrap();
    assert!(up.contains("\"50\""));
    let down = volume_down_reply(b"{\"data\":50}").unwrap();
    assert_eq!(down, "{\"command\":[\"set_property_string\",\"volume\",\"48\"]}\n");
}

#[test]
fn volume_down_then_up_restores_the_volume() {
    let down = volume_down_reply(b"{\"data\":33.25}").unwrap();
    assert_eq!(down, "{\"command\":[\"set_property_string\",\"volume\",\"31.25\"]}\n");
    let up = volume_up_reply(b"{\"data\":31.25}").unwrap();
    assert_eq!(up, "{\"command\":[\"set_property_string\",\"volume\",\"33.25\"]}\n");
}

#[test]
fn skip_forward_then_backward_restores_the_position() {
    let fwd = skip_forward_reply(b"{\"data\":120.5}").unwrap();
    assert_eq!(fwd, "{\"command\":[\"set_property_string\",\"time-pos\",\"130.5\"]}\n");
    let back = skip_backward_reply(b"{\"data\":130.5}").unwrap();
    assert_eq!(back, "{\"command\":[\"set_property_string\",\"time-pos\",\"120.5\"]}\n");
}

#[test]
fn adjusting_a_non_number_is_a_coercion_error() {
    assert_eq!(volume_up_reply(b"{\"data\":\"loud\"}").unwrap_err(), MpvError::Coercion);
    assert_eq!(skip_forward_reply(b"{\"data\":null}").unwrap_err(), MpvError::Coercion);
}

#[test]
fn adjusting_a_malformed_reply_is_a_protocol_error() {
    assert_eq!(
        volume_up_reply(b"not json").unwrap_err(),
        MpvError::Protocol(ProtocolError::Malformed)
    );
}

#[test]
fn adjusting_out_of_range_is_a_coercion_error() {
    // The largest representable volume cannot go two units higher.
    assert_eq!(
        volume_up_reply(b"{\"data\":9223372036854.775807}").unwrap_err(),
        MpvError::Coercion
    );
}

#[test]
fn set_volume_writes_the_decimal_form() {
    assert_eq!(
        set_volume_command(50),
        "{\"command\":[\"set_property_string\",\"volume\",\"50\"]}\n"
    );
    assert_eq!(
        set_volume_command(-3),
        "{\"command\":[\"set_property_string\",\"volume\",\"-3\"]}\n"
    );
}

#[test]
fn set_subtitle_writes_the_track_id() {
    assert_eq!(
        set_subtitle_command(2),
        "{\"command\":[\"set_property_string\",\"sid\",\"2\"]}\n"
    );
}
