use mpv_remote::error::MpvError;
use mpv_remote::status::{derive_subtitle_title, StatusBuilder};

fn drive(builder: &mut StatusBuilder, replies: &[&[u8]]) {
    let mut i = 0;
    while let Some(query) = builder.next_query() {
        assert!(query.ends_with('\n'), "query is one line");
        assert!(i < replies.len(), "more queries than scripted replies");
        builder.absorb(Ok(replies[i]));
        i += 1;
    }
    assert_eq!(i, replies.len(), "all scripted replies consumed");
}

#[test]
fn full_snapshot_with_subtitle_tracks() {
    let mut b = StatusBuilder::new();
    // pause, volume, time-pos, duration, media-title, filename, sid,
    // track-list/count, then three tracks: audio, sub(id 2, eng, no
    // title), sub(id 3, fre, "Forced").
    let replies: [&[u8]; 17] = [
        b"{\"data\":true}",
        b"{\"data\":50.0}",
        b"{\"data\":120.5}",
        b"{\"data\":3600.0}",
        b"{\"data\":\"Movie\"}",
        b"{\"data\":\"movie.mkv\"}",
        b"{\"data\":2}",
        b"{\"data\":3}",
        b"{\"data\":\"audio\"}",
        b"{\"data\":\"sub\"}",
        b"{\"data\":2}",
        b"{\"data\":\"eng\"}",
        b"{\"data\":null}",
        b"{\"data\":\"sub\"}",
        b"{\"data\":3}",
        b"{\"data\":\"fre\"}",
        b"{\"data\":\"Forced\"}",
    ];
    drive(&mut b, &replies);
    let st = b.finish().unwrap();
    assert!(st.paused);
    assert_eq!(st.volume.micros, 50_000_000);
    assert_eq!(st.position.micros, 120_500_000);
    assert_eq!(st.length.micros, 3_600_000_000);
    assert_eq!(st.title, "Movie");
    assert_eq!(st.file, "movie.mkv");
    assert_eq!(st.active_subtitle, "2");
    // Of the three tracks exactly two are subtitle tracks; they appear
    // in track-list order.
    assert_eq!(st.subtitles.len(), 2);
    assert_eq!(st.subtitles[0].id, 2);
    assert_eq!(st.subtitles[0].title, "eng");
    assert_eq!(st.subtitles[1].id, 3);
    assert_eq!(st.subtitles[1].title, "fre - Forced");
}

#[test]
fn snapshot_queries_come_in_order() {
    let b = StatusBuilder::new();
    let q = b.next_query().unwrap();
    assert_eq!(q, "{\"command\":[\"get_property\",\"pause\"]}\n");
}

#[test]
fn connection_failure_on_first_read_aborts() {
    let mut b = StatusBuilder::new();
    assert!(b.next_query().is_some());
    b.absorb(Err(MpvError::Connection));
    assert!(b.next_query().is_none());
    let r = b.finish();
    assert_eq!(r.unwrap_err(), MpvError::Connection);
}

#[test]
fn later_failures_degrade_to_defaults() {
    let mut b = StatusBuilder::new();
    // pause read fails at the I/O level (not a connection failure):
    // default is paused.
    b.absorb(Err(MpvError::Io));
    // volume reply is malformed: default 0.
    b.absorb(Ok(b"{\"error\":\"oops\"}"));
    // time-pos carries the wrong kind: default 0.
    b.absorb(Ok(b"{\"data\":\"soon\"}"));
    // duration is fine.
    b.absorb(Ok(b"{\"data\":10.5}"));
    // media-title, filename, sid fail: empty strings.
    b.absorb(Err(MpvError::Io));
    b.absorb(Err(MpvError::Io));
    b.absorb(Err(MpvError::Io));
    // track count fails: no tracks.
    b.absorb(Err(MpvError::Io));
    assert!(b.next_query().is_none());
    let st = b.finish().unwrap();
    assert!(st.paused);
    assert_eq!(st.volume.micros, 0);
    assert_eq!(st.position.micros, 0);
    assert_eq!(st.length.micros, 10_500_000);
    assert_eq!(st.title, "");
    assert_eq!(st.file, "");
    assert_eq!(st.active_subtitle, "");
    assert_eq!(st.subtitles.len(), 0);
}

#[test]
fn track_queries_walk_the_list_by_index() {
    let mut b = StatusBuilder::new();
    // The seven scalar reads and the count.
    for reply in [
        b"{\"data\":false}" as &[u8],
        b"{\"data\":10}",
        b"{\"data\":1.0}",
        b"{\"data\":2.0}",
        b"{\"data\":\"t\"}",
        b"{\"data\":\"f\"}",
        b"{\"data\":1}",
        b"{\"data\":2}",
    ] {
        b.absorb(Ok(reply));
    }
    assert_eq!(
        b.next_query().unwrap(),
        "{\"command\":[\"get_property\",\"track-list/0/type\"]}\n"
    );
    b.absorb(Ok(b"{\"data\":\"sub\"}"));
    assert_eq!(
        b.next_query().unwrap(),
        "{\"command\":[\"get_property\",\"track-list/0/id\"]}\n"
    );
    b.absorb(Ok(b"{\"data\":5}"));
    assert_eq!(
        b.next_query().unwrap(),
        "{\"command\":[\"get_property\",\"track-list/0/lang\"]}\n"
    );
    b.absorb(Ok(b"{\"data\":\"ger\"}"));
    assert_eq!(
        b.next_query().unwrap(),
        "{\"command\":[\"get_property\",\"track-list/0/title\"]}\n"
    );
    b.absorb(Ok(b"{\"data\":null}"));
    assert_eq!(
        b.next_query().unwrap(),
        "{\"command\":[\"get_property\",\"track-list/1/type\"]}\n"
    );
}

#[test]
fn sub_track_with_unreadable_id_is_skipped() {
    let mut b = StatusBuilder::new();
    let replies: [&[u8]; 10] = [
        b"{\"data\":false}",
        b"{\"data\":10}",
        b"{\"data\":1.0}",
        b"{\"data\":2.0}",
        b"{\"data\":\"t\"}",
        b"{\"data\":\"f\"}",
        b"{\"data\":1}",
        b"{\"data\":1}",
        b"{\"data\":\"sub\"}",
        b"{\"data\":\"not-a-number\"}",
    ];
    drive(&mut b, &replies);
    let st = b.finish().unwrap();
    assert_eq!(st.subtitles.len(), 0);
}

#[test]
fn subtitle_title_from_language_alone() {
    assert_eq!(derive_subtitle_title("eng", None), "eng");
}

#[test]
fn subtitle_title_joins_language_and_title() {
    assert_eq!(
        derive_subtitle_title("eng", Some("Director commentary")),
        "eng - Director commentary"
    );
}

#[test]
fn subtitle_title_keeps_non_ascii_text() {
    assert_eq!(
        derive_subtitle_title("fran\u{e7}ais", Some("Non censur\u{e9}")),
        "fran\u{e7}ais - Non censur\u{e9}"
    );
}

#[test]
fn subtitle_title_strips_quote_characters() {
    assert_eq!(derive_subtitle_title("e\"ng", Some("A\"B\"")), "eng - AB");
    assert_eq!(derive_subtitle_title("\"\"", None), "");
}

#[test]
fn default_settings_match_the_documented_values() {
    let s = mpv_remote::settings::get_default_settings();
    assert_eq!(s.port, 7920);
    assert_eq!(s.mpv.unwrap().pipe, "/tmp/mpvsocket");
    assert_eq!(s.autohide, Some(true));
    assert_eq!(s.window_size, Some((320, 600)));
}
