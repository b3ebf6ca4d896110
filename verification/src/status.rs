//! The status snapshot and the aggregation that builds it.
//!
//! One snapshot is assembled from an ordered sequence of property reads,
//! one connection each: the playback flags and numbers, the display
//! strings, and then the track list, walked index by index to collect the
//! subtitle tracks. A failed read degrades its own field to a documented
//! default instead of aborting the snapshot; only a connection or timeout
//! failure on the very first read aborts the whole aggregation.

use vstd::prelude::*;
use crate::ascii::push_char;
use crate::codec::{decode_reply, encode_get_property, spec_encode_get};
use crate::error::MpvError;
use crate::fixed::{Fixed, spec_render_int, render_i64};
use crate::value::{PropertyValue, SpecValue, spec_display};

verus! {

/// One subtitle track, as shown to a caller: the player's track
/// identifier and a derived display title.
#[derive(Debug, Clone)]
pub struct Subtitle {
    pub id: i64,
    pub title: String,
}

/// A point-in-time view of the player, never a live binding. Numeric
/// fields are in millionths of a unit.
#[derive(Debug, Clone)]
pub struct Status {
    pub paused: bool,
    pub volume: Fixed,
    pub position: Fixed,
    pub length: Fixed,
    pub title: String,
    pub file: String,
    pub active_subtitle: String,
    pub subtitles: Vec<Subtitle>,
}

/// `s` with every double-quote character removed, order kept.
pub open spec fn spec_strip_quotes(s: Seq<char>) -> Seq<char>
    decreases s.len(),
{
    if s.len() == 0 {
        Seq::empty()
    } else {
        let rest = spec_strip_quotes(s.drop_last());
        if s.last() == '"' {
            rest
        } else {
            rest.push(s.last())
        }
    }
}

/// The derived display title of a subtitle track: the language tag, or
/// `language - title` when the track carries its own title, with any
/// quote characters stripped.
pub open spec fn spec_subtitle_title(lang: Seq<char>, title: Option<Seq<char>>) -> Seq<char> {
    match title {
        Some(t) => spec_strip_quotes(lang + " - "@ + t),
        None => spec_strip_quotes(lang),
    }
}

/// No character of a stripped string is a quote.
pub proof fn lemma_strip_quotes_free(s: Seq<char>)
    ensures
        forall|i: int| 0 <= i < spec_strip_quotes(s).len() ==> #[trigger] spec_strip_quotes(s)[i]
            != '"',
    decreases s.len(),
{
    if s.len() > 0 {
        lemma_strip_quotes_free(s.drop_last());
        let rest = spec_strip_quotes(s.drop_last());
        if s.last() != '"' {
            assert forall|i: int| 0 <= i < rest.push(s.last()).len() implies rest.push(
                s.last(),
            )[i] != '"' by {
                if i < rest.len() {
                    assert(rest.push(s.last())[i] == rest[i]);
                } else {
                    assert(rest.push(s.last())[i] == s.last());
                }
            }
        }
    }
}

/// The derived title of any subtitle track never shows a quote character.
pub proof fn lemma_subtitle_title_quote_free(lang: Seq<char>, title: Option<Seq<char>>)
    ensures
        forall|i: int| 0 <= i < spec_subtitle_title(lang, title).len()
            ==> #[trigger] spec_subtitle_title(lang, title)[i] != '"',
{
    match title {
        Some(t) => lemma_strip_quotes_free(lang + " - "@ + t),
        None => lemma_strip_quotes_free(lang),
    }
}

/// Removes every quote character from `s`, keeping the rest in order.
fn strip_quotes(s: &str) -> (r: String)
    ensures
        r@ == spec_strip_quotes(s@),
{
    let n = s.unicode_len();
    let mut out = String::new();
    let mut i: usize = 0;
    proof {
        assert(s@.take(0) =~= Seq::<char>::empty());
    }
    while i < n
        invariant
            i <= n == s@.len(),
            out@ == spec_strip_quotes(s@.take(i as int)),
        decreases n - i,
    {
        let c = s.get_char(i);
        proof {
            assert(s@.take(i + 1).drop_last() =~= s@.take(i as int));
            assert(s@.take(i + 1).last() == s@[i as int]);
        }
        if c != '"' {
            push_char(&mut out, c);
        }
        i += 1;
    }
    proof {
        assert(s@.take(n as int) =~= s@);
    }
    out
}

/// The mathematical form of a snapshot. Numeric fields are micro counts.
#[verifier::ext_equal]
pub struct SpecStatus {
    pub paused: bool,
    pub volume: int,
    pub position: int,
    pub length: int,
    pub title: Seq<char>,
    pub file: Seq<char>,
    pub active_subtitle: Seq<char>,
    pub subtitles: Seq<(int, Seq<char>)>,
}

impl View for Subtitle {
    type V = (int, Seq<char>);

    open spec fn view(&self) -> (int, Seq<char>) {
        (self.id as int, self.title@)
    }
}

impl View for Status {
    type V = SpecStatus;

    open spec fn view(&self) -> SpecStatus {
        SpecStatus {
            paused: self.paused,
            volume: self.volume.micros as int,
            position: self.position.micros as int,
            length: self.length.micros as int,
            title: self.title@,
            file: self.file@,
            active_subtitle: self.active_subtitle@,
            subtitles: Seq::new(self.subtitles@.len(), |i: int| self.subtitles@[i]@),
        }
    }
}

/// One aggregation step: which property the next read asks for.
#[derive(PartialEq, Eq, Structural, Clone, Copy, Debug)]
pub enum Phase {
    Pause,
    Volume,
    Position,
    Duration,
    MediaTitle,
    Filename,
    Sid,
    TrackCount,
    TrackType,
    TrackId,
    TrackLang,
    TrackTitle,
    Done,
}

/// The record kept of one walked track: nothing for a track that is not a
/// subtitle track (or whose fields could not be read), or the identifier
/// and derived title of a subtitle track.
pub type TrackRecord = Option<(int, Seq<char>)>;

/// The subtitle entries among the walked tracks, in walk order.
pub open spec fn spec_subs_of(tracks: Seq<TrackRecord>) -> Seq<(int, Seq<char>)>
    decreases tracks.len(),
{
    if tracks.len() == 0 {
        Seq::empty()
    } else {
        spec_subs_of(tracks.drop_last()) + match tracks.last() {
            Some(x) => seq![x],
            None => Seq::empty(),
        }
    }
}

/// How many of the walked tracks are subtitle tracks.
pub open spec fn spec_sub_count(tracks: Seq<TrackRecord>) -> nat
    decreases tracks.len(),
{
    if tracks.len() == 0 {
        0
    } else {
        spec_sub_count(tracks.drop_last()) + match tracks.last() {
            Some(x) => 1nat,
            None => 0nat,
        }
    }
}

/// Of a walked track list where exactly `spec_sub_count` entries are
/// subtitle tracks, the collected subtitle list has exactly that length;
/// its entries are those tracks' records in the original walk order.
pub proof fn lemma_subtitle_count(tracks: Seq<TrackRecord>)
    ensures
        spec_subs_of(tracks).len() == spec_sub_count(tracks),
    decreases tracks.len(),
{
    if tracks.len() > 0 {
        lemma_subtitle_count(tracks.drop_last());
    }
}

/// Walking past a track that is not a subtitle track leaves the
/// collected subtitles unchanged.
pub proof fn lemma_subs_of_skip(tracks: Seq<TrackRecord>)
    ensures
        spec_subs_of(tracks.push(None)) == spec_subs_of(tracks),
{
    let t2 = tracks.push(None);
    assert(t2.drop_last() =~= tracks);
    assert(spec_subs_of(t2) =~= spec_subs_of(tracks));
}

/// Walking past a subtitle track appends exactly its record, after every
/// record collected before it: the collected list keeps the walk order.
pub proof fn lemma_subs_of_collect(tracks: Seq<TrackRecord>, rec: (int, Seq<char>))
    ensures
        spec_subs_of(tracks.push(Some(rec))) == spec_subs_of(tracks) + seq![rec],
{
    let t2 = tracks.push(Some(rec));
    assert(t2.drop_last() =~= tracks);
    assert(spec_subs_of(t2) =~= spec_subs_of(tracks) + seq![rec]);
}

/// The mathematical form of the aggregation state.
#[verifier::ext_equal]
pub struct SpecBuilder {
    pub phase: Phase,
    pub status: SpecStatus,
    pub abort: Option<MpvError>,
    pub count: int,
    pub index: int,
    pub cur_id: int,
    pub cur_lang: Seq<char>,
    pub tracks: Seq<TrackRecord>,
}

/// The payload a step actually received: the reply's `data` value when a
/// line arrived and decoded, nothing otherwise.
pub open spec fn spec_step_data(r: Result<Seq<u8>, MpvError>) -> Option<SpecValue> {
    match r {
        Ok(raw) => crate::json::spec_reply_data(raw),
        Err(_) => None,
    }
}

/// The boolean a step yields, with the documented default of `true`.
pub open spec fn spec_bool_or_default(d: Option<SpecValue>) -> bool {
    match d {
        Some(SpecValue::Bool(b)) => b,
        _ => true,
    }
}

/// The number a step yields in millionths, with the documented default of
/// zero.
pub open spec fn spec_num_or_default(d: Option<SpecValue>) -> int {
    match d {
        Some(v) => match crate::control::spec_num_of(v) {
            Some(m) => m,
            None => 0,
        },
        None => 0,
    }
}

/// The display string a step yields, empty when the read failed.
pub open spec fn spec_display_or_default(d: Option<SpecValue>) -> Seq<char> {
    match d {
        Some(v) => spec_display(v),
        None => Seq::empty(),
    }
}

/// The track count a step yields: a non-negative whole number, else zero.
pub open spec fn spec_count_or_default(d: Option<SpecValue>) -> int {
    match d {
        Some(SpecValue::Int(n)) => if 0 <= n <= i64::MAX {
            n
        } else {
            0
        },
        _ => 0,
    }
}

/// The phase and index after one track has been dealt with.
pub open spec fn spec_advanced(b: SpecBuilder) -> (Phase, int) {
    if b.index + 1 < b.count {
        (Phase::TrackType, b.index + 1)
    } else {
        (Phase::Done, b.index + 1)
    }
}

/// One step of the aggregation: what the state becomes when the step in
/// `b.phase` receives `r`. This is the whole algorithm: the seven scalar
/// reads in order, each falling back to its documented default on
/// failure; the track count; and the walk of the track list, collecting
/// an entry for each track whose kind is `sub`. A connection or timeout
/// failure on the very first read aborts the whole aggregation.
pub open spec fn spec_absorb(b: SpecBuilder, r: Result<Seq<u8>, MpvError>) -> SpecBuilder {
    let d = spec_step_data(r);
    match b.phase {
        Phase::Pause => {
            if r == Err::<Seq<u8>, MpvError>(MpvError::Connection) || r == Err::<
                Seq<u8>,
                MpvError,
            >(MpvError::Timeout) {
                SpecBuilder { phase: Phase::Done, abort: Some(r->Err_0), ..b }
            } else {
                SpecBuilder {
                    phase: Phase::Volume,
                    status: SpecStatus { paused: spec_bool_or_default(d), ..b.status },
                    ..b
                }
            }
        },
        Phase::Volume => SpecBuilder {
            phase: Phase::Position,
            status: SpecStatus { volume: spec_num_or_default(d), ..b.status },
            ..b
        },
        Phase::Position => SpecBuilder {
            phase: Phase::Duration,
            status: SpecStatus { position: spec_num_or_default(d), ..b.status },
            ..b
        },
        Phase::Duration => SpecBuilder {
            phase: Phase::MediaTitle,
            status: SpecStatus { length: spec_num_or_default(d), ..b.status },
            ..b
        },
        Phase::MediaTitle => SpecBuilder {
            phase: Phase::Filename,
            status: SpecStatus { title: spec_display_or_default(d), ..b.status },
            ..b
        },
        Phase::Filename => SpecBuilder {
            phase: Phase::Sid,
            status: SpecStatus { file: spec_display_or_default(d), ..b.status },
            ..b
        },
        Phase::Sid => SpecBuilder {
            phase: Phase::TrackCount,
            status: SpecStatus { active_subtitle: spec_display_or_default(d), ..b.status },
            ..b
        },
        Phase::TrackCount => {
            let c = spec_count_or_default(d);
            SpecBuilder {
                phase: if c > 0 {
                    Phase::TrackType
                } else {
                    Phase::Done
                },
                count: c,
                index: 0,
                ..b
            }
        },
        Phase::TrackType => {
            if spec_display_or_default(d) == "sub"@ && d is Some {
                SpecBuilder { phase: Phase::TrackId, ..b }
            } else {
                SpecBuilder {
                    phase: spec_advanced(b).0,
                    index: spec_advanced(b).1,
                    tracks: b.tracks.push(None),
                    ..b
                }
            }
        },
        Phase::TrackId => {
            match d {
                Some(SpecValue::Int(id)) => SpecBuilder {
                    phase: Phase::TrackLang,
                    cur_id: id,
                    ..b
                },
                _ => SpecBuilder {
                    phase: spec_advanced(b).0,
                    index: spec_advanced(b).1,
                    tracks: b.tracks.push(None),
                    ..b
                },
            }
        },
        Phase::TrackLang => SpecBuilder {
            phase: Phase::TrackTitle,
            cur_lang: spec_display_or_default(d),
            ..b
        },
        Phase::TrackTitle => {
            let own_title: Option<Seq<char>> = match d {
                Some(SpecValue::Null) => None,
                Some(v) => Some(spec_display(v)),
                None => None,
            };
            let derived = spec_subtitle_title(b.cur_lang, own_title);
            SpecBuilder {
                phase: spec_advanced(b).0,
                index: spec_advanced(b).1,
                status: SpecStatus {
                    subtitles: b.status.subtitles.push((b.cur_id, derived)),
                    ..b.status
                },
                tracks: b.tracks.push(Some((b.cur_id, derived))),
                ..b
            }
        },
        Phase::Done => b,
    }
}

/// The wire-level view of one step's outcome.
pub open spec fn spec_reply_view(r: Result<&[u8], MpvError>) -> Result<Seq<u8>, MpvError> {
    match r {
        Ok(raw) => Ok(raw@),
        Err(e) => Err(e),
    }
}

/// The payload view of a decoded reply held by the aggregation.
pub open spec fn spec_opt_view(d: &Option<PropertyValue>) -> Option<SpecValue> {
    match d {
        Some(v) => Some(v@),
        None => None,
    }
}

/// The number a decoded payload yields, at the documented default of zero
/// when the read failed or the payload is not a number.
fn num_or_default(d: &Option<PropertyValue>) -> (r: Fixed)
    ensures
        r.micros as int == spec_num_or_default(spec_opt_view(d)),
{
    match d {
        Some(v) => match v.as_num() {
            Ok(f) => f,
            Err(_) => Fixed { micros: 0 },
        },
        None => Fixed { micros: 0 },
    }
}

/// The display string a decoded payload yields, empty when the read
/// failed.
fn display_or_default(d: &Option<PropertyValue>) -> (r: String)
    ensures
        r@ == spec_display_or_default(spec_opt_view(d)),
{
    match d {
        Some(v) => v.to_display_string(),
        None => String::new(),
    }
}

/// The property each phase reads.
pub open spec fn spec_phase_property(phase: Phase, index: int) -> Option<Seq<char>> {
    match phase {
        Phase::Pause => Some("pause"@),
        Phase::Volume => Some("volume"@),
        Phase::Position => Some("time-pos"@),
        Phase::Duration => Some("duration"@),
        Phase::MediaTitle => Some("media-title"@),
        Phase::Filename => Some("filename"@),
        Phase::Sid => Some("sid"@),
        Phase::TrackCount => Some("track-list/count"@),
        Phase::TrackType => Some(
            "track-list/"@ + crate::ascii::chars_of_bytes(spec_render_int(index)) + "/type"@,
        ),
        Phase::TrackId => Some(
            "track-list/"@ + crate::ascii::chars_of_bytes(spec_render_int(index)) + "/id"@,
        ),
        Phase::TrackLang => Some(
            "track-list/"@ + crate::ascii::chars_of_bytes(spec_render_int(index)) + "/lang"@,
        ),
        Phase::TrackTitle => Some(
            "track-list/"@ + crate::ascii::chars_of_bytes(spec_render_int(index)) + "/title"@,
        ),
        Phase::Done => None,
    }
}

/// The running state of one aggregation.
pub struct StatusBuilder {
    pub phase: Phase,
    pub status: Status,
    pub abort: Option<MpvError>,
    pub track_count: i64,
    pub track_index: i64,
    pub cur_id: i64,
    pub cur_lang: String,
    pub tracks: Ghost<Seq<TrackRecord>>,
}

impl View for StatusBuilder {
    type V = SpecBuilder;

    open spec fn view(&self) -> SpecBuilder {
        SpecBuilder {
            phase: self.phase,
            status: self.status@,
            abort: self.abort,
            count: self.track_count as int,
            index: self.track_index as int,
            cur_id: self.cur_id as int,
            cur_lang: self.cur_lang@,
            tracks: self.tracks@,
        }
    }
}

/// The invariant of the aggregation state: the subtitle list corresponds,
/// entry for entry and in order, to the subtitle tracks walked so far; the
/// track cursor stays inside the track list while the walk is under way;
/// an aborted aggregation is complete.
pub open spec fn spec_builder_wf(b: SpecBuilder) -> bool {
    &&& b.status.subtitles == spec_subs_of(b.tracks)
    &&& 0 <= b.count <= i64::MAX
    &&& 0 <= b.index <= i64::MAX
    &&& ((b.phase == Phase::TrackType || b.phase == Phase::TrackId || b.phase == Phase::TrackLang
        || b.phase == Phase::TrackTitle) ==> b.index < b.count)
    &&& (b.abort is Some ==> b.phase == Phase::Done)
}

/// One step keeps the aggregation state well formed.
pub proof fn lemma_absorb_wf(b: SpecBuilder, r: Result<Seq<u8>, MpvError>)
    requires
        spec_builder_wf(b),
    ensures
        spec_builder_wf(spec_absorb(b, r)),
{
    let d = spec_step_data(r);
    match b.phase {
        Phase::TrackType | Phase::TrackId => {
            lemma_subs_of_skip(b.tracks);
        },
        Phase::TrackTitle => {
            let own_title: Option<Seq<char>> = match d {
                Some(SpecValue::Null) => None,
                Some(v) => Some(spec_display(v)),
                None => None,
            };
            let derived = spec_subtitle_title(b.cur_lang, own_title);
            lemma_subs_of_collect(b.tracks, (b.cur_id, derived));
            assert(b.status.subtitles.push((b.cur_id, derived)) =~= spec_subs_of(
                b.tracks.push(Some((b.cur_id, derived))),
            ));
        },
        _ => {},
    }
}

impl StatusBuilder {
    /// See `spec_builder_wf`.
    pub open spec fn wf(&self) -> bool {
        spec_builder_wf(self@)
    }

    /// A fresh aggregation: every field at its documented default, ready
    /// to read `pause` first.
    pub fn new() -> (r: StatusBuilder)
        ensures
            r.wf(),
            r.phase == Phase::Pause,
            r.abort is None,
            r.tracks@ == Seq::<TrackRecord>::empty(),
            r.status@ == (SpecStatus {
                paused: true,
                volume: 0,
                position: 0,
                length: 0,
                title: Seq::<char>::empty(),
                file: Seq::<char>::empty(),
                active_subtitle: Seq::<char>::empty(),
                subtitles: Seq::<(int, Seq<char>)>::empty(),
            }),
    {
        let r = StatusBuilder {
            phase: Phase::Pause,
            status: Status {
                paused: true,
                volume: Fixed { micros: 0 },
                position: Fixed { micros: 0 },
                length: Fixed { micros: 0 },
                title: String::new(),
                file: String::new(),
                active_subtitle: String::new(),
                subtitles: Vec::new(),
            },
            abort: None,
            track_count: 0,
            track_index: 0,
            cur_id: 0,
            cur_lang: String::new(),
            tracks: Ghost(Seq::empty()),
        };
        proof {
            assert(r.status@.subtitles =~= spec_subs_of(r.tracks@));
            assert(r.status@ =~~= (SpecStatus {
                paused: true,
                volume: 0,
                position: 0,
                length: 0,
                title: Seq::<char>::empty(),
                file: Seq::<char>::empty(),
                active_subtitle: Seq::<char>::empty(),
                subtitles: Seq::<(int, Seq<char>)>::empty(),
            }));
        }
        r
    }

    /// The `get_property` line for the next read, or nothing when the
    /// aggregation is complete.
    pub fn next_query(&self) -> (r: Option<String>)
        ensures
            r is Some <==> self.phase != Phase::Done,
            r matches Some(q) ==> q@ == spec_encode_get(
                spec_phase_property(self.phase, self.track_index as int)->Some_0,
            ),
    {
        match self.phase {
            Phase::Pause => Some(encode_get_property("pause")),
            Phase::Volume => Some(encode_get_property("volume")),
            Phase::Position => Some(encode_get_property("time-pos")),
            Phase::Duration => Some(encode_get_property("duration")),
            Phase::MediaTitle => Some(encode_get_property("media-title")),
            Phase::Filename => Some(encode_get_property("filename")),
            Phase::Sid => Some(encode_get_property("sid")),
            Phase::TrackCount => Some(encode_get_property("track-list/count")),
            Phase::TrackType => Some(self.track_query("/type")),
            Phase::TrackId => Some(self.track_query("/id")),
            Phase::TrackLang => Some(self.track_query("/lang")),
            Phase::TrackTitle => Some(self.track_query("/title")),
            Phase::Done => None,
        }
    }

    /// Feeds one step its outcome: the raw reply line, or the error that
    /// kept a line from arriving. The state advances exactly as
    /// `spec_absorb` says.
    pub fn absorb(&mut self, reply: Result<&[u8], MpvError>)
        requires
            old(self).wf(),
            old(self).phase != Phase::Done,
        ensures
            final(self)@ == spec_absorb(old(self)@, spec_reply_view(reply)),
            final(self).wf(),
    {
        let ghost rv = spec_reply_view(reply);
        let d: Option<PropertyValue> = match reply {
            Ok(raw) => match decode_reply(raw) {
                Ok(v) => Some(v),
                Err(_) => None,
            },
            Err(_) => None,
        };
        proof {
            assert(spec_opt_view(&d) == spec_step_data(rv));
        }
        match self.phase {
            Phase::Pause => {
                match reply {
                    Err(MpvError::Connection) => {
                        self.abort = Some(MpvError::Connection);
                        self.phase = Phase::Done;
                    },
                    Err(MpvError::Timeout) => {
                        self.abort = Some(MpvError::Timeout);
                        self.phase = Phase::Done;
                    },
                    _ => {
                        self.status.paused = match &d {
                            Some(PropertyValue::Bool(b)) => *b,
                            _ => true,
                        };
                        self.phase = Phase::Volume;
                    },
                }
            },
            Phase::Volume => {
                self.status.volume = num_or_default(&d);
                self.phase = Phase::Position;
            },
            Phase::Position => {
                self.status.position = num_or_default(&d);
                self.phase = Phase::Duration;
            },
            Phase::Duration => {
                self.status.length = num_or_default(&d);
                self.phase = Phase::MediaTitle;
            },
            Phase::MediaTitle => {
                self.status.title = display_or_default(&d);
                self.phase = Phase::Filename;
            },
            Phase::Filename => {
                self.status.file = display_or_default(&d);
                self.phase = Phase::Sid;
            },
            Phase::Sid => {
                self.status.active_subtitle = display_or_default(&d);
                self.phase = Phase::TrackCount;
            },
            Phase::TrackCount => {
                let c: i64 = match &d {
                    Some(v) => match v.as_i64() {
                        Ok(n) => if n >= 0 {
                            n
                        } else {
                            0
                        },
                        Err(_) => 0,
                    },
                    None => 0,
                };
                self.track_count = c;
                self.track_index = 0;
                self.phase = if c > 0 {
                    Phase::TrackType
                } else {
                    Phase::Done
                };
            },
            Phase::TrackType => {
                let disp = display_or_default(&d);
                let sub_marker = String::from_str("sub");
                let is_sub = match &d {
                    Some(_) => disp.eq(&sub_marker),
                    None => false,
                };
                if is_sub {
                    self.phase = Phase::TrackId;
                } else {
                    self.tracks = Ghost(self.tracks@.push(None));
                    self.track_index = self.track_index + 1;
                    self.phase = if self.track_index < self.track_count {
                        Phase::TrackType
                    } else {
                        Phase::Done
                    };
                }
            },
            Phase::TrackId => {
                match &d {
                    Some(PropertyValue::Int(id)) => {
                        self.cur_id = *id;
                        self.phase = Phase::TrackLang;
                    },
                    _ => {
                        self.tracks = Ghost(self.tracks@.push(None));
                        self.track_index = self.track_index + 1;
                        self.phase = if self.track_index < self.track_count {
                            Phase::TrackType
                        } else {
                            Phase::Done
                        };
                    },
                }
            },
            Phase::TrackLang => {
                self.cur_lang = display_or_default(&d);
                self.phase = Phase::TrackTitle;
            },
            Phase::TrackTitle => {
                let own: Option<String> = match &d {
                    Some(PropertyValue::Null) => None,
                    Some(v) => Some(v.to_display_string()),
                    None => None,
                };
                let derived = derive_subtitle_title(
                    self.cur_lang.as_str(),
                    match &own {
                        Some(t) => Some(t.as_str()),
                        None => None,
                    },
                );
                let ghost rec = (self.cur_id as int, derived@);
                self.status.subtitles.push(Subtitle { id: self.cur_id, title: derived });
                self.tracks = Ghost(self.tracks@.push(Some(rec)));
                self.track_index = self.track_index + 1;
                self.phase = if self.track_index < self.track_count {
                    Phase::TrackType
                } else {
                    Phase::Done
                };
                proof {
                    assert(self.status@.subtitles =~= old(self).status@.subtitles.push(rec));
                }
            },
            Phase::Done => {},
        }
        proof {
            assert(self@ =~~= spec_absorb(old(self)@, rv));
            lemma_absorb_wf(old(self)@, rv);
        }
    }

    /// The finished snapshot, or the single error that aborted the whole
    /// aggregation on its first read.
    pub fn finish(self) -> (r: Result<Status, MpvError>)
        requires
            self.wf(),
            self.phase == Phase::Done,
        ensures
            r is Ok <==> self.abort is None,
            r matches Ok(st) ==> st@ == self@.status,
            r matches Err(e) ==> self.abort == Some(e),
    {
        match self.abort {
            Some(e) => Err(e),
            None => Ok(self.status),
        }
    }

    /// The `get_property` line for one field of the track under the
    /// cursor.
    fn track_query(&self, suffix: &str) -> (r: String)
        ensures
            r@ == spec_encode_get(
                "track-list/"@ + crate::ascii::chars_of_bytes(
                    spec_render_int(self.track_index as int),
                ) + suffix@,
            ),
    {
        let digits = render_i64(self.track_index);
        let digits_str = crate::ascii::string_from_ascii(&digits);
        let mut name = String::from_str("track-list/");
        name.append(digits_str.as_str());
        name.append(suffix);
        encode_get_property(name.as_str())
    }
}

/// Derives the display title of a subtitle track from its language tag
/// and its own title, if it has one.
pub fn derive_subtitle_title(lang: &str, title: Option<&str>) -> (r: String)
    ensures
        r@ == spec_subtitle_title(
            lang@,
            match title {
                Some(t) => Some(t@),
                None => None,
            },
        ),
{
    match title {
        Some(t) => {
            let mut joined = String::new();
            joined.append(lang);
            joined.append(" - ");
            joined.append(t);
            strip_quotes(joined.as_str())
        },
        None => strip_quotes(lang),
    }
}

} // verus!
