//! Playout schedules: what a channel shows when.

use vstd::prelude::*;

use crate::clock::{from_unix_timestamp, parse_iso8601, Duration, OffsetDateTime};
use crate::error::PlayoutError;
use crate::frame::Percent;
use crate::text::{
    clone_option, clone_strings, from_chars, parse_i64, same_option, same_strings, split_chars,
    to_chars,
};

verus! {

broadcast use vstd::string::group_string_axioms;

/// A playout schedule for a single time window.
///
/// Files should be named `{start}_{finish}.json` using compact ISO 8601
/// (no separators), e.g. `20260413T000000.000000000-0500_20260414T002131.620000000-0500.json`,
/// so that the channel can locate the correct file for the current time.
#[derive(Debug)]
pub struct Playout {
    /// URI identifying the schema version, e.g. "https://ersatztv.org/playout/version/0.0.1"
    pub version: String,
    pub items: Vec<PlayoutItem>,
}

impl Playout {
    /// A schedule of these items under the current schema version.
    pub fn new(items: Vec<PlayoutItem>) -> (r: Self)
        ensures
            r.version@ == "https://ersatztv.org/playout/version/0.0.1"@,
            r.items == items,
    {
        Playout { version: "https://ersatztv.org/playout/version/0.0.1".to_owned(), items }
    }
}

/// One item of a schedule.
#[derive(Debug)]
pub struct PlayoutItem {
    pub id: String,
    pub start: OffsetDateTime,
    pub finish: OffsetDateTime,
    pub source: Option<PlayoutItemSource>,
    pub tracks: Option<PlayoutItemTracks>,
    pub watermark: Option<Watermark>,
}

/// The milliseconds of an optional span, cut to 64 bits.
pub open spec fn optional_millis(d: Option<Duration>) -> Option<u64> {
    match d {
        Some(d) => Some(crate::clock::wrap_u64(d.secs * 1000 + d.nanos / 1_000_000)),
        None => None,
    }
}

impl PlayoutItem {
    /// The moments of the item are in range.
    pub open spec fn wf(&self) -> bool {
        self.start.wf() && self.finish.wf()
    }

    /// An item that plays a local file. It always succeeds.
    pub fn new(
        id: String,
        start: OffsetDateTime,
        finish: OffsetDateTime,
        in_point: Option<Duration>,
        out_point: Option<Duration>,
        path: &str,
    ) -> (r: Result<PlayoutItem, PlayoutError>)
        ensures
            r matches Ok(item) && {
                &&& item.id == id
                &&& item.start == start
                &&& item.finish == finish
                &&& item.source matches Some(source) && source@ == (SourceView::Local {
                    path: path@,
                    in_point_ms: optional_millis(in_point),
                    out_point_ms: optional_millis(out_point),
                })
                &&& item.tracks is None
                &&& item.watermark is None
            },
    {
        let in_point_ms = match in_point {
            Some(d) => Some(d.as_millis_u64()),
            None => None,
        };
        let out_point_ms = match out_point {
            Some(d) => Some(d.as_millis_u64()),
            None => None,
        };
        Ok(
            PlayoutItem {
                id,
                start,
                finish,
                source: Some(
                    PlayoutItemSource::Local { path: path.to_owned(), in_point_ms, out_point_ms },
                ),
                tracks: None,
                watermark: None,
            },
        )
    }

    /// When the item ends.
    pub fn finish(&self) -> (r: OffsetDateTime)
        ensures
            r == self.finish,
    {
        self.finish
    }
}

/// Which streams of an item to use.
#[derive(Debug)]
pub struct PlayoutItemTracks {
    pub audio: Option<TrackSelection>,
    pub video: Option<TrackSelection>,
    pub subtitle: Option<TrackSelection>,
}

/// A source of its own for a track, a stream in the source, or both.
#[derive(Debug)]
pub struct TrackSelection {
    pub source: Option<PlayoutItemSource>,
    pub stream_index: Option<u32>,
}

/// A picture laid over the item.
#[derive(Debug)]
pub struct Watermark {
    pub source: PlayoutItemSource,
    pub stream_index: Option<u32>,
    pub location: WatermarkLocation,
    /// Scale to this percent of primary content width (0–100).
    /// Omitted = actual size.
    pub width_percent: Option<Percent>,
    /// When `true`, position margins are measured from the edges of the source
    /// content rather than the padded output frame, so letterbox/pillarbox bars
    /// push the watermark inward and keep it inside the visible content. When
    /// `false`, margins are relative to the full padded frame, so a 0% margin
    /// can land inside the bars. Has no effect when the primary content fills
    /// the output (crop/stretch). Omitted = `false`.
    pub within_source_content: Option<bool>,
    /// Horizontal offset from `location`, as percent of primary content width (0–100).
    /// Omitted = 0.
    pub horizontal_margin_percent: Option<Percent>,
    /// Vertical offset from `location`, as percent of primary content height (0–100).
    /// Omitted = 0.
    pub vertical_margin_percent: Option<Percent>,
    /// Opacity as a percent (0–100). Omitted = fully opaque (100).
    pub opacity_percent: Option<Percent>,
    pub timing: Option<WatermarkTiming>,
}

/// Where in the picture a watermark stands.
#[derive(Debug, Clone, Copy, PartialEq, Eq, Structural)]
pub enum WatermarkLocation {
    TopLeft,
    TopCenter,
    TopRight,
    CenterLeft,
    Center,
    CenterRight,
    BottomLeft,
    BottomCenter,
    BottomRight,
}

/// When a watermark is shown.
#[derive(Debug, Clone, Copy, PartialEq, Eq, Structural)]
pub enum WatermarkTiming {
    Periodic {
        clock: PeriodicClock,
        frequency_ms: u64,
        phase_offset_ms: Option<u64>,
        disable_after_ms: Option<u64>,
        fade_ms: Option<u64>,
        hold_ms: u64,
    },
}

/// The clock by which a watermark comes and goes.
#[derive(Debug, Clone, Copy, PartialEq, Eq, Structural)]
pub enum PeriodicClock {
    Wall,
    Content,
}

/// Where the content of an item comes from.
#[derive(Debug)]
pub enum PlayoutItemSource {
    Local { path: String, in_point_ms: Option<u64>, out_point_ms: Option<u64> },
    Lavfi { params: String },
    Http {
        /// URI template, e.g. "https://example.com/file.mkv?token={{MY_SECRET}}"
        uri: String,
        in_point_ms: Option<u64>,
        out_point_ms: Option<u64>,
        /// Custom HTTP headers, e.g. ["Authorization: Bearer {{TOKEN}}"]
        headers: Option<Vec<String>>,
        /// Custom user-agent string
        user_agent: Option<String>,
        /// Socket timeout in microseconds
        timeout_us: Option<u64>,
        /// Enable reconnect on failure (default: true)
        reconnect: Option<bool>,
        /// Max reconnect delay in seconds
        /// Maps directly to the reconnect_delay_max ffmpeg option
        reconnect_delay_max: Option<u32>,
        /// Enable persistent connections in ffmpeg (default: false)
        keep_alive: Option<bool>,
    },
    Rtmp { uri: String, timeout_us: Option<u64> },
    Rtsp { uri: String, timeout_us: Option<u64> },
    Script {
        /// Command that writes an MPEG-TS stream to its stdout
        command: String,
        /// Optional arguments for the command
        args: Vec<String>,
        /// Whether the content is live and therefore cannot work ahead (default: false)
        is_live: Option<bool>,
    },
}

/// A source with its texts as sequences of characters.
pub enum SourceView {
    Local { path: Seq<char>, in_point_ms: Option<u64>, out_point_ms: Option<u64> },
    Lavfi { params: Seq<char> },
    Http {
        uri: Seq<char>,
        in_point_ms: Option<u64>,
        out_point_ms: Option<u64>,
        headers: Option<Seq<Seq<char>>>,
        user_agent: Option<Seq<char>>,
        timeout_us: Option<u64>,
        reconnect: Option<bool>,
        reconnect_delay_max: Option<u32>,
        keep_alive: Option<bool>,
    },
    Rtmp { uri: Seq<char>, timeout_us: Option<u64> },
    Rtsp { uri: Seq<char>, timeout_us: Option<u64> },
    Script { command: Seq<char>, args: Seq<Seq<char>>, is_live: Option<bool> },
}

/// The view of an optional list of strings.
pub open spec fn optional_strings(o: Option<Vec<String>>) -> Option<Seq<Seq<char>>> {
    match o {
        Some(v) => Some(crate::text::strings_view(v@)),
        None => None,
    }
}

/// The view of an optional source.
pub open spec fn optional_source(o: Option<PlayoutItemSource>) -> Option<SourceView> {
    match o {
        Some(s) => Some(s@),
        None => None,
    }
}

impl View for PlayoutItemSource {
    type V = SourceView;

    open spec fn view(&self) -> SourceView {
        match *self {
            PlayoutItemSource::Local { path, in_point_ms, out_point_ms } => SourceView::Local {
                path: path@,
                in_point_ms,
                out_point_ms,
            },
            PlayoutItemSource::Lavfi { params } => SourceView::Lavfi { params: params@ },
            PlayoutItemSource::Http {
                uri,
                in_point_ms,
                out_point_ms,
                headers,
                user_agent,
                timeout_us,
                reconnect,
                reconnect_delay_max,
                keep_alive,
            } => SourceView::Http {
                uri: uri@,
                in_point_ms,
                out_point_ms,
                headers: optional_strings(headers),
                user_agent: crate::text::option_view(user_agent),
                timeout_us,
                reconnect,
                reconnect_delay_max,
                keep_alive,
            },
            PlayoutItemSource::Rtmp { uri, timeout_us } => SourceView::Rtmp {
                uri: uri@,
                timeout_us,
            },
            PlayoutItemSource::Rtsp { uri, timeout_us } => SourceView::Rtsp {
                uri: uri@,
                timeout_us,
            },
            PlayoutItemSource::Script { command, args, is_live } => SourceView::Script {
                command: command@,
                args: crate::text::strings_view(args@),
                is_live,
            },
        }
    }
}

/// A copy of an optional list of strings.
fn clone_optional_strings(o: &Option<Vec<String>>) -> (r: Option<Vec<String>>)
    ensures
        optional_strings(r) == optional_strings(*o),
{
    match o {
        Some(v) => Some(clone_strings(v)),
        None => None,
    }
}

/// Whether two optional lists of strings are equal.
fn same_optional_strings(a: &Option<Vec<String>>, b: &Option<Vec<String>>) -> (r: bool)
    ensures
        r == (optional_strings(*a) == optional_strings(*b)),
{
    match (a, b) {
        (Some(x), Some(y)) => same_strings(x, y),
        (None, None) => true,
        _ => false,
    }
}

impl Clone for PlayoutItemSource {
    fn clone(&self) -> (r: Self)
        ensures
            r@ == self@,
    {
        match self {
            PlayoutItemSource::Local { path, in_point_ms, out_point_ms } => {
                PlayoutItemSource::Local {
                    path: path.clone(),
                    in_point_ms: *in_point_ms,
                    out_point_ms: *out_point_ms,
                }
            },
            PlayoutItemSource::Lavfi { params } => PlayoutItemSource::Lavfi {
                params: params.clone(),
            },
            PlayoutItemSource::Http {
                uri,
                in_point_ms,
                out_point_ms,
                headers,
                user_agent,
                timeout_us,
                reconnect,
                reconnect_delay_max,
                keep_alive,
            } => PlayoutItemSource::Http {
                uri: uri.clone(),
                in_point_ms: *in_point_ms,
                out_point_ms: *out_point_ms,
                headers: clone_optional_strings(headers),
                user_agent: clone_option(user_agent),
                timeout_us: *timeout_us,
                reconnect: *reconnect,
                reconnect_delay_max: *reconnect_delay_max,
                keep_alive: *keep_alive,
            },
            PlayoutItemSource::Rtmp { uri, timeout_us } => PlayoutItemSource::Rtmp {
                uri: uri.clone(),
                timeout_us: *timeout_us,
            },
            PlayoutItemSource::Rtsp { uri, timeout_us } => PlayoutItemSource::Rtsp {
                uri: uri.clone(),
                timeout_us: *timeout_us,
            },
            PlayoutItemSource::Script { command, args, is_live } => PlayoutItemSource::Script {
                command: command.clone(),
                args: clone_strings(args),
                is_live: *is_live,
            },
        }
    }
}

/// Two sources are equal when all their fields are.
impl PartialEq for PlayoutItemSource {
    fn eq(&self, other: &Self) -> (r: bool) {
        match (self, other) {
            (
                PlayoutItemSource::Local { path: p, in_point_ms: i, out_point_ms: o },
                PlayoutItemSource::Local { path: p2, in_point_ms: i2, out_point_ms: o2 },
            ) => *p == *p2 && *i == *i2 && *o == *o2,
            (
                PlayoutItemSource::Lavfi { params: p },
                PlayoutItemSource::Lavfi { params: p2 },
            ) => *p == *p2,
            (
                PlayoutItemSource::Http {
                    uri: u,
                    in_point_ms: i,
                    out_point_ms: o,
                    headers: h,
                    user_agent: a,
                    timeout_us: t,
                    reconnect: r,
                    reconnect_delay_max: d,
                    keep_alive: k,
                },
                PlayoutItemSource::Http {
                    uri: u2,
                    in_point_ms: i2,
                    out_point_ms: o2,
                    headers: h2,
                    user_agent: a2,
                    timeout_us: t2,
                    reconnect: r2,
                    reconnect_delay_max: d2,
                    keep_alive: k2,
                },
            ) => *u == *u2 && *i == *i2 && *o == *o2 && same_optional_strings(h, h2)
                && same_option(a, a2) && *t == *t2 && *r == *r2 && *d == *d2 && *k == *k2,
            (
                PlayoutItemSource::Rtmp { uri: u, timeout_us: t },
                PlayoutItemSource::Rtmp { uri: u2, timeout_us: t2 },
            ) => *u == *u2 && *t == *t2,
            (
                PlayoutItemSource::Rtsp { uri: u, timeout_us: t },
                PlayoutItemSource::Rtsp { uri: u2, timeout_us: t2 },
            ) => *u == *u2 && *t == *t2,
            (
                PlayoutItemSource::Script { command: c, args: a, is_live: l },
                PlayoutItemSource::Script { command: c2, args: a2, is_live: l2 },
            ) => *c == *c2 && same_strings(a, a2) && *l == *l2,
            _ => false,
        }
    }
}

impl vstd::std_specs::cmp::PartialEqSpecImpl for PlayoutItemSource {
    open spec fn obeys_eq_spec() -> bool {
        true
    }

    open spec fn eq_spec(&self, other: &Self) -> bool {
        self@ == other@
    }
}

/// A schedule that was read from a file.
#[derive(Debug)]
pub struct PlayoutLoadResult {
    pub playout: Playout,
}

/// The moment that seconds or milliseconds from 1970-01-01 denote: a text of more than ten
/// characters counts milliseconds.
pub open spec fn unix_reading(text: Seq<char>) -> Option<OffsetDateTime> {
    match crate::text::parsed_i64(text) {
        Some(n) => crate::clock::unix_moment(
            if text.len() > 10 {
                if n >= 0 {
                    n as int / 1000
                } else {
                    -((-n) / 1000)
                }
            } else {
                n as int
            },
        ),
        None => None,
    }
}

/// Reads seconds or milliseconds from 1970-01-01.
pub fn parse_unix_timestamp(timestamp: &str) -> (r: Option<OffsetDateTime>)
    ensures
        r == unix_reading(timestamp@),
{
    let chars = to_chars(timestamp);
    match parse_i64(&chars) {
        Some(n) => {
            let seconds: i64 = if chars.len() > 10 {
                if n >= 0 {
                    n / 1000
                } else {
                    (-(((-(n as i128)) as u128 / 1000) as i128)) as i64
                }
            } else {
                n
            };
            from_unix_timestamp(seconds)
        },
        None => None,
    }
}

/// The moment that one half of a file name denotes, given how it reads as ISO 8601: that
/// reading, or the Unix timestamp where there is none.
pub open spec fn stem_moment(iso: Option<OffsetDateTime>, text: Seq<char>) -> Option<
    OffsetDateTime,
> {
    match iso {
        Some(t) => Some(t),
        None => unix_reading(text),
    }
}

/// The moment that one half of a file name denotes, given how it reads as ISO 8601.
pub fn parse_stem_moment(iso: Option<OffsetDateTime>, text: &str) -> (r: Option<OffsetDateTime>)
    ensures
        r == stem_moment(iso, text@),
{
    match iso {
        Some(t) => Some(t),
        None => parse_unix_timestamp(text),
    }
}

/// How a text reads as ISO 8601.
pub open spec fn iso_moment(text: Seq<char>) -> Option<OffsetDateTime> {
    match crate::clock::iso8601_reading(text) {
        Some((unix_nanos, offset_seconds)) => Some(OffsetDateTime { unix_nanos, offset_seconds }),
        None => None,
    }
}

/// The window that a file name denotes: two moments with one underscore between them.
pub open spec fn filename_window(file_stem: Seq<char>) -> Option<(OffsetDateTime, OffsetDateTime)> {
    let halves = crate::text::split(file_stem, '_');
    if halves.len() == 2 {
        match (
            stem_moment(iso_moment(halves[0]), halves[0]),
            stem_moment(iso_moment(halves[1]), halves[1]),
        ) {
            (Some(start), Some(finish)) => Some((start, finish)),
            _ => None,
        }
    } else {
        None
    }
}

/// The window that the name of a playout file denotes.
pub fn parse_playout_filename(file_stem: &str) -> (r: Option<(OffsetDateTime, OffsetDateTime)>)
    ensures
        r == filename_window(file_stem@),
{
    let chars = to_chars(file_stem);
    let halves = split_chars(&chars, '_');
    let ghost views = crate::text::chars_view(halves@);
    assert(views.len() == halves@.len());
    if halves.len() == 2 {
        assert(views[0] == halves@[0]@ && views[1] == halves@[1]@);
        let first = from_chars(&halves[0]);
        let second = from_chars(&halves[1]);
        let start = parse_stem_moment(parse_iso8601(&first), &first);
        let finish = parse_stem_moment(parse_iso8601(&second), &second);
        return match (start, finish) {
            (Some(start), Some(finish)) => Some((start, finish)),
            _ => None,
        };
    }
    None
}

/// A name made of two texts without underscores and an underscore between them denotes the
/// window from the moment of the first to the moment of the second, and only if both
/// denote moments.
pub proof fn law_filename_joins_moments(start: Seq<char>, finish: Seq<char>)
    requires
        !start.contains('_'),
        !finish.contains('_'),
    ensures
        filename_window(start.push('_') + finish) == match (
            stem_moment(iso_moment(start), start),
            stem_moment(iso_moment(finish), finish),
        ) {
            (Some(s), Some(f)) => Some((s, f)),
            _ => None,
        },
{
    crate::text::law_split_joined(start, finish, '_');
    crate::text::law_split_whole(start, '_');
    crate::text::law_split_whole(finish, '_');
    let halves = crate::text::split(start.push('_') + finish, '_');
    assert(halves =~= seq![start, finish]);
}

/// A name without an underscore, or with more than one, denotes no window.
pub proof fn law_filename_needs_one_underscore(file_stem: Seq<char>)
    requires
        crate::text::split(file_stem, '_').len() != 2,
    ensures
        filename_window(file_stem) is None,
{
}

/// Seconds and the milliseconds within that second denote the same moment.
pub proof fn law_seconds_and_millis_agree(seconds: Seq<char>, millis: Seq<char>)
    requires
        seconds.len() <= 10,
        millis.len() > 10,
        crate::text::parsed_i64(seconds) matches Some(s) && crate::text::parsed_i64(
            millis,
        ) matches Some(m) && 0 <= s && s * 1000 <= m < s * 1000 + 1000,
    ensures
        unix_reading(seconds) == unix_reading(millis),
{
}

/// Two sources have the same view exactly where they are of the same kind and agree in every
/// text, number and flag.
pub proof fn law_views_tell_sources_apart(a: PlayoutItemSource, b: PlayoutItemSource)
    ensures
        a@ == b@ <==> match (a, b) {
            (
                PlayoutItemSource::Local { path: p, in_point_ms: i, out_point_ms: o },
                PlayoutItemSource::Local { path, in_point_ms, out_point_ms },
            ) => p@ == path@ && i == in_point_ms && o == out_point_ms,
            (
                PlayoutItemSource::Lavfi { params: p },
                PlayoutItemSource::Lavfi { params },
            ) => p@ == params@,
            (
                PlayoutItemSource::Http {
                    uri: u,
                    in_point_ms: i,
                    out_point_ms: o,
                    headers: h,
                    user_agent: a,
                    timeout_us: t,
                    reconnect: r,
                    reconnect_delay_max: d,
                    keep_alive: k,
                },
                PlayoutItemSource::Http {
                    uri,
                    in_point_ms,
                    out_point_ms,
                    headers,
                    user_agent,
                    timeout_us,
                    reconnect,
                    reconnect_delay_max,
                    keep_alive,
                },
            ) => {
                &&& u@ == uri@
                &&& i == in_point_ms
                &&& o == out_point_ms
                &&& match (h, headers) {
                    (Some(x), Some(y)) => x@.len() == y@.len() && forall|n: int|
                        0 <= n < x@.len() ==> (#[trigger] x@[n])@ == y@[n]@,
                    (None, None) => true,
                    _ => false,
                }
                &&& match (a, user_agent) {
                    (Some(x), Some(y)) => x@ == y@,
                    (None, None) => true,
                    _ => false,
                }
                &&& t == timeout_us
                &&& r == reconnect
                &&& d == reconnect_delay_max
                &&& k == keep_alive
            },
            (
                PlayoutItemSource::Rtmp { uri: u, timeout_us: t },
                PlayoutItemSource::Rtmp { uri, timeout_us },
            ) => u@ == uri@ && t == timeout_us,
            (
                PlayoutItemSource::Rtsp { uri: u, timeout_us: t },
                PlayoutItemSource::Rtsp { uri, timeout_us },
            ) => u@ == uri@ && t == timeout_us,
            (
                PlayoutItemSource::Script { command: c, args: g, is_live: l },
                PlayoutItemSource::Script { command, args, is_live },
            ) => c@ == command@ && l == is_live && g@.len() == args@.len() && forall|n: int|
                0 <= n < g@.len() ==> (#[trigger] g@[n])@ == args@[n]@,
            _ => false,
        },
{
    match (a, b) {
        (
            PlayoutItemSource::Http { headers: Some(x), .. },
            PlayoutItemSource::Http { headers: Some(y), .. },
        ) => lemma_equal_lists(x@, y@),
        (
            PlayoutItemSource::Script { args: x, .. },
            PlayoutItemSource::Script { args: y, .. },
        ) => lemma_equal_lists(x@, y@),
        _ => {},
    }
}

/// Two lists of strings have the same views exactly where they hold the same texts.
proof fn lemma_equal_lists(x: Seq<String>, y: Seq<String>)
    ensures
        crate::text::strings_view(x) == crate::text::strings_view(y) <==> x.len() == y.len()
            && forall|n: int| 0 <= n < x.len() ==> (#[trigger] x[n])@ == y[n]@,
{
    let (s, t) = (crate::text::strings_view(x), crate::text::strings_view(y));
    if s == t {
        assert(s.len() == t.len());
        assert forall|n: int| 0 <= n < x.len() implies (#[trigger] x[n])@ == y[n]@ by {
            assert(s[n] == t[n]);
        }
    }
    if x.len() == y.len() && forall|n: int| 0 <= n < x.len() ==> (#[trigger] x[n])@ == y[n]@ {
        assert(s =~= t);
    }
}

/// Up to ten characters count seconds and more of them milliseconds, which are cut off
/// towards zero; the moment is in UTC, and there is one for every number whose year is in
/// range.
pub proof fn law_unix_timestamps_count(text: Seq<char>)
    ensures
        match (crate::text::parsed_i64(text), unix_reading(text)) {
            (None, t) => t is None,
            (Some(n), Some(t)) => {
                &&& t.offset_seconds == 0
                &&& t.wf()
                &&& t.unix_nanos % 1_000_000_000 == 0
                &&& text.len() <= 10 ==> t.unix_nanos == n * 1_000_000_000
                &&& text.len() > 10 && n >= 0 ==> 0 <= n * 1_000_000 - t.unix_nanos
                    < 1_000_000_000
                &&& text.len() > 10 && n <= 0 ==> 0 <= t.unix_nanos - n * 1_000_000
                    < 1_000_000_000
            },
            (Some(n), None) => {
                &&& text.len() <= 10 ==> n < -377_705_116_800 || n > 253_402_300_799
                &&& text.len() > 10 ==> n <= -377_705_116_801_000 || n >= 253_402_300_800_000
            },
        },
{
}

/// What reads as ISO 8601 is never taken for a Unix timestamp, and what does not always is.
pub proof fn law_iso_goes_first(t: OffsetDateTime, text: Seq<char>)
    ensures
        stem_moment(Some(t), text) == Some(t),
        stem_moment(None, text) == unix_reading(text),
        iso_moment(text) matches Some(m) ==> crate::clock::iso8601_reading(text) == Some(
            (m.unix_nanos, m.offset_seconds),
        ),
        iso_moment(text) is None ==> crate::clock::iso8601_reading(text) is None,
{
}

/// The milliseconds of a span are the whole ones in it, where they fit in 64 bits.
pub proof fn law_optional_milliseconds(d: Duration)
    requires
        d.wf(),
    ensures
        optional_millis(None) is None,
        optional_millis(Some(d)) is Some,
        d.secs * 1000 + 999 <= u64::MAX ==> 0 <= d.secs * 1_000_000_000 + d.nanos
            - optional_millis(Some(d))->0 * 1_000_000 < 1_000_000,
{
}

/// Two sources are compared as equal exactly where they have the same view.
pub proof fn law_equality_of_sources(a: PlayoutItemSource, b: PlayoutItemSource)
    ensures
        vstd::std_specs::cmp::PartialEqSpec::eq_spec(&a, &b) <==> a@ == b@,
{
}

} // verus!
