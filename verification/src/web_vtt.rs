//! WebVTT subtitles: reading cues and writing timestamps.
//!
//! The seconds of a timestamp are a decimal fraction that this library does not read
//! itself. A parser asks its caller for the value of each text of seconds that it meets.

use vstd::prelude::*;

use crate::clock::Duration;
use crate::error::FFPipelineError;
use crate::input::{extend_args, push_arg, ArgVec, FfmpegInputArgs, InputSource, ProbedInput};
use crate::probe::{CodecType, ProbeResultStream, ProbeResultVideoStream};
use crate::text::{
    clone_chars, decimal_string, find, from_chars, has_prefix, parse_u64, split_chars, split_lines,
    to_chars, trimmed, zero_padded_string,
};

verus! {

broadcast use vstd::string::group_string_axioms;

/// A subtitle and when it is shown.
pub struct Cue {
    pub start: Duration,
    pub end: Duration,
    pub text: String,
}

/// A cue with its text as a sequence of characters.
pub struct CueView {
    pub start: Duration,
    pub end: Duration,
    pub text: Seq<char>,
}

impl View for Cue {
    type V = CueView;

    open spec fn view(&self) -> CueView {
        CueView { start: self.start, end: self.end, text: self.text@ }
    }
}

impl Clone for Cue {
    fn clone(&self) -> (r: Self)
        ensures
            r@ == self@,
    {
        Cue { start: self.start, end: self.end, text: self.text.clone() }
    }
}

/// The views of a list of cues.
pub open spec fn cues_view(v: Seq<Cue>) -> Seq<CueView> {
    v.map_values(|c: Cue| c@)
}

/// A timestamp as WebVTT writes it: hours, minutes and seconds of at least two digits
/// and three digits of milliseconds.
pub open spec fn vtt_timestamp(d: Duration) -> Seq<char> {
    crate::text::zero_padded((d.secs / 3600) as nat, 2) + seq![':'] + crate::text::zero_padded(
        (d.secs / 60 % 60) as nat,
        2,
    ) + seq![':'] + seconds_text(d)
}

/// The seconds of a timestamp as WebVTT writes them.
pub open spec fn seconds_text(d: Duration) -> Seq<char> {
    crate::text::zero_padded((d.secs % 60) as nat, 2) + seq!['.'] + crate::text::zero_padded(
        (d.nanos / 1_000_000) as nat,
        3,
    )
}

/// Writes a timestamp.
pub fn format_vtt_ts(duration: Duration) -> (r: String)
    ensures
        r@ == vtt_timestamp(duration),
{
    let mut r = zero_padded_string(duration.secs / 3600, 2);
    r.push(':');
    r.append(zero_padded_string(duration.secs / 60 % 60, 2).as_str());
    r.push(':');
    r.append(zero_padded_string(duration.secs % 60, 2).as_str());
    r.push('.');
    r.append(zero_padded_string((duration.nanos / 1_000_000) as u64, 3).as_str());
    assert(r@ =~= vtt_timestamp(duration));
    r
}

/// The hours and minutes of a timestamp, and the text of its seconds.
pub struct TimestampFields {
    pub hours: u64,
    pub minutes: u64,
    pub seconds: String,
}

/// The fields of a timestamp with the text of its seconds as a sequence of characters.
pub struct FieldsView {
    pub hours: u64,
    pub minutes: u64,
    pub seconds: Seq<char>,
}

impl View for TimestampFields {
    type V = FieldsView;

    open spec fn view(&self) -> FieldsView {
        FieldsView { hours: self.hours, minutes: self.minutes, seconds: self.seconds@ }
    }
}

/// The fields of a timestamp: three with colons between them, or two where the hours are
/// missing, the hours and minutes being numbers.
pub open spec fn timestamp_fields(s: Seq<char>) -> Option<FieldsView> {
    let parts = crate::text::split(s, ':');
    if parts.len() == 3 {
        match (crate::text::parsed_u64(parts[0]), crate::text::parsed_u64(parts[1])) {
            (Some(hours), Some(minutes)) => Some(
                FieldsView { hours, minutes, seconds: parts[2] },
            ),
            _ => None,
        }
    } else if parts.len() == 2 {
        match crate::text::parsed_u64(parts[0]) {
            Some(minutes) => Some(FieldsView { hours: 0, minutes, seconds: parts[1] }),
            None => None,
        }
    } else {
        None
    }
}

impl FieldsView {
    /// The hours and minutes as a span.
    pub open spec fn base(self) -> Duration {
        Duration { secs: (self.hours * 3600 + self.minutes * 60) as u64, nanos: 0 }
    }

    /// Whether the timestamp with these seconds can be represented.
    pub open spec fn fits(self, seconds: Duration) -> bool {
        self.hours * 3600 + self.minutes * 60 <= u64::MAX && Duration::sum_fits(
            self.base(),
            seconds,
        )
    }

    /// Whether these seconds, if they have a value, give a timestamp that can be represented.
    pub open spec fn admits(self, seconds: Option<Duration>) -> bool {
        match seconds {
            Some(seconds) => seconds.wf() && self.fits(seconds),
            None => true,
        }
    }

    /// The timestamp, given the value of its seconds.
    pub open spec fn total(self, seconds: Option<Duration>) -> Option<Duration> {
        match seconds {
            Some(seconds) => Some(Duration::sum(self.base(), seconds)),
            None => None,
        }
    }
}

/// Reads the fields of a timestamp.
pub fn parse_timestamp(s: &str) -> (r: Option<TimestampFields>)
    ensures
        match r {
            Some(fields) => timestamp_fields(s@) == Some(fields@),
            None => timestamp_fields(s@) is None,
        },
{
    let chars = to_chars(s);
    parse_timestamp_chars(&chars)
}

/// Reads the fields of a timestamp.
fn parse_timestamp_chars(chars: &Vec<char>) -> (r: Option<TimestampFields>)
    ensures
        match r {
            Some(fields) => timestamp_fields(chars@) == Some(fields@),
            None => timestamp_fields(chars@) is None,
        },
{
    let parts = split_chars(chars, ':');
    let ghost views = crate::text::chars_view(parts@);
    assert(views.len() == parts@.len());
    assert(forall|i: int| 0 <= i < parts@.len() ==> views[i] == (#[trigger] parts@[i])@);
    if parts.len() == 3 {
        let hours = parse_u64(&parts[0]);
        let minutes = parse_u64(&parts[1]);
        match (hours, minutes) {
            (Some(hours), Some(minutes)) => Some(
                TimestampFields { hours, minutes, seconds: from_chars(&parts[2]) },
            ),
            _ => None,
        }
    } else if parts.len() == 2 {
        match parse_u64(&parts[0]) {
            Some(minutes) => Some(
                TimestampFields { hours: 0, minutes, seconds: from_chars(&parts[1]) },
            ),
            None => None,
        }
    } else {
        None
    }
}

impl TimestampFields {
    /// Whether the timestamp with these seconds can be represented.
    pub fn fits(&self, seconds: Duration) -> (r: bool)
        requires
            seconds.wf(),
        ensures
            r == self@.fits(seconds),
    {
        let base: u128 = self.hours as u128 * 3600 + self.minutes as u128 * 60;
        base + seconds.secs as u128 <= 0xFFFF_FFFF_FFFF_FFFF
    }

    /// The timestamp, given the value of its seconds.
    pub fn duration(&self, seconds: Duration) -> (r: Duration)
        requires
            seconds.wf(),
            self@.fits(seconds),
        ensures
            self@.total(Some(seconds)) == Some(r),
            r.wf(),
    {
        Duration::from_secs(self.hours * 3600 + self.minutes * 60).plus(seconds)
    }
}

/// The timestamp that a text denotes, where `read` says what a text of seconds denotes.
pub open spec fn timestamp(
    s: Seq<char>,
    read: spec_fn(Seq<char>) -> Option<Duration>,
) -> Option<Duration> {
    match timestamp_fields(s) {
        Some(fields) => fields.total(read(fields.seconds)),
        None => None,
    }
}

/// Whether a text that denotes a timestamp denotes one that can be represented.
pub open spec fn timestamp_fits(
    s: Seq<char>,
    read: spec_fn(Seq<char>) -> Option<Duration>,
) -> bool {
    match timestamp_fields(s) {
        Some(fields) => fields.admits(read(fields.seconds)),
        None => true,
    }
}

/// The two halves of a line that holds the arrow of a timing line exactly once.
pub open spec fn timing_halves(line: Seq<char>) -> Option<(Seq<char>, Seq<char>)> {
    let arrow = " --> "@;
    if crate::text::contains(line, arrow) {
        let i = choose|i: int| crate::text::first_at(line, arrow, i);
        let rest = line.skip(i + arrow.len());
        if crate::text::contains(rest, arrow) {
            None
        } else {
            Some((line.take(i), rest))
        }
    } else {
        None
    }
}

/// The times that a line denotes, if it is a timing line.
pub open spec fn timing(
    line: Seq<char>,
    read: spec_fn(Seq<char>) -> Option<Duration>,
) -> Option<(Duration, Duration)> {
    match timing_halves(line) {
        Some((first, second)) => match (timestamp(first, read), timestamp(second, read)) {
            (Some(start), Some(end)) => Some((start, end)),
            _ => None,
        },
        None => None,
    }
}

/// Whether the timestamps of a line can be represented. The second one counts only where
/// the first denotes a time.
pub open spec fn timing_fits(
    line: Seq<char>,
    read: spec_fn(Seq<char>) -> Option<Duration>,
) -> bool {
    match timing_halves(line) {
        Some((first, second)) => {
            &&& timestamp_fits(first, read)
            &&& timestamp(first, read) is Some ==> timestamp_fits(second, read)
        },
        None => true,
    }
}

/// What a parser expects next.
#[derive(Clone, Copy, Debug, PartialEq, Eq, Structural)]
pub enum ParseState {
    /// The line that begins the file.
    Header,
    /// A timing line.
    Body,
    /// A line of text of a cue.
    Cue,
}

/// What a parser has found so far.
pub struct Progress {
    pub state: ParseState,
    pub start: Duration,
    pub end: Duration,
    /// The lines of the open cue, each with a line feed behind it.
    pub text: Seq<char>,
    pub cues: Seq<CueView>,
}

impl Progress {
    /// Nothing read yet.
    pub open spec fn initial() -> Self {
        let zero = Duration { secs: 0, nanos: 0 };
        Progress {
            state: ParseState::Header,
            start: zero,
            end: zero,
            text: Seq::empty(),
            cues: Seq::empty(),
        }
    }

    /// The open cue is done.
    pub open spec fn close(self) -> Self {
        let cue = CueView { start: self.start, end: self.end, text: crate::text::trim(self.text) };
        Progress {
            state: ParseState::Body,
            text: Seq::empty(),
            cues: self.cues.push(cue),
            ..self
        }
    }

    /// A cue begins, if these are its times.
    pub open spec fn open_cue(self, times: Option<(Duration, Duration)>) -> Self {
        match times {
            Some((start, end)) => Progress { state: ParseState::Cue, start, end, ..self },
            None => self,
        }
    }

    /// After one more line.
    pub open spec fn after(
        self,
        line: Seq<char>,
        read: spec_fn(Seq<char>) -> Option<Duration>,
    ) -> Self {
        match self.state {
            ParseState::Header => if crate::text::starts_with(line, "WEBVTT"@) {
                Progress { state: ParseState::Body, ..self }
            } else {
                self
            },
            ParseState::Body => self.open_cue(timing(line, read)),
            ParseState::Cue => if line.len() == 0 {
                self.close()
            } else if crate::text::starts_with(line, "NOTE"@) || crate::text::starts_with(
                line,
                "STYLE"@,
            ) {
                self
            } else {
                Progress { text: self.text + line + seq!['\n'], ..self }
            },
        }
    }

    /// After some more lines.
    pub open spec fn after_all(
        self,
        lines: Seq<Seq<char>>,
        read: spec_fn(Seq<char>) -> Option<Duration>,
    ) -> Self
        decreases lines.len(),
    {
        if lines.len() == 0 {
            self
        } else {
            self.after(lines.first(), read).after_all(lines.drop_first(), read)
        }
    }

    /// Whether all timestamps that are read in some more lines can be represented: those of
    /// the lines between cues.
    pub open spec fn fits(
        self,
        lines: Seq<Seq<char>>,
        read: spec_fn(Seq<char>) -> Option<Duration>,
    ) -> bool
        decreases lines.len(),
    {
        lines.len() == 0 || {
            &&& self.state == ParseState::Body ==> timing_fits(lines.first(), read)
            &&& self.after(lines.first(), read).fits(lines.drop_first(), read)
        }
    }

    /// The cues at the end of the file: an open cue counts.
    pub open spec fn finished(self) -> Seq<CueView> {
        if self.state == ParseState::Cue {
            self.close().cues
        } else {
            self.cues
        }
    }
}

/// The cues of a file, where `read` says what a text of seconds denotes.
pub open spec fn vtt_cues(
    body: Seq<char>,
    read: spec_fn(Seq<char>) -> Option<Duration>,
) -> Seq<CueView> {
    Progress::initial().after_all(crate::text::lines(body), read).finished()
}

/// Whether all timestamps that are read in a file can be represented.
pub open spec fn vtt_fits(
    body: Seq<char>,
    read: spec_fn(Seq<char>) -> Option<Duration>,
) -> bool {
    Progress::initial().fits(crate::text::lines(body), read)
}

/// A timing line that is being read.
struct Pending {
    /// The fields of the timestamp whose seconds are asked for.
    fields: TimestampFields,
    /// The start, where it is the end that is asked for.
    start: Option<Duration>,
    /// The half of the line that denotes the end.
    second: Vec<char>,
}

impl Pending {
    /// The times of the line.
    spec fn times(
        &self,
        read: spec_fn(Seq<char>) -> Option<Duration>,
    ) -> Option<(Duration, Duration)> {
        let asked = self.fields@.total(read(self.fields@.seconds));
        match self.start {
            Some(start) => match asked {
                Some(end) => Some((start, end)),
                None => None,
            },
            None => match (asked, timestamp(self.second@, read)) {
                (Some(start), Some(end)) => Some((start, end)),
                _ => None,
            },
        }
    }
}

impl Pending {
    /// Whether what is still to be read of the line can be represented.
    spec fn fits(&self, read: spec_fn(Seq<char>) -> Option<Duration>) -> bool {
        &&& self.fields@.admits(read(self.fields@.seconds))
        &&& self.start is None && read(self.fields@.seconds) is Some ==> timestamp_fits(
            self.second@,
            read,
        )
    }
}

/// A parser of a WebVTT file, which asks for the value of each text of seconds.
pub struct VttParser {
    lines: Vec<Vec<char>>,
    next: usize,
    state: ParseState,
    start: Duration,
    end: Duration,
    text: Vec<char>,
    cues: Vec<Cue>,
    pending: Option<Pending>,
}

impl VttParser {
    /// The position is within the file, and questions come up only between cues.
    pub closed spec fn wf(&self) -> bool {
        self.next <= self.lines@.len() && (self.pending is Some ==> self.state == ParseState::Body)
    }

    /// What was found in the lines already read.
    closed spec fn progress(&self) -> Progress {
        Progress {
            state: self.state,
            start: self.start,
            end: self.end,
            text: self.text@,
            cues: cues_view(self.cues@),
        }
    }

    /// The lines not yet read.
    closed spec fn remaining(&self) -> Seq<Seq<char>> {
        crate::text::chars_view(self.lines@).skip(self.next as int)
    }

    /// The cues that the file will have given in the end, where `read` says what a text of
    /// seconds denotes.
    pub closed spec fn outcome(
        &self,
        read: spec_fn(Seq<char>) -> Option<Duration>,
    ) -> Seq<CueView> {
        let now = match self.pending {
            Some(pending) => self.progress().open_cue(pending.times(read)),
            None => self.progress(),
        };
        now.after_all(self.remaining(), read).finished()
    }

    /// Whether every question about the rest of the file, answered by what `read` says, gets
    /// an answer that can be taken.
    pub closed spec fn answerable(
        &self,
        read: spec_fn(Seq<char>) -> Option<Duration>,
    ) -> bool {
        match self.pending {
            Some(pending) => {
                &&& pending.fits(read)
                &&& self.progress().open_cue(pending.times(read)).fits(self.remaining(), read)
            },
            None => self.progress().fits(self.remaining(), read),
        }
    }

    /// The timestamp whose seconds are asked for.
    pub closed spec fn question(&self) -> Option<FieldsView> {
        match self.pending {
            Some(pending) => Some(pending.fields@),
            None => None,
        }
    }

    /// How many timestamps may still be asked for at most.
    pub closed spec fn left(&self) -> nat {
        let lines = (self.lines@.len() - self.next) as nat;
        match self.pending {
            Some(pending) => 2 * lines + if pending.start is None {
                2nat
            } else {
                1
            },
            None => 2 * lines,
        }
    }

    /// Whether the whole file has been read.
    pub closed spec fn at_end(&self) -> bool {
        self.pending is None && self.next == self.lines@.len()
    }

    /// Whether this is the answer to the question, and the timestamp can be represented.
    pub open spec fn can_answer(&self, seconds: Option<Duration>) -> bool {
        match self.question() {
            Some(fields) => fields.admits(seconds),
            None => false,
        }
    }
}

/// Begins to parse a WebVTT file. Its questions can be answered as long as the timestamps of
/// the file can be represented.
pub fn parse_internal(body: &str) -> (r: VttParser)
    ensures
        r.wf(),
        r.question() is None,
        forall|read: spec_fn(Seq<char>) -> Option<Duration>| #[trigger]
            r.outcome(read) == vtt_cues(body@, read),
        forall|read: spec_fn(Seq<char>) -> Option<Duration>| #[trigger]
            r.answerable(read) == vtt_fits(body@, read),
{
    let chars = to_chars(body);
    let lines = split_lines(&chars);
    let r = VttParser {
        lines,
        next: 0,
        state: ParseState::Header,
        start: Duration::zero(),
        end: Duration::zero(),
        text: Vec::new(),
        cues: Vec::new(),
        pending: None,
    };
    assert(r.remaining() =~= crate::text::lines(body@));
    assert(r.progress().text =~= Seq::empty());
    assert(r.progress().cues =~= Seq::empty());
    assert(r.progress() == Progress::initial());
    r
}

/// The two halves of a line that holds the arrow of a timing line exactly once.
fn split_timing(line: &Vec<char>) -> (r: Option<(Vec<char>, Vec<char>)>)
    ensures
        match r {
            Some((first, second)) => timing_halves(line@) == Some((first@, second@)),
            None => timing_halves(line@) is None,
        },
{
    let ghost arrow = " --> "@;
    proof {
        reveal_strlit(" --> ");
        assert(arrow.len() == 5);
    }
    let n: usize = line.len();
    match find(line, " --> ", 0) {
        None => {
            assert(!crate::text::contains(line@, arrow));
            None
        },
        Some(i) => {
            proof {
                assert(crate::text::first_at(line@, arrow, i as int));
                let k = choose|k: int| crate::text::first_at(line@, arrow, k);
                assert(crate::text::first_at(line@, arrow, k));
                assert(k == i) by {
                    if k < i {
                        assert(!crate::text::occurs_at(line@, arrow, k));
                    }
                    if i < k {
                        assert(!crate::text::occurs_at(line@, arrow, i as int));
                    }
                }
            }
            assert(i + 5 <= n);
            let from: usize = i + 5;
            let ghost rest = line@.skip(from as int);
            match find(line, " --> ", from) {
                Some(j) => {
                    assert(rest.subrange(j - from, j - from + 5) =~= line@.subrange(
                        j as int,
                        j + 5,
                    ));
                    assert(crate::text::occurs_at(rest, arrow, j - from));
                    None
                },
                None => {
                    assert(!crate::text::contains(rest, arrow)) by {
                        assert forall|k: int| !crate::text::occurs_at(rest, arrow, k) by {
                            if crate::text::occurs_at(rest, arrow, k) {
                                assert(rest.subrange(k, k + 5) =~= line@.subrange(
                                    k + from,
                                    k + from + 5,
                                ));
                                assert(crate::text::occurs_at(line@, arrow, k + from));
                            }
                        }
                    }
                    let first = clone_chars(line, 0, i);
                    let second = clone_chars(line, from, n);
                    assert(first@ =~= line@.take(i as int));
                    assert(second@ =~= rest);
                    Some((first, second))
                },
            }
        },
    }
}

impl VttParser {
    /// Reads one line.
    fn read_line(&mut self)
        requires
            old(self).wf(),
            old(self).pending is None,
            old(self).next < old(self).lines@.len(),
        ensures
            final(self).wf(),
            final(self).lines == old(self).lines,
            final(self).next == old(self).next + 1,
            final(self).left() <= old(self).left(),
            forall|read: spec_fn(Seq<char>) -> Option<Duration>| #[trigger]
                final(self).outcome(read) == old(self).outcome(read),
            forall|read: spec_fn(Seq<char>) -> Option<Duration>| #[trigger]
                final(self).answerable(read) == old(self).answerable(read),
    {
        let i: usize = self.next;
        let n: usize = self.lines.len();
        assert(i < n);
        let line = clone_chars(&self.lines[i], 0, self.lines[i].len());
        proof {
            assert(line@ =~= self.lines@[i as int]@);
            let remaining = self.remaining();
            assert(remaining.first() == line@);
            assert(remaining.drop_first() =~= crate::text::chars_view(self.lines@).skip(i + 1));
        }
        self.next = i + 1;
        match self.state {
            ParseState::Header => {
                if has_prefix(&line, "WEBVTT") {
                    self.state = ParseState::Body;
                }
            },
            ParseState::Body => {
                if let Some((first, second)) = split_timing(&line) {
                    if let Some(fields) = parse_timestamp_chars(&first) {
                        self.pending = Some(Pending { fields, start: None, second });
                    }
                }
            },
            ParseState::Cue => {
                if line.len() == 0 {
                    self.close_cue();
                } else if !has_prefix(&line, "NOTE") && !has_prefix(&line, "STYLE") {
                    let ghost before = self.text@;
                    for k in 0..line.len()
                        invariant
                            self.text@ == before + line@.take(k as int),
                            self.lines == old(self).lines,
                            self.next == i + 1,
                            self.state == old(self).state,
                            self.start == old(self).start,
                            self.end == old(self).end,
                            self.cues == old(self).cues,
                            self.pending == old(self).pending,
                    {
                        self.text.push(line[k]);
                        assert(before + line@.take(k + 1) =~= (before + line@.take(k as int)).push(
                            line@[k as int],
                        ));
                    }
                    assert(line@.take(line@.len() as int) =~= line@);
                    self.text.push('\n');
                    assert(self.text@ =~= before + line@ + seq!['\n']);
                }
            },
        }
        assert forall|read: spec_fn(Seq<char>) -> Option<Duration>| #[trigger]
            self.outcome(read) == old(self).outcome(read) by {
            let now = match self.pending {
                Some(pending) => self.progress().open_cue(pending.times(read)),
                None => self.progress(),
            };
            assert(now == old(self).progress().after(line@, read));
        }
        assert forall|read: spec_fn(Seq<char>) -> Option<Duration>| #[trigger]
            self.answerable(read) == old(self).answerable(read) by {
            let now = match self.pending {
                Some(pending) => self.progress().open_cue(pending.times(read)),
                None => self.progress(),
            };
            assert(now == old(self).progress().after(line@, read));
            if old(self).state == ParseState::Body {
                assert(timing_fits(line@, read) == match self.pending {
                    Some(pending) => pending.fits(read),
                    None => true,
                });
            }
        }
    }

    /// Ends the open cue.
    fn close_cue(&mut self)
        ensures
            final(self).progress() == old(self).progress().close(),
            final(self).lines == old(self).lines,
            final(self).next == old(self).next,
            final(self).pending == old(self).pending,
    {
        let text = trimmed(&self.text);
        let ghost cues = self.cues@;
        let cue = Cue { start: self.start, end: self.end, text: from_chars(&text) };
        let ghost view = cue@;
        self.cues.push(cue);
        self.text = Vec::new();
        self.state = ParseState::Body;
        assert(cues_view(self.cues@) =~= cues_view(cues).push(view));
        assert(self.text@ =~= Seq::<char>::empty());
    }

    /// Reads on to the next text of seconds whose value is needed, which is returned, or to
    /// the end of the file.
    pub fn next_question(&mut self) -> (r: Option<String>)
        requires
            old(self).wf(),
        ensures
            final(self).wf(),
            forall|read: spec_fn(Seq<char>) -> Option<Duration>| #[trigger]
                final(self).outcome(read) == old(self).outcome(read),
            forall|read: spec_fn(Seq<char>) -> Option<Duration>| #[trigger]
                final(self).answerable(read) == old(self).answerable(read),
            match r {
                Some(text) => final(self).question() matches Some(fields) && {
                    &&& fields.seconds == text@
                    &&& forall|read: spec_fn(Seq<char>) -> Option<Duration>| #[trigger]
                        final(self).answerable(read) ==> final(self).can_answer(read(text@))
                },
                None => final(self).at_end() && forall|read: spec_fn(Seq<char>) -> Option<Duration>|
                    #[trigger] final(self).answerable(read),
            },
            old(self).question() is Some ==> final(self).question() == old(self).question(),
            final(self).left() <= old(self).left(),
    {
        while self.pending.is_none() && self.next < self.lines.len()
            invariant
                self.wf(),
                forall|read: spec_fn(Seq<char>) -> Option<Duration>| #[trigger]
                    self.outcome(read) == old(self).outcome(read),
                forall|read: spec_fn(Seq<char>) -> Option<Duration>| #[trigger]
                    self.answerable(read) == old(self).answerable(read),
                old(self).pending is Some ==> self.pending == old(self).pending,
                self.left() <= old(self).left(),
            decreases self.lines@.len() - self.next,
        {
            self.read_line();
        }
        match &self.pending {
            Some(pending) => Some(pending.fields.seconds.clone()),
            None => None,
        }
    }

    /// Whether this answer gives a timestamp that can be represented.
    pub fn answer_fits(&self, seconds: Duration) -> (r: bool)
        requires
            seconds.wf(),
            self.question() is Some,
        ensures
            r == self.can_answer(Some(seconds)),
    {
        match &self.pending {
            Some(pending) => pending.fields.fits(seconds),
            None => false,
        }
    }

    /// Takes the value of the seconds that were asked for, or that they have none.
    pub fn answer(&mut self, seconds: Option<Duration>)
        requires
            old(self).wf(),
            old(self).can_answer(seconds),
        ensures
            final(self).wf(),
            forall|read: spec_fn(Seq<char>) -> Option<Duration>|
                old(self).question() matches Some(fields) && read(fields.seconds) == seconds
                    ==> #[trigger] final(self).outcome(read) == old(self).outcome(read),
            forall|read: spec_fn(Seq<char>) -> Option<Duration>|
                old(self).question() matches Some(fields) && read(fields.seconds) == seconds
                    ==> #[trigger] final(self).answerable(read) == old(self).answerable(read),
            final(self).left() < old(self).left(),
    {
        if let Some(pending) = self.pending.take() {
            let total = match seconds {
                Some(seconds) => Some(pending.fields.duration(seconds)),
                None => None,
            };
            if let Some(time) = total {
                match pending.start {
                    Some(start) => {
                        self.state = ParseState::Cue;
                        self.start = start;
                        self.end = time;
                    },
                    None => {
                        if let Some(fields) = parse_timestamp_chars(&pending.second) {
                            self.pending = Some(
                                Pending { fields, start: Some(time), second: pending.second },
                            );
                        }
                    },
                }
            }
            assert forall|read: spec_fn(Seq<char>) -> Option<Duration>|
                read(pending.fields@.seconds) == seconds implies #[trigger] self.outcome(read)
                == old(self).outcome(read) by {
                let before = old(self).progress().open_cue(pending.times(read));
                let now = match self.pending {
                    Some(p) => self.progress().open_cue(p.times(read)),
                    None => self.progress(),
                };
                assert(now == before);
            }
            assert forall|read: spec_fn(Seq<char>) -> Option<Duration>|
                read(pending.fields@.seconds) == seconds implies #[trigger] self.answerable(read)
                == old(self).answerable(read) by {
                let before = old(self).progress().open_cue(pending.times(read));
                let now = match self.pending {
                    Some(p) => self.progress().open_cue(p.times(read)),
                    None => self.progress(),
                };
                assert(now == before);
                assert(pending.fits(read) == match self.pending {
                    Some(p) => p.fits(read),
                    None => true,
                });
            }
        }
    }

    /// The cues of the file, once it has all been read.
    pub fn finish(self) -> (r: Vec<Cue>)
        requires
            self.wf(),
            self.at_end(),
        ensures
            forall|read: spec_fn(Seq<char>) -> Option<Duration>| #[trigger]
                self.outcome(read) == cues_view(r@),
    {
        let mut parser = self;
        assert(parser.remaining() =~= Seq::empty());
        if parser.state == ParseState::Cue {
            parser.close_cue();
        }
        parser.cues
    }
}

/// Whether `value` says what a function returns for every text.
pub open spec fn reads_as<F: Fn(&str) -> Option<Duration>>(
    read: F,
    value: spec_fn(Seq<char>) -> Option<Duration>,
) -> bool {
    forall|text: &str, r: Option<Duration>| #[trigger]
        call_ensures(read, (text,), r) ==> r == value(text@)
}

/// The cues of a WebVTT file, where `read` says what a text of seconds denotes; nothing
/// where a timestamp cannot be represented.
pub fn parse_text<F: Fn(&str) -> Option<Duration>>(body: &str, read: F) -> (r: Option<Vec<Cue>>)
    requires
        forall|text: &str| #[trigger] call_requires(read, (text,)),
    ensures
        forall|value: spec_fn(Seq<char>) -> Option<Duration>| #[trigger]
            reads_as(read, value) ==> match r {
                Some(cues) => vtt_fits(body@, value) && cues_view(cues@) == vtt_cues(body@, value),
                None => !vtt_fits(body@, value),
            },
{
    let mut parser = parse_internal(body);
    let mut question = parser.next_question();
    while question.is_some()
        invariant
            parser.wf(),
            forall|text: &str| #[trigger] call_requires(read, (text,)),
            forall|value: spec_fn(Seq<char>) -> Option<Duration>| #[trigger]
                reads_as(read, value) ==> parser.outcome(value) == vtt_cues(body@, value)
                    && parser.answerable(value) == vtt_fits(body@, value),
            match question {
                Some(text) => parser.question() matches Some(fields) && {
                    &&& fields.seconds == text@
                    &&& forall|value: spec_fn(Seq<char>) -> Option<Duration>| #[trigger]
                        parser.answerable(value) ==> parser.can_answer(value(text@))
                },
                None => parser.at_end() && forall|value: spec_fn(Seq<char>) -> Option<Duration>|
                    #[trigger] parser.answerable(value),
            },
        decreases parser.left(),
    {
        if let Some(text) = question {
            let seconds = read(text.as_str());
            let taken = match seconds {
                Some(seconds) => seconds.nanos < 1_000_000_000 && parser.answer_fits(seconds),
                None => true,
            };
            if !taken {
                return None;
            }
            parser.answer(seconds);
        }
        question = parser.next_question();
    }
    Some(parser.finish())
}

/// Zero padded numbers hold nothing but digits.
proof fn lemma_padded_digits(n: nat, width: nat)
    ensures
        forall|i: int|
            0 <= i < crate::text::zero_padded(n, width).len() ==> crate::text::is_digit(
                #[trigger] crate::text::zero_padded(n, width)[i],
            ),
        crate::text::zero_padded(n, width).len() > 0,
        n <= u64::MAX ==> crate::text::parsed_u64(crate::text::zero_padded(n, width)) == Some(
            n as u64,
        ),
{
    crate::text::law_zero_padded_round_trip(n, width);
    let s = crate::text::zero_padded(n, width);
    assert(crate::text::is_digit(s[0]));
}

/// The whole milliseconds of a span.
pub open spec fn milliseconds(d: Duration) -> int {
    d.secs * 1000 + d.nanos / 1_000_000
}

/// Below a hundred hours the fields of a written timestamp have two digits, and its
/// milliseconds have three.
proof fn lemma_field_lengths(d: Duration)
    requires
        d.wf(),
        d.secs < 360_000,
    ensures
        crate::text::zero_padded((d.secs / 3600) as nat, 2).len() == 2,
        crate::text::zero_padded((d.secs / 60 % 60) as nat, 2).len() == 2,
        crate::text::zero_padded((d.secs % 60) as nat, 2).len() == 2,
        crate::text::zero_padded((d.nanos / 1_000_000) as nat, 3).len() == 3,
{
    crate::text::lemma_two_digits((d.secs / 3600) as nat);
    crate::text::lemma_two_digits((d.secs / 60 % 60) as nat);
    crate::text::lemma_two_digits((d.secs % 60) as nat);
    crate::text::lemma_three_digits((d.nanos / 1_000_000) as nat);
}

/// Hours, minutes and seconds grow with the seconds that they part.
proof fn lemma_fields_grow(x: int, y: int)
    requires
        0 <= x < y,
    ensures
        x / 3600 <= y / 3600,
        x / 3600 == y / 3600 ==> x / 60 % 60 <= y / 60 % 60,
        x / 3600 == y / 3600 && x / 60 % 60 == y / 60 % 60 ==> x % 60 < y % 60,
{
    let (p, q) = (x / 60, y / 60);
    assert(x == p * 60 + x % 60);
    assert(y == q * 60 + y % 60);
    assert(p <= q);
    assert(x / 3600 == p / 60);
    assert(y / 3600 == q / 60);
    assert(p == p / 60 * 60 + p % 60);
    assert(q == q / 60 * 60 + q % 60);
}

/// Below a hundred hours the timestamp of a span with fewer milliseconds sorts first.
proof fn lemma_fewer_milliseconds_sort_first(a: Duration, b: Duration)
    requires
        a.wf(),
        b.wf(),
        b.secs < 360_000,
        milliseconds(a) < milliseconds(b),
    ensures
        crate::text::sorts_before(vtt_timestamp(a), vtt_timestamp(b)),
{
    lemma_field_lengths(a);
    lemma_field_lengths(b);
    if a.secs < b.secs {
        lemma_fields_grow(a.secs as int, b.secs as int);
    }
    let (h1, h2) = ((a.secs / 3600) as nat, (b.secs / 3600) as nat);
    let (m1, m2) = ((a.secs / 60 % 60) as nat, (b.secs / 60 % 60) as nat);
    let (s1, s2) = ((a.secs % 60) as nat, (b.secs % 60) as nat);
    let (n1, n2) = ((a.nanos / 1_000_000) as nat, (b.nanos / 1_000_000) as nat);
    let colon = seq![':'];
    if h1 < h2 {
        crate::text::lemma_two_digits_sort(h1, h2);
        let rest1 = colon + crate::text::zero_padded(m1, 2) + colon + seconds_text(a);
        let rest2 = colon + crate::text::zero_padded(m2, 2) + colon + seconds_text(b);
        assert(vtt_timestamp(a) =~= crate::text::zero_padded(h1, 2) + rest1);
        assert(vtt_timestamp(b) =~= crate::text::zero_padded(h2, 2) + rest2);
        crate::text::lemma_sorts_followed(
            crate::text::zero_padded(h1, 2),
            crate::text::zero_padded(h2, 2),
            rest1,
            rest2,
        );
    } else if m1 < m2 {
        let (x, y) = (crate::text::zero_padded(m1, 2), crate::text::zero_padded(m2, 2));
        let (rest1, rest2) = (colon + seconds_text(a), colon + seconds_text(b));
        let start = crate::text::zero_padded(h1, 2) + colon;
        crate::text::lemma_two_digits_sort(m1, m2);
        crate::text::lemma_sorts_followed(x, y, rest1, rest2);
        crate::text::lemma_sorts_behind(start, x + rest1, y + rest2);
        assert(vtt_timestamp(a) =~= start + (x + rest1));
        assert(vtt_timestamp(b) =~= start + (y + rest2));
    } else {
        let start = crate::text::zero_padded(h1, 2) + colon + crate::text::zero_padded(m1, 2)
            + colon;
        let (x, y) = (crate::text::zero_padded(s1, 2), crate::text::zero_padded(s2, 2));
        let (z, w) = (crate::text::zero_padded(n1, 3), crate::text::zero_padded(n2, 3));
        let dot = seq!['.'];
        if s1 < s2 {
            crate::text::lemma_two_digits_sort(s1, s2);
            crate::text::lemma_sorts_followed(x, y, dot + z, dot + w);
            assert(seconds_text(a) =~= x + (dot + z));
            assert(seconds_text(b) =~= y + (dot + w));
        } else {
            crate::text::lemma_three_digits_sort(n1, n2);
            crate::text::lemma_sorts_behind(x + dot, z, w);
        }
        crate::text::lemma_sorts_behind(start, seconds_text(a), seconds_text(b));
    }
}

/// Below a hundred hours written timestamps have twelve characters and sort as the spans do,
/// to the millisecond: they are equal exactly where the milliseconds are, one sorts before
/// the other exactly where it has fewer, and a shorter span never sorts behind a longer one.
pub proof fn law_timestamps_sort_as_spans(a: Duration, b: Duration)
    requires
        a.wf(),
        b.wf(),
        a.secs < 360_000,
        b.secs < 360_000,
    ensures
        vtt_timestamp(a).len() == 12,
        vtt_timestamp(b).len() == 12,
        vtt_timestamp(a) == vtt_timestamp(b) <==> milliseconds(a) == milliseconds(b),
        crate::text::sorts_before(vtt_timestamp(a), vtt_timestamp(b)) <==> milliseconds(a)
            < milliseconds(b),
        a.as_nanos() <= b.as_nanos() ==> vtt_timestamp(a) == vtt_timestamp(b)
            || crate::text::sorts_before(vtt_timestamp(a), vtt_timestamp(b)),
{
    lemma_field_lengths(a);
    lemma_field_lengths(b);
    let (s, t) = (vtt_timestamp(a), vtt_timestamp(b));
    crate::text::law_order_is_strict(s, t);
    crate::text::law_order_is_strict(t, s);
    if milliseconds(a) < milliseconds(b) {
        lemma_fewer_milliseconds_sort_first(a, b);
    } else if milliseconds(b) < milliseconds(a) {
        lemma_fewer_milliseconds_sort_first(b, a);
    } else {
        assert(a.secs == b.secs && a.nanos / 1_000_000 == b.nanos / 1_000_000);
    }
}

/// Reading a timestamp that was written gives back its hours, its minutes and the text of
/// its seconds.
pub proof fn law_written_fields(d: Duration)
    ensures
        timestamp_fields(vtt_timestamp(d)) == Some(
            FieldsView {
                hours: d.secs / 3600,
                minutes: d.secs / 60 % 60,
                seconds: seconds_text(d),
            },
        ),
{
    let hours = crate::text::zero_padded((d.secs / 3600) as nat, 2);
    let minutes = crate::text::zero_padded((d.secs / 60 % 60) as nat, 2);
    lemma_padded_digits((d.secs / 3600) as nat, 2);
    lemma_padded_digits((d.secs / 60 % 60) as nat, 2);
    lemma_digits_hold_no_colon(hours);
    lemma_digits_hold_no_colon(minutes);
    lemma_seconds_hold_no_colon(d);
    lemma_joined_fields(hours, minutes, seconds_text(d));
    assert(vtt_timestamp(d) =~= hours.push(':') + (minutes.push(':') + seconds_text(d)));
}

/// Digits hold no colon.
proof fn lemma_digits_hold_no_colon(s: Seq<char>)
    requires
        forall|i: int| 0 <= i < s.len() ==> crate::text::is_digit(#[trigger] s[i]),
    ensures
        !s.contains(':'),
{
    if s.contains(':') {
        let i = choose|i: int| 0 <= i < s.len() && s[i] == ':';
        assert(crate::text::is_digit(s[i]));
    }
}

/// The text of seconds holds no colon.
proof fn lemma_seconds_hold_no_colon(d: Duration)
    ensures
        !seconds_text(d).contains(':'),
{
    let whole = crate::text::zero_padded((d.secs % 60) as nat, 2);
    let millis = crate::text::zero_padded((d.nanos / 1_000_000) as nat, 3);
    lemma_padded_digits((d.secs % 60) as nat, 2);
    lemma_padded_digits((d.nanos / 1_000_000) as nat, 3);
    lemma_digits_hold_no_colon(whole);
    lemma_digits_hold_no_colon(millis);
    let text = whole + seq!['.'] + millis;
    assert(seconds_text(d) == text);
    if text.contains(':') {
        let i = choose|i: int| 0 <= i < text.len() && text[i] == ':';
        if i < whole.len() {
            assert(whole[i] == ':');
        } else if i > whole.len() {
            assert(millis[i - whole.len() - 1] == ':');
        }
    }
}

/// Three texts without colons, with colons between them, are the fields of a timestamp where
/// the first two are numbers.
proof fn lemma_joined_fields(hours: Seq<char>, minutes: Seq<char>, seconds: Seq<char>)
    requires
        !hours.contains(':'),
        !minutes.contains(':'),
        !seconds.contains(':'),
        crate::text::parsed_u64(hours) is Some,
        crate::text::parsed_u64(minutes) is Some,
    ensures
        timestamp_fields(hours.push(':') + (minutes.push(':') + seconds)) == Some(
            FieldsView {
                hours: crate::text::parsed_u64(hours)->0,
                minutes: crate::text::parsed_u64(minutes)->0,
                seconds,
            },
        ),
{
    let rest = minutes.push(':') + seconds;
    crate::text::law_split_whole(hours, ':');
    crate::text::law_split_whole(minutes, ':');
    crate::text::law_split_whole(seconds, ':');
    crate::text::law_split_joined(minutes, seconds, ':');
    crate::text::law_split_joined(hours, rest, ':');
    assert(crate::text::split(hours.push(':') + rest, ':') =~= seq![hours, minutes, seconds]);
}

/// Reading a timestamp that was written gives back the span, to the millisecond, where the
/// text of its seconds is read for what it says.
pub proof fn law_timestamp_round_trip(
    d: Duration,
    read: spec_fn(Seq<char>) -> Option<Duration>,
)
    requires
        d.wf(),
        read(seconds_text(d)) == Some(
            Duration { secs: d.secs % 60, nanos: (d.nanos / 1_000_000 * 1_000_000) as u32 },
        ),
    ensures
        timestamp(vtt_timestamp(d), read) == Some(
            Duration { secs: d.secs, nanos: (d.nanos / 1_000_000 * 1_000_000) as u32 },
        ),
{
    law_written_fields(d);
    assert(d.secs / 3600 * 3600 + d.secs / 60 % 60 * 60 + d.secs % 60 == d.secs);
}

/// A line with two written timestamps and an arrow between them is a timing line with
/// those times, to the millisecond, where the texts of seconds are read for what they say.
pub proof fn law_timing_line_round_trip(
    start: Duration,
    end: Duration,
    read: spec_fn(Seq<char>) -> Option<Duration>,
)
    requires
        start.wf(),
        end.wf(),
        read(seconds_text(start)) == Some(
            Duration {
                secs: start.secs % 60,
                nanos: (start.nanos / 1_000_000 * 1_000_000) as u32,
            },
        ),
        read(seconds_text(end)) == Some(
            Duration { secs: end.secs % 60, nanos: (end.nanos / 1_000_000 * 1_000_000) as u32 },
        ),
    ensures
        timing(vtt_timestamp(start) + " --> "@ + vtt_timestamp(end), read) == Some(
            (
                Duration {
                    secs: start.secs,
                    nanos: (start.nanos / 1_000_000 * 1_000_000) as u32,
                },
                Duration { secs: end.secs, nanos: (end.nanos / 1_000_000 * 1_000_000) as u32 },
            ),
        ),
{
    reveal_strlit(" --> ");
    let arrow = " --> "@;
    let a = vtt_timestamp(start);
    let b = vtt_timestamp(end);
    let line = a + arrow + b;
    lemma_timestamp_has_no_space(start);
    lemma_timestamp_has_no_space(end);
    assert(arrow.len() == 5 && arrow[0] == ' ');
    let n = a.len() as int;
    assert(line.subrange(n, n + 5) =~= arrow);
    assert(crate::text::occurs_at(line, arrow, n));
    assert forall|j: int| 0 <= j < n implies !crate::text::occurs_at(line, arrow, j) by {
        if crate::text::occurs_at(line, arrow, j) {
            assert(line.subrange(j, j + 5)[0] == line[j]);
            assert(line[j] == a[j]);
        }
    }
    assert(crate::text::first_at(line, arrow, n));
    let i = choose|i: int| crate::text::first_at(line, arrow, i);
    assert(i == n) by {
        if i < n {
            assert(!crate::text::occurs_at(line, arrow, i));
        }
        if n < i {
            assert(!crate::text::occurs_at(line, arrow, n));
        }
    }
    let rest = line.skip(n + 5);
    assert(rest =~= b);
    assert(!crate::text::contains(rest, arrow)) by {
        assert forall|j: int| !crate::text::occurs_at(rest, arrow, j) by {
            if crate::text::occurs_at(rest, arrow, j) {
                assert(rest.subrange(j, j + 5)[0] == b[j]);
            }
        }
    }
    assert(line.take(n) =~= a);
    assert(timing_halves(line) == Some((a, b)));
    law_timestamp_round_trip(start, read);
    law_timestamp_round_trip(end, read);
}

/// A written timestamp holds no space.
proof fn lemma_timestamp_has_no_space(d: Duration)
    ensures
        forall|i: int| 0 <= i < vtt_timestamp(d).len() ==> #[trigger] vtt_timestamp(d)[i] != ' ',
{
    lemma_padded_digits((d.secs / 3600) as nat, 2);
    lemma_padded_digits((d.secs / 60 % 60) as nat, 2);
    lemma_padded_digits((d.secs % 60) as nat, 2);
    lemma_padded_digits((d.nanos / 1_000_000) as nat, 3);
}

/// A file in which no line begins with the signature has no cues.
pub proof fn law_no_header_no_cues(
    body: Seq<char>,
    read: spec_fn(Seq<char>) -> Option<Duration>,
)
    requires
        forall|i: int|
            0 <= i < crate::text::lines(body).len() ==> !crate::text::starts_with(
                #[trigger] crate::text::lines(body)[i],
                "WEBVTT"@,
            ),
    ensures
        vtt_cues(body, read) == Seq::<CueView>::empty(),
{
    lemma_header_lines(Progress::initial(), crate::text::lines(body), read);
}

/// Where the timestamps of every line can be represented, those that are read can.
pub proof fn law_fitting_lines_fit(
    body: Seq<char>,
    read: spec_fn(Seq<char>) -> Option<Duration>,
)
    requires
        forall|i: int|
            0 <= i < crate::text::lines(body).len() ==> timing_fits(
                #[trigger] crate::text::lines(body)[i],
                read,
            ),
    ensures
        vtt_fits(body, read),
{
    lemma_fitting_lines_fit(Progress::initial(), crate::text::lines(body), read);
}

/// Where the timestamps of every line can be represented, those that are read can.
proof fn lemma_fitting_lines_fit(
    progress: Progress,
    lines: Seq<Seq<char>>,
    read: spec_fn(Seq<char>) -> Option<Duration>,
)
    requires
        forall|i: int| 0 <= i < lines.len() ==> timing_fits(#[trigger] lines[i], read),
    ensures
        progress.fits(lines, read),
    decreases lines.len(),
{
    if lines.len() > 0 {
        assert(lines.first() == lines[0]);
        let rest = lines.drop_first();
        assert forall|i: int| 0 <= i < rest.len() implies timing_fits(#[trigger] rest[i], read) by {
            assert(rest[i] == lines[i + 1]);
        }
        lemma_fitting_lines_fit(progress.after(lines.first(), read), rest, read);
    }
}

/// Text before the line of the signature changes nothing.
pub proof fn law_preamble_is_ignored(
    preamble: Seq<char>,
    body: Seq<char>,
    read: spec_fn(Seq<char>) -> Option<Duration>,
)
    requires
        forall|i: int|
            0 <= i < crate::text::lines(preamble.push('\n')).len() ==> !crate::text::starts_with(
                #[trigger] crate::text::lines(preamble.push('\n'))[i],
                "WEBVTT"@,
            ),
    ensures
        vtt_cues(preamble.push('\n') + body, read) == vtt_cues(body, read),
{
    let before = crate::text::lines(preamble.push('\n'));
    crate::text::law_lines_joined(preamble, body);
    lemma_after_joined(Progress::initial(), before, crate::text::lines(body), read);
    lemma_header_lines(Progress::initial(), before, read);
}

/// A file with a signature, an empty line and more text give the cues of the file and those
/// that the text would give behind a signature of its own. A file that ends in a carriage
/// return is left out: a line feed behind it makes it part of the end of the line.
pub proof fn law_files_join(
    file: Seq<char>,
    more: Seq<char>,
    read: spec_fn(Seq<char>) -> Option<Duration>,
)
    requires
        Progress::initial().after_all(crate::text::lines(file), read).state != ParseState::Header,
        file.last() != '\r',
    ensures
        vtt_cues(file.push('\n').push('\n') + more, read) == vtt_cues(file, read) + vtt_cues(
            "WEBVTT"@.push('\n') + more,
            read,
        ),
{
    reveal_strlit("WEBVTT");
    let empty = Seq::<char>::empty();
    let signature = "WEBVTT"@;
    let rest = crate::text::lines(more);
    let reached = Progress::initial().after_all(crate::text::lines(file), read);
    law_text_only_in_open_cue(crate::text::lines(file), read);
    // the file, closed by an empty line
    lemma_lines_of_line_feed();
    assert(file.len() > 0) by {
        if file.len() == 0 {
            assert(crate::text::lines(file) =~= Seq::empty());
        }
    }
    crate::text::law_lines_joined(file, seq!['\n']);
    assert(file.push('\n') + seq!['\n'] =~= file.push('\n').push('\n'));
    let closed = Progress::initial().after_all(
        crate::text::lines(file.push('\n').push('\n')),
        read,
    );
    lemma_empty_line(reached, read);
    lemma_empty_line(reached.after(empty, read), read);
    lemma_after_joined(
        Progress::initial(),
        crate::text::lines(file.push('\n')),
        seq![empty],
        read,
    );
    if file.last() == '\n' {
        let ended = file.drop_last();
        assert(ended.push('\n') =~= file);
        crate::text::law_lines_joined(ended, seq!['\n']);
        assert(file + seq!['\n'] =~= file.push('\n'));
        lemma_after_joined(Progress::initial(), crate::text::lines(file), seq![empty], read);
    } else {
        crate::text::law_last_line_may_lack_line_feed(file);
    }
    assert(closed.state == ParseState::Body);
    assert(closed.text.len() == 0);
    assert(closed.cues == reached.finished());
    // the text behind it
    crate::text::law_lines_joined(file.push('\n'), more);
    lemma_after_joined(
        Progress::initial(),
        crate::text::lines(file.push('\n').push('\n')),
        rest,
        read,
    );
    // the text behind a signature of its own
    crate::text::law_lines_joined(signature, more);
    crate::text::law_last_line_may_lack_line_feed(signature);
    assert(!signature.contains('\n'));
    crate::text::law_split_whole(signature, '\n');
    assert(crate::text::lines(signature) =~= seq![signature]);
    lemma_after_joined(Progress::initial(), seq![signature], rest, read);
    let begun = Progress::initial().after_all(seq![signature], read);
    lemma_one_line(Progress::initial(), signature, read);
    assert(signature.subrange(0, signature.len() as int) =~= signature);
    assert(crate::text::starts_with(signature, signature));
    assert(begun.state == ParseState::Body);
    assert(closed.cues =~= reached.finished() + begun.cues);
    assert(closed.text =~= begun.text);
    lemma_earlier_cues_stay(closed, begun, reached.finished(), rest, read);
    assert(vtt_cues(file.push('\n').push('\n') + more, read) =~= vtt_cues(file, read) + vtt_cues(
        signature.push('\n') + more,
        read,
    ));
}

/// A line feed alone is an empty line.
proof fn lemma_lines_of_line_feed()
    ensures
        crate::text::lines(seq!['\n']) == seq![Seq::<char>::empty()],
{
    let empty = Seq::<char>::empty();
    crate::text::law_split_joined(empty, empty, '\n');
    assert(empty.push('\n') + empty =~= seq!['\n']);
    assert(crate::text::split(empty, '\n') =~= seq![empty]);
    assert(crate::text::split(seq!['\n'], '\n') =~= seq![empty, empty]);
    assert(crate::text::lines(seq!['\n']) =~= seq![empty]);
}

/// Reading one line is reading a list of it alone.
proof fn lemma_one_line(
    progress: Progress,
    line: Seq<char>,
    read: spec_fn(Seq<char>) -> Option<Duration>,
)
    ensures
        progress.after_all(seq![line], read) == progress.after(line, read),
{
    assert(seq![line].first() == line);
    assert(seq![line].drop_first() =~= Seq::empty());
    reveal_with_fuel(Progress::after_all, 2);
}

/// An empty line closes an open cue and does nothing else.
proof fn lemma_empty_line(progress: Progress, read: spec_fn(Seq<char>) -> Option<Duration>)
    ensures
        progress.after_all(seq![Seq::<char>::empty()], read) == progress.after(
            Seq::empty(),
            read,
        ),
        progress.after(Seq::empty(), read) == if progress.state == ParseState::Cue {
            progress.close()
        } else {
            progress
        },
{
    reveal_strlit(" --> ");
    reveal_strlit("WEBVTT");
    let empty = Seq::<char>::empty();
    lemma_one_line(progress, empty, read);
    assert(!crate::text::contains(empty, " --> "@));
    assert(!crate::text::starts_with(empty, "WEBVTT"@));
}

/// Cues that were found earlier stay in front of those that are found later.
proof fn lemma_earlier_cues_stay(
    a: Progress,
    b: Progress,
    earlier: Seq<CueView>,
    lines: Seq<Seq<char>>,
    read: spec_fn(Seq<char>) -> Option<Duration>,
)
    requires
        a.state == b.state,
        a.text == b.text,
        a.state == ParseState::Cue ==> a.start == b.start && a.end == b.end,
        a.cues == earlier + b.cues,
    ensures
        a.after_all(lines, read).finished() == earlier + b.after_all(lines, read).finished(),
    decreases lines.len(),
{
    if a.state == ParseState::Cue {
        assert(a.close().cues =~= earlier + b.close().cues);
    }
    if lines.len() > 0 {
        let (x, y) = (a.after(lines.first(), read), b.after(lines.first(), read));
        assert(x.cues =~= earlier + y.cues);
        lemma_earlier_cues_stay(x, y, earlier, lines.drop_first(), read);
    }
}

/// How many lines hold an arrow.
pub open spec fn arrow_lines(lines: Seq<Seq<char>>) -> nat
    decreases lines.len(),
{
    if lines.len() == 0 {
        0
    } else {
        arrow_lines(lines.drop_first()) + if crate::text::contains(lines.first(), " --> "@) {
            1nat
        } else {
            0
        }
    }
}

/// A file has no more cues than lines with an arrow.
pub proof fn law_cues_need_arrows(
    body: Seq<char>,
    read: spec_fn(Seq<char>) -> Option<Duration>,
)
    ensures
        vtt_cues(body, read).len() <= arrow_lines(crate::text::lines(body)),
{
    lemma_cues_need_arrows(Progress::initial(), crate::text::lines(body), read);
}

/// Every line with an arrow adds at most one cue.
proof fn lemma_cues_need_arrows(
    progress: Progress,
    lines: Seq<Seq<char>>,
    read: spec_fn(Seq<char>) -> Option<Duration>,
)
    ensures
        progress.after_all(lines, read).finished().len() <= progress.finished().len()
            + arrow_lines(lines),
    decreases lines.len(),
{
    if lines.len() > 0 {
        lemma_cues_need_arrows(progress.after(lines.first(), read), lines.drop_first(), read);
    }
}

/// Whether no empty line stands in a text.
pub open spec fn is_unbroken(text: Seq<char>) -> bool {
    forall|i: int| 0 <= i < text.len() - 1 ==> !(#[trigger] text[i] == '\n' && text[i + 1] == '\n')
}

/// No empty line stands in the text of a cue.
pub proof fn law_cue_text_has_no_empty_line(
    body: Seq<char>,
    read: spec_fn(Seq<char>) -> Option<Duration>,
    i: int,
)
    requires
        0 <= i < vtt_cues(body, read).len(),
    ensures
        is_unbroken(vtt_cues(body, read)[i].text),
        !crate::text::contains(vtt_cues(body, read)[i].text, "\n\n"@),
{
    let lines = crate::text::lines(body);
    assert forall|j: int| 0 <= j < lines.len() implies !(#[trigger] lines[j]).contains('\n') by {
        crate::text::law_lines_hold_no_line_feed(body, j);
    }
    lemma_cues_stay_unbroken(Progress::initial(), lines, read);
    let last = Progress::initial().after_all(lines, read);
    lemma_trim_keeps_unbroken(last.text);
    let text = vtt_cues(body, read)[i].text;
    assert(is_unbroken(text));
    reveal_strlit("\n\n");
    assert forall|j: int| !crate::text::occurs_at(text, "\n\n"@, j) by {
        if crate::text::occurs_at(text, "\n\n"@, j) {
            let pair = text.subrange(j, j + 2);
            assert(pair[0] == text[j] && pair[1] == text[j + 1]);
        }
    }
}

/// Trimming brings no empty line into a text.
proof fn lemma_trim_keeps_unbroken(text: Seq<char>)
    requires
        is_unbroken(text),
    ensures
        is_unbroken(crate::text::trim(text)),
{
    lemma_trim_start_keeps_unbroken(text);
    lemma_trim_end_keeps_unbroken(crate::text::trim_start(text));
}

/// Trimming the beginning brings no empty line into a text.
proof fn lemma_trim_start_keeps_unbroken(text: Seq<char>)
    requires
        is_unbroken(text),
    ensures
        is_unbroken(crate::text::trim_start(text)),
    decreases text.len(),
{
    if text.len() > 0 && crate::text::is_white_space(text.first()) {
        let rest = text.drop_first();
        assert forall|i: int| 0 <= i < rest.len() - 1 implies !(#[trigger] rest[i] == '\n' && rest[i
            + 1] == '\n') by {
            assert(rest[i] == text[i + 1]);
        }
        lemma_trim_start_keeps_unbroken(rest);
    }
}

/// Trimming the end brings no empty line into a text.
proof fn lemma_trim_end_keeps_unbroken(text: Seq<char>)
    requires
        is_unbroken(text),
    ensures
        is_unbroken(crate::text::trim_end(text)),
    decreases text.len(),
{
    if text.len() > 0 && crate::text::is_white_space(text.last()) {
        lemma_trim_end_keeps_unbroken(text.drop_last());
    }
}

/// Whether no empty line stands in the texts of the cues, nor in what will be the text of
/// the open one.
spec fn all_unbroken(progress: Progress) -> bool {
    &&& forall|i: int| 0 <= i < progress.cues.len() ==> is_unbroken(#[trigger] progress.cues[i].text)
    &&& is_unbroken(progress.text)
}

/// Reading on brings no empty line into a text.
proof fn lemma_cues_stay_unbroken(
    progress: Progress,
    lines: Seq<Seq<char>>,
    read: spec_fn(Seq<char>) -> Option<Duration>,
)
    requires
        all_unbroken(progress),
        forall|i: int| 0 <= i < lines.len() ==> !(#[trigger] lines[i]).contains('\n'),
    ensures
        all_unbroken(progress.after_all(lines, read)),
    decreases lines.len(),
{
    if lines.len() > 0 {
        let line = lines.first();
        assert(line == lines[0]);
        let rest = lines.drop_first();
        assert forall|i: int| 0 <= i < rest.len() implies !(#[trigger] rest[i]).contains('\n') by {
            assert(rest[i] == lines[i + 1]);
        }
        lemma_trim_keeps_unbroken(progress.text);
        let longer = progress.text + line + seq!['\n'];
        if line.len() > 0 {
            assert forall|i: int| 0 <= i < longer.len() - 1 implies !(#[trigger] longer[i] == '\n'
                && longer[i + 1] == '\n') by {
                let n = progress.text.len() as int;
                if i >= n {
                    assert(longer[i] == line[i - n]);
                } else if i == n - 1 {
                    assert(longer[i + 1] == line[0]);
                } else {
                    assert(longer[i] == progress.text[i]);
                    assert(longer[i + 1] == progress.text[i + 1]);
                }
            }
        }
        lemma_cues_stay_unbroken(progress.after(line, read), rest, read);
    }
}

/// Lines without the signature leave a parser that awaits it as it is.
proof fn lemma_header_lines(
    progress: Progress,
    lines: Seq<Seq<char>>,
    read: spec_fn(Seq<char>) -> Option<Duration>,
)
    requires
        progress.state == ParseState::Header,
        forall|i: int|
            0 <= i < lines.len() ==> !crate::text::starts_with(#[trigger] lines[i], "WEBVTT"@),
    ensures
        progress.after_all(lines, read) == progress,
    decreases lines.len(),
{
    if lines.len() > 0 {
        assert(lines.first() == lines[0]);
        let rest = lines.drop_first();
        assert forall|i: int| 0 <= i < rest.len() implies !crate::text::starts_with(
            #[trigger] rest[i],
            "WEBVTT"@,
        ) by {
            assert(rest[i] == lines[i + 1]);
        }
        lemma_header_lines(progress, rest, read);
    }
}

/// The text of a cue has no white space at either end.
pub proof fn law_cue_text_is_trimmed(
    body: Seq<char>,
    read: spec_fn(Seq<char>) -> Option<Duration>,
    i: int,
)
    requires
        0 <= i < vtt_cues(body, read).len(),
    ensures
        crate::text::trim(vtt_cues(body, read)[i].text) == vtt_cues(body, read)[i].text,
{
    let lines = crate::text::lines(body);
    lemma_cues_stay_trimmed(Progress::initial(), lines, read);
    let last = Progress::initial().after_all(lines, read);
    crate::text::law_trim_idempotent(last.text);
}

/// Whether the texts of all cues are trimmed.
spec fn all_trimmed(cues: Seq<CueView>) -> bool {
    forall|i: int|
        0 <= i < cues.len() ==> crate::text::trim((#[trigger] cues[i]).text) == cues[i].text
}

/// Reading on keeps the texts of all cues trimmed.
proof fn lemma_cues_stay_trimmed(
    progress: Progress,
    lines: Seq<Seq<char>>,
    read: spec_fn(Seq<char>) -> Option<Duration>,
)
    requires
        all_trimmed(progress.cues),
    ensures
        all_trimmed(progress.after_all(lines, read).cues),
    decreases lines.len(),
{
    if lines.len() > 0 {
        crate::text::law_trim_idempotent(progress.text);
        lemma_cues_stay_trimmed(
            progress.after(lines.first(), read),
            lines.drop_first(),
            read,
        );
    }
}

/// The lines of a cue that are kept, each with a line feed behind it.
pub open spec fn kept_lines(lines: Seq<Seq<char>>) -> Seq<char>
    decreases lines.len(),
{
    if lines.len() == 0 {
        Seq::empty()
    } else if crate::text::starts_with(lines.last(), "NOTE"@) || crate::text::starts_with(
        lines.last(),
        "STYLE"@,
    ) {
        kept_lines(lines.drop_last())
    } else {
        kept_lines(lines.drop_last()) + lines.last() + seq!['\n']
    }
}

/// Between two cues, a timing line, lines of text that are not empty and an empty line add
/// exactly one cue: it has the times of the timing line and the text of the lines, less
/// those that begin a note or a style and white space at its ends.
pub proof fn law_block_adds_one_cue(
    progress: Progress,
    timing_line: Seq<char>,
    text_lines: Seq<Seq<char>>,
    read: spec_fn(Seq<char>) -> Option<Duration>,
)
    requires
        progress.state == ParseState::Body,
        progress.text.len() == 0,
        timing(timing_line, read) is Some,
        forall|i: int| 0 <= i < text_lines.len() ==> (#[trigger] text_lines[i]).len() > 0,
    ensures
        ({
            let block = seq![timing_line] + text_lines + seq![Seq::<char>::empty()];
            let after = progress.after_all(block, read);
            let times = timing(timing_line, read)->0;
            &&& after.state == ParseState::Body
            &&& after.text.len() == 0
            &&& after.cues == progress.cues.push(
                CueView {
                    start: times.0,
                    end: times.1,
                    text: crate::text::trim(kept_lines(text_lines)),
                },
            )
        }),
{
    let times = timing(timing_line, read)->0;
    let opened = progress.open_cue(Some(times));
    let empty = Seq::<char>::empty();
    let block = seq![timing_line] + text_lines + seq![empty];
    assert(block.first() == timing_line);
    assert(block.drop_first() =~= text_lines + seq![empty]);
    lemma_after_joined(opened, text_lines, seq![empty], read);
    lemma_text_lines(opened, text_lines, read);
    let filled = opened.after_all(text_lines, read);
    assert(seq![empty].first() == empty);
    assert(seq![empty].drop_first() =~= Seq::empty());
    reveal_with_fuel(Progress::after_all, 2);
    assert(filled.after_all(seq![empty], read) == filled.after(empty, read));
    assert(opened.text + kept_lines(text_lines) =~= kept_lines(text_lines));
}

/// Reading two lists of lines is reading one and then the other.
proof fn lemma_after_joined(
    progress: Progress,
    a: Seq<Seq<char>>,
    b: Seq<Seq<char>>,
    read: spec_fn(Seq<char>) -> Option<Duration>,
)
    ensures
        progress.after_all(a + b, read) == progress.after_all(a, read).after_all(b, read),
    decreases a.len(),
{
    if a.len() == 0 {
        assert(a + b =~= b);
    } else {
        assert((a + b).first() == a.first());
        assert((a + b).drop_first() =~= a.drop_first() + b);
        lemma_after_joined(progress.after(a.first(), read), a.drop_first(), b, read);
    }
}

/// Lines that are not empty go into the text of an open cue.
proof fn lemma_text_lines(
    progress: Progress,
    lines: Seq<Seq<char>>,
    read: spec_fn(Seq<char>) -> Option<Duration>,
)
    requires
        progress.state == ParseState::Cue,
        forall|i: int| 0 <= i < lines.len() ==> (#[trigger] lines[i]).len() > 0,
    ensures
        progress.after_all(lines, read) == (Progress {
            text: progress.text + kept_lines(lines),
            ..progress
        }),
    decreases lines.len(),
{
    if lines.len() == 0 {
        assert(progress.text + kept_lines(lines) =~= progress.text);
    } else {
        let before = lines.drop_last();
        let last = lines.last();
        assert(last == lines[lines.len() - 1]);
        lemma_text_lines(progress, before, read);
        assert(lines =~= before + seq![last]);
        lemma_after_joined(progress, before, seq![last], read);
        let middle = progress.after_all(before, read);
        assert(seq![last].first() == last);
        assert(seq![last].drop_first() =~= Seq::empty());
        reveal_with_fuel(Progress::after_all, 2);
        assert(middle.after_all(seq![last], read) == middle.after(last, read));
        assert(progress.text + kept_lines(before) + last + seq!['\n'] =~= progress.text + (
        kept_lines(before) + last + seq!['\n']));
    }
}

/// What was read lies either in finished cues or in an open one: without an open cue there
/// is no text.
pub proof fn law_text_only_in_open_cue(
    lines: Seq<Seq<char>>,
    read: spec_fn(Seq<char>) -> Option<Duration>,
)
    ensures
        ({
            let progress = Progress::initial().after_all(lines, read);
            progress.state != ParseState::Cue ==> progress.text.len() == 0
        }),
{
    lemma_text_only_in_open_cue(Progress::initial(), lines, read);
}

/// Reading on keeps that there is no text without an open cue.
proof fn lemma_text_only_in_open_cue(
    progress: Progress,
    lines: Seq<Seq<char>>,
    read: spec_fn(Seq<char>) -> Option<Duration>,
)
    requires
        progress.state != ParseState::Cue ==> progress.text.len() == 0,
    ensures
        ({
            let after = progress.after_all(lines, read);
            after.state != ParseState::Cue ==> after.text.len() == 0
        }),
    decreases lines.len(),
{
    if lines.len() > 0 {
        lemma_text_only_in_open_cue(
            progress.after(lines.first(), read),
            lines.drop_first(),
            read,
        );
    }
}

/// The text that an input source is opened by; absent where subtitles cannot be taken out
/// of such a source.
pub open spec fn conversion_path(source: InputSource) -> Option<Seq<char>> {
    match source {
        InputSource::Local(local) => Some(local.path@),
        InputSource::Http(http) => Some(http.uri@),
        InputSource::Rtmp(rtmp) => Some(rtmp.uri@),
        InputSource::Rtsp(_) => None,
        InputSource::Lavfi(_) => None,
    }
}

/// How to take a subtitle out of an input.
pub struct VttConversion {
    pub input_path: String,
    /// The position of the subtitle among the subtitles of the input.
    pub subtitle_index: usize,
}

/// The position of a subtitle among the subtitles of an input.
fn subtitle_position(streams: &Vec<ProbeResultStream>, index: u32) -> (r: Option<usize>)
    ensures
        ({
            let all = crate::probe::video_streams(streams@, CodecType::Subtitle);
            match r {
                Some(i) => crate::probe::first_position(all, index, i as int),
                None => !crate::probe::has_video_at(all, index),
            }
        }),
{
    let mut found: Option<usize> = None;
    let mut count: usize = 0;
    for i in 0..streams.len()
        invariant
            count <= i,
            count == crate::probe::video_streams(
                streams@.take(i as int),
                CodecType::Subtitle,
            ).len(),
            ({
                let all = crate::probe::video_streams(
                    streams@.take(i as int),
                    CodecType::Subtitle,
                );
                match found {
                    Some(k) => crate::probe::first_position(all, index, k as int),
                    None => !crate::probe::has_video_at(all, index),
                }
            }),
    {
        let ghost before = crate::probe::video_streams(
            streams@.take(i as int),
            CodecType::Subtitle,
        );
        let ghost after = crate::probe::video_streams(streams@.take(i + 1), CodecType::Subtitle);
        assert(streams@.take(i + 1).drop_last() =~= streams@.take(i as int));
        if let ProbeResultStream::Video(v) = &streams[i] {
            if v.codec_type == CodecType::Subtitle {
                assert(after == before.push(*v));
                assert(forall|j: int| 0 <= j < count ==> after[j] == before[j]);
                assert(after[count as int] == *v);
                if found.is_none() && v.stream_index == index {
                    found = Some(count);
                }
                count = count + 1;
            }
        }
    }
    assert(streams@.take(streams@.len() as int) =~= streams@);
    found
}

/// Whether this is what becomes of a plan to take a subtitle out of an input.
pub open spec fn plans_conversion(
    input: ProbedInput,
    subtitle_stream: ProbeResultVideoStream,
    r: Result<VttConversion, FFPipelineError>,
) -> bool {
    let all = crate::probe::video_streams(input.probe_result.streams@, CodecType::Subtitle);
    match r {
        Ok(plan) => conversion_path(input.input_source) == Some(plan.input_path@)
            && crate::probe::first_position(
            all,
            subtitle_stream.stream_index,
            plan.subtitle_index as int,
        ),
        Err(e) => e == FFPipelineError::FailedToConvertSubtitle && (conversion_path(
            input.input_source,
        ) is None || !crate::probe::has_video_at(all, subtitle_stream.stream_index)),
    }
}

/// Plans to take a subtitle out of an input; an error where the source does not allow it or
/// the subtitle is not in it.
pub fn plan_conversion(input: &ProbedInput, subtitle_stream: &ProbeResultVideoStream) -> (r: Result<
    VttConversion,
    FFPipelineError,
>)
    ensures
        ({
            let all = crate::probe::video_streams(
                input.probe_result.streams@,
                CodecType::Subtitle,
            );
            match r {
                Ok(plan) => conversion_path(input.input_source) == Some(plan.input_path@)
                    && crate::probe::first_position(
                    all,
                    subtitle_stream.stream_index,
                    plan.subtitle_index as int,
                ),
                Err(e) => e == FFPipelineError::FailedToConvertSubtitle && (conversion_path(
                    input.input_source,
                ) is None || !crate::probe::has_video_at(all, subtitle_stream.stream_index)),
            }
        }),
        plans_conversion(*input, *subtitle_stream, r),
{
    let input_path = match &input.input_source {
        InputSource::Local(local) => local.path.clone(),
        InputSource::Http(http) => http.uri.clone(),
        InputSource::Rtmp(rtmp) => rtmp.uri.clone(),
        InputSource::Rtsp(_) => return Err(FFPipelineError::FailedToConvertSubtitle),
        InputSource::Lavfi(_) => return Err(FFPipelineError::FailedToConvertSubtitle),
    };
    match subtitle_position(&input.probe_result.streams, subtitle_stream.stream_index) {
        Some(subtitle_index) => Ok(VttConversion { input_path, subtitle_index }),
        None => Err(FFPipelineError::FailedToConvertSubtitle),
    }
}

/// The arguments with which ffmpeg writes a subtitle of a source to a WebVTT file.
pub open spec fn conversion_args(
    source: InputSource,
    path: Seq<char>,
    subtitle_index: nat,
    file_name: Seq<char>,
) -> Seq<Seq<char>> {
    seq!["-nostdin"@, "-hide_banner"@, "-loglevel"@, "error"@] + source.input_args() + seq![
        "-i"@,
        path,
        "-map"@,
        "0:s:"@ + crate::text::decimal(subtitle_index),
        "-c:s"@,
        "webvtt"@,
        "-y"@,
        file_name,
    ]
}

impl VttConversion {
    /// The arguments with which ffmpeg writes the subtitle to a WebVTT file.
    pub fn args(&self, input: &ProbedInput, file_name: &str) -> (r: ArgVec)
        ensures
            crate::text::strings_view(r@) == seq![
                "-nostdin"@,
                "-hide_banner"@,
                "-loglevel"@,
                "error"@,
            ] + input.input_source.input_args() + seq![
                "-i"@,
                self.input_path@,
                "-map"@,
                "0:s:"@ + crate::text::decimal(self.subtitle_index as nat),
                "-c:s"@,
                "webvtt"@,
                "-y"@,
                file_name@,
            ],
            crate::text::strings_view(r@) == conversion_args(
                input.input_source,
                self.input_path@,
                self.subtitle_index as nat,
                file_name@,
            ),
    {
        let mut args: ArgVec = Vec::new();
        push_arg(&mut args, "-nostdin");
        push_arg(&mut args, "-hide_banner");
        push_arg(&mut args, "-loglevel");
        push_arg(&mut args, "error");
        let source_args = input.input_source.args_for_input();
        extend_args(&mut args, source_args);
        let ghost before = crate::text::strings_view(args@);
        assert(before =~= seq!["-nostdin"@, "-hide_banner"@, "-loglevel"@, "error"@]
            + input.input_source.input_args());
        let mut stream = "0:s:".to_owned();
        stream.append(decimal_string(self.subtitle_index as u64).as_str());
        let mut last: ArgVec = Vec::new();
        push_arg(&mut last, "-i");
        push_arg(&mut last, self.input_path.as_str());
        push_arg(&mut last, "-map");
        push_arg(&mut last, stream.as_str());
        push_arg(&mut last, "-c:s");
        push_arg(&mut last, "webvtt");
        push_arg(&mut last, "-y");
        push_arg(&mut last, file_name);
        assert(crate::text::strings_view(last@) =~= seq![
            "-i"@,
            self.input_path@,
            "-map"@,
            "0:s:"@ + crate::text::decimal(self.subtitle_index as nat),
            "-c:s"@,
            "webvtt"@,
            "-y"@,
            file_name@,
        ]);
        extend_args(&mut args, last);
        args
    }
}

/// A cue has the view of its times and of its text, and a list of cues the views of its cues,
/// one for one.
pub proof fn law_views_of_cues(v: Seq<Cue>)
    ensures
        cues_view(v).len() == v.len(),
        forall|i: int|
            0 <= i < v.len() ==> {
                &&& (#[trigger] cues_view(v)[i]).start == v[i].start
                &&& cues_view(v)[i].end == v[i].end
                &&& cues_view(v)[i].text == v[i].text@
            },
{
}

/// A timestamp without hours denotes the same time as with no hours written before it, in
/// as many zeros as one likes.
pub proof fn law_hours_may_be_left_out(
    s: Seq<char>,
    zeros: Seq<char>,
    read: spec_fn(Seq<char>) -> Option<Duration>,
)
    requires
        crate::text::split(s, ':').len() == 2,
        zeros.len() > 0,
        forall|i: int| 0 <= i < zeros.len() ==> #[trigger] zeros[i] == '0',
    ensures
        timestamp_fields(zeros.push(':') + s) == timestamp_fields(s),
        timestamp(zeros.push(':') + s, read) == timestamp(s, read),
        timestamp_fits(zeros.push(':') + s, read) == timestamp_fits(s, read),
{
    assert(!zeros.contains(':'));
    crate::text::law_split_whole(zeros, ':');
    crate::text::law_split_joined(zeros, s, ':');
    let parts = crate::text::split(s, ':');
    assert(crate::text::split(zeros.push(':') + s, ':') =~= seq![zeros, parts[0], parts[1]]);
    lemma_zeros_denote_nothing(zeros);
}

/// A text of zeros denotes zero.
proof fn lemma_zeros_denote_nothing(zeros: Seq<char>)
    requires
        forall|i: int| 0 <= i < zeros.len() ==> #[trigger] zeros[i] == '0',
    ensures
        crate::text::digits_value(zeros) == 0,
        zeros.len() > 0 ==> crate::text::parsed_u64(zeros) == Some(0u64),
    decreases zeros.len(),
{
    if zeros.len() > 0 {
        lemma_zeros_denote_nothing(zeros.drop_last());
        assert(zeros.last() == zeros[zeros.len() - 1]);
        assert(zeros[0] == '0');
    }
}

/// Hours, minutes and seconds with colons between them denote their sum: sixty seconds for
/// every minute and sixty minutes for every hour. The sum can be represented exactly where
/// its whole seconds fit in 64 bits.
pub proof fn law_timestamps_add_up(
    hours: Seq<char>,
    minutes: Seq<char>,
    seconds: Seq<char>,
    h: u64,
    m: u64,
    d: Duration,
    read: spec_fn(Seq<char>) -> Option<Duration>,
)
    requires
        !hours.contains(':'),
        !minutes.contains(':'),
        !seconds.contains(':'),
        crate::text::parsed_u64(hours) == Some(h),
        crate::text::parsed_u64(minutes) == Some(m),
        read(seconds) == Some(d),
        d.nanos < 1_000_000_000,
    ensures
        ({
            let text = hours.push(':') + (minutes.push(':') + seconds);
            let short = minutes.push(':') + seconds;
            let whole = h * 3600 + m * 60 + d.secs;
            let short_whole = m * 60 + d.secs;
            &&& timestamp_fits(text, read) <==> whole <= u64::MAX
            &&& whole <= u64::MAX ==> timestamp(text, read) == Some(
                Duration { secs: whole as u64, nanos: d.nanos },
            )
            &&& timestamp_fits(short, read) <==> short_whole <= u64::MAX
            &&& short_whole <= u64::MAX ==> timestamp(short, read) == Some(
                Duration { secs: short_whole as u64, nanos: d.nanos },
            )
        }),
{
    crate::text::law_split_whole(hours, ':');
    crate::text::law_split_whole(minutes, ':');
    crate::text::law_split_whole(seconds, ':');
    crate::text::law_split_joined(minutes, seconds, ':');
    crate::text::law_split_joined(hours, minutes.push(':') + seconds, ':');
    let short = minutes.push(':') + seconds;
    assert(crate::text::split(short, ':') =~= seq![minutes, seconds]);
    assert(crate::text::split(hours.push(':') + short, ':') =~= seq![hours, minutes, seconds]);
}

/// A text denotes a timestamp only where it has one colon or two, numbers before the last of
/// them and seconds behind it that can be read.
pub proof fn law_what_is_no_timestamp(
    s: Seq<char>,
    read: spec_fn(Seq<char>) -> Option<Duration>,
)
    ensures
        ({
            let parts = crate::text::split(s, ':');
            let n = parts.len() as int;
            timestamp(s, read) is Some <==> (n == 2 || n == 3) && read(parts[n - 1]) is Some
                && crate::text::parsed_u64(parts[n - 2]) is Some && crate::text::parsed_u64(
                parts[0],
            ) is Some
        }),
{
}

/// A line is parted at the only arrow in it; without an arrow, and with another one behind
/// the first, it is no timing line.
pub proof fn law_lines_part_at_their_arrow(first: Seq<char>, second: Seq<char>)
    requires
        crate::text::first_at(first + " --> "@ + second, " --> "@, first.len() as int),
    ensures
        !crate::text::contains(second, " --> "@) ==> timing_halves(first + " --> "@ + second)
            == Some((first, second)),
        crate::text::contains(second, " --> "@) ==> timing_halves(first + " --> "@ + second)
            is None,
        !crate::text::contains(second, " --> "@) ==> timing_halves(second) is None,
{
    reveal_strlit(" --> ");
    let arrow = " --> "@;
    let line = first + arrow + second;
    let n = first.len() as int;
    let i = choose|i: int| crate::text::first_at(line, arrow, i);
    assert(crate::text::first_at(line, arrow, i));
    assert(i == n) by {
        if i < n {
            assert(!crate::text::occurs_at(line, arrow, i));
        }
        if n < i {
            assert(!crate::text::occurs_at(line, arrow, n));
        }
    }
    assert(crate::text::occurs_at(line, arrow, n));
    assert(line.skip(n + arrow.len()) =~= second);
    assert(line.take(n) =~= first);
}

/// A timing line gives the time of its first half as the start and that of its second half
/// as the end, and is one only where both denote a time.
pub proof fn law_timing_lines_give_both_times(
    line: Seq<char>,
    first: Seq<char>,
    second: Seq<char>,
    read: spec_fn(Seq<char>) -> Option<Duration>,
)
    requires
        timing_halves(line) == Some((first, second)),
    ensures
        timing(line, read) is Some <==> timestamp(first, read) is Some && timestamp(second, read)
            is Some,
        timing(line, read) matches Some((start, end)) ==> timestamp(first, read) == Some(start)
            && timestamp(second, read) == Some(end),
        timing_fits(line, read) <==> timestamp_fits(first, read) && (timestamp(first, read) is Some
            ==> timestamp_fits(second, read)),
{
}

/// Until a line begins with the signature nothing happens; that line is followed by the body.
/// Between cues a line that is no timing line changes nothing, and a timing line begins a cue
/// with its times and no text.
pub proof fn law_lines_outside_of_cues(
    progress: Progress,
    line: Seq<char>,
    read: spec_fn(Seq<char>) -> Option<Duration>,
)
    requires
        progress.state != ParseState::Cue,
    ensures
        ({
            let after = progress.after(line, read);
            let signature = crate::text::starts_with(line, "WEBVTT"@);
            &&& after.cues == progress.cues
            &&& after.text == progress.text
            &&& progress.state == ParseState::Header ==> (after.state == ParseState::Body
                <==> signature) && (!signature ==> after == progress)
            &&& progress.state == ParseState::Body && timing(line, read) is None ==> after
                == progress
            &&& progress.state == ParseState::Body ==> (timing(line, read) matches Some((s, e))
                ==> after.state == ParseState::Cue && after.start == s && after.end == e)
        }),
{
}

/// A line of a note or a style within a cue changes nothing, wherever it stands.
pub proof fn law_notes_are_left_out(
    progress: Progress,
    before: Seq<Seq<char>>,
    note: Seq<char>,
    behind: Seq<Seq<char>>,
    read: spec_fn(Seq<char>) -> Option<Duration>,
)
    requires
        progress.after_all(before, read).state == ParseState::Cue,
        crate::text::starts_with(note, "NOTE"@) || crate::text::starts_with(note, "STYLE"@),
    ensures
        progress.after_all(before + seq![note] + behind, read) == progress.after_all(
            before + behind,
            read,
        ),
{
    reveal_strlit("NOTE");
    reveal_strlit("STYLE");
    lemma_after_joined(progress, before + seq![note], behind, read);
    lemma_after_joined(progress, before, seq![note], read);
    lemma_after_joined(progress, before, behind, read);
    lemma_one_line(progress.after_all(before, read), note, read);
}

/// A file with a signature, a timing line and lines of text that are neither empty nor notes
/// nor styles has one cue. It has the times of the timing line and all of the lines, one
/// below the other, less white space at the ends.
pub proof fn law_file_of_one_cue(
    body: Seq<char>,
    signature: Seq<char>,
    timing_line: Seq<char>,
    text_lines: Seq<Seq<char>>,
    start: Duration,
    end: Duration,
    read: spec_fn(Seq<char>) -> Option<Duration>,
)
    requires
        crate::text::lines(body) == seq![signature, timing_line] + text_lines,
        crate::text::starts_with(signature, "WEBVTT"@),
        timing(timing_line, read) == Some((start, end)),
        forall|i: int|
            0 <= i < text_lines.len() ==> {
                &&& (#[trigger] text_lines[i]).len() > 0
                &&& !crate::text::starts_with(text_lines[i], "NOTE"@)
                &&& !crate::text::starts_with(text_lines[i], "STYLE"@)
            },
    ensures
        vtt_cues(body, read) == seq![
            CueView {
                start,
                end,
                text: crate::text::trim(
                    text_lines.map_values(|line: Seq<char>| line.push('\n')).flatten_alt(),
                ),
            },
        ],
{
    let all = seq![signature, timing_line] + text_lines;
    lemma_after_joined(Progress::initial(), seq![signature, timing_line], text_lines, read);
    lemma_after_joined(Progress::initial(), seq![signature], seq![timing_line], read);
    assert(seq![signature] + seq![timing_line] =~= seq![signature, timing_line]);
    lemma_one_line(Progress::initial(), signature, read);
    let begun = Progress::initial().after(signature, read);
    lemma_one_line(begun, timing_line, read);
    let opened = begun.after(timing_line, read);
    lemma_text_lines(opened, text_lines, read);
    lemma_kept_lines_are_all(text_lines);
    let last = Progress::initial().after_all(all, read);
    assert(opened.text + kept_lines(text_lines) =~= kept_lines(text_lines));
    assert(vtt_cues(body, read) =~= seq![
        CueView { start, end, text: crate::text::trim(kept_lines(text_lines)) },
    ]);
}

/// Without notes and styles all lines are kept.
proof fn lemma_kept_lines_are_all(lines: Seq<Seq<char>>)
    requires
        forall|i: int|
            0 <= i < lines.len() ==> {
                &&& !crate::text::starts_with(#[trigger] lines[i], "NOTE"@)
                &&& !crate::text::starts_with(lines[i], "STYLE"@)
            },
    ensures
        kept_lines(lines) == lines.map_values(|line: Seq<char>| line.push('\n')).flatten_alt(),
    decreases lines.len(),
{
    let ended = lines.map_values(|line: Seq<char>| line.push('\n'));
    if lines.len() > 0 {
        let before = lines.drop_last();
        assert(lines.last() == lines[lines.len() - 1]);
        lemma_kept_lines_are_all(before);
        assert(ended.drop_last() =~= before.map_values(|line: Seq<char>| line.push('\n')));
        assert(ended.last() == lines.last().push('\n'));
        assert(kept_lines(lines) =~= ended.flatten_alt());
    } else {
        assert(kept_lines(lines) =~= ended.flatten_alt());
    }
}

/// Written seconds are two digits for the seconds beyond the minute, a point and three digits
/// for the milliseconds beyond the second.
pub proof fn law_seconds_are_written(d: Duration)
    requires
        d.nanos < 1_000_000_000,
    ensures
        ({
            let text = seconds_text(d);
            &&& text.len() == 6
            &&& text[2] == '.'
            &&& crate::text::all_digits(text.take(2))
            &&& crate::text::all_digits(text.skip(3))
            &&& crate::text::digits_value(text.take(2)) == d.secs % 60
            &&& crate::text::digits_value(text.skip(3)) == d.nanos / 1_000_000
        }),
{
    let whole = (d.secs % 60) as nat;
    let millis = (d.nanos / 1_000_000) as nat;
    crate::text::lemma_two_digits(whole);
    crate::text::lemma_three_digits(millis);
    crate::text::law_zero_padded_round_trip(whole, 2);
    crate::text::law_zero_padded_round_trip(millis, 3);
    assert(seconds_text(d).take(2) =~= crate::text::zero_padded(whole, 2));
    assert(seconds_text(d).skip(3) =~= crate::text::zero_padded(millis, 3));
}

/// Subtitles can be taken out of files and out of what is behind HTTP and RTMP, by the path or
/// the address of the source, and out of nothing else.
pub proof fn law_where_subtitles_can_be_taken_from(source: InputSource)
    ensures
        match source {
            InputSource::Local(local) => conversion_path(source) == Some(local.path@),
            InputSource::Http(http) => conversion_path(source) == Some(http.uri@),
            InputSource::Rtmp(rtmp) => conversion_path(source) == Some(rtmp.uri@),
            InputSource::Rtsp(_) => conversion_path(source) is None,
            InputSource::Lavfi(_) => conversion_path(source) is None,
        },
{
}

/// The streams of two lists, one behind the other, are those of the first and then those of
/// the second, so the position of a subtitle counts the subtitles before it and no others.
pub proof fn law_streams_are_listed_in_order(
    a: Seq<ProbeResultStream>,
    b: Seq<ProbeResultStream>,
    kind: CodecType,
)
    ensures
        crate::probe::video_streams(a + b, kind) == crate::probe::video_streams(a, kind)
            + crate::probe::video_streams(b, kind),
        crate::probe::audio_streams(a + b) == crate::probe::audio_streams(a)
            + crate::probe::audio_streams(b),
    decreases b.len(),
{
    if b.len() == 0 {
        assert(a + b =~= a);
        assert(crate::probe::video_streams(a, kind) + crate::probe::video_streams(b, kind)
            =~= crate::probe::video_streams(a, kind));
        assert(crate::probe::audio_streams(a) + crate::probe::audio_streams(b)
            =~= crate::probe::audio_streams(a));
    } else {
        law_streams_are_listed_in_order(a, b.drop_last(), kind);
        assert((a + b).drop_last() =~= a + b.drop_last());
        assert((a + b).last() == b.last());
        assert(crate::probe::video_streams(a + b, kind) =~= crate::probe::video_streams(a, kind)
            + crate::probe::video_streams(b, kind));
        assert(crate::probe::audio_streams(a + b) =~= crate::probe::audio_streams(a)
            + crate::probe::audio_streams(b));
    }
}

/// The first position of a stream with an index holds such a stream, and no position before
/// it does.
pub proof fn law_first_position_is_first(
    all: Seq<ProbeResultVideoStream>,
    index: u32,
    i: int,
    j: int,
)
    requires
        crate::probe::first_position(all, index, i),
        0 <= j < all.len(),
        all[j].stream_index == index,
    ensures
        0 <= i < all.len(),
        all[i].stream_index == index,
        i <= j,
{
}

/// The fields of a timestamp have the view of their hours, their minutes and the text of
/// their seconds.
pub proof fn law_views_of_fields(fields: TimestampFields)
    ensures
        fields@.hours == fields.hours,
        fields@.minutes == fields.minutes,
        fields@.seconds == fields.seconds@,
{
}

/// Only the timestamps between cues have to be represented: those before the signature and
/// those in the text of a cue do not matter.
pub proof fn law_only_timing_lines_must_fit(
    progress: Progress,
    line: Seq<char>,
    rest: Seq<Seq<char>>,
    read: spec_fn(Seq<char>) -> Option<Duration>,
)
    ensures
        progress.fits(Seq::empty(), read),
        progress.state != ParseState::Body ==> progress.fits(seq![line] + rest, read)
            == progress.after(line, read).fits(rest, read),
        progress.state == ParseState::Body && timing_halves(line) is None ==> progress.fits(
            seq![line] + rest,
            read,
        ) == progress.fits(rest, read),
        progress.state == ParseState::Body && !timing_fits(line, read) ==> !progress.fits(
            seq![line] + rest,
            read,
        ),
        progress.state == ParseState::Body && timing_fits(line, read) ==> progress.fits(
            seq![line] + rest,
            read,
        ) == progress.after(line, read).fits(rest, read),
{
    let lines = seq![line] + rest;
    assert(lines.first() == line);
    assert(lines.drop_first() =~= rest);
}

/// The source is opened with its own arguments before its path, the subtitle is told by its
/// position among the subtitles and goes to the file as WebVTT, which comes last.
pub proof fn law_conversion_arguments(
    source: InputSource,
    path: Seq<char>,
    subtitle_index: nat,
    file_name: Seq<char>,
)
    ensures
        ({
            let args = conversion_args(source, path, subtitle_index, file_name);
            let own = source.input_args();
            let n = args.len() as int;
            &&& n == own.len() + 12
            &&& args.take(4) == seq!["-nostdin"@, "-hide_banner"@, "-loglevel"@, "error"@]
            &&& args.subrange(4, n - 8) == own
            &&& args[n - 8] == "-i"@ && args[n - 7] == path
            &&& args[n - 6] == "-map"@ && args[n - 5] == "0:s:"@ + crate::text::decimal(
                subtitle_index,
            )
            &&& args[n - 4] == "-c:s"@ && args[n - 3] == "webvtt"@
            &&& args[n - 2] == "-y"@ && args[n - 1] == file_name
        }),
{
    let args = conversion_args(source, path, subtitle_index, file_name);
    assert(args.take(4) =~= seq!["-nostdin"@, "-hide_banner"@, "-loglevel"@, "error"@]);
    assert(args.subrange(4, args.len() - 8) =~= source.input_args());
}

/// A subtitle is taken out of an input exactly where it is a subtitle stream of it and the
/// source allows it: it is then the one at that position among the subtitles, and the source
/// is opened by its own path or address.
pub proof fn law_when_subtitles_are_taken_out(
    input: ProbedInput,
    wanted: ProbeResultVideoStream,
    r: Result<VttConversion, FFPipelineError>,
    stream: ProbeResultVideoStream,
)
    requires
        plans_conversion(input, wanted, r),
        stream.codec_type == CodecType::Subtitle,
        stream.stream_index == wanted.stream_index,
        input.probe_result.streams@.contains(ProbeResultStream::Video(stream)),
    ensures
        r is Ok <==> input.input_source is Local || input.input_source is Http
            || input.input_source is Rtmp,
        r is Err ==> r->Err_0 == FFPipelineError::FailedToConvertSubtitle,
        r matches Ok(plan) ==> {
            let all = crate::probe::video_streams(
                input.probe_result.streams@,
                CodecType::Subtitle,
            );
            &&& plan.subtitle_index < all.len()
            &&& all[plan.subtitle_index as int].stream_index == wanted.stream_index
            &&& conversion_path(input.input_source) == Some(plan.input_path@)
        },
{
    let all = crate::probe::video_streams(input.probe_result.streams@, CodecType::Subtitle);
    crate::input::law_picture_streams_are_listed(
        input.probe_result.streams@,
        CodecType::Subtitle,
        stream,
    );
    let k = choose|k: int| 0 <= k < all.len() && all[k] == stream;
    assert(all[k].stream_index == wanted.stream_index);
}

/// A subtitle that the input does not have cannot be taken out of it.
pub proof fn law_missing_subtitles_are_an_error(
    input: ProbedInput,
    wanted: ProbeResultVideoStream,
    r: Result<VttConversion, FFPipelineError>,
)
    requires
        plans_conversion(input, wanted, r),
        forall|stream: ProbeResultVideoStream|
            #[trigger] input.probe_result.streams@.contains(ProbeResultStream::Video(stream))
                && stream.codec_type == CodecType::Subtitle ==> stream.stream_index
                != wanted.stream_index,
    ensures
        r is Err,
{
    if let Ok(plan) = r {
        let all = crate::probe::video_streams(input.probe_result.streams@, CodecType::Subtitle);
        let stream = all[plan.subtitle_index as int];
        assert(all.contains(stream));
        crate::input::law_picture_streams_are_listed(
            input.probe_result.streams@,
            CodecType::Subtitle,
            stream,
        );
    }
}

} // verus!
