//! A channel session: its clock, its state and the timing of what it plays.

use vstd::prelude::*;

use crate::clock::{whole_milliseconds, wrapping_u64, Duration, OffsetDateTime};
use crate::config::ChannelConfig;
use crate::error::ChannelError;
use crate::playout::{PlayoutItem, PlayoutItemSource, SourceView};
use crate::web_vtt::Cue;

verus! {

broadcast use vstd::string::group_string_axioms;

/// Whether the next item starts where the session is or at its beginning, and whether it
/// may be transcoded ahead of time.
#[derive(Debug, Copy, Clone, PartialEq, Eq, Structural)]
pub enum ChannelSessionState {
    SeekAndWorkAhead,
    ZeroAndWorkAhead,
    SeekAndRealtime,
    ZeroAndRealtime,
}

impl ChannelSessionState {
    /// Whether the next item starts at its beginning.
    pub open spec fn from_zero(self) -> bool {
        self == ChannelSessionState::ZeroAndWorkAhead || self
            == ChannelSessionState::ZeroAndRealtime
    }

    /// Whether the next item is transcoded no faster than it is watched.
    pub open spec fn is_realtime(self) -> bool {
        self == ChannelSessionState::SeekAndRealtime || self
            == ChannelSessionState::ZeroAndRealtime
    }

    /// The state of this starting point and this pace.
    pub open spec fn of(from_zero: bool, realtime: bool) -> Self {
        if from_zero {
            if realtime {
                ChannelSessionState::ZeroAndRealtime
            } else {
                ChannelSessionState::ZeroAndWorkAhead
            }
        } else if realtime {
            ChannelSessionState::SeekAndRealtime
        } else {
            ChannelSessionState::SeekAndWorkAhead
        }
    }

    /// The name of the state.
    pub fn name(&self) -> (r: &'static str)
        ensures
            r@ == match *self {
                ChannelSessionState::SeekAndWorkAhead => "SeekAndWorkAhead"@,
                ChannelSessionState::ZeroAndWorkAhead => "ZeroAndWorkAhead"@,
                ChannelSessionState::SeekAndRealtime => "SeekAndRealtime"@,
                ChannelSessionState::ZeroAndRealtime => "ZeroAndRealtime"@,
            },
    {
        match self {
            ChannelSessionState::SeekAndWorkAhead => "SeekAndWorkAhead",
            ChannelSessionState::ZeroAndWorkAhead => "ZeroAndWorkAhead",
            ChannelSessionState::SeekAndRealtime => "SeekAndRealtime",
            ChannelSessionState::ZeroAndRealtime => "ZeroAndRealtime",
        }
    }

    /// The same starting point at the given pace: the session accelerates or throttles.
    pub fn at_pace(self, realtime: bool) -> (r: Self)
        ensures
            r == Self::of(self.from_zero(), realtime),
    {
        if !realtime {
            match self {
                ChannelSessionState::SeekAndRealtime => ChannelSessionState::SeekAndWorkAhead,
                ChannelSessionState::ZeroAndRealtime => ChannelSessionState::ZeroAndWorkAhead,
                _ => self,
            }
        } else {
            match self {
                ChannelSessionState::SeekAndWorkAhead => ChannelSessionState::SeekAndRealtime,
                ChannelSessionState::ZeroAndWorkAhead => ChannelSessionState::ZeroAndRealtime,
                _ => self,
            }
        }
    }

    /// The state after an item: a session that worked ahead and did not complete the item
    /// seeks into it in realtime next; any other starts the next item at its beginning, at
    /// the pace it had.
    pub open spec fn next(self, is_complete: bool) -> Self {
        if !self.is_realtime() && !is_complete {
            ChannelSessionState::SeekAndRealtime
        } else {
            Self::of(true, self.is_realtime())
        }
    }
}

/// Whether a name has one component on every platform.
pub open spec fn is_plain_name(name: Seq<char>) -> bool {
    &&& name.len() > 0
    &&& !name.contains('/')
    &&& !name.contains('\\')
    &&& !name.contains(':')
}

/// Whether a folder is written in the form that keeps a system from interpreting it.
pub open spec fn is_verbatim(folder: Seq<char>) -> bool {
    folder.len() >= 2 && folder[0] == '\\' && folder[1] == '\\'
}

/// Whether `path` is `name` in `folder`: the folder, a separator where there is a folder
/// that does not end in one, and the name. Whether a backslash or a colon at the end of the
/// folder counts as a separator is left to the platform.
pub open spec fn in_folder(folder: Seq<char>, name: Seq<char>, path: Seq<char>) -> bool {
    exists|separator: Seq<char>|
        {
            &&& path == #[trigger] (folder + separator) + name
            &&& separator.len() == 0 || separator == seq!['/'] || separator == seq!['\\']
            &&& folder.len() == 0 || folder.last() == '/' ==> separator.len() == 0
            &&& folder.len() > 0 && folder.last() != '/' && folder.last() != '\\' && folder.last()
                != ':' ==> separator.len() == 1
        }
}

/// `std::path::Path::join` on text: the folder with the name adjoined to it, which has a
/// separator of the platform between them where there is a folder that does not end in one;
/// a folder that is empty or ends in a slash gets none. Nothing is
/// said of a name that is not a single component, which may replace the folder, nor of a
/// folder that begins with two backslashes, which some platforms normalise.
#[verifier::external_body]
fn join_path(folder: &str, name: &str) -> (r: String)
    ensures
        is_plain_name(name@) && !is_verbatim(folder@) ==> in_folder(folder@, name@, r@),
{
    std::path::Path::new(folder).join(name).to_string_lossy().into_owned()
}

/// The files that a session writes.
#[derive(Debug)]
pub struct OutputPaths {
    /// The playlist that viewers watch.
    pub generated_playlist_file: String,
    /// The playlist of subtitles that viewers watch.
    pub generated_subtitle_playlist_file: String,
    /// The playlist that ffmpeg writes.
    pub ffmpeg_playlist_file: String,
    /// The pattern of the names of segments.
    pub output_segment_template: String,
    /// The file that tells that the output can be watched.
    pub ready_file: String,
}

impl OutputPaths {
    /// Whether all files lie in this folder.
    pub open spec fn lie_in(&self, folder: Seq<char>, ready_file_name: Seq<char>) -> bool {
        &&& in_folder(folder, "live.m3u8"@, self.generated_playlist_file@)
        &&& in_folder(folder, "live_sub.m3u8"@, self.generated_subtitle_playlist_file@)
        &&& in_folder(folder, "ffmpeg.m3u8"@, self.ffmpeg_playlist_file@)
        &&& in_folder(folder, "live%06d.ts"@, self.output_segment_template@)
        &&& is_plain_name(ready_file_name) ==> in_folder(
            folder,
            ready_file_name,
            self.ready_file@,
        )
    }

    /// The files of a session with this output folder.
    pub fn new(folder: &str, ready_file_name: &str) -> (r: Self)
        ensures
            !is_verbatim(folder@) ==> r.lie_in(folder@, ready_file_name@),
    {
        proof {
            reveal_strlit("live.m3u8");
            reveal_strlit("live_sub.m3u8");
            reveal_strlit("ffmpeg.m3u8");
            reveal_strlit("live%06d.ts");
        }
        OutputPaths {
            generated_playlist_file: join_path(folder, "live.m3u8"),
            generated_subtitle_playlist_file: join_path(folder, "live_sub.m3u8"),
            ffmpeg_playlist_file: join_path(folder, "ffmpeg.m3u8"),
            output_segment_template: join_path(folder, "live%06d.ts"),
            ready_file: join_path(folder, ready_file_name),
        }
    }
}

/// A channel that is being watched.
pub struct ChannelSession {
    pub channel_config: ChannelConfig,
    pub paths: OutputPaths,
    pub ffmpeg_path: String,
    pub ffprobe_path: String,
    /// What accelerates the pipelines, once that is known.
    pub hw_accel: Option<String>,
    /// Up to when there is output.
    pub transcoded_until: OffsetDateTime,
    /// How far the clock of the channel is ahead of the wall clock, in nanoseconds.
    pub start_time_offset: i128,
    pub state: ChannelSessionState,
    /// The subtitles of an item, by its identifier.
    pub cached_subtitles: Option<(String, Vec<Cue>)>,
}

/// What happened last in a running session.
pub enum RunEvent {
    /// The session was started.
    Started,
    /// A part of an item was transcoded.
    Transcoded,
    /// It was looked whether the viewers have been gone for too long.
    Checked { timed_out: bool },
    /// The wall clock was read.
    Clock { now: OffsetDateTime },
    /// The session has slept.
    Slept,
    /// The viewers left while the session slept.
    ViewersLeft,
}

/// What a running session does next.
pub enum RunAction {
    /// Transcode the current item.
    Transcode { realtime: bool },
    /// Look whether the viewers have been gone for too long.
    CheckViewers,
    /// Read the wall clock.
    ReadClock,
    /// Sleep for so many seconds.
    Sleep { seconds: u64 },
    /// End with this error.
    Fail(ChannelError),
}

/// What the upkeep of the playlists does after an update.
#[derive(Debug, Copy, Clone, PartialEq, Eq, Structural)]
pub enum PlaylistAction {
    /// Tell the session that its viewers are gone, and end.
    NotifyAndStop,
    /// Sleep for so many seconds, and update again.
    Sleep { seconds: u64 },
}

/// What the upkeep of the playlists does after an update: it ends once the viewers have been
/// gone for too long, and otherwise goes on after two seconds.
pub fn playlist_step(timed_out: bool) -> (r: PlaylistAction)
    ensures
        r == (if timed_out {
            PlaylistAction::NotifyAndStop
        } else {
            PlaylistAction::Sleep { seconds: 2 }
        }),
{
    if timed_out {
        PlaylistAction::NotifyAndStop
    } else {
        PlaylistAction::Sleep { seconds: 2 }
    }
}

/// What to do about the output folder before a session starts.
pub struct FolderPlan {
    /// Remove the file that tells that the output can be watched.
    pub remove_ready_file: bool,
    /// Empty the folder, or else create it.
    pub empty_folder: bool,
}

/// Plans how to prepare the output folder: a ready file that is there is removed, and a
/// folder that is there is emptied rather than created.
pub fn plan_output_folder(ready_file_exists: bool, folder_exists: bool) -> (r: FolderPlan)
    ensures
        r.remove_ready_file == ready_file_exists,
        r.empty_folder == folder_exists,
{
    FolderPlan { remove_ready_file: ready_file_exists, empty_folder: folder_exists }
}

/// Which track of an item is meant.
#[derive(Debug, Copy, Clone, PartialEq, Eq, Structural)]
pub enum TrackKind {
    Audio,
    Video,
    Subtitle,
}

/// The part of a source that is played, and how far the item is then.
#[derive(Debug, Copy, Clone)]
pub struct TimingResult {
    pub in_point: Duration,
    pub out_point: Duration,
    /// Up to when there will be output.
    pub finish: OffsetDateTime,
    /// Whether the item has then been played to its end.
    pub is_complete: bool,
}

/// The times by which an item is played.
pub struct TimingInput {
    pub start: OffsetDateTime,
    pub finish: OffsetDateTime,
    /// Where in the source the item begins, in milliseconds.
    pub in_point_ms: u64,
    /// Where in the source the item ends, in milliseconds, where that is given.
    pub out_point_ms: Option<u64>,
    /// Up to when there is output.
    pub transcoded_until: OffsetDateTime,
    /// The longest part that is transcoded ahead of time, in seconds.
    pub limit_seconds: int,
    pub start_at_zero: bool,
    pub realtime: bool,
    pub is_live: bool,
}

impl TimingInput {
    /// The moments are in range.
    pub open spec fn wf(self) -> bool {
        self.start.wf() && self.finish.wf() && self.transcoded_until.wf() && 0
            <= self.limit_seconds <= 11 * u32::MAX
    }

    /// The length of the item in milliseconds, as 64 unsigned bits hold it.
    pub open spec fn item_millis(self) -> u64 {
        crate::clock::wrap_u64(
            crate::clock::whole_millis(self.finish.unix_nanos - self.start.unix_nanos),
        )
    }

    /// The moment from which the item is played.
    pub open spec fn now(self) -> OffsetDateTime {
        if self.start_at_zero {
            self.start
        } else {
            self.transcoded_until
        }
    }

    /// How much of the item has been played, in milliseconds.
    pub open spec fn progress_millis(self) -> int {
        let millis = crate::clock::whole_millis(self.now().unix_nanos - self.start.unix_nanos);
        if millis > 0 {
            millis
        } else {
            0
        }
    }

    /// How much of the item is left, in milliseconds, as 64 unsigned bits hold it.
    pub open spec fn left_millis(self) -> u64 {
        crate::clock::wrap_u64(
            crate::clock::whole_millis(self.finish.unix_nanos - self.now().unix_nanos),
        )
    }

    /// Whether only a part of what is left is played: the session works ahead, and more is
    /// left than it may work ahead at once.
    pub open spec fn is_limited(self) -> bool {
        !self.is_live && !self.realtime && self.limit_seconds > 0 && self.left_millis()
            > self.limit_seconds * 1000
    }

    /// Whether all sums can be represented.
    pub open spec fn fits(self) -> bool {
        &&& self.in_point_ms + self.item_millis() <= u64::MAX
        &&& !self.is_live ==> self.in_point_ms + self.progress_millis() <= u64::MAX
        &&& self.is_limited() ==> self.now().can_shift(self.limit_seconds * 1_000_000_000)
    }

    /// Where in the source the item is played from.
    pub open spec fn in_point(self) -> Duration {
        if self.is_live {
            Duration { secs: 0, nanos: 0 }
        } else {
            Duration::of_millis((self.in_point_ms + self.progress_millis()) as u64)
        }
    }

    /// Where in the source the item is played to.
    pub open spec fn out_point(self) -> Duration {
        if self.is_live {
            Duration::of_millis(self.item_millis())
        } else if self.is_limited() {
            Duration::sum(
                self.in_point(),
                Duration { secs: self.limit_seconds as u64, nanos: 0 },
            )
        } else {
            match self.out_point_ms {
                Some(millis) => Duration::of_millis(millis),
                None => Duration::of_millis((self.in_point_ms + self.item_millis()) as u64),
            }
        }
    }

    /// Up to when there will be output.
    pub open spec fn reached(self) -> OffsetDateTime {
        if self.is_limited() {
            self.now().shifted(self.limit_seconds * 1_000_000_000)
        } else {
            self.finish
        }
    }

    /// The part of the source that is played.
    pub open spec fn result(self) -> TimingResult {
        TimingResult {
            in_point: self.in_point(),
            out_point: self.out_point(),
            finish: self.reached(),
            is_complete: !self.is_limited(),
        }
    }
}

/// Where in a source an item begins, in milliseconds.
pub open spec fn source_in_point(source: SourceView) -> u64 {
    match source {
        SourceView::Local { in_point_ms: Some(millis), .. } => millis,
        SourceView::Http { in_point_ms: Some(millis), .. } => millis,
        _ => 0,
    }
}

/// Where in a source an item ends, in milliseconds, where that is given.
pub open spec fn source_out_point(source: SourceView) -> Option<u64> {
    match source {
        SourceView::Local { out_point_ms, .. } => out_point_ms,
        SourceView::Http { out_point_ms, .. } => out_point_ms,
        _ => None,
    }
}

impl ChannelSession {
    /// The moments are in range.
    pub open spec fn wf(&self) -> bool {
        self.transcoded_until.wf() && self.channel_config.wf()
    }

    /// How far a session that starts now is ahead of the wall clock.
    pub open spec fn offset_at(config: ChannelConfig, now: OffsetDateTime) -> int {
        match config.virtual_start {
            Some(virtual_start) => virtual_start.unix_nanos - now.unix_nanos,
            None => 0,
        }
    }

    /// A session that starts at this moment of the wall clock. The system finds ffmpeg and
    /// ffprobe by their names where no paths are configured. It fails where the output folder
    /// is not text.
    pub fn new(channel_config: ChannelConfig, now: OffsetDateTime) -> (r: Result<
        ChannelSession,
        ChannelError,
    >)
        requires
            channel_config.wf(),
            now.wf(),
            now.can_shift(Self::offset_at(channel_config, now)),
        ensures
            match (channel_config.output_folder, r) {
                (Some(folder), Ok(session)) => {
                    &&& session.wf()
                    &&& session.channel_config == channel_config
                    &&& !is_verbatim(folder@) ==> session.paths.lie_in(
                        folder@,
                        channel_config.ready_file_name@,
                    )
                    &&& session.ffmpeg_path@ == match channel_config.ffmpeg_path {
                        Some(path) => path@,
                        None => "ffmpeg"@,
                    }
                    &&& session.ffprobe_path@ == match channel_config.ffprobe_path {
                        Some(path) => path@,
                        None => "ffprobe"@,
                    }
                    &&& session.hw_accel is None
                    &&& session.start_time_offset == Self::offset_at(channel_config, now)
                    &&& session.transcoded_until == now.shifted(
                        Self::offset_at(channel_config, now),
                    )
                    &&& session.state == ChannelSessionState::SeekAndWorkAhead
                    &&& session.cached_subtitles is None
                },
                (None, Err(ChannelError::ChannelConfigOutputFolderRequired)) => true,
                _ => false,
            },
    {
        let start_time_offset: i128 = match channel_config.virtual_start {
            Some(virtual_start) => virtual_start.nanos_since(now),
            None => 0,
        };
        let paths = match &channel_config.output_folder {
            Some(folder) => OutputPaths::new(
                folder.as_str(),
                channel_config.ready_file_name.as_str(),
            ),
            None => return Err(ChannelError::ChannelConfigOutputFolderRequired),
        };
        let ffmpeg_path = match &channel_config.ffmpeg_path {
            Some(path) => path.clone(),
            None => "ffmpeg".to_owned(),
        };
        let ffprobe_path = match &channel_config.ffprobe_path {
            Some(path) => path.clone(),
            None => "ffprobe".to_owned(),
        };
        Ok(
            ChannelSession {
                channel_config,
                paths,
                ffmpeg_path,
                ffprobe_path,
                hw_accel: None,
                transcoded_until: now.plus_nanos(start_time_offset),
                start_time_offset,
                state: ChannelSessionState::SeekAndWorkAhead,
                cached_subtitles: None,
            },
        )
    }

    /// How much output lies ahead at this moment of the wall clock, in nanoseconds.
    pub open spec fn buffer_nanos(&self, now: OffsetDateTime) -> int {
        let ahead = self.transcoded_until.unix_nanos - (now.unix_nanos + self.start_time_offset);
        if ahead > 0 {
            ahead
        } else {
            0
        }
    }

    /// Whether the clock of the channel can be told after the event.
    pub open spec fn clock_fits(&self, event: RunEvent) -> bool {
        match event {
            RunEvent::Clock { now } => now.wf() && now.can_shift(self.start_time_offset as int),
            _ => true,
        }
    }

    /// Whether this is what a running session does after an event.
    pub open spec fn decides(&self, event: RunEvent, action: RunAction) -> bool {
        match event {
            RunEvent::Started => action == (RunAction::Transcode { realtime: false }),
            RunEvent::Transcoded | RunEvent::Slept => action == RunAction::CheckViewers,
            RunEvent::Checked { timed_out: false } => action == RunAction::ReadClock,
            RunEvent::Checked { timed_out: true } | RunEvent::ViewersLeft => action matches
                RunAction::Fail(ChannelError::IdleTimeout(number)) && number@
                == self.channel_config.number@,
            RunEvent::Clock { now } => if self.buffer_nanos(now) <= 60_000_000_000 {
                action == (RunAction::Transcode {
                    realtime: self.buffer_nanos(now) >= 30_000_000_000,
                })
            } else {
                action == (RunAction::Sleep { seconds: 5 })
            },
        }
    }

    /// What a running session does after an event: it works ahead at first; then, whenever
    /// no more than a minute of output lies ahead, it transcodes on, in realtime where at
    /// least half a minute does; otherwise it sleeps. It ends when its viewers are gone.
    pub fn run_step(&self, event: RunEvent) -> (r: RunAction)
        requires
            self.wf(),
            self.clock_fits(event),
        ensures
            match event {
                RunEvent::Started => r == (RunAction::Transcode { realtime: false }),
                RunEvent::Transcoded | RunEvent::Slept => r == RunAction::CheckViewers,
                RunEvent::Checked { timed_out: false } => r == RunAction::ReadClock,
                RunEvent::Checked { timed_out: true } | RunEvent::ViewersLeft => r matches
                    RunAction::Fail(ChannelError::IdleTimeout(number)) && number@
                    == self.channel_config.number@,
                RunEvent::Clock { now } => if self.buffer_nanos(now) <= 60_000_000_000 {
                    r == (RunAction::Transcode {
                        realtime: self.buffer_nanos(now) >= 30_000_000_000,
                    })
                } else {
                    r == (RunAction::Sleep { seconds: 5 })
                },
            },
            self.decides(event, r),
    {
        match event {
            RunEvent::Started => RunAction::Transcode { realtime: false },
            RunEvent::Transcoded => RunAction::CheckViewers,
            RunEvent::Slept => RunAction::CheckViewers,
            RunEvent::Checked { timed_out: false } => RunAction::ReadClock,
            RunEvent::Checked { timed_out: true } => RunAction::Fail(
                ChannelError::IdleTimeout(self.channel_config.number.clone()),
            ),
            RunEvent::ViewersLeft => RunAction::Fail(
                ChannelError::IdleTimeout(self.channel_config.number.clone()),
            ),
            RunEvent::Clock { now } => {
                let channel_now = now.plus_nanos(self.start_time_offset);
                let ahead: i128 = self.transcoded_until.nanos_since(channel_now);
                let buffer: i128 = if ahead > 0 {
                    ahead
                } else {
                    0
                };
                if buffer <= 60_000_000_000 {
                    RunAction::Transcode { realtime: buffer >= 30_000_000_000 }
                } else {
                    RunAction::Sleep { seconds: 5 }
                }
            },
        }
    }

    /// Takes the pace for the next transcode.
    pub fn begin_transcode(&mut self, realtime: bool)
        ensures
            *final(self) == (ChannelSession {
                state: ChannelSessionState::of(old(self).state.from_zero(), realtime),
                ..*old(self)
            }),
    {
        self.state = self.state.at_pace(realtime);
    }

    /// The state after an item.
    pub fn next_state(state: ChannelSessionState, is_complete: bool) -> (r: ChannelSessionState)
        ensures
            r == state.next(is_complete),
    {
        match state {
            // after seeking and NOT completing the item, seek again, transcode will accelerate if needed
            ChannelSessionState::SeekAndWorkAhead if !is_complete => {
                ChannelSessionState::SeekAndRealtime
            },
            // after seeking and completing the item, start at zero
            ChannelSessionState::SeekAndWorkAhead => ChannelSessionState::ZeroAndWorkAhead,
            // after starting at zero and NOT completing the item, seek, transcode will accelerate if needed
            ChannelSessionState::ZeroAndWorkAhead if !is_complete => {
                ChannelSessionState::SeekAndRealtime
            },
            // after starting at zero and completing the item, start at zero again, transcode will throttle if needed
            ChannelSessionState::ZeroAndWorkAhead => ChannelSessionState::ZeroAndWorkAhead,
            // realtime will always complete items, so start next at zero
            ChannelSessionState::SeekAndRealtime => ChannelSessionState::ZeroAndRealtime,
            // realtime will always complete items, so start next at zero
            ChannelSessionState::ZeroAndRealtime => ChannelSessionState::ZeroAndRealtime,
        }
    }

    /// Takes note of how far the output has come.
    pub fn end_transcode(&mut self, finish: OffsetDateTime, is_complete: bool)
        ensures
            *final(self) == (ChannelSession {
                transcoded_until: finish,
                state: old(self).state.next(is_complete),
                ..*old(self)
            }),
    {
        self.transcoded_until = finish;
        self.state = Self::next_state(self.state, is_complete);
    }

    /// The times by which this session plays a source of an item.
    pub open spec fn timing_input(
        &self,
        item: PlayoutItem,
        source: SourceView,
        start_at_zero: bool,
        realtime: bool,
        is_live: bool,
    ) -> TimingInput {
        TimingInput {
            start: item.start,
            finish: item.finish,
            in_point_ms: source_in_point(source),
            out_point_ms: source_out_point(source),
            transcoded_until: self.transcoded_until,
            limit_seconds: self.channel_config.segment_seconds * 11,
            start_at_zero,
            realtime,
            is_live,
        }
    }

    /// Whether the part of a source that is played for an item can be represented.
    pub fn timing_fits(
        &self,
        current_item: &PlayoutItem,
        source: &PlayoutItemSource,
        start_at_zero: bool,
        realtime: bool,
        is_live: bool,
    ) -> (r: bool)
        requires
            self.wf(),
            current_item.wf(),
        ensures
            r == self.timing_input(
                *current_item,
                source@,
                start_at_zero,
                realtime,
                is_live,
            ).fits(),
    {
        let ghost input = self.timing_input(
            *current_item,
            source@,
            start_at_zero,
            realtime,
            is_live,
        );
        let base_ms: u64 = match source {
            PlayoutItemSource::Local { in_point_ms: Some(millis), .. } => *millis,
            PlayoutItemSource::Http { in_point_ms: Some(millis), .. } => *millis,
            _ => 0,
        };
        assert(base_ms == input.in_point_ms);
        let item_ms: u64 = wrapping_u64(
            whole_milliseconds(current_item.finish.nanos_since(current_item.start)),
        );
        if base_ms as u128 + item_ms as u128 > 0xFFFF_FFFF_FFFF_FFFF {
            return false;
        }
        if is_live {
            return true;
        }
        let effective_now = if start_at_zero {
            current_item.start
        } else {
            self.transcoded_until
        };
        let elapsed_ms: i128 = whole_milliseconds(effective_now.nanos_since(current_item.start));
        if elapsed_ms > 0 && base_ms as i128 + elapsed_ms > 0xFFFF_FFFF_FFFF_FFFF {
            return false;
        }
        let left_ms: u64 = wrapping_u64(
            whole_milliseconds(current_item.finish.nanos_since(effective_now)),
        );
        let limit_secs: u64 = self.channel_config.segment_seconds as u64 * 11;
        if !realtime && limit_secs > 0 && left_ms > limit_secs * 1000 {
            effective_now.shift_fits(limit_secs as i128 * 1_000_000_000)
        } else {
            true
        }
    }

    /// The part of a source that is played for an item, and how far the item is then.
    pub fn input_timing(
        &self,
        current_item: &PlayoutItem,
        source: &PlayoutItemSource,
        start_at_zero: bool,
        realtime: bool,
        is_live: bool,
    ) -> (r: TimingResult)
        requires
            self.wf(),
            current_item.wf(),
            self.timing_input(
                *current_item,
                source@,
                start_at_zero,
                realtime,
                is_live,
            ).fits(),
        ensures
            r == self.timing_input(
                *current_item,
                source@,
                start_at_zero,
                realtime,
                is_live,
            ).result(),
            r.in_point.wf(),
            r.out_point.wf(),
            r.finish.wf(),
    {
        let ghost input = self.timing_input(
            *current_item,
            source@,
            start_at_zero,
            realtime,
            is_live,
        );
        let item_start = current_item.start;
        let item_finish = current_item.finish;
        let item_ms: u64 = wrapping_u64(whole_milliseconds(item_finish.nanos_since(item_start)));
        let (given_in, given_out) = match source {
            PlayoutItemSource::Local { in_point_ms, out_point_ms, .. } => (
                *in_point_ms,
                *out_point_ms,
            ),
            PlayoutItemSource::Http { in_point_ms, out_point_ms, .. } => (
                *in_point_ms,
                *out_point_ms,
            ),
            _ => (None, None),
        };
        let base_ms: u64 = match given_in {
            Some(millis) => millis,
            None => 0,
        };
        assert(base_ms == input.in_point_ms);
        assert(given_out == input.out_point_ms);
        let item_out_ms: u64 = match given_out {
            Some(millis) => millis,
            None => base_ms + item_ms,
        };
        // live content never seeks and is always a complete transcode
        if is_live {
            return TimingResult {
                in_point: Duration::zero(),
                out_point: Duration::from_millis(item_ms),
                finish: item_finish,
                is_complete: true,
            };
        }
        let effective_now = if start_at_zero {
            item_start
        } else {
            self.transcoded_until
        };
        let elapsed_ms: i128 = whole_milliseconds(effective_now.nanos_since(item_start));
        let progress_ms: u64 = if elapsed_ms > 0 {
            elapsed_ms as u64
        } else {
            0
        };
        let in_point = Duration::from_millis(base_ms + progress_ms);
        let left_ms: u64 = wrapping_u64(
            whole_milliseconds(item_finish.nanos_since(effective_now)),
        );
        let left = Duration::from_millis(left_ms);
        let limit = Duration::from_secs(
            if realtime {
                0
            } else {
                self.channel_config.segment_seconds as u64 * 11
            },
        );
        if limit.exceeds(Duration::zero()) && left.exceeds(limit) {
            return TimingResult {
                in_point,
                out_point: in_point.plus(limit),
                finish: effective_now.plus_nanos(limit.secs as i128 * 1_000_000_000),
                is_complete: false,
            };
        }
        TimingResult {
            in_point,
            out_point: Duration::from_millis(item_out_ms),
            finish: item_finish,
            is_complete: true,
        }
    }
}

/// In realtime an item is always completed.
pub proof fn law_realtime_completes(input: TimingInput)
    requires
        input.realtime,
    ensures
        input.result().is_complete,
        input.result().finish == input.finish,
{
}

/// Live content never seeks and is always played to the end of the item.
pub proof fn law_live_never_seeks(input: TimingInput)
    requires
        input.is_live,
    ensures
        input.result().is_complete,
        input.result().finish == input.finish,
        input.result().in_point == (Duration { secs: 0, nanos: 0 }),
{
}

/// A part of an item that does not complete it moves the output on by the length that may
/// be worked ahead, which is more than nothing.
pub proof fn law_incomplete_part_advances(input: TimingInput)
    requires
        input.wf(),
        input.fits(),
        !input.result().is_complete,
    ensures
        input.result().finish.unix_nanos == input.now().unix_nanos + input.limit_seconds
            * 1_000_000_000,
        input.result().finish.unix_nanos > input.now().unix_nanos,
{
}

/// A session that has not yet played past the end of an item does not play past it.
pub proof fn law_never_past_item(input: TimingInput)
    requires
        input.wf(),
        input.fits(),
        input.now().unix_nanos <= input.finish.unix_nanos,
    ensures
        input.result().finish.unix_nanos <= input.finish.unix_nanos,
{
    let left = input.finish.unix_nanos - input.now().unix_nanos;
    assert(crate::clock::whole_millis(left) == left / 1_000_000);
    assert(left / 1_000_000 < 0x1_0000_0000_0000_0000);
}

/// The output never goes back: a session whose output does not reach past the moment from
/// which it plays an item has no less output after it, and more where anything of the item
/// was left. A complete part that begins behind the end of its item is left out: the output
/// then ends where the item does.
pub proof fn law_output_never_goes_back(input: TimingInput)
    requires
        input.wf(),
        input.fits(),
        input.transcoded_until.unix_nanos <= input.now().unix_nanos,
        input.now().unix_nanos <= input.finish.unix_nanos || !input.result().is_complete,
    ensures
        input.transcoded_until.unix_nanos <= input.result().finish.unix_nanos,
        input.now().unix_nanos < input.finish.unix_nanos || !input.result().is_complete
            ==> input.transcoded_until.unix_nanos < input.result().finish.unix_nanos,
{
}

/// Whatever a session plays, its moments stay in range: those of the part that is played,
/// and those of the session once the part has been transcoded.
pub proof fn law_moments_stay_in_range(
    session: ChannelSession,
    item: PlayoutItem,
    source: SourceView,
    realtime: bool,
    is_live: bool,
)
    requires
        session.wf(),
        item.wf(),
        session.timing_input(item, source, session.state.from_zero(), realtime, is_live).fits(),
    ensures
        ({
            let part = session.timing_input(
                item,
                source,
                session.state.from_zero(),
                realtime,
                is_live,
            );
            &&& part.result().finish.wf()
            &&& continued(session, part, realtime).wf()
        }),
{
}

/// The tracks of an item are played up to the same moment, and all or none of them are
/// then complete, whatever parts of their sources they play.
pub proof fn law_tracks_agree(a: TimingInput, b: TimingInput)
    requires
        b == (TimingInput { in_point_ms: b.in_point_ms, out_point_ms: b.out_point_ms, ..a }),
    ensures
        a.result().finish == b.result().finish,
        a.result().is_complete == b.result().is_complete,
{
}

/// Once the output reaches the end of an incomplete part, what is played next of the same
/// source begins exactly where that part ended. The session has reached the item when the
/// first part is played; before its start the milliseconds to it are not counted.
pub proof fn law_parts_join(input: TimingInput, next: TimingInput)
    requires
        input.wf(),
        input.fits(),
        !input.result().is_complete,
        input.start.unix_nanos <= input.now().unix_nanos,
        next == (TimingInput {
            transcoded_until: input.result().finish,
            start_at_zero: false,
            realtime: next.realtime,
            ..input
        }),
        next.fits(),
    ensures
        next.result().in_point == input.result().out_point,
{
    let elapsed = input.now().unix_nanos - input.start.unix_nanos;
    let limit = input.limit_seconds;
    assert((elapsed + limit * 1_000_000_000) / 1_000_000 == elapsed / 1_000_000 + limit * 1000)
        by {
        vstd::arithmetic::div_mod::lemma_div_multiples_vanish_fancy(
            limit * 1000 + elapsed / 1_000_000,
            elapsed % 1_000_000,
            1_000_000,
        );
    }
    let from = input.in_point_ms + input.progress_millis();
    assert(next.in_point_ms + next.progress_millis() == from + limit * 1000);
    assert((from + limit * 1000) / 1000 == from / 1000 + limit);
    assert((from + limit * 1000) % 1000 == from % 1000);
}

/// The next part of an item goes on where an incomplete one stopped, without a gap or an
/// overlap, and the output advances again. The session has reached the item, but not its end,
/// when the first part is played. That its times can be represented follows, but for the
/// moment up to which a limited part is played.
pub proof fn law_next_part_goes_on(input: TimingInput, next: TimingInput)
    requires
        input.wf(),
        input.fits(),
        !input.result().is_complete,
        input.start.unix_nanos <= input.now().unix_nanos <= input.finish.unix_nanos,
        next == (TimingInput {
            transcoded_until: input.result().finish,
            start_at_zero: false,
            realtime: next.realtime,
            ..input
        }),
        next.is_limited() ==> next.now().can_shift(next.limit_seconds * 1_000_000_000),
    ensures
        next.fits(),
        next.result().in_point == input.result().out_point,
        input.result().finish.unix_nanos < next.result().finish.unix_nanos
            <= input.finish.unix_nanos,
{
    let left = input.finish.unix_nanos - input.now().unix_nanos;
    let limit = input.limit_seconds;
    assert(crate::clock::whole_millis(left) == left / 1_000_000);
    assert(left / 1_000_000 < 0x1_0000_0000_0000_0000);
    assert(left / 1_000_000 > limit * 1000);
    assert(left > limit * 1_000_000_000);
    assert(next.now().unix_nanos < next.finish.unix_nanos);
    let whole = input.finish.unix_nanos - input.start.unix_nanos;
    let elapsed = next.now().unix_nanos - input.start.unix_nanos;
    assert(elapsed / 1_000_000 <= whole / 1_000_000);
    assert(whole / 1_000_000 < 0x1_0000_0000_0000_0000);
    assert(next.progress_millis() <= next.item_millis());
    law_parts_join(input, next);
    law_never_past_item(next);
}

/// Taking a pace changes the pace and nothing else, however often it is done.
pub proof fn law_pace_keeps_starting_point(state: ChannelSessionState, realtime: bool)
    ensures
        ({
            let paced = ChannelSessionState::of(state.from_zero(), realtime);
            &&& paced.is_realtime() == realtime
            &&& paced.from_zero() == state.from_zero()
            &&& ChannelSessionState::of(paced.from_zero(), realtime) == paced
        }),
{
}

/// After a complete item the next one starts at its beginning, at the same pace.
pub proof fn law_complete_item_starts_next_at_zero(state: ChannelSessionState)
    ensures
        state.next(true).from_zero(),
        state.next(true).is_realtime() == state.is_realtime(),
{
}

/// Where a session works ahead and leaves an item incomplete, its next transcode, at
/// whatever pace, seeks into the same item and goes on exactly where the output ended, and
/// further where the item had not been played to its end.
pub proof fn law_incomplete_item_is_continued(
    session: ChannelSession,
    item: PlayoutItem,
    source: SourceView,
    realtime: bool,
)
    requires
        session.wf(),
        item.wf(),
        !session.state.is_realtime(),
        ({
            let first = session.timing_input(
                item,
                source,
                session.state.from_zero(),
                false,
                false,
            );
            &&& first.fits()
            &&& !first.result().is_complete
            &&& first.start.unix_nanos <= first.now().unix_nanos
            &&& continued(session, first, realtime).timing_input(
                item,
                source,
                false,
                realtime,
                false,
            ).fits()
        }),
    ensures
        ({
            let first = session.timing_input(
                item,
                source,
                session.state.from_zero(),
                false,
                false,
            );
            let after = continued(session, first, realtime);
            let second = after.timing_input(
                item,
                source,
                after.state.from_zero(),
                realtime,
                false,
            );
            &&& !after.state.from_zero()
            &&& after.state.is_realtime() == realtime
            &&& second.result().in_point == first.result().out_point
            &&& first.now().unix_nanos <= first.finish.unix_nanos
                ==> first.result().finish.unix_nanos < second.result().finish.unix_nanos
        }),
{
    let first = session.timing_input(item, source, session.state.from_zero(), false, false);
    let after = continued(session, first, realtime);
    let second = after.timing_input(item, source, false, realtime, false);
    law_parts_join(first, second);
    if first.now().unix_nanos <= first.finish.unix_nanos {
        law_next_part_goes_on(first, second);
    }
}

/// The session once a part has been transcoded and the pace for the next one is taken.
pub open spec fn continued(
    session: ChannelSession,
    part: TimingInput,
    realtime: bool,
) -> ChannelSession {
    ChannelSession {
        transcoded_until: part.result().finish,
        state: ChannelSessionState::of(
            session.state.next(part.result().is_complete).from_zero(),
            realtime,
        ),
        ..session
    }
}

/// A session that has just started has no output ahead of it, and with a virtual start its
/// clock shows that moment.
pub proof fn law_fresh_session_has_no_buffer(
    session: ChannelSession,
    config: ChannelConfig,
    now: OffsetDateTime,
)
    requires
        now.wf(),
        config.wf(),
        now.can_shift(ChannelSession::offset_at(config, now)),
        session.start_time_offset == ChannelSession::offset_at(config, now),
        session.transcoded_until == now.shifted(ChannelSession::offset_at(config, now)),
    ensures
        session.buffer_nanos(now) == 0,
        config.virtual_start matches Some(t) ==> session.transcoded_until.unix_nanos
            == t.unix_nanos,
{
}

/// The nanoseconds of an item that have been played when a session goes on with it: none
/// where it starts at its beginning or the session has not reached it.
pub open spec fn played_nanos(session: ChannelSession, item: PlayoutItem, start_at_zero: bool) -> int {
    let played = session.transcoded_until.unix_nanos - item.start.unix_nanos;
    if start_at_zero || played < 0 {
        0
    } else {
        played
    }
}

/// Content that is not live is played from the in point of its source, be it a file or
/// behind an address, and the whole milliseconds of the item that have been played; sources
/// without an in point are played from their beginning.
pub proof fn law_in_point_is_honoured(
    session: ChannelSession,
    item: PlayoutItem,
    source: PlayoutItemSource,
    start_at_zero: bool,
    realtime: bool,
    in_point_ms: u64,
)
    requires
        session.wf(),
        item.wf(),
        match source {
            PlayoutItemSource::Local { in_point_ms: given, .. } => given == Some(in_point_ms)
                || given is None && in_point_ms == 0,
            PlayoutItemSource::Http { in_point_ms: given, .. } => given == Some(in_point_ms)
                || given is None && in_point_ms == 0,
            _ => in_point_ms == 0,
        },
        session.timing_input(item, source@, start_at_zero, realtime, false).fits(),
    ensures
        ({
            let from = session.timing_input(
                item,
                source@,
                start_at_zero,
                realtime,
                false,
            ).result().in_point;
            let played = played_nanos(session, item, start_at_zero);
            let nanos = from.secs * 1_000_000_000 + from.nanos;
            &&& from.nanos < 1_000_000_000
            &&& nanos % 1_000_000 == 0
            &&& nanos <= in_point_ms * 1_000_000 + played < nanos + 1_000_000
        }),
{
}

/// A file and an address with the same in and out points are timed alike, and so are any two
/// sources without them.
pub proof fn law_sources_are_timed_alike(
    session: ChannelSession,
    item: PlayoutItem,
    a: PlayoutItemSource,
    b: PlayoutItemSource,
    start_at_zero: bool,
    realtime: bool,
    is_live: bool,
)
    requires
        match (a, b) {
            (
                PlayoutItemSource::Local { in_point_ms: i, out_point_ms: o, .. },
                PlayoutItemSource::Http { in_point_ms, out_point_ms, .. },
            ) => i == in_point_ms && o == out_point_ms,
            (PlayoutItemSource::Local { in_point_ms, out_point_ms, .. }, other) => in_point_ms
                is None && out_point_ms is None && !(other is Local),
            (PlayoutItemSource::Http { in_point_ms, out_point_ms, .. }, other) => in_point_ms
                is None && out_point_ms is None && !(other is Local || other is Http),
            (a, b) => !(a is Local || a is Http || b is Local || b is Http),
        },
    ensures
        session.timing_input(item, a@, start_at_zero, realtime, is_live).result()
            == session.timing_input(item, b@, start_at_zero, realtime, is_live).result(),
        session.timing_input(item, a@, start_at_zero, realtime, is_live).fits()
            == session.timing_input(item, b@, start_at_zero, realtime, is_live).fits(),
{
}

/// A part that completes an item is played up to the out point of its source, where it has
/// one, and otherwise for as long from its in point as the item lasts.
pub proof fn law_out_point_is_honoured(
    session: ChannelSession,
    item: PlayoutItem,
    source: PlayoutItemSource,
    start_at_zero: bool,
    realtime: bool,
)
    requires
        session.wf(),
        item.wf(),
        item.start.unix_nanos <= item.finish.unix_nanos,
        session.timing_input(item, source@, start_at_zero, realtime, false).fits(),
        session.timing_input(item, source@, start_at_zero, realtime, false).result().is_complete,
    ensures
        ({
            let result = session.timing_input(
                item,
                source@,
                start_at_zero,
                realtime,
                false,
            ).result();
            let to = result.out_point.secs * 1_000_000_000 + result.out_point.nanos;
            let length = item.finish.unix_nanos - item.start.unix_nanos;
            let (given_in, given_out) = match source {
                PlayoutItemSource::Local { in_point_ms, out_point_ms, .. } => (
                    in_point_ms,
                    out_point_ms,
                ),
                PlayoutItemSource::Http { in_point_ms, out_point_ms, .. } => (
                    in_point_ms,
                    out_point_ms,
                ),
                _ => (None, None),
            };
            let begin: int = match given_in {
                Some(millis) => millis as int,
                None => 0,
            };
            &&& to % 1_000_000 == 0
            &&& match given_out {
                Some(millis) => to == millis * 1_000_000,
                None => to <= begin * 1_000_000 + length < to + 1_000_000,
            }
            &&& result.finish == item.finish
        }),
{
    let length = item.finish.unix_nanos - item.start.unix_nanos;
    assert(length / 1_000_000 < 0x1_0000_0000_0000_0000);
}

/// Where a part does not complete an item, exactly eleven segments of it are played, and the
/// output reaches exactly as far.
pub proof fn law_incomplete_part_is_eleven_segments(
    session: ChannelSession,
    item: PlayoutItem,
    source: PlayoutItemSource,
    start_at_zero: bool,
    realtime: bool,
    is_live: bool,
)
    requires
        session.wf(),
        item.wf(),
        session.timing_input(item, source@, start_at_zero, realtime, is_live).fits(),
        !session.timing_input(
            item,
            source@,
            start_at_zero,
            realtime,
            is_live,
        ).result().is_complete,
    ensures
        ({
            let result = session.timing_input(
                item,
                source@,
                start_at_zero,
                realtime,
                is_live,
            ).result();
            let ahead = session.channel_config.segment_seconds * 11;
            let from = if start_at_zero {
                item.start
            } else {
                session.transcoded_until
            };
            &&& !realtime && !is_live
            &&& result.out_point.secs == result.in_point.secs + ahead
            &&& result.out_point.nanos == result.in_point.nanos
            &&& result.finish.unix_nanos == from.unix_nanos + ahead * 1_000_000_000
        }),
{
}

/// A session that works ahead completes an item, that it has not played past, exactly where
/// eleven segments reach its end, to the millisecond; in realtime, and where the content is
/// live, it always does, and also where segments have no length.
pub proof fn law_when_an_item_is_completed(
    session: ChannelSession,
    item: PlayoutItem,
    source: PlayoutItemSource,
    start_at_zero: bool,
    realtime: bool,
    is_live: bool,
)
    requires
        session.wf(),
        item.wf(),
        start_at_zero ==> item.start.unix_nanos <= item.finish.unix_nanos,
        !start_at_zero ==> session.transcoded_until.unix_nanos <= item.finish.unix_nanos,
    ensures
        ({
            let from = if start_at_zero {
                item.start
            } else {
                session.transcoded_until
            };
            let left = item.finish.unix_nanos - from.unix_nanos;
            let ahead = session.channel_config.segment_seconds * 11 * 1_000_000_000;
            session.timing_input(
                item,
                source@,
                start_at_zero,
                realtime,
                is_live,
            ).result().is_complete <==> realtime || is_live || ahead == 0 || left < ahead
                + 1_000_000
        }),
{
    let from = if start_at_zero {
        item.start
    } else {
        session.transcoded_until
    };
    let left = item.finish.unix_nanos - from.unix_nanos;
    assert(left / 1_000_000 < 0x1_0000_0000_0000_0000);
}

/// Live content is played from its beginning for as long as the item lasts, whatever in and
/// out points its source has and however far the session has come.
pub proof fn law_live_content_lasts_as_long_as_its_item(
    session: ChannelSession,
    item: PlayoutItem,
    source: PlayoutItemSource,
    start_at_zero: bool,
    realtime: bool,
)
    requires
        session.wf(),
        item.wf(),
        item.start.unix_nanos <= item.finish.unix_nanos,
    ensures
        ({
            let result = session.timing_input(
                item,
                source@,
                start_at_zero,
                realtime,
                true,
            ).result();
            let length = item.finish.unix_nanos - item.start.unix_nanos;
            let to = result.out_point.secs * 1_000_000_000 + result.out_point.nanos;
            &&& result.in_point.secs == 0 && result.in_point.nanos == 0
            &&& to % 1_000_000 == 0
            &&& to <= length < to + 1_000_000
            &&& result.finish == item.finish
            &&& result.is_complete
        }),
{
    let length = item.finish.unix_nanos - item.start.unix_nanos;
    assert(length / 1_000_000 < 0x1_0000_0000_0000_0000);
}

/// The times of an item that the session has reached but not played past can be represented
/// as long as its in point is not absurd and the years do not run out.
pub proof fn law_ordinary_times_fit(
    session: ChannelSession,
    item: PlayoutItem,
    source: PlayoutItemSource,
    start_at_zero: bool,
    realtime: bool,
    is_live: bool,
)
    requires
        session.wf(),
        item.wf(),
        item.start.unix_nanos <= item.finish.unix_nanos,
        item.start.unix_nanos <= session.transcoded_until.unix_nanos <= item.finish.unix_nanos,
        match source {
            PlayoutItemSource::Local { in_point_ms: Some(millis), .. } => millis
                <= 0x8000_0000_0000_0000,
            PlayoutItemSource::Http { in_point_ms: Some(millis), .. } => millis
                <= 0x8000_0000_0000_0000,
            _ => true,
        },
        item.start.can_shift(session.channel_config.segment_seconds * 11 * 1_000_000_000),
        session.transcoded_until.can_shift(
            session.channel_config.segment_seconds * 11 * 1_000_000_000,
        ),
    ensures
        session.timing_input(item, source@, start_at_zero, realtime, is_live).fits(),
{
    let length = item.finish.unix_nanos - item.start.unix_nanos;
    assert(length / 1_000_000 < 0x1000_0000_0000_0000);
    let played = session.transcoded_until.unix_nanos - item.start.unix_nanos;
    assert(played / 1_000_000 <= length / 1_000_000);
}

/// Output lies ahead for as long as the clock of the channel, which is ahead of the wall
/// clock by the offset of the session, has not reached its end; from then on there is none.
pub proof fn law_buffer_is_what_lies_ahead(session: ChannelSession, now: OffsetDateTime)
    ensures
        ({
            let channel_now = now.unix_nanos + session.start_time_offset;
            let until = session.transcoded_until.unix_nanos;
            &&& channel_now < until ==> channel_now + session.buffer_nanos(now) == until
            &&& channel_now >= until ==> session.buffer_nanos(now) == 0
        }),
{
}

/// The clock of a channel with a virtual start shows that moment when the session starts, and
/// the wall clock otherwise.
pub proof fn law_offset_leads_to_the_virtual_start(config: ChannelConfig, now: OffsetDateTime)
    ensures
        config.virtual_start matches Some(t) ==> now.unix_nanos + ChannelSession::offset_at(
            config,
            now,
        ) == t.unix_nanos,
        config.virtual_start is None ==> ChannelSession::offset_at(config, now) == 0,
{
}

/// A path in a folder begins with the folder and ends with the name, and between them stands
/// at most one character, a slash or a backslash.
pub proof fn law_paths_lie_in_their_folder(folder: Seq<char>, name: Seq<char>, path: Seq<char>)
    requires
        in_folder(folder, name, path),
    ensures
        folder.is_prefix_of(path),
        name.is_suffix_of(path),
        folder.len() + name.len() <= path.len() <= folder.len() + name.len() + 1,
        path.len() == folder.len() + name.len() + 1 ==> path[folder.len() as int] == '/'
            || path[folder.len() as int] == '\\',
{
    let separator = choose|separator: Seq<char>|
        {
            &&& path == #[trigger] (folder + separator) + name
            &&& separator.len() == 0 || separator == seq!['/'] || separator == seq!['\\']
            &&& folder.len() == 0 || folder.last() == '/' ==> separator.len() == 0
            &&& folder.len() > 0 && folder.last() != '/' && folder.last() != '\\' && folder.last()
                != ':' ==> separator.len() == 1
        };
    assert(path.subrange(0, folder.len() as int) =~= folder);
    assert(path.subrange(path.len() - name.len(), path.len() as int) =~= name);
    if separator.len() > 0 {
        assert(path[folder.len() as int] == separator[0]);
    }
}

/// A session works ahead where less than half a minute of output lies ahead of the clock of
/// the channel, transcodes in realtime from then on up to a minute, and sleeps for five
/// seconds beyond that.
pub proof fn law_session_paces_itself(
    session: ChannelSession,
    now: OffsetDateTime,
    action: RunAction,
)
    requires
        session.decides(RunEvent::Clock { now }, action),
    ensures
        ({
            let until = session.transcoded_until.unix_nanos;
            let channel_now = now.unix_nanos + session.start_time_offset;
            &&& until < channel_now + 30_000_000_000 ==> action == (RunAction::Transcode {
                realtime: false,
            })
            &&& channel_now + 30_000_000_000 <= until <= channel_now + 60_000_000_000 ==> action
                == (RunAction::Transcode { realtime: true })
            &&& channel_now + 60_000_000_000 < until ==> action == (RunAction::Sleep {
                seconds: 5,
            })
        }),
{
}

/// A session ends only where its viewers are gone, with an error that names its channel; it
/// looks for them after every transcode and every sleep, reads the clock only where they are
/// there, and begins by working ahead.
pub proof fn law_session_goes_on_for_its_viewers(
    session: ChannelSession,
    event: RunEvent,
    action: RunAction,
)
    requires
        session.decides(event, action),
    ensures
        action is Fail <==> event is ViewersLeft || event == (RunEvent::Checked {
            timed_out: true,
        }),
        action matches RunAction::Fail(e) ==> e matches ChannelError::IdleTimeout(number)
            && number@ == session.channel_config.number@,
        action is CheckViewers <==> event is Transcoded || event is Slept,
        action is ReadClock <==> event == (RunEvent::Checked { timed_out: false }),
        event is Started ==> action == (RunAction::Transcode { realtime: false }),
{
}

/// After a part that worked ahead and left its item incomplete, the session seeks; after any
/// other part it starts at the beginning of an item. It keeps its pace but for the first
/// case, in which the next part is in realtime.
pub proof fn law_next_state(state: ChannelSessionState, is_complete: bool)
    ensures
        ({
            let next = state.next(is_complete);
            let ahead = state is SeekAndWorkAhead || state is ZeroAndWorkAhead;
            let seeks = next is SeekAndWorkAhead || next is SeekAndRealtime;
            let next_ahead = next is SeekAndWorkAhead || next is ZeroAndWorkAhead;
            &&& seeks <==> ahead && !is_complete
            &&& next_ahead <==> ahead && is_complete
        }),
{
}

/// A state says by its name whether it starts at the beginning of an item and whether it is
/// in realtime, and there is one for each of both.
pub proof fn law_states_by_name(state: ChannelSessionState)
    ensures
        state.from_zero() <==> state is ZeroAndWorkAhead || state is ZeroAndRealtime,
        state.is_realtime() <==> state is SeekAndRealtime || state is ZeroAndRealtime,
        ChannelSessionState::of(state.from_zero(), state.is_realtime()) == state,
{
}

} // verus!
