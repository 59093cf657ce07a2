//! Transcoding an item: what is played when nothing is planned or something fails, and the
//! settings of the pipeline.

use vstd::prelude::*;

use crate::channel_session::{ChannelSession, ChannelSessionState, TimingInput, TrackKind};
use crate::clock::{Duration, OffsetDateTime};
use crate::config::SubtitleMode;
use crate::error::ChannelError;
use crate::frame::FrameSize;
use crate::input::{self, InputSettings, InputSource, ProbedInput, WatermarkInput};
use crate::playout::{
    self, PlayoutItem, PlayoutItemSource, PlayoutItemTracks, SourceView, TrackSelection, Watermark,
};
use crate::probe::{ProbeResult, ProbeResultVideoStream};
use crate::sources::{black, selected_index, ItemSources};
use crate::text::{clone_option, clone_strings};
use crate::web_vtt::{Cue, CueView};

verus! {

broadcast use vstd::string::group_string_axioms;

/// Whether a character is a digit in base sixteen, in lower case.
pub open spec fn is_lower_hex(c: char) -> bool {
    '0' <= c <= '9' || 'a' <= c <= 'f'
}

/// Whether a text is a random UUID: 32 hexadecimal digits in groups of 8, 4, 4, 4 and 12
/// with hyphens between them, with the version 4 and the standard variant.
pub open spec fn is_random_uuid(s: Seq<char>) -> bool {
    &&& s.len() == 36
    &&& forall|i: int|
        0 <= i < 36 ==> if i == 8 || i == 13 || i == 18 || i == 23 {
            #[trigger] s[i] == '-'
        } else {
            is_lower_hex(s[i])
        }
    &&& s[14] == '4'
    &&& s[19] == '8' || s[19] == '9' || s[19] == 'a' || s[19] == 'b'
}

/// `uuid::Uuid::new_v4`, as text: the hyphenated form in lower case of a UUID of version 4.
/// Its other digits are random, so nothing is said of them. The call panics where the
/// operating system yields no random bytes.
#[verifier::external_body]
fn new_item_id() -> (r: String)
    ensures
        is_random_uuid(r@),
{
    uuid::Uuid::new_v4().to_string()
}

/// Whether a selection plays this generated source.
pub open spec fn plays_generated(selection: Option<TrackSelection>, params: Seq<char>) -> bool {
    &&& selection matches Some(selection)
    &&& selection.stream_index is None
    &&& crate::playout::optional_source(selection.source) == Some(SourceView::Lavfi { params })
}

/// What became of an attempt to transcode an item.
pub enum Attempt {
    /// There is output up to this moment.
    Done { finish: OffsetDateTime, is_complete: bool },
    /// The session ends with this error.
    Abort(ChannelError),
    /// This item is transcoded in place of the one that failed.
    Retry(PlayoutItem),
}

impl ChannelSession {
    /// Whether an item stands in for one that is missing: silence and a black picture from
    /// where the output ends, up to the given moment or for a minute.
    pub open spec fn is_fallback(
        &self,
        item: PlayoutItem,
        next_start: Option<OffsetDateTime>,
    ) -> bool {
        &&& item.start == self.transcoded_until
        &&& item.finish == match next_start {
            Some(next_start) => next_start,
            None => self.transcoded_until.shifted(60_000_000_000),
        }
        &&& item.source is None
        &&& item.tracks matches Some(tracks) && {
            &&& plays_generated(
                tracks.audio,
                "anullsrc=channel_layout=stereo:sample_rate=48000"@,
            )
            &&& plays_generated(
                tracks.video,
                crate::sources::black_params(
                    self.picture_width() as nat,
                    self.picture_height() as nat,
                ),
            )
            &&& tracks.subtitle is None
        }
        &&& item.watermark is None
    }

    /// The item of this identifier that stands in for one that is missing.
    pub fn fallback_item(&self, id: String, next_start: Option<OffsetDateTime>) -> (r: PlayoutItem)
        requires
            self.wf(),
            self.transcoded_until.can_shift(60_000_000_000),
        ensures
            r.id == id,
            self.is_fallback(r, next_start),
    {
        let (width, height) = self.picture_size();
        let minute_later = self.transcoded_until.plus_nanos(60_000_000_000);
        PlayoutItem {
            id,
            start: self.transcoded_until,
            finish: match next_start {
                Some(next_start) => next_start,
                None => minute_later,
            },
            source: None,
            tracks: Some(
                PlayoutItemTracks {
                    audio: Some(
                        TrackSelection {
                            source: Some(
                                PlayoutItemSource::Lavfi {
                                    params:
                                        "anullsrc=channel_layout=stereo:sample_rate=48000".to_owned(),
                                },
                            ),
                            stream_index: None,
                        },
                    ),
                    video: Some(
                        TrackSelection {
                            source: Some(PlayoutItemSource::Lavfi { params: black(width, height) }),
                            stream_index: None,
                        },
                    ),
                    subtitle: None,
                },
            ),
            watermark: None,
        }
    }

    /// An item with a random identifier that stands in for one that is missing.
    pub fn fake_playout_item(&self, next_start: Option<OffsetDateTime>) -> (r: PlayoutItem)
        requires
            self.wf(),
            self.transcoded_until.can_shift(60_000_000_000),
        ensures
            is_random_uuid(r.id@),
            self.is_fallback(r, next_start),
    {
        self.fallback_item(new_item_id(), next_start)
    }

    /// The item to transcode: the one that was loaded; black and silence up to the next one
    /// where none is planned; black and silence for a minute where loading failed.
    pub fn item_to_transcode(&self, loaded: Result<PlayoutItem, ChannelError>) -> (r: PlayoutItem)
        requires
            self.wf(),
            loaded is Err ==> self.transcoded_until.can_shift(60_000_000_000),
        ensures
            match loaded {
                Ok(item) => r == item,
                Err(ChannelError::PlayoutJsonNoItem { next_start }) => self.is_fallback(
                    r,
                    next_start,
                ) && is_random_uuid(r.id@),
                Err(_) => self.is_fallback(r, None) && is_random_uuid(r.id@),
            },
            self.transcodes_next(loaded, r),
    {
        match loaded {
            Ok(item) => item,
            Err(ChannelError::PlayoutJsonNoItem { next_start }) => self.fake_playout_item(
                next_start,
            ),
            Err(_) => self.fake_playout_item(None),
        }
    }

    /// Whether this is the item to transcode after an attempt to load one.
    pub open spec fn transcodes_next(
        &self,
        loaded: Result<PlayoutItem, ChannelError>,
        item: PlayoutItem,
    ) -> bool {
        match loaded {
            Ok(planned) => item == planned,
            Err(ChannelError::PlayoutJsonNoItem { next_start }) => self.is_fallback(
                item,
                next_start,
            ),
            Err(_) => self.is_fallback(item, None),
        }
    }

    /// Whether this becomes of the first attempt to transcode an item.
    pub open spec fn becomes(
        &self,
        item: PlayoutItem,
        result: Result<(OffsetDateTime, bool), ChannelError>,
        attempt: Attempt,
    ) -> bool {
        match result {
            Ok((finish, is_complete)) => attempt == (Attempt::Done { finish, is_complete }),
            Err(ChannelError::IdleTimeout(number)) => attempt == Attempt::Abort(
                ChannelError::IdleTimeout(number),
            ),
            Err(_) => attempt matches Attempt::Retry(other) && self.is_fallback(
                other,
                Some(item.finish),
            ),
        }
    }

    /// What becomes of the first attempt to transcode an item: a session without viewers
    /// ends; after any other failure black and silence stand in for the item.
    pub fn after_attempt(
        &self,
        current_item: &PlayoutItem,
        result: Result<(OffsetDateTime, bool), ChannelError>,
    ) -> (r: Attempt)
        requires
            self.wf(),
            result is Err && !(result->Err_0 is IdleTimeout)
                ==> self.transcoded_until.can_shift(60_000_000_000),
        ensures
            match result {
                Ok((finish, is_complete)) => r == (Attempt::Done { finish, is_complete }),
                Err(ChannelError::IdleTimeout(number)) => r == Attempt::Abort(
                    ChannelError::IdleTimeout(number),
                ),
                Err(_) => r matches Attempt::Retry(item) && self.is_fallback(
                    item,
                    Some(current_item.finish),
                ) && is_random_uuid(item.id@),
            },
            self.becomes(*current_item, result, r),
    {
        match result {
            Ok((finish, is_complete)) => Attempt::Done { finish, is_complete },
            Err(ChannelError::IdleTimeout(number)) => Attempt::Abort(
                ChannelError::IdleTimeout(number),
            ),
            Err(_) => Attempt::Retry(self.fake_playout_item(Some(current_item.finish))),
        }
    }

    /// What becomes of the attempt to transcode the item that stands in for one that
    /// failed: another failure ends the session.
    pub fn after_retry(result: Result<(OffsetDateTime, bool), ChannelError>) -> (r: Attempt)
        ensures
            match result {
                Ok((finish, is_complete)) => r == (Attempt::Done { finish, is_complete }),
                Err(e) => r == Attempt::Abort(e),
            },
    {
        match result {
            Ok((finish, is_complete)) => Attempt::Done { finish, is_complete },
            Err(e) => Attempt::Abort(e),
        }
    }
}

/// An item that stands in for another can always be played: it has sources for sound and
/// pictures, none for subtitles, and it is not live.
pub proof fn law_fallback_can_be_played(
    session: ChannelSession,
    item: PlayoutItem,
    next_start: Option<OffsetDateTime>,
)
    requires
        session.is_fallback(item, next_start),
    ensures
        crate::sources::resolved(item, TrackKind::Audio) matches Some(audio)
            && !crate::sources::is_live_source(audio) && crate::sources::templates(audio).len() == 0,
        crate::sources::resolved(item, TrackKind::Video) matches Some(video)
            && !crate::sources::is_live_source(video) && crate::sources::templates(video).len() == 0,
        crate::sources::resolved(item, TrackKind::Subtitle) is None,
{
}

/// The place of a watermark in a pipeline: the place of the same name.
pub open spec fn pipeline_location(location: playout::WatermarkLocation) -> input::WatermarkLocation {
    match location {
        playout::WatermarkLocation::TopLeft => input::WatermarkLocation::TopLeft,
        playout::WatermarkLocation::TopCenter => input::WatermarkLocation::TopCenter,
        playout::WatermarkLocation::TopRight => input::WatermarkLocation::TopRight,
        playout::WatermarkLocation::CenterLeft => input::WatermarkLocation::CenterLeft,
        playout::WatermarkLocation::Center => input::WatermarkLocation::Center,
        playout::WatermarkLocation::CenterRight => input::WatermarkLocation::CenterRight,
        playout::WatermarkLocation::BottomLeft => input::WatermarkLocation::BottomLeft,
        playout::WatermarkLocation::BottomCenter => input::WatermarkLocation::BottomCenter,
        playout::WatermarkLocation::BottomRight => input::WatermarkLocation::BottomRight,
    }
}

/// The place of a watermark in a pipeline.
pub fn playout_location_to_pipeline(value: &playout::WatermarkLocation) -> (r:
    input::WatermarkLocation)
    ensures
        r == pipeline_location(*value),
{
    match value {
        playout::WatermarkLocation::TopLeft => input::WatermarkLocation::TopLeft,
        playout::WatermarkLocation::TopCenter => input::WatermarkLocation::TopCenter,
        playout::WatermarkLocation::TopRight => input::WatermarkLocation::TopRight,
        playout::WatermarkLocation::CenterLeft => input::WatermarkLocation::CenterLeft,
        playout::WatermarkLocation::Center => input::WatermarkLocation::Center,
        playout::WatermarkLocation::CenterRight => input::WatermarkLocation::CenterRight,
        playout::WatermarkLocation::BottomLeft => input::WatermarkLocation::BottomLeft,
        playout::WatermarkLocation::BottomCenter => input::WatermarkLocation::BottomCenter,
        playout::WatermarkLocation::BottomRight => input::WatermarkLocation::BottomRight,
    }
}

/// The clock of a watermark in a pipeline.
pub open spec fn pipeline_clock(clock: playout::PeriodicClock) -> input::PeriodicClock {
    match clock {
        playout::PeriodicClock::Wall => input::PeriodicClock::Wall,
        playout::PeriodicClock::Content => input::PeriodicClock::Content,
    }
}

/// The timing of a watermark in a pipeline: the same values.
pub open spec fn pipeline_timing(timing: Option<playout::WatermarkTiming>) -> Option<
    input::WatermarkTiming,
> {
    match timing {
        Some(
            playout::WatermarkTiming::Periodic {
                clock,
                frequency_ms,
                phase_offset_ms,
                disable_after_ms,
                fade_ms,
                hold_ms,
            },
        ) => Some(
            input::WatermarkTiming::Periodic(
                input::PeriodicTiming {
                    clock: pipeline_clock(clock),
                    frequency_ms,
                    phase_offset_ms,
                    disable_after_ms,
                    fade_ms,
                    hold_ms,
                },
            ),
        ),
        None => None,
    }
}

/// The timing of a watermark in a pipeline.
pub fn playout_timing_to_pipeline(value: Option<&playout::WatermarkTiming>) -> (r: Option<
    input::WatermarkTiming,
>)
    ensures
        r == pipeline_timing(
            match value {
                Some(timing) => Some(*timing),
                None => None,
            },
        ),
{
    match value {
        Some(
            playout::WatermarkTiming::Periodic {
                clock,
                frequency_ms,
                phase_offset_ms,
                disable_after_ms,
                fade_ms,
                hold_ms,
            },
        ) => Some(
            input::WatermarkTiming::Periodic(
                input::PeriodicTiming {
                    clock: match clock {
                        playout::PeriodicClock::Wall => input::PeriodicClock::Wall,
                        playout::PeriodicClock::Content => input::PeriodicClock::Content,
                    },
                    frequency_ms: *frequency_ms,
                    phase_offset_ms: *phase_offset_ms,
                    disable_after_ms: *disable_after_ms,
                    fade_ms: *fade_ms,
                    hold_ms: *hold_ms,
                },
            ),
        ),
        None => None,
    }
}

/// A source that was opened and probed.
pub struct OpenedSource {
    pub input_source: InputSource,
    pub probe_result: ProbeResult,
}

/// Whether the watermark of a pipeline is that of an item, with the source that was opened for
/// it.
pub open spec fn takes_over(
    watermark: Watermark,
    opened: OpenedSource,
    input: WatermarkInput,
) -> bool {
    &&& input.input_source == opened.input_source
    &&& input.probe_result == opened.probe_result
    &&& input.stream_index == watermark.stream_index
    &&& input.location == pipeline_location(watermark.location)
    &&& input.width_percent == watermark.width_percent
    &&& input.within_source_content == watermark.within_source_content
    &&& input.horizontal_margin_percent == watermark.horizontal_margin_percent
    &&& input.vertical_margin_percent == watermark.vertical_margin_percent
    &&& input.opacity_percent == watermark.opacity_percent
    &&& input.timing == pipeline_timing(watermark.timing)
}

/// The watermark of a pipeline: that of the item, with the source that was opened for it.
pub fn watermark_input(watermark: &Watermark, opened: OpenedSource) -> (r: WatermarkInput)
    ensures
        r.input_source == opened.input_source,
        r.probe_result == opened.probe_result,
        r.stream_index == watermark.stream_index,
        r.location == pipeline_location(watermark.location),
        r.width_percent == watermark.width_percent,
        r.within_source_content == watermark.within_source_content,
        r.horizontal_margin_percent == watermark.horizontal_margin_percent,
        r.vertical_margin_percent == watermark.vertical_margin_percent,
        r.opacity_percent == watermark.opacity_percent,
        r.timing == pipeline_timing(watermark.timing),
        takes_over(*watermark, opened, r),
{
    let timing = match &watermark.timing {
        Some(timing) => playout_timing_to_pipeline(Some(timing)),
        None => None,
    };
    WatermarkInput {
        input_source: opened.input_source,
        probe_result: opened.probe_result,
        stream_index: watermark.stream_index,
        location: playout_location_to_pipeline(&watermark.location),
        width_percent: watermark.width_percent,
        within_source_content: watermark.within_source_content,
        horizontal_margin_percent: watermark.horizontal_margin_percent,
        vertical_margin_percent: watermark.vertical_margin_percent,
        opacity_percent: watermark.opacity_percent,
        timing,
    }
}

/// A rate in thousands of bits in a second.
#[derive(Debug, Clone, Copy, PartialEq, Eq, Structural)]
pub struct Kbps(pub u32);

/// A rate in samples in a second.
#[derive(Debug, Clone, Copy, PartialEq, Eq, Structural)]
pub struct Hz(pub u32);

/// How the loudness is brought to a norm.
#[derive(Debug)]
pub enum Loudness {
    /// It is left as it is.
    Unchanged,
    /// By the default settings.
    Default,
    /// By these settings of the channel.
    Configured(String),
}

/// The sound that a pipeline gives out.
#[derive(Debug)]
pub struct AudioOutputSettings {
    /// The name of the format.
    pub format: Option<String>,
    pub bitrate: Option<Kbps>,
    pub buffer: Option<Kbps>,
    pub channels: Option<u32>,
    pub sample_rate: Option<Hz>,
    pub loudness: Loudness,
}

/// What a pipeline gives out.
#[derive(Debug)]
pub struct OutputSettings {
    pub audio: AudioOutputSettings,
    /// The name of the format of the pictures.
    pub video_format: Option<String>,
    pub bit_depth: Option<u32>,
    pub video_bitrate: Option<Kbps>,
    pub video_buffer: Option<Kbps>,
    pub video_size: Option<FrameSize>,
    /// The name of the way in which pictures are brought to size.
    pub scaling_mode: String,
    /// The options of the filters, as they are written.
    pub filter_options: Vec<String>,
    pub deinterlace: bool,
    /// What accelerates the pipeline.
    pub accel: Option<String>,
    pub playlist: String,
    pub segment_template: String,
    /// Where the time stamps of the output begin.
    pub pts_offset: Option<Duration>,
    pub realtime: bool,
    pub is_live: bool,
    /// Whether the pictures come at the default rate rather than at that of the source.
    pub default_frame_rate: bool,
    pub subtitle_mode: SubtitleMode,
    /// Whether ffmpeg writes reports.
    pub save_reports: bool,
    /// The folder for the reports of ffmpeg.
    pub reports_folder: Option<String>,
}

/// A rate in thousands of bits in a second, where there is one.
pub open spec fn kbps(value: Option<u32>) -> Option<Kbps> {
    match value {
        Some(n) => Some(Kbps(n)),
        None => None,
    }
}

/// A rate in samples in a second, where there is one.
pub open spec fn hz(value: Option<u32>) -> Option<Hz> {
    match value {
        Some(n) => Some(Hz(n)),
        None => None,
    }
}

/// A rate in thousands of bits in a second, where there is one.
fn to_kbps(value: Option<u32>) -> (r: Option<Kbps>)
    ensures
        r == kbps(value),
{
    match value {
        Some(n) => Some(Kbps(n)),
        None => None,
    }
}

/// What the surroundings opened for an item.
pub struct ItemInputs {
    pub audio: OpenedSource,
    /// Absent where the pictures come from the source of the sound.
    pub video: Option<OpenedSource>,
    /// Absent where there are no subtitles, or they come from the source of the pictures.
    pub subtitle: Option<OpenedSource>,
    pub watermark: Option<WatermarkInput>,
}

impl ItemInputs {
    /// The source of the pictures.
    pub open spec fn opened_video(self) -> OpenedSource {
        match self.video {
            Some(opened) => opened,
            None => self.audio,
        }
    }

    /// The source of the subtitles.
    pub open spec fn opened_subtitle(self, subtitle_is_video: bool) -> Option<OpenedSource> {
        if subtitle_is_video {
            Some(self.opened_video())
        } else {
            self.subtitle
        }
    }
}

/// Whether an input is this source with this part of it.
pub open spec fn is_probed(
    input: ProbedInput,
    opened: OpenedSource,
    in_point: Duration,
    out_point: Duration,
    stream_index: Option<u32>,
) -> bool {
    &&& input.input_source@ == opened.input_source@
    &&& input.probe_result.same(&opened.probe_result)
    &&& input.in_point == in_point
    &&& input.out_point == out_point
    &&& input.stream_index == stream_index
}

/// What is transcoded of an item, and how far the item is then.
pub struct TranscodePlan {
    pub input_settings: InputSettings,
    pub output_settings: OutputSettings,
    pub finish: OffsetDateTime,
    pub is_complete: bool,
}

impl ChannelSession {
    /// Whether the output is what the channel is configured to give out.
    pub open spec fn gives_out(&self, output: OutputSettings) -> bool {
        let audio = self.channel_config.audio;
        let video = self.channel_config.video;
        &&& crate::text::option_view(output.audio.format) == crate::text::option_view(audio.format)
        &&& output.audio.bitrate == kbps(audio.bitrate_kbps)
        &&& output.audio.buffer == kbps(audio.buffer_kbps)
        &&& output.audio.channels == audio.channels
        &&& output.audio.sample_rate == hz(audio.sample_rate_hz)
        &&& if !audio.normalize_loudness {
            output.audio.loudness is Unchanged
        } else {
            match audio.loudness {
                Some(settings) => output.audio.loudness matches Loudness::Configured(copy) && copy@
                    == settings@,
                None => output.audio.loudness is Default,
            }
        }
        &&& crate::text::option_view(output.video_format) == crate::text::option_view(video.format)
        &&& output.bit_depth == video.bit_depth
        &&& output.video_bitrate == kbps(video.bitrate_kbps)
        &&& output.video_buffer == kbps(video.buffer_kbps)
        &&& output.video_size == match (video.width, video.height) {
            (Some(width), Some(height)) => Some(FrameSize { width, height }),
            _ => None,
        }
        &&& output.scaling_mode@ == video.scaling_mode@
        &&& crate::text::strings_view(output.filter_options@) == crate::text::strings_view(
            video.filters@,
        )
        &&& output.deinterlace == video.deinterlace
        &&& crate::text::option_view(output.accel) == crate::text::option_view(self.hw_accel)
        &&& output.playlist@ == self.paths.ffmpeg_playlist_file@
        &&& output.segment_template@ == self.paths.output_segment_template@
        &&& output.subtitle_mode.same(&self.channel_config.subtitle_mode)
        &&& output.save_reports == self.channel_config.save_reports
        &&& crate::text::option_view(output.reports_folder) == crate::text::option_view(
            self.channel_config.reports_folder,
        )
    }

    /// What a pipeline gives out for an item of this session.
    pub fn output_settings(
        &self,
        realtime: bool,
        is_live: bool,
        still_image: bool,
        pts_duration: Option<Duration>,
    ) -> (r: OutputSettings)
        ensures
            self.gives_out(r),
            r.pts_offset == pts_duration,
            r.realtime == realtime,
            r.is_live == is_live,
            r.default_frame_rate == still_image,
    {
        let audio = &self.channel_config.audio;
        let video = &self.channel_config.video;
        OutputSettings {
            audio: AudioOutputSettings {
                format: clone_option(&audio.format),
                bitrate: to_kbps(audio.bitrate_kbps),
                buffer: to_kbps(audio.buffer_kbps),
                channels: audio.channels,
                sample_rate: match audio.sample_rate_hz {
                    Some(n) => Some(Hz(n)),
                    None => None,
                },
                loudness: if !audio.normalize_loudness {
                    Loudness::Unchanged
                } else {
                    match &audio.loudness {
                        Some(settings) => Loudness::Configured(settings.clone()),
                        None => Loudness::Default,
                    }
                },
            },
            video_format: clone_option(&video.format),
            bit_depth: video.bit_depth,
            video_bitrate: to_kbps(video.bitrate_kbps),
            video_buffer: to_kbps(video.buffer_kbps),
            video_size: match (video.width, video.height) {
                (Some(width), Some(height)) => Some(FrameSize { width, height }),
                _ => None,
            },
            scaling_mode: video.scaling_mode.clone(),
            filter_options: clone_strings(&video.filters),
            deinterlace: video.deinterlace,
            accel: clone_option(&self.hw_accel),
            playlist: self.paths.ffmpeg_playlist_file.clone(),
            segment_template: self.paths.output_segment_template.clone(),
            pts_offset: pts_duration,
            realtime,
            is_live,
            default_frame_rate: still_image,
            subtitle_mode: self.channel_config.subtitle_mode.clone(),
            save_reports: self.channel_config.save_reports,
            reports_folder: clone_option(&self.channel_config.reports_folder),
        }
    }

    /// The times by which this session, in its state, plays a source of an item.
    pub open spec fn source_timing(
        &self,
        item: PlayoutItem,
        source: SourceView,
        realtime: bool,
        is_live: bool,
    ) -> TimingInput {
        self.timing_input(item, source, self.state.from_zero(), realtime, is_live)
    }

    /// Whether the times of all tracks can be represented.
    pub open spec fn timings_fit(
        &self,
        item: PlayoutItem,
        sources: ItemSources,
        realtime: bool,
    ) -> bool {
        &&& self.source_timing(item, sources.audio@, realtime, sources.is_live).fits()
        &&& self.source_timing(item, sources.video@, realtime, sources.is_live).fits()
        &&& match sources.subtitle {
            Some(source) => self.source_timing(item, source@, realtime, sources.is_live).fits(),
            None => true,
        }
    }

    /// Whether a plan is the one for an item: each track is played from what was opened for it,
    /// as far as its times go, and the output is that of the channel.
    pub open spec fn planned(
        &self,
        item: PlayoutItem,
        sources: ItemSources,
        realtime: bool,
        pts_duration: Option<Duration>,
        inputs: ItemInputs,
        plan: TranscodePlan,
    ) -> bool {
        let audio = self.source_timing(
            item,
            sources.audio@,
            realtime,
            sources.is_live,
        ).result();
        let video = self.source_timing(
            item,
            sources.video@,
            realtime,
            sources.is_live,
        ).result();
        let opened_video = inputs.opened_video();
        let settings = plan.input_settings;
        &&& settings.start == item.start
        &&& is_probed(
            settings.audio_input,
            inputs.audio,
            audio.in_point,
            audio.out_point,
            crate::sources::selected_stream(item, TrackKind::Audio),
        )
        &&& is_probed(
            settings.video_input,
            opened_video,
            if opened_video.probe_result.still_image {
                Duration { secs: 0, nanos: 0 }
            } else {
                video.in_point
            },
            video.out_point,
            crate::sources::selected_stream(item, TrackKind::Video),
        )
        &&& match (
            inputs.opened_subtitle(sources.subtitle_is_video),
            sources.subtitle,
            settings.subtitle_input,
        ) {
            (Some(opened), Some(source), Some(input)) => {
                let subtitle = self.source_timing(
                    item,
                    source@,
                    realtime,
                    sources.is_live,
                ).result();
                is_probed(
                    input,
                    opened,
                    subtitle.in_point,
                    subtitle.out_point,
                    crate::sources::selected_stream(item, TrackKind::Subtitle),
                )
            },
            (None, _, input) => input is None,
            (_, None, input) => input is None,
            _ => false,
        }
        &&& settings.watermark_input == inputs.watermark
        &&& plan.output_settings.is_live == sources.is_live
        &&& plan.output_settings.realtime == realtime
        &&& plan.output_settings.pts_offset == pts_duration
        &&& plan.output_settings.default_frame_rate == opened_video.probe_result.still_image
        &&& plan.finish == OffsetDateTime::earlier_of(audio.finish, video.finish)
        &&& plan.is_complete == (sources.is_live || (audio.is_complete && video.is_complete))
        &&& self.gives_out(plan.output_settings)
    }

    /// Whether an item starts at its beginning in the state of the session.
    fn starts_at_zero(&self) -> (r: bool)
        ensures
            r == self.state.from_zero(),
    {
        match self.state {
            ChannelSessionState::ZeroAndWorkAhead => true,
            ChannelSessionState::ZeroAndRealtime => true,
            _ => false,
        }
    }

    /// Whether the times of all tracks can be represented.
    pub fn can_plan(
        &self,
        current_item: &PlayoutItem,
        sources: &ItemSources,
        realtime: bool,
    ) -> (r: bool)
        requires
            self.wf(),
            current_item.wf(),
        ensures
            r == self.timings_fit(*current_item, *sources, realtime),
    {
        let zero = self.starts_at_zero();
        let live = sources.is_live;
        self.timing_fits(current_item, &sources.audio, zero, realtime, live) && self.timing_fits(
            current_item,
            &sources.video,
            zero,
            realtime,
            live,
        ) && match &sources.subtitle {
            Some(source) => self.timing_fits(current_item, source, zero, realtime, live),
            None => true,
        }
    }

    /// What is transcoded of an item, given its sources and what the surroundings opened
    /// for them.
    pub fn plan_transcode(
        &self,
        current_item: &PlayoutItem,
        sources: &ItemSources,
        realtime: bool,
        pts_duration: Option<Duration>,
        inputs: ItemInputs,
    ) -> (r: TranscodePlan)
        requires
            self.wf(),
            current_item.wf(),
            sources.of(*current_item),
            inputs.video is None == sources.audio_is_video,
            self.timings_fit(*current_item, *sources, realtime),
        ensures
            ({
                let audio = self.source_timing(
                    *current_item,
                    sources.audio@,
                    realtime,
                    sources.is_live,
                ).result();
                let video = self.source_timing(
                    *current_item,
                    sources.video@,
                    realtime,
                    sources.is_live,
                ).result();
                let opened_video = inputs.opened_video();
                let settings = r.input_settings;
                &&& settings.start == current_item.start
                &&& is_probed(
                    settings.audio_input,
                    inputs.audio,
                    audio.in_point,
                    audio.out_point,
                    crate::sources::selected_stream(*current_item, TrackKind::Audio),
                )
                &&& is_probed(
                    settings.video_input,
                    opened_video,
                    if opened_video.probe_result.still_image {
                        Duration { secs: 0, nanos: 0 }
                    } else {
                        video.in_point
                    },
                    video.out_point,
                    crate::sources::selected_stream(*current_item, TrackKind::Video),
                )
                &&& match (
                    inputs.opened_subtitle(sources.subtitle_is_video),
                    sources.subtitle,
                    settings.subtitle_input,
                ) {
                    (Some(opened), Some(source), Some(input)) => {
                        let subtitle = self.source_timing(
                            *current_item,
                            source@,
                            realtime,
                            sources.is_live,
                        ).result();
                        is_probed(
                            input,
                            opened,
                            subtitle.in_point,
                            subtitle.out_point,
                            crate::sources::selected_stream(*current_item, TrackKind::Subtitle),
                        )
                    },
                    (None, _, input) => input is None,
                    (_, None, input) => input is None,
                    _ => false,
                }
                &&& settings.watermark_input == inputs.watermark
                &&& r.output_settings.is_live == sources.is_live
                &&& r.output_settings.realtime == realtime
                &&& r.output_settings.pts_offset == pts_duration
                &&& r.output_settings.default_frame_rate == opened_video.probe_result.still_image
                &&& r.finish == OffsetDateTime::earlier_of(audio.finish, video.finish)
                &&& r.is_complete == (sources.is_live || (audio.is_complete && video.is_complete))
            }),
            self.gives_out(r.output_settings),
            self.planned(*current_item, *sources, realtime, pts_duration, inputs, r),
            !sources.subtitle_is_video && sources.subtitle is Some && inputs.subtitle is Some ==> (
            r.input_settings.subtitle_input matches Some(input) && {
                &&& input.input_source@ == inputs.subtitle->0.input_source@
                &&& input.probe_result.streams@ == inputs.subtitle->0.probe_result.streams@
                &&& input.probe_result.still_image == inputs.subtitle->0.probe_result.still_image
            }),
            !sources.subtitle_is_video && (sources.subtitle is None || inputs.subtitle is None)
                ==> r.input_settings.subtitle_input is None,
    {
        let start_at_zero = self.starts_at_zero();
        let is_live = sources.is_live;
        let audio_timing = self.input_timing(
            current_item,
            &sources.audio,
            start_at_zero,
            realtime,
            is_live,
        );
        let video_timing = self.input_timing(
            current_item,
            &sources.video,
            start_at_zero,
            realtime,
            is_live,
        );
        let video = match inputs.video {
            Some(opened) => opened,
            None => OpenedSource {
                input_source: inputs.audio.input_source.clone(),
                probe_result: inputs.audio.probe_result.clone(),
            },
        };
        let still_image = video.probe_result.is_still_image();
        let subtitle = if sources.subtitle_is_video {
            Some(
                OpenedSource {
                    input_source: video.input_source.clone(),
                    probe_result: video.probe_result.clone(),
                },
            )
        } else {
            inputs.subtitle
        };
        let subtitle_input = match (subtitle, &sources.subtitle) {
            (Some(opened), Some(source)) => {
                let timing = self.input_timing(
                    current_item,
                    source,
                    start_at_zero,
                    realtime,
                    is_live,
                );
                Some(
                    ProbedInput {
                        input_source: opened.input_source,
                        probe_result: opened.probe_result,
                        in_point: timing.in_point,
                        out_point: timing.out_point,
                        stream_index: selected_index(current_item, TrackKind::Subtitle),
                    },
                )
            },
            _ => None,
        };
        let output_settings = self.output_settings(realtime, is_live, still_image, pts_duration);
        let finish = OffsetDateTime::earlier(audio_timing.finish, video_timing.finish);
        let is_complete = is_live || (audio_timing.is_complete && video_timing.is_complete);
        let input_settings = InputSettings {
            start: current_item.start,
            audio_input: ProbedInput {
                input_source: inputs.audio.input_source,
                probe_result: inputs.audio.probe_result,
                in_point: audio_timing.in_point,
                out_point: audio_timing.out_point,
                stream_index: selected_index(current_item, TrackKind::Audio),
            },
            video_input: ProbedInput {
                input_source: video.input_source,
                probe_result: video.probe_result,
                in_point: if still_image {
                    Duration::zero()
                } else {
                    video_timing.in_point
                },
                out_point: video_timing.out_point,
                stream_index: selected_index(current_item, TrackKind::Video),
            },
            subtitle_input,
            watermark_input: inputs.watermark,
        };
        TranscodePlan { input_settings, output_settings, finish, is_complete }
    }
}

/// The subtitles of a pipeline and how far they have been given out.
pub struct SubtitleSource {
    pub cues: Vec<Cue>,
    /// The first cue that has not been given out.
    pub cursor: usize,
    /// Where in the source the next segment begins.
    pub next_segment_source_offset: Duration,
}

impl SubtitleSource {
    /// Whether these are all of the cues, none of them given out, from this point on.
    pub open spec fn begins(&self, cues: Seq<CueView>, in_point: Duration) -> bool {
        &&& crate::web_vtt::cues_view(self.cues@) == cues
        &&& self.cursor == 0
        &&& self.next_segment_source_offset == in_point
    }
}

/// Where the subtitles of a pipeline come from.
pub enum SubtitlePlan {
    /// There are none to be given out.
    Skip,
    /// They were taken out of the item before.
    Ready(SubtitleSource),
    /// They have to be taken out of this stream.
    Extract(ProbeResultVideoStream),
}

/// A copy of a list of cues.
fn clone_cues(cues: &Vec<Cue>) -> (r: Vec<Cue>)
    ensures
        crate::web_vtt::cues_view(r@) == crate::web_vtt::cues_view(cues@),
{
    let mut r: Vec<Cue> = Vec::new();
    for i in 0..cues.len()
        invariant
            r@.len() == i,
            forall|j: int| 0 <= j < i ==> (#[trigger] r@[j])@ == cues@[j]@,
    {
        r.push(cues[i].clone());
    }
    assert(crate::web_vtt::cues_view(r@) =~= crate::web_vtt::cues_view(cues@));
    r
}

impl ChannelSession {
    /// The cues that are kept of an item.
    pub open spec fn cached_cues(&self, id: Seq<char>) -> Option<Seq<CueView>> {
        match self.cached_subtitles {
            Some((cached, cues)) if cached@ == id => Some(crate::web_vtt::cues_view(cues@)),
            _ => None,
        }
    }

    /// Whether this is where the subtitles of an item come from, where this is the stream that
    /// is selected for them.
    pub open spec fn plans_subtitles(
        &self,
        settings: InputSettings,
        item: PlayoutItem,
        choice: Option<ProbeResultVideoStream>,
        plan: SubtitlePlan,
    ) -> bool {
        match (choice, settings.subtitle_input) {
            (Some(stream), Some(input)) => if !(self.channel_config.subtitle_mode is Convert)
                || stream.subtitle_image {
                plan is Skip
            } else {
                match self.cached_cues(item.id@) {
                    Some(cues) => plan matches SubtitlePlan::Ready(source) && source.begins(
                        cues,
                        input.in_point,
                    ),
                    None => plan == SubtitlePlan::Extract(stream),
                }
            },
            _ => plan is Skip,
        }
    }

    /// Where the subtitles of an item come from: they are given out where the channel
    /// converts subtitles and one is selected that is text, and taken out of the item only
    /// where they are not kept from before.
    pub fn subtitle_plan(&self, settings: &InputSettings, current_item: &PlayoutItem) -> (r:
        SubtitlePlan)
        ensures
            exists|choice: Option<ProbeResultVideoStream>|
                #[trigger] settings.selects_subtitle(choice) && match (
                    choice,
                    settings.subtitle_input,
                ) {
                    (Some(stream), Some(input)) => if !(
                    self.channel_config.subtitle_mode is Convert) || stream.subtitle_image {
                        r is Skip
                    } else {
                        match self.cached_cues(current_item.id@) {
                            Some(cues) => r matches SubtitlePlan::Ready(source) && source.begins(
                                cues,
                                input.in_point,
                            ),
                            None => r == SubtitlePlan::Extract(stream),
                        }
                    },
                    _ => r is Skip,
                },
            exists|choice: Option<ProbeResultVideoStream>|
                #[trigger] settings.selects_subtitle(choice) && self.plans_subtitles(
                    *settings,
                    *current_item,
                    choice,
                    r,
                ),
    {
        let selected = settings.select_subtitle_stream();
        let ghost choice = match selected {
            Some(v) => Some(*v),
            None => None,
        };
        assert(settings.selects_subtitle(choice));
        match (selected, &settings.subtitle_input) {
            (Some(stream), Some(input)) => {
                let convert = match self.channel_config.subtitle_mode {
                    SubtitleMode::Convert => true,
                    SubtitleMode::Other(_) => false,
                };
                if !convert || stream.is_subtitle_image() {
                    return SubtitlePlan::Skip;
                }
                if let Some((cached, cues)) = &self.cached_subtitles {
                    if *cached == current_item.id {
                        return SubtitlePlan::Ready(
                            SubtitleSource {
                                cues: clone_cues(cues),
                                cursor: 0,
                                next_segment_source_offset: input.in_point,
                            },
                        );
                    }
                }
                SubtitlePlan::Extract(*stream)
            },
            _ => SubtitlePlan::Skip,
        }
    }

    /// Keeps the cues that were taken out of an item, in place of any other, and gives them
    /// out from this point on.
    pub fn keep_subtitles(
        &mut self,
        current_item: &PlayoutItem,
        cues: Vec<Cue>,
        in_point: Duration,
    ) -> (r: SubtitleSource)
        ensures
            r.begins(crate::web_vtt::cues_view(cues@), in_point),
            forall|id: Seq<char>| #[trigger]
                final(self).cached_cues(id) == if id == current_item.id@ {
                    Some(crate::web_vtt::cues_view(cues@))
                } else {
                    None
                },
            *final(self) == (ChannelSession {
                cached_subtitles: final(self).cached_subtitles,
                ..*old(self)
            }),
    {
        let copy = clone_cues(&cues);
        self.cached_subtitles = Some((current_item.id.clone(), cues));
        SubtitleSource { cues: copy, cursor: 0, next_segment_source_offset: in_point }
    }
}

/// How the process that transcodes ended.
pub enum StreamEnd {
    /// It could not be started.
    NotStarted,
    /// It could not be waited for, for this reason.
    WaitFailed(String),
    /// It ended successfully.
    Success,
    /// It ended with this status, which is no success.
    Exited(String),
    /// The viewers left before it ended.
    ViewersLeft,
}

impl ChannelSession {
    /// What became of an item once the process that transcodes it has ended: there is output
    /// up to the planned moment only if it was successful.
    pub fn after_stream(
        &self,
        finish: OffsetDateTime,
        is_complete: bool,
        end: StreamEnd,
    ) -> (r: Result<(OffsetDateTime, bool), ChannelError>)
        ensures
            match end {
                StreamEnd::Success => r == Ok::<(OffsetDateTime, bool), ChannelError>(
                    (finish, is_complete),
                ),
                StreamEnd::NotStarted => r matches Err(ChannelError::StreamFailure(text)) && text@
                    == "failed to spawn ffmpeg"@,
                StreamEnd::WaitFailed(reason) => r matches Err(ChannelError::StreamFailure(text))
                    && text@ == reason@,
                StreamEnd::Exited(status) => r matches Err(ChannelError::StreamFailure(text))
                    && text@ == "ffmpeg exited "@ + status@,
                StreamEnd::ViewersLeft => r matches Err(ChannelError::IdleTimeout(number))
                    && number@ == self.channel_config.number@,
            },
    {
        match end {
            StreamEnd::Success => Ok((finish, is_complete)),
            StreamEnd::NotStarted => Err(
                ChannelError::StreamFailure("failed to spawn ffmpeg".to_owned()),
            ),
            StreamEnd::WaitFailed(reason) => Err(ChannelError::StreamFailure(reason)),
            StreamEnd::Exited(status) => {
                let mut text = "ffmpeg exited ".to_owned();
                text.append(status.as_str());
                Err(ChannelError::StreamFailure(text))
            },
            StreamEnd::ViewersLeft => Err(
                ChannelError::IdleTimeout(self.channel_config.number.clone()),
            ),
        }
    }
}

/// The column of a place in the playout, by its name.
pub open spec fn named_column(location: playout::WatermarkLocation) -> input::Side {
    match location {
        playout::WatermarkLocation::TopLeft => input::Side::Near,
        playout::WatermarkLocation::CenterLeft => input::Side::Near,
        playout::WatermarkLocation::BottomLeft => input::Side::Near,
        playout::WatermarkLocation::TopCenter => input::Side::Middle,
        playout::WatermarkLocation::Center => input::Side::Middle,
        playout::WatermarkLocation::BottomCenter => input::Side::Middle,
        playout::WatermarkLocation::TopRight => input::Side::Far,
        playout::WatermarkLocation::CenterRight => input::Side::Far,
        playout::WatermarkLocation::BottomRight => input::Side::Far,
    }
}

/// The row of a place in the playout, by its name.
pub open spec fn named_row(location: playout::WatermarkLocation) -> input::Side {
    match location {
        playout::WatermarkLocation::TopLeft => input::Side::Near,
        playout::WatermarkLocation::TopCenter => input::Side::Near,
        playout::WatermarkLocation::TopRight => input::Side::Near,
        playout::WatermarkLocation::CenterLeft => input::Side::Middle,
        playout::WatermarkLocation::Center => input::Side::Middle,
        playout::WatermarkLocation::CenterRight => input::Side::Middle,
        playout::WatermarkLocation::BottomLeft => input::Side::Far,
        playout::WatermarkLocation::BottomCenter => input::Side::Far,
        playout::WatermarkLocation::BottomRight => input::Side::Far,
    }
}

/// A place keeps its column and its row in the pipeline, and no two places become one.
pub proof fn law_places_keep_column_and_row(
    location: playout::WatermarkLocation,
    other: playout::WatermarkLocation,
)
    ensures
        pipeline_location(location).column() == named_column(location),
        pipeline_location(location).row() == named_row(location),
        pipeline_location(location) == pipeline_location(other) ==> location == other,
{
}

/// A watermark of an item stands where its place says: without margins, and measured from the
/// frame, one to the left begins at the left edge and one to the right ends at the right edge,
/// one above begins at the upper edge and one below ends at the lower edge.
pub proof fn law_watermark_stands_where_its_place_says(
    watermark: Watermark,
    opened: OpenedSource,
    laid: WatermarkInput,
    content: FrameSize,
    scaled: FrameSize,
    frame: FrameSize,
)
    requires
        takes_over(watermark, opened, laid),
        watermark.within_source_content != Some(true),
        scaled.width <= frame.width,
        scaled.height <= frame.height,
    ensures
        ({
            let margins = input::Margins { horizontal: 0, vertical: 0 };
            let (x, y) = laid.corner(content, scaled, frame, margins);
            let left = x == 0;
            let right = x + scaled.width == frame.width;
            let top = y == 0;
            let bottom = y + scaled.height == frame.height;
            let middle_x = 2 * x <= frame.width - scaled.width < 2 * x + 2;
            let middle_y = 2 * y <= frame.height - scaled.height < 2 * y + 2;
            match watermark.location {
                playout::WatermarkLocation::TopLeft => top && left,
                playout::WatermarkLocation::TopCenter => top && middle_x,
                playout::WatermarkLocation::TopRight => top && right,
                playout::WatermarkLocation::CenterLeft => middle_y && left,
                playout::WatermarkLocation::Center => middle_y && middle_x,
                playout::WatermarkLocation::CenterRight => middle_y && right,
                playout::WatermarkLocation::BottomLeft => bottom && left,
                playout::WatermarkLocation::BottomCenter => bottom && middle_x,
                playout::WatermarkLocation::BottomRight => bottom && right,
            }
        }),
{
}

/// A watermark that comes and goes does so by the same clock and at the same times in the
/// pipeline; one without a timing has none there.
pub proof fn law_timing_is_taken_over(timing: Option<playout::WatermarkTiming>)
    ensures
        timing is None ==> pipeline_timing(timing) is None,
        timing matches Some(t) ==> pipeline_timing(timing) matches Some(
            input::WatermarkTiming::Periodic(periodic),
        ) && {
            &&& periodic.clock is Wall <==> t->clock is Wall
            &&& periodic.frequency_ms == t->frequency_ms
            &&& periodic.phase_offset_ms == t->phase_offset_ms
            &&& periodic.disable_after_ms == t->disable_after_ms
            &&& periodic.fade_ms == t->fade_ms
            &&& periodic.hold_ms == t->hold_ms
        },
{
}

/// The watermark of a pipeline shows the source that was opened for it, with the stream, the
/// size, the margins and the opacity that the item sets.
pub proof fn law_watermark_settings_are_taken_over(
    watermark: Watermark,
    opened: OpenedSource,
    laid: WatermarkInput,
)
    requires
        takes_over(watermark, opened, laid),
    ensures
        laid.input_source@ == opened.input_source@,
        laid.probe_result.streams@ == opened.probe_result.streams@,
        laid.probe_result.still_image == opened.probe_result.still_image,
        laid.stream_index == watermark.stream_index,
        laid.width_percent == watermark.width_percent,
        laid.within_source_content == watermark.within_source_content,
        laid.horizontal_margin_percent == watermark.horizontal_margin_percent,
        laid.vertical_margin_percent == watermark.vertical_margin_percent,
        laid.opacity_percent == watermark.opacity_percent,
        watermark.timing is None <==> laid.timing is None,
{
}

/// Whether an input is what was opened, with the part of it that a timing gives.
pub open spec fn is_input_of(
    input: ProbedInput,
    opened: OpenedSource,
    in_point: Duration,
    out_point: Duration,
) -> bool {
    &&& input.input_source@ == opened.input_source@
    &&& input.probe_result.streams@ == opened.probe_result.streams@
    &&& input.probe_result.still_image == opened.probe_result.still_image
    &&& input.in_point == in_point
    &&& input.out_point == out_point
}

/// The part of a source that a session plays for an item in its state: from the beginning of
/// the item where the state says so.
pub open spec fn part_of(
    session: ChannelSession,
    item: PlayoutItem,
    source: SourceView,
    realtime: bool,
    is_live: bool,
) -> crate::channel_session::TimingResult {
    let zero = session.state is ZeroAndWorkAhead || session.state is ZeroAndRealtime;
    session.timing_input(item, source, zero, realtime, is_live).result()
}

/// The sound of an item is played from what was opened for it and its pictures from what was
/// opened for them, or else from what was opened for the sound, each from the stream that the
/// item selects and as far as its source is timed; a single picture is shown from its
/// beginning.
pub proof fn law_plan_plays_sound_and_pictures(
    session: ChannelSession,
    item: PlayoutItem,
    sources: ItemSources,
    realtime: bool,
    pts_duration: Option<Duration>,
    inputs: ItemInputs,
    plan: TranscodePlan,
    sound: SourceView,
    pictures: SourceView,
    opened: OpenedSource,
)
    requires
        sources.of(item),
        session.planned(item, sources, realtime, pts_duration, inputs, plan),
        crate::sources::resolved(item, TrackKind::Audio) == Some(sound),
        crate::sources::resolved(item, TrackKind::Video) == Some(pictures),
        inputs.video == Some(opened) || inputs.video is None && inputs.audio == opened,
    ensures
        ({
            let heard = part_of(session, item, sound, realtime, sources.is_live);
            let seen = part_of(session, item, pictures, realtime, sources.is_live);
            let settings = plan.input_settings;
            &&& settings.start == item.start
            &&& is_input_of(settings.audio_input, inputs.audio, heard.in_point, heard.out_point)
            &&& settings.audio_input.stream_index == crate::sources::selected_stream(
                item,
                TrackKind::Audio,
            )
            &&& opened.probe_result.still_image ==> is_input_of(
                settings.video_input,
                opened,
                Duration { secs: 0, nanos: 0 },
                seen.out_point,
            )
            &&& !opened.probe_result.still_image ==> is_input_of(
                settings.video_input,
                opened,
                seen.in_point,
                seen.out_point,
            )
            &&& settings.video_input.stream_index == crate::sources::selected_stream(
                item,
                TrackKind::Video,
            )
            &&& settings.watermark_input == inputs.watermark
            &&& plan.output_settings.default_frame_rate == opened.probe_result.still_image
            &&& plan.output_settings.pts_offset == pts_duration
            &&& plan.output_settings.realtime == realtime
            &&& plan.output_settings.is_live == sources.is_live
            &&& plan.finish.unix_nanos <= heard.finish.unix_nanos
            &&& plan.finish.unix_nanos <= seen.finish.unix_nanos
            &&& plan.finish == heard.finish || plan.finish == seen.finish
            &&& plan.is_complete <==> sources.is_live || (heard.is_complete && seen.is_complete)
        }),
{
}

/// Subtitles with a source of their own that was opened are played from it, subtitles from
/// the source of the pictures from what was opened for those, and otherwise there are none;
/// their stream is the one that the item selects, and their source is timed like any other.
pub proof fn law_plan_plays_subtitles(
    session: ChannelSession,
    item: PlayoutItem,
    sources: ItemSources,
    realtime: bool,
    pts_duration: Option<Duration>,
    inputs: ItemInputs,
    plan: TranscodePlan,
    opened: OpenedSource,
)
    requires
        sources.of(item),
        session.planned(item, sources, realtime, pts_duration, inputs, plan),
    ensures
        ({
            let subtitle = crate::sources::resolved(item, TrackKind::Subtitle);
            let shared = subtitle == crate::sources::resolved(item, TrackKind::Video);
            let input = plan.input_settings.subtitle_input;
            let played_from_it = input matches Some(input) && {
                let part = part_of(session, item, subtitle->0, realtime, sources.is_live);
                &&& is_input_of(input, opened, part.in_point, part.out_point)
                &&& input.stream_index == crate::sources::selected_stream(
                    item,
                    TrackKind::Subtitle,
                )
            };
            &&& subtitle is None ==> input is None
            &&& subtitle is Some && !shared && inputs.subtitle == Some(opened) ==> played_from_it
            &&& subtitle is Some && !shared && inputs.subtitle is None ==> input is None
            &&& shared && inputs.video == Some(opened) ==> played_from_it
            &&& shared && inputs.video is None && inputs.audio == opened ==> played_from_it
        }),
{
}

/// Both tracks of an item are played in the state and at the pace of the session, so a plan
/// reaches as far as either of them and is complete where either is.
pub proof fn law_plan_reaches_as_far_as_its_tracks(
    session: ChannelSession,
    item: PlayoutItem,
    sources: ItemSources,
    realtime: bool,
    pts_duration: Option<Duration>,
    inputs: ItemInputs,
    plan: TranscodePlan,
)
    requires
        session.planned(item, sources, realtime, pts_duration, inputs, plan),
    ensures
        ({
            let heard = part_of(session, item, sources.audio@, realtime, sources.is_live);
            let seen = part_of(session, item, sources.video@, realtime, sources.is_live);
            &&& plan.finish == heard.finish
            &&& plan.finish == seen.finish
            &&& plan.is_complete == heard.is_complete
            &&& plan.is_complete == seen.is_complete
        }),
{
}

/// The sound and the pictures that a pipeline gives out are those that the channel is
/// configured for, setting by setting; a size is given only where both its sides are set, and
/// the loudness is changed only where that is wanted, by settings of the channel if there are
/// any.
pub proof fn law_output_follows_the_configuration(session: ChannelSession, output: OutputSettings)
    requires
        session.gives_out(output),
    ensures
        ({
            let audio = session.channel_config.audio;
            let video = session.channel_config.video;
            &&& audio.bitrate_kbps is Some <==> output.audio.bitrate is Some
            &&& output.audio.bitrate matches Some(rate) ==> audio.bitrate_kbps == Some(rate.0)
            &&& audio.buffer_kbps is Some <==> output.audio.buffer is Some
            &&& output.audio.buffer matches Some(rate) ==> audio.buffer_kbps == Some(rate.0)
            &&& output.audio.channels == audio.channels
            &&& audio.sample_rate_hz is Some <==> output.audio.sample_rate is Some
            &&& output.audio.sample_rate matches Some(rate) ==> audio.sample_rate_hz == Some(rate.0)
            &&& video.bitrate_kbps is Some <==> output.video_bitrate is Some
            &&& output.video_bitrate matches Some(rate) ==> video.bitrate_kbps == Some(rate.0)
            &&& video.buffer_kbps is Some <==> output.video_buffer is Some
            &&& output.video_buffer matches Some(rate) ==> video.buffer_kbps == Some(rate.0)
            &&& output.video_size is Some <==> video.width is Some && video.height is Some
            &&& output.video_size matches Some(size) ==> video.width == Some(size.width)
                && video.height == Some(size.height)
            &&& output.audio.loudness is Unchanged <==> !audio.normalize_loudness
            &&& output.audio.loudness is Default <==> audio.normalize_loudness && audio.loudness
                is None
            &&& output.audio.loudness matches Loudness::Configured(settings) ==> audio.loudness
                matches Some(given) && settings@ == given@
            &&& output.bit_depth == video.bit_depth
            &&& output.scaling_mode@ == video.scaling_mode@
            &&& output.deinterlace == video.deinterlace
            &&& output.save_reports == session.channel_config.save_reports
            &&& output.playlist@ == session.paths.ffmpeg_playlist_file@
            &&& output.segment_template@ == session.paths.output_segment_template@
            &&& output.subtitle_mode is Convert <==> session.channel_config.subtitle_mode is Convert
        }),
        same_text(output.audio.format, session.channel_config.audio.format),
        same_text(output.video_format, session.channel_config.video.format),
        same_text(output.accel, session.hw_accel),
        same_text(output.reports_folder, session.channel_config.reports_folder),
        output.filter_options@.len() == session.channel_config.video.filters@.len(),
        forall|i: int|
            0 <= i < output.filter_options@.len() ==> (#[trigger] output.filter_options@[i])@
                == session.channel_config.video.filters@[i]@,
        output.subtitle_mode is Other ==> output.subtitle_mode->Other_0@
            == session.channel_config.subtitle_mode->Other_0@,
{
    let (a, b) = (
        crate::text::strings_view(output.filter_options@),
        crate::text::strings_view(session.channel_config.video.filters@),
    );
    assert(a.len() == b.len());
    assert forall|i: int| 0 <= i < output.filter_options@.len() implies (
    #[trigger] output.filter_options@[i])@ == session.channel_config.video.filters@[i]@ by {
        assert(a[i] == b[i]);
    }
}

/// Whether two optional texts are both absent or the same.
pub open spec fn same_text(a: Option<String>, b: Option<String>) -> bool {
    match (a, b) {
        (Some(x), Some(y)) => x@ == y@,
        (None, None) => true,
        _ => false,
    }
}

/// An item that stands in for another begins where the output ends. It lasts up to the next
/// item where there is one, and otherwise for a minute, and is silent and black, in the size
/// of the pictures of the channel.
pub proof fn law_fallback_fills_the_gap(
    session: ChannelSession,
    item: PlayoutItem,
    next_start: Option<OffsetDateTime>,
)
    requires
        session.wf(),
        session.transcoded_until.can_shift(60_000_000_000),
        session.is_fallback(item, next_start),
    ensures
        item.start == session.transcoded_until,
        next_start matches Some(t) ==> item.finish == t,
        next_start is None ==> item.finish.unix_nanos - item.start.unix_nanos == 60_000_000_000,
        next_start is None ==> item.finish.offset_seconds == item.start.offset_seconds,
        crate::sources::resolved(item, TrackKind::Audio) == Some(
            SourceView::Lavfi { params: "anullsrc=channel_layout=stereo:sample_rate=48000"@ },
        ),
        crate::sources::resolved(item, TrackKind::Video) == Some(
            SourceView::Lavfi {
                params: "color=c=black:s="@ + crate::text::decimal(session.picture_width() as nat)
                    + "x"@ + crate::text::decimal(session.picture_height() as nat),
            },
        ),
        crate::sources::selected_stream(item, TrackKind::Audio) is None,
        crate::sources::selected_stream(item, TrackKind::Video) is None,
        item.watermark is None,
{
}

/// Subtitles are given out from the first cue on, all of them, from the point at which their
/// source is played.
pub proof fn law_subtitles_begin_at_the_first_cue(
    source: SubtitleSource,
    cues: Seq<CueView>,
    in_point: Duration,
)
    requires
        source.begins(cues, in_point),
    ensures
        source.cursor == 0,
        source.next_segment_source_offset == in_point,
        source.cues@.len() == cues.len(),
        forall|i: int|
            0 <= i < cues.len() ==> {
                &&& (#[trigger] cues[i]).start == source.cues@[i].start
                &&& cues[i].end == source.cues@[i].end
                &&& cues[i].text == source.cues@[i].text@
            },
{
    assert(crate::web_vtt::cues_view(source.cues@).len() == cues.len());
    assert forall|i: int| 0 <= i < cues.len() implies {
        &&& (#[trigger] cues[i]).start == source.cues@[i].start
        &&& cues[i].end == source.cues@[i].end
        &&& cues[i].text == source.cues@[i].text@
    } by {
        assert(crate::web_vtt::cues_view(source.cues@)[i] == cues[i]);
    }
}

/// Cues are kept for one item only, and are found by its identifier.
pub proof fn law_cues_are_kept_by_item(session: ChannelSession, id: Seq<char>)
    ensures
        match session.cached_subtitles {
            Some((kept, cues)) => {
                &&& kept@ == id ==> session.cached_cues(id) == Some(
                    crate::web_vtt::cues_view(cues@),
                )
                &&& kept@ != id ==> session.cached_cues(id) is None
            },
            None => session.cached_cues(id) is None,
        },
{
}

/// A stream that an input has been probed for is taken over with all that is known of it.
pub proof fn law_probed_inputs_keep_what_was_opened(
    input: ProbedInput,
    opened: OpenedSource,
    in_point: Duration,
    out_point: Duration,
    stream_index: Option<u32>,
)
    requires
        is_probed(input, opened, in_point, out_point, stream_index),
    ensures
        is_input_of(input, opened, in_point, out_point),
        input.stream_index == stream_index,
{
}

/// Subtitles are given out exactly where the channel converts them and one that is text is
/// selected. They are taken out of the selected stream only where none are kept of the item;
/// those that are kept are given out from the point at which their source is played.
pub proof fn law_subtitles_are_taken_out_once(
    session: ChannelSession,
    settings: InputSettings,
    item: PlayoutItem,
    choice: Option<ProbeResultVideoStream>,
    plan: SubtitlePlan,
)
    requires
        settings.selects_subtitle(choice),
        session.plans_subtitles(settings, item, choice, plan),
    ensures
        plan is Skip <==> !(session.channel_config.subtitle_mode is Convert) || !(
        choice matches Some(stream) && !stream.subtitle_image),
        plan matches SubtitlePlan::Extract(stream) ==> choice == Some(stream)
            && !stream.subtitle_image && !(session.cached_subtitles matches Some((kept, cues))
            && kept@ == item.id@),
        plan matches SubtitlePlan::Ready(source) ==> {
            &&& session.cached_subtitles matches Some((kept, cues)) && kept@ == item.id@
                && source.cues@.len() == cues@.len()
            &&& source.cursor == 0
            &&& settings.subtitle_input matches Some(input) && source.next_segment_source_offset
                == input.in_point
        },
{
    if let (SubtitlePlan::Ready(source), Some((_, cues))) = (plan, session.cached_subtitles) {
        assert(crate::web_vtt::cues_view(source.cues@).len() == source.cues@.len());
        assert(crate::web_vtt::cues_view(cues@).len() == cues@.len());
    }
}

/// There is always an item to transcode. It is the planned one where there is one; otherwise
/// it begins where the output ends, and lasts up to the next item where that is known.
pub proof fn law_there_is_always_an_item(
    session: ChannelSession,
    loaded: Result<PlayoutItem, ChannelError>,
    item: PlayoutItem,
)
    requires
        session.wf(),
        session.transcoded_until.can_shift(60_000_000_000),
        session.transcodes_next(loaded, item),
    ensures
        loaded matches Ok(planned) ==> item == planned,
        loaded is Err ==> item.start == session.transcoded_until && item.source is None
            && item.watermark is None,
        loaded is Err ==> crate::sources::resolved(item, TrackKind::Audio) is Some
            && crate::sources::resolved(item, TrackKind::Video) is Some,
        loaded matches Err(ChannelError::PlayoutJsonNoItem { next_start: Some(next) })
            ==> item.finish == next,
        loaded matches Err(e) && !(e is PlayoutJsonNoItem && e->next_start is Some)
            ==> item.finish.unix_nanos == item.start.unix_nanos + 60_000_000_000,
{
}

/// An attempt that succeeds is done; one that fails ends the session only where its viewers
/// are gone, and otherwise black and silence are played up to the end of the item.
pub proof fn law_failures_are_bridged(
    session: ChannelSession,
    item: PlayoutItem,
    result: Result<(OffsetDateTime, bool), ChannelError>,
    attempt: Attempt,
)
    requires
        session.becomes(item, result, attempt),
    ensures
        attempt is Done <==> result is Ok,
        attempt is Abort <==> (result is Err && result->Err_0 is IdleTimeout),
        attempt is Retry <==> (result is Err && !(result->Err_0 is IdleTimeout)),
        attempt matches Attempt::Done { finish, is_complete } ==> result == Ok::<
            (OffsetDateTime, bool),
            ChannelError,
        >((finish, is_complete)),
        attempt matches Attempt::Abort(e) ==> result == Err::<(OffsetDateTime, bool), ChannelError>(
            e,
        ),
        attempt matches Attempt::Retry(other) ==> other.start == session.transcoded_until
            && other.finish == item.finish && other.watermark is None
            && crate::sources::resolved(other, TrackKind::Audio) is Some
            && crate::sources::resolved(other, TrackKind::Video) is Some,
{
}

} // verus!
