//! What a channel session reads of the configuration of its channel.

use vstd::prelude::*;

use crate::clock::OffsetDateTime;

verus! {

/// The configuration of a channel.
#[derive(Debug)]
pub struct ChannelConfig {
    pub number: String,
    /// The folder for all output; absent where its path is not Unicode text.
    pub output_folder: Option<String>,
    /// The name of the file that tells that the output can be watched.
    pub ready_file_name: String,
    /// The moment that the channel pretends to start at.
    pub virtual_start: Option<OffsetDateTime>,
    /// The length of a segment of output, in seconds.
    pub segment_seconds: u32,
    /// The path of ffmpeg, where it is not left to the system to find it.
    pub ffmpeg_path: Option<String>,
    /// The path of ffprobe, where it is not left to the system to find it.
    pub ffprobe_path: Option<String>,
    /// Whether ffmpeg writes reports.
    pub save_reports: bool,
    /// The folder for the reports of ffmpeg.
    pub reports_folder: Option<String>,
    pub audio: AudioNormalization,
    pub video: VideoNormalization,
    pub subtitle_mode: SubtitleMode,
}

impl ChannelConfig {
    /// The moments are in range.
    pub open spec fn wf(&self) -> bool {
        match self.virtual_start {
            Some(t) => t.wf(),
            None => true,
        }
    }
}

/// What becomes of subtitles.
#[derive(Debug)]
pub enum SubtitleMode {
    /// They are converted to WebVTT.
    Convert,
    /// They are treated in the way of this name, in the pipeline.
    Other(String),
}

impl SubtitleMode {
    /// Whether two modes are the same.
    pub open spec fn same(&self, other: &Self) -> bool {
        match (*self, *other) {
            (SubtitleMode::Convert, SubtitleMode::Convert) => true,
            (SubtitleMode::Other(a), SubtitleMode::Other(b)) => a@ == b@,
            _ => false,
        }
    }
}

impl Clone for SubtitleMode {
    fn clone(&self) -> (r: Self)
        ensures
            r.same(self),
    {
        match self {
            SubtitleMode::Convert => SubtitleMode::Convert,
            SubtitleMode::Other(name) => SubtitleMode::Other(name.clone()),
        }
    }
}

/// What the sound is brought to.
#[derive(Debug)]
pub struct AudioNormalization {
    /// The name of the format.
    pub format: Option<String>,
    pub bitrate_kbps: Option<u32>,
    pub buffer_kbps: Option<u32>,
    pub channels: Option<u32>,
    pub sample_rate_hz: Option<u32>,
    pub normalize_loudness: bool,
    /// The settings for the loudness, as they are written.
    pub loudness: Option<String>,
}

/// What the pictures are brought to.
#[derive(Debug)]
pub struct VideoNormalization {
    /// The name of the format.
    pub format: Option<String>,
    pub bit_depth: Option<u32>,
    pub width: Option<u32>,
    pub height: Option<u32>,
    pub bitrate_kbps: Option<u32>,
    pub buffer_kbps: Option<u32>,
    /// The name of the way in which pictures are brought to size.
    pub scaling_mode: String,
    /// The options of the filters, as they are written.
    pub filters: Vec<String>,
    pub deinterlace: bool,
}

/// Two modes are the same exactly where both convert subtitles or both have one name.
pub proof fn law_modes_are_told_apart(a: SubtitleMode, b: SubtitleMode)
    ensures
        a.same(&b) <==> (a is Convert && b is Convert) || (a is Other && b is Other && a->Other_0@
            == b->Other_0@),
{
}

} // verus!
