//! The errors of the library.

use vstd::prelude::*;

use crate::clock::OffsetDateTime;

verus! {

/// What can go wrong with the inputs of a pipeline.
#[derive(Debug, Clone, Copy, PartialEq, Eq, Structural)]
pub enum FFPipelineError {
    VideoInputIsRequired,
    AudioInputIsRequired,
    FailedToConvertSubtitle,
    FailedToParseSubtitle,
}

/// What can go wrong with a playout file.
#[derive(Debug)]
pub enum PlayoutError {
    PlayoutJsonLoadError(String),
}

/// What can go wrong in a channel session.
#[derive(Debug)]
pub enum ChannelError {
    /// The output folder is missing or its path is not text.
    ChannelConfigOutputFolderRequired,
    /// Nobody watched the channel of this number.
    IdleTimeout(String),
    /// No item of the playout covers the wanted moment; the next one starts then.
    PlayoutJsonNoItem { next_start: Option<OffsetDateTime> },
    PlayoutJsonAudioSourceRequired,
    PlayoutJsonVideoSourceRequired,
    StreamFailure(String),
    Playout(PlayoutError),
    Pipeline(FFPipelineError),
    /// An error of the surroundings: files, clock, network.
    Other(String),
}

} // verus!
