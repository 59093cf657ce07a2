//! The inputs of a pipeline: where they come from and which streams are used.

use vstd::prelude::*;

use crate::clock::{Duration, OffsetDateTime};
use crate::error::FFPipelineError;
use crate::frame::{FramePoint, FrameSize, Percent};
use crate::probe::{
    walk_audio_streams, walk_video_streams, CodecType, ProbeResult, ProbeResultAudioStream,
    ProbeResultVideoStream,
};
use crate::text::{clone_option, clone_strings, decimal_string};

verus! {

broadcast use vstd::string::group_string_axioms;

/// The arguments of a command.
pub type ArgVec = Vec<String>;

/// All inputs of one pipeline.
pub struct InputSettings {
    pub start: OffsetDateTime,
    pub audio_input: ProbedInput,
    pub video_input: ProbedInput,
    pub subtitle_input: Option<ProbedInput>,
    pub watermark_input: Option<WatermarkInput>,
}

/// Whether `v` is the stream to use: the one that is wanted, if it is there, or else the
/// one with the lowest index.
pub open spec fn chosen_video(
    all: Seq<ProbeResultVideoStream>,
    wanted: Option<u32>,
    v: ProbeResultVideoStream,
) -> bool {
    match wanted {
        Some(w) if crate::probe::has_video_at(all, w) => crate::probe::first_video_at(all, w, v),
        _ => crate::probe::lowest_video(all, v),
    }
}

/// Whether `a` is the stream to use: the one that is wanted, if it is there, or else the
/// one with the most channels.
pub open spec fn chosen_audio(
    all: Seq<ProbeResultAudioStream>,
    wanted: Option<u32>,
    a: ProbeResultAudioStream,
) -> bool {
    match wanted {
        Some(w) if crate::probe::has_audio_at(all, w) => crate::probe::first_audio_at(all, w, a),
        _ => crate::probe::widest_audio(all, a),
    }
}

impl InputSettings {
    /// Whether this is what the choice of a picture stream of an input comes to: a stream, or
    /// none where the input has none.
    pub open spec fn selects_picture(
        streams: Seq<crate::probe::ProbeResultStream>,
        wanted: Option<u32>,
        choice: Option<ProbeResultVideoStream>,
    ) -> bool {
        let all = crate::probe::video_streams(streams, CodecType::Video);
        match choice {
            Some(v) => chosen_video(all, wanted, v),
            None => all.len() == 0,
        }
    }

    /// Whether this is what the choice of the stream of sound comes to.
    pub open spec fn selects_sound(
        streams: Seq<crate::probe::ProbeResultStream>,
        wanted: Option<u32>,
        choice: Option<ProbeResultAudioStream>,
    ) -> bool {
        let all = crate::probe::audio_streams(streams);
        match choice {
            Some(a) => chosen_audio(all, wanted, a),
            None => all.len() == 0,
        }
    }

    /// The video stream to use; an error if the video input has none.
    pub fn select_video_stream(&self) -> (r: Result<&ProbeResultVideoStream, FFPipelineError>)
        ensures
            ({
                let all = crate::probe::video_streams(
                    self.video_input.probe_result.streams@,
                    CodecType::Video,
                );
                match r {
                    Ok(v) => chosen_video(all, self.video_input.stream_index, *v),
                    Err(e) => all.len() == 0 && e == FFPipelineError::VideoInputIsRequired,
                }
            }),
            Self::selects_picture(
                self.video_input.probe_result.streams@,
                self.video_input.stream_index,
                match r {
                    Ok(v) => Some(*v),
                    Err(_) => None,
                },
            ),
    {
        let walk = walk_video_streams(
            &self.video_input.probe_result.streams,
            CodecType::Video,
            self.video_input.stream_index,
        );
        match walk.matched {
            Some(v) => Ok(v),
            None => match walk.lowest {
                Some(v) => Ok(v),
                None => Err(FFPipelineError::VideoInputIsRequired),
            },
        }
    }

    /// The audio stream to use; an error if the audio input has none.
    pub fn select_audio_stream(&self) -> (r: Result<&ProbeResultAudioStream, FFPipelineError>)
        ensures
            ({
                let all = crate::probe::audio_streams(self.audio_input.probe_result.streams@);
                match r {
                    Ok(a) => chosen_audio(all, self.audio_input.stream_index, *a),
                    Err(e) => all.len() == 0 && e == FFPipelineError::AudioInputIsRequired,
                }
            }),
            Self::selects_sound(
                self.audio_input.probe_result.streams@,
                self.audio_input.stream_index,
                match r {
                    Ok(a) => Some(*a),
                    Err(_) => None,
                },
            ),
    {
        let walk = walk_audio_streams(
            &self.audio_input.probe_result.streams,
            self.audio_input.stream_index,
        );
        match walk.matched {
            Some(a) => Ok(a),
            None => match walk.widest {
                Some(a) => Ok(a),
                None => Err(FFPipelineError::AudioInputIsRequired),
            },
        }
    }

    /// Whether this is the subtitle stream to use: the one that is wanted, if it is there,
    /// or else the only stream of an input that is nothing but a subtitle.
    pub open spec fn selects_subtitle(&self, choice: Option<ProbeResultVideoStream>) -> bool {
        match self.subtitle_input {
            None => choice is None,
            Some(input) => {
                let streams = input.probe_result.streams@;
                let all = crate::probe::video_streams(streams, CodecType::Subtitle);
                match input.stream_index {
                    Some(w) if crate::probe::has_video_at(all, w) => choice matches Some(v)
                        && crate::probe::first_video_at(all, w, v),
                    _ => if all.len() == 1 && streams.len() == 1 {
                        choice == Some(all[0])
                    } else {
                        choice is None
                    },
                }
            },
        }
    }

    /// The subtitle stream to use: the one that is wanted, if it is there, or else the only
    /// stream of an input that is nothing but a subtitle.
    pub fn select_subtitle_stream(&self) -> (r: Option<&ProbeResultVideoStream>)
        ensures
            self.selects_subtitle(
                match r {
                    Some(v) => Some(*v),
                    None => None,
                },
            ),
    {
        match &self.subtitle_input {
            None => None,
            Some(input) => {
                let walk = walk_video_streams(
                    &input.probe_result.streams,
                    CodecType::Subtitle,
                    input.stream_index,
                );
                match walk.matched {
                    Some(v) => Some(v),
                    None => if walk.count == 1 && input.probe_result.streams.len() == 1 {
                        walk.lowest
                    } else {
                        None
                    },
                }
            },
        }
    }

    /// The stream of the watermark, if there is a watermark with a video stream.
    pub fn select_watermark_stream(&self) -> (r: Option<&ProbeResultVideoStream>)
        ensures
            match self.watermark_input {
                None => r is None,
                Some(input) => {
                    let all = crate::probe::video_streams(
                        input.probe_result.streams@,
                        CodecType::Video,
                    );
                    match r {
                        Some(v) => chosen_video(all, input.stream_index, *v),
                        None => all.len() == 0,
                    }
                },
            },
            self.watermark_input matches Some(input) ==> Self::selects_picture(
                input.probe_result.streams@,
                input.stream_index,
                match r {
                    Some(v) => Some(*v),
                    None => None,
                },
            ),
    {
        match &self.watermark_input {
            None => None,
            Some(input) => {
                let walk = walk_video_streams(
                    &input.probe_result.streams,
                    CodecType::Video,
                    input.stream_index,
                );
                match walk.matched {
                    Some(v) => Some(v),
                    None => walk.lowest,
                }
            },
        }
    }
}

/// How to open an HTTP source.
#[derive(Debug)]
pub struct HttpInputOptions {
    pub headers: Vec<String>,
    pub user_agent: Option<String>,
    pub timeout_us: Option<u64>,
    pub reconnect: bool,
    pub reconnect_delay_max: Option<u32>,
    pub keep_alive: Option<bool>,
}

impl HttpInputOptions {
    /// Whether two sets of options are equal.
    pub open spec fn same(&self, other: &HttpInputOptions) -> bool {
        &&& crate::text::strings_view(self.headers@) == crate::text::strings_view(other.headers@)
        &&& crate::text::option_view(self.user_agent) == crate::text::option_view(other.user_agent)
        &&& self.timeout_us == other.timeout_us
        &&& self.reconnect == other.reconnect
        &&& self.reconnect_delay_max == other.reconnect_delay_max
        &&& self.keep_alive == other.keep_alive
    }
}

impl Clone for HttpInputOptions {
    fn clone(&self) -> (r: Self)
        ensures
            r.same(self),
    {
        HttpInputOptions {
            headers: clone_strings(&self.headers),
            user_agent: clone_option(&self.user_agent),
            timeout_us: self.timeout_us,
            reconnect: self.reconnect,
            reconnect_delay_max: self.reconnect_delay_max,
            keep_alive: self.keep_alive,
        }
    }
}

impl Default for HttpInputOptions {
    fn default() -> (r: Self)
        ensures
            r.headers@.len() == 0,
            r.user_agent is None,
            r.timeout_us is None,
            !r.reconnect,
            r.reconnect_delay_max is None,
            r.keep_alive is None,
    {
        HttpInputOptions {
            headers: Vec::new(),
            user_agent: None,
            timeout_us: None,
            reconnect: false,
            reconnect_delay_max: None,
            keep_alive: None,
        }
    }
}

/// How to open an RTSP source.
#[derive(Clone, Copy, Debug, PartialEq, Eq, Structural)]
pub struct RtspInputOptions {
    pub timeout_us: Option<u64>,
}

impl Default for RtspInputOptions {
    fn default() -> (r: Self)
        ensures
            r.timeout_us is None,
    {
        RtspInputOptions { timeout_us: None }
    }
}

/// How to open an RTMP source.
#[derive(Clone, Copy, Debug, PartialEq, Eq, Structural)]
pub struct RtmpInputOptions {
    pub timeout_us: Option<u64>,
}

impl Default for RtmpInputOptions {
    fn default() -> (r: Self)
        ensures
            r.timeout_us is None,
    {
        RtmpInputOptions { timeout_us: None }
    }
}

/// A file on this machine.
#[derive(Debug)]
pub struct LocalInputSource {
    pub path: String,
}

/// Whether a path may begin with a component that is a tilde alone, with a slash or a
/// backslash as the separator.
pub open spec fn has_tilde(path: Seq<char>) -> bool {
    path.len() > 0 && path[0] == '~' && (path.len() == 1 || path[1] == '/' || path[1] == '\\')
}

/// The components of a path: what stands between slashes, backslashes and the colon of a
/// drive, less what is empty or means the folder itself.
pub open spec fn components(path: Seq<char>) -> Seq<Seq<char>> {
    let slashed = path.map_values(
        |c: char|
            if c == '\\' || c == ':' {
                '/'
            } else {
                c
            },
    );
    crate::text::split(slashed, '/').filter(
        |text: Seq<char>| text.len() > 0 && text != seq!['.'],
    )
}

/// Whether a path begins with a tilde and a slash and goes down from there on every
/// platform: it names no parent folder and no drive.
pub open spec fn goes_down_from_tilde(path: Seq<char>) -> bool {
    &&& path.len() > 1
    &&& path[0] == '~'
    &&& path[1] == '/'
    &&& !path.contains(':')
    &&& !components(path).contains(seq!['.', '.'])
}

/// Whether an expansion keeps what it may not touch: a path without a tilde stays as it
/// is, and what a path with one becomes still ends in all the components behind the tilde,
/// in their order.
pub open spec fn keeps_path(path: Seq<char>, expanded: Option<Seq<char>>) -> bool {
    &&& !has_tilde(path) ==> expanded == Some(path)
    &&& goes_down_from_tilde(path) ==> match expanded {
        Some(text) => components(path).skip(1).is_suffix_of(components(text)),
        None => true,
    }
}

/// `simple_expand_tilde::expand_tilde`: a path whose first component is a tilde has it
/// replaced by the home directory of the user and its other components put behind that, one
/// by one, or fails where there is no home directory; any other path comes back as it is.
/// The home directory comes from the environment, so the contract does not say what stands
/// before those components, nor when there is none. It does not say either what becomes of
/// a path with a tilde that holds a parent folder or a colon, which some platforms resolve
/// or take for a drive. The result is read as text and is absent where it is not Unicode.
#[verifier::external_body]
fn expand_tilde(path: &str) -> (r: Option<String>)
    ensures
        keeps_path(path@, crate::text::option_view(r)),
{
    simple_expand_tilde::expand_tilde(path).and_then(|p| p.into_os_string().into_string().ok())
}

impl LocalInputSource {
    /// The path with the home directory in place of a tilde at its beginning and with all
    /// that stands behind it; a path without one is left as it is.
    pub fn expand_path(&self) -> (r: Option<String>)
        ensures
            keeps_path(self.path@, crate::text::option_view(r)),
    {
        expand_tilde(self.path.as_str())
    }
}

impl Clone for LocalInputSource {
    fn clone(&self) -> (r: Self)
        ensures
            r.path@ == self.path@,
    {
        LocalInputSource { path: self.path.clone() }
    }
}

/// A source that the filter library generates.
#[derive(Debug)]
pub struct LavfiInputSource {
    pub params: String,
}

impl Clone for LavfiInputSource {
    fn clone(&self) -> (r: Self)
        ensures
            r.params@ == self.params@,
    {
        LavfiInputSource { params: self.params.clone() }
    }
}

/// A source behind HTTP.
#[derive(Debug)]
pub struct HttpInputSource {
    pub uri: String,
    pub options: HttpInputOptions,
}

impl Clone for HttpInputSource {
    fn clone(&self) -> (r: Self)
        ensures
            r.uri@ == self.uri@,
            r.options.same(&self.options),
    {
        HttpInputSource { uri: self.uri.clone(), options: self.options.clone() }
    }
}

/// A source behind RTSP.
#[derive(Debug)]
pub struct RtspInputSource {
    pub uri: String,
    pub options: RtspInputOptions,
}

impl Clone for RtspInputSource {
    fn clone(&self) -> (r: Self)
        ensures
            r.uri@ == self.uri@,
            r.options == self.options,
    {
        RtspInputSource { uri: self.uri.clone(), options: self.options }
    }
}

/// A source behind RTMP.
#[derive(Debug)]
pub struct RtmpInputSource {
    pub uri: String,
    pub options: RtmpInputOptions,
}

impl Clone for RtmpInputSource {
    fn clone(&self) -> (r: Self)
        ensures
            r.uri@ == self.uri@,
            r.options == self.options,
    {
        RtmpInputSource { uri: self.uri.clone(), options: self.options }
    }
}

/// Where an input comes from.
#[derive(Debug)]
pub enum InputSource {
    Local(LocalInputSource),
    Lavfi(LavfiInputSource),
    Http(HttpInputSource),
    Rtsp(RtspInputSource),
    Rtmp(RtmpInputSource),
}

/// An input source with its texts as sequences of characters.
pub enum InputSourceView {
    Local { path: Seq<char> },
    Lavfi { params: Seq<char> },
    Http {
        uri: Seq<char>,
        headers: Seq<Seq<char>>,
        user_agent: Option<Seq<char>>,
        timeout_us: Option<u64>,
        reconnect: bool,
        reconnect_delay_max: Option<u32>,
        keep_alive: Option<bool>,
    },
    Rtsp { uri: Seq<char>, timeout_us: Option<u64> },
    Rtmp { uri: Seq<char>, timeout_us: Option<u64> },
}

impl View for InputSource {
    type V = InputSourceView;

    open spec fn view(&self) -> InputSourceView {
        match *self {
            InputSource::Local(s) => InputSourceView::Local { path: s.path@ },
            InputSource::Lavfi(s) => InputSourceView::Lavfi { params: s.params@ },
            InputSource::Http(s) => InputSourceView::Http {
                uri: s.uri@,
                headers: crate::text::strings_view(s.options.headers@),
                user_agent: crate::text::option_view(s.options.user_agent),
                timeout_us: s.options.timeout_us,
                reconnect: s.options.reconnect,
                reconnect_delay_max: s.options.reconnect_delay_max,
                keep_alive: s.options.keep_alive,
            },
            InputSource::Rtsp(s) => InputSourceView::Rtsp {
                uri: s.uri@,
                timeout_us: s.options.timeout_us,
            },
            InputSource::Rtmp(s) => InputSourceView::Rtmp {
                uri: s.uri@,
                timeout_us: s.options.timeout_us,
            },
        }
    }
}

impl Clone for InputSource {
    fn clone(&self) -> (r: Self)
        ensures
            r@ == self@,
    {
        match self {
            InputSource::Local(s) => InputSource::Local(s.clone()),
            InputSource::Lavfi(s) => InputSource::Lavfi(s.clone()),
            InputSource::Http(s) => InputSource::Http(s.clone()),
            InputSource::Rtsp(s) => InputSource::Rtsp(s.clone()),
            InputSource::Rtmp(s) => InputSource::Rtmp(s.clone()),
        }
    }
}

/// Sources that ffmpeg opens with arguments of their own.
pub trait FfmpegInputArgs {
    /// The arguments that stand before the input.
    spec fn input_args(&self) -> Seq<Seq<char>>;

    /// The arguments that stand before the input.
    fn args_for_input(&self) -> (r: ArgVec)
        ensures
            crate::text::strings_view(r@) == self.input_args(),
    ;
}

/// Appends one argument.
pub(crate) fn push_arg(args: &mut ArgVec, arg: &str)
    ensures
        crate::text::strings_view(final(args)@) == crate::text::strings_view(old(args)@).push(arg@),
{
    args.push(arg.to_owned());
    assert(crate::text::strings_view(args@) =~= crate::text::strings_view(old(args)@).push(arg@));
}

/// Appends a list of arguments.
pub(crate) fn extend_args(args: &mut ArgVec, more: ArgVec)
    ensures
        crate::text::strings_view(final(args)@) == crate::text::strings_view(old(args)@)
            + crate::text::strings_view(more@),
{
    for i in 0..more.len()
        invariant
            crate::text::strings_view(args@) == crate::text::strings_view(old(args)@)
                + crate::text::strings_view(more@).take(i as int),
    {
        push_arg(args, more[i].as_str());
        assert(crate::text::strings_view(more@).take(i + 1) =~= crate::text::strings_view(
            more@,
        ).take(i as int).push(more@[i as int]@));
        assert(crate::text::strings_view(args@) =~= crate::text::strings_view(old(args)@)
            + crate::text::strings_view(more@).take(i + 1));
    }
    assert(crate::text::strings_view(more@).take(more@.len() as int) =~= crate::text::strings_view(
        more@,
    ));
}

impl FfmpegInputArgs for LocalInputSource {
    open spec fn input_args(&self) -> Seq<Seq<char>> {
        Seq::empty()
    }

    fn args_for_input(&self) -> (r: ArgVec) {
        let r: ArgVec = Vec::new();
        assert(crate::text::strings_view(r@) =~= self.input_args());
        r
    }
}

impl FfmpegInputArgs for LavfiInputSource {
    open spec fn input_args(&self) -> Seq<Seq<char>> {
        seq!["-f"@, "lavfi"@]
    }

    fn args_for_input(&self) -> (r: ArgVec) {
        let mut r: ArgVec = Vec::new();
        push_arg(&mut r, "-f");
        push_arg(&mut r, "lavfi");
        assert(crate::text::strings_view(r@) =~= self.input_args());
        r
    }
}

/// An option with a number, or nothing where it is not set.
pub open spec fn number_option(name: Seq<char>, value: Option<nat>) -> Seq<Seq<char>> {
    match value {
        Some(n) => seq![name, crate::text::decimal(n)],
        None => Seq::empty(),
    }
}

/// A 64 bit number as a natural number.
pub open spec fn nat_of_u64(value: Option<u64>) -> Option<nat> {
    match value {
        Some(n) => Some(n as nat),
        None => None,
    }
}

/// A 32 bit number as a natural number.
pub open spec fn nat_of_u32(value: Option<u32>) -> Option<nat> {
    match value {
        Some(n) => Some(n as nat),
        None => None,
    }
}

/// Headers as ffmpeg expects them: each followed by a carriage return and a line feed.
pub open spec fn header_block(headers: Seq<Seq<char>>) -> Seq<char>
    decreases headers.len(),
{
    if headers.len() == 0 {
        Seq::empty()
    } else {
        header_block(headers.drop_last()) + headers.last() + seq!['\r', '\n']
    }
}

/// Joins headers, each followed by a carriage return and a line feed.
fn join_headers(headers: &Vec<String>) -> (r: String)
    ensures
        r@ == header_block(crate::text::strings_view(headers@)),
{
    let mut r = String::new();
    let ghost views = crate::text::strings_view(headers@);
    for i in 0..headers.len()
        invariant
            views == crate::text::strings_view(headers@),
            r@ == header_block(views.take(i as int)),
    {
        let ghost before = r@;
        r.append(headers[i].as_str());
        r.push('\r');
        r.push('\n');
        assert(views.take(i + 1).drop_last() =~= views.take(i as int));
        assert(r@ =~= before + headers@[i as int]@ + seq!['\r', '\n']);
    }
    assert(views.take(views.len() as int) =~= views);
    r
}

/// Appends an option and its value.
fn push_pair(args: &mut ArgVec, name: &str, value: &str)
    ensures
        crate::text::strings_view(final(args)@) == crate::text::strings_view(old(args)@) + seq![
            name@,
            value@,
        ],
{
    push_arg(args, name);
    push_arg(args, value);
    assert(crate::text::strings_view(args@) =~= crate::text::strings_view(old(args)@) + seq![
        name@,
        value@,
    ]);
}

/// Appends an option with a number, where it is set.
fn push_number(args: &mut ArgVec, name: &str, value: Option<u64>)
    ensures
        crate::text::strings_view(final(args)@) == crate::text::strings_view(old(args)@)
            + number_option(name@, nat_of_u64(value)),
{
    match value {
        Some(n) => push_pair(args, name, decimal_string(n).as_str()),
        None => {
            assert(crate::text::strings_view(args@) =~= crate::text::strings_view(old(args)@)
                + number_option(name@, nat_of_u64(value)));
        },
    }
}

impl HttpInputOptions {
    /// The arguments by which ffmpeg reconnects.
    pub open spec fn reconnect_args(&self) -> Seq<Seq<char>> {
        if self.reconnect {
            seq!["-reconnect"@, "1"@] + seq!["-reconnect_on_network_error"@, "1"@] + seq![
                "-reconnect_streamed"@,
                "1"@,
            ] + number_option("-reconnect_delay_max"@, nat_of_u32(self.reconnect_delay_max))
        } else {
            Seq::empty()
        }
    }

    /// The arguments by which ffmpeg keeps a connection.
    pub open spec fn keep_alive_args(&self) -> Seq<Seq<char>> {
        if self.keep_alive == Some(true) {
            seq!["-multiple_requests"@, "1"@]
        } else {
            Seq::empty()
        }
    }

    /// The arguments that name the user agent.
    pub open spec fn user_agent_args(&self) -> Seq<Seq<char>> {
        match self.user_agent {
            Some(ua) => seq!["-user_agent"@, ua@],
            None => Seq::empty(),
        }
    }

    /// The arguments that give the headers.
    pub open spec fn header_args(&self) -> Seq<Seq<char>> {
        if self.headers@.len() > 0 {
            seq!["-headers"@, header_block(crate::text::strings_view(self.headers@))]
        } else {
            Seq::empty()
        }
    }

    /// Appends the arguments by which ffmpeg reconnects.
    fn push_reconnect(&self, args: &mut ArgVec)
        ensures
            crate::text::strings_view(final(args)@) == crate::text::strings_view(old(args)@)
                + self.reconnect_args(),
    {
        if self.reconnect {
            push_pair(args, "-reconnect", "1");
            push_pair(args, "-reconnect_on_network_error", "1");
            push_pair(args, "-reconnect_streamed", "1");
            let delay = match self.reconnect_delay_max {
                Some(d) => Some(d as u64),
                None => None,
            };
            push_number(args, "-reconnect_delay_max", delay);
        }
        assert(crate::text::strings_view(args@) =~= crate::text::strings_view(old(args)@)
            + self.reconnect_args());
    }

    /// Appends the arguments about the connection, the user agent and the headers.
    fn push_others(&self, args: &mut ArgVec)
        ensures
            crate::text::strings_view(final(args)@) == crate::text::strings_view(old(args)@)
                + self.keep_alive_args() + number_option("-timeout"@, nat_of_u64(self.timeout_us))
                + self.user_agent_args() + self.header_args(),
    {
        if let Some(true) = self.keep_alive {
            push_pair(args, "-multiple_requests", "1");
        }
        let ghost with_keep_alive = crate::text::strings_view(args@);
        assert(with_keep_alive =~= crate::text::strings_view(old(args)@) + self.keep_alive_args());
        push_number(args, "-timeout", self.timeout_us);
        let ghost with_timeout = crate::text::strings_view(args@);
        if let Some(ua) = &self.user_agent {
            push_pair(args, "-user_agent", ua.as_str());
        }
        let ghost with_user_agent = crate::text::strings_view(args@);
        assert(with_user_agent =~= with_timeout + self.user_agent_args());
        if self.headers.len() > 0 {
            push_pair(args, "-headers", join_headers(&self.headers).as_str());
        }
        assert(crate::text::strings_view(args@) =~= with_user_agent + self.header_args());
    }
}

impl FfmpegInputArgs for HttpInputSource {
    open spec fn input_args(&self) -> Seq<Seq<char>> {
        self.options.reconnect_args() + self.options.keep_alive_args() + number_option(
            "-timeout"@,
            nat_of_u64(self.options.timeout_us),
        ) + self.options.user_agent_args() + self.options.header_args() + seq![
            "-protocol_whitelist"@,
            "file,http,https,tcp,tls,crypto"@,
        ]
    }

    fn args_for_input(&self) -> (r: ArgVec) {
        let mut args: ArgVec = Vec::new();
        self.options.push_reconnect(&mut args);
        assert(crate::text::strings_view(args@) =~= self.options.reconnect_args());
        self.options.push_others(&mut args);
        push_pair(&mut args, "-protocol_whitelist", "file,http,https,tcp,tls,crypto");
        args
    }
}

impl FfmpegInputArgs for RtspInputSource {
    open spec fn input_args(&self) -> Seq<Seq<char>> {
        number_option("-timeout"@, nat_of_u64(self.options.timeout_us)) + seq![
            "-protocol_whitelist"@,
            "file,rtp,rtsp,udp,tcp,tls,crypto"@,
        ]
    }

    fn args_for_input(&self) -> (r: ArgVec) {
        let mut args: ArgVec = Vec::new();
        push_number(&mut args, "-timeout", self.options.timeout_us);
        push_pair(&mut args, "-protocol_whitelist", "file,rtp,rtsp,udp,tcp,tls,crypto");
        assert(crate::text::strings_view(args@) =~= self.input_args());
        args
    }
}

impl FfmpegInputArgs for RtmpInputSource {
    open spec fn input_args(&self) -> Seq<Seq<char>> {
        number_option("-timeout"@, nat_of_u64(self.options.timeout_us)) + seq![
            "-protocol_whitelist"@,
            "file,rtmp,rtmps,tcp,tls,crypto"@,
        ]
    }

    fn args_for_input(&self) -> (r: ArgVec) {
        let mut args: ArgVec = Vec::new();
        push_number(&mut args, "-timeout", self.options.timeout_us);
        push_pair(&mut args, "-protocol_whitelist", "file,rtmp,rtmps,tcp,tls,crypto");
        assert(crate::text::strings_view(args@) =~= self.input_args());
        args
    }
}

impl FfmpegInputArgs for InputSource {
    open spec fn input_args(&self) -> Seq<Seq<char>> {
        match *self {
            InputSource::Local(s) => s.input_args(),
            InputSource::Lavfi(s) => s.input_args(),
            InputSource::Http(s) => s.input_args(),
            InputSource::Rtsp(s) => s.input_args(),
            InputSource::Rtmp(s) => s.input_args(),
        }
    }

    fn args_for_input(&self) -> (r: ArgVec) {
        match self {
            InputSource::Local(s) => s.args_for_input(),
            InputSource::Lavfi(s) => s.args_for_input(),
            InputSource::Http(s) => s.args_for_input(),
            InputSource::Rtsp(s) => s.args_for_input(),
            InputSource::Rtmp(s) => s.args_for_input(),
        }
    }
}

/// An input with what probing it found and the part of it to use.
pub struct ProbedInput {
    pub input_source: InputSource,
    pub probe_result: ProbeResult,
    pub in_point: Duration,
    pub out_point: Duration,
    pub stream_index: Option<u32>,
}

/// The watermark of a pipeline.
#[derive(Debug)]
pub struct WatermarkInput {
    pub input_source: InputSource,
    pub probe_result: ProbeResult,
    pub stream_index: Option<u32>,
    pub location: WatermarkLocation,
    pub width_percent: Option<Percent>,
    pub within_source_content: Option<bool>,
    pub horizontal_margin_percent: Option<Percent>,
    pub vertical_margin_percent: Option<Percent>,
    pub opacity_percent: Option<Percent>,
    pub timing: Option<WatermarkTiming>,
}

impl Clone for WatermarkInput {
    fn clone(&self) -> (r: Self)
        ensures
            r.input_source@ == self.input_source@,
            r.probe_result.same(&self.probe_result),
            r.stream_index == self.stream_index,
            r.location == self.location,
            r.width_percent == self.width_percent,
            r.within_source_content == self.within_source_content,
            r.horizontal_margin_percent == self.horizontal_margin_percent,
            r.vertical_margin_percent == self.vertical_margin_percent,
            r.opacity_percent == self.opacity_percent,
            r.timing == self.timing,
    {
        WatermarkInput {
            input_source: self.input_source.clone(),
            probe_result: self.probe_result.clone(),
            stream_index: self.stream_index,
            location: self.location,
            width_percent: self.width_percent,
            within_source_content: self.within_source_content,
            horizontal_margin_percent: self.horizontal_margin_percent,
            vertical_margin_percent: self.vertical_margin_percent,
            opacity_percent: self.opacity_percent,
            timing: self.timing,
        }
    }
}

/// When a watermark is shown.
#[derive(Debug, Clone, Copy, PartialEq, Eq, Structural)]
pub enum WatermarkTiming {
    Periodic(PeriodicTiming),
}

/// A watermark that comes and goes.
#[derive(Debug, Clone, Copy, PartialEq, Eq, Structural)]
pub struct PeriodicTiming {
    pub clock: PeriodicClock,
    pub frequency_ms: u64,
    pub phase_offset_ms: Option<u64>,
    pub disable_after_ms: Option<u64>,
    pub fade_ms: Option<u64>,
    pub hold_ms: u64,
}

/// The clock by which a watermark comes and goes.
#[derive(Debug, Clone, Copy, PartialEq, Eq, Structural)]
pub enum PeriodicClock {
    Wall,
    Content,
}

/// Where in the picture a watermark stands.
#[derive(Debug, Clone, Copy, PartialEq, Eq, Structural)]
pub enum WatermarkLocation {
    TopLeft,
    TopCenter,
    TopRight,
    CenterLeft,
    Center,
    CenterRight,
    BottomLeft,
    BottomCenter,
    BottomRight,
}

/// The difference, or zero where it would be negative.
pub open spec fn less(a: int, b: int) -> int {
    if a > b {
        a - b
    } else {
        0
    }
}

/// The number itself, or the next one where it is odd.
pub open spec fn even_up(n: int) -> int {
    n + n % 2
}

/// What stands left, right or in the middle of a frame.
#[derive(Debug, Clone, Copy, PartialEq, Eq, Structural)]
pub enum Side {
    Near,
    Middle,
    Far,
}

impl WatermarkLocation {
    /// The horizontal side of a location, left to right.
    pub open spec fn column(self) -> Side {
        match self {
            WatermarkLocation::TopLeft
            | WatermarkLocation::CenterLeft
            | WatermarkLocation::BottomLeft => Side::Near,
            WatermarkLocation::TopCenter
            | WatermarkLocation::Center
            | WatermarkLocation::BottomCenter => Side::Middle,
            WatermarkLocation::TopRight
            | WatermarkLocation::CenterRight
            | WatermarkLocation::BottomRight => Side::Far,
        }
    }

    /// The vertical side of a location, top to bottom.
    pub open spec fn row(self) -> Side {
        match self {
            WatermarkLocation::TopLeft
            | WatermarkLocation::TopCenter
            | WatermarkLocation::TopRight => Side::Near,
            WatermarkLocation::CenterLeft
            | WatermarkLocation::Center
            | WatermarkLocation::CenterRight => Side::Middle,
            WatermarkLocation::BottomLeft
            | WatermarkLocation::BottomCenter
            | WatermarkLocation::BottomRight => Side::Far,
        }
    }

    /// The horizontal and the vertical side of a location.
    fn sides(self) -> (r: (Side, Side))
        ensures
            r == (self.column(), self.row()),
    {
        match self {
            WatermarkLocation::TopLeft => (Side::Near, Side::Near),
            WatermarkLocation::TopCenter => (Side::Middle, Side::Near),
            WatermarkLocation::TopRight => (Side::Far, Side::Near),
            WatermarkLocation::CenterLeft => (Side::Near, Side::Middle),
            WatermarkLocation::Center => (Side::Middle, Side::Middle),
            WatermarkLocation::CenterRight => (Side::Far, Side::Middle),
            WatermarkLocation::BottomLeft => (Side::Near, Side::Far),
            WatermarkLocation::BottomCenter => (Side::Middle, Side::Far),
            WatermarkLocation::BottomRight => (Side::Far, Side::Far),
        }
    }
}

/// The coordinate of a watermark of length `size` on one axis of a frame of length
/// `frame`: its margin and the bar from the near edge, the margin from the middle, or the
/// margin and the bar from the far edge.
pub open spec fn coordinate(side: Side, frame: int, size: int, margin: int, bar: int) -> int {
    match side {
        Side::Near => margin + bar,
        Side::Middle => less(frame, size) / 2 + margin,
        Side::Far => less(less(frame, size), margin + bar),
    }
}

/// Whether the sums in a coordinate stay within 32 bits.
pub open spec fn coordinate_fits(
    side: Side,
    frame: int,
    size: int,
    margin: int,
    bar: int,
) -> bool {
    match side {
        Side::Middle => less(frame, size) / 2 + margin <= u32::MAX,
        _ => margin + bar <= u32::MAX,
    }
}

/// The distances of a watermark from the edges, in pixels.
#[derive(Clone, Copy, Debug, PartialEq, Eq, Structural)]
pub struct Margins {
    pub horizontal: u32,
    pub vertical: u32,
}

/// Whether the sums in a coordinate stay within 32 bits.
fn place_fits(side: Side, frame: u32, size: u32, margin: u32, bar: u32) -> (r: bool)
    ensures
        r == coordinate_fits(side, frame as int, size as int, margin as int, bar as int),
{
    let sum: u64 = match side {
        Side::Middle => {
            let room: u32 = if frame > size {
                frame - size
            } else {
                0
            };
            (room / 2) as u64 + margin as u64
        },
        _ => margin as u64 + bar as u64,
    };
    sum <= 0xFFFF_FFFF
}

/// The coordinate of a watermark on one axis.
fn place(side: Side, frame: u32, size: u32, margin: u32, bar: u32) -> (r: u32)
    requires
        coordinate_fits(side, frame as int, size as int, margin as int, bar as int),
    ensures
        r == coordinate(side, frame as int, size as int, margin as int, bar as int),
{
    let room: u32 = if frame > size {
        frame - size
    } else {
        0
    };
    match side {
        Side::Near => margin + bar,
        Side::Middle => room / 2 + margin,
        Side::Far => {
            let distance: u32 = margin + bar;
            if room > distance {
                room - distance
            } else {
                0
            }
        },
    }
}

impl WatermarkInput {
    /// Whether margins are measured from the content rather than from the frame.
    pub open spec fn within_content(&self) -> bool {
        self.within_source_content == Some(true)
    }

    /// The bar that padding leaves on each side of the content along one axis.
    pub open spec fn bar(&self, content: int, frame: int) -> int {
        if self.within_content() {
            less(frame, content) / 2
        } else {
            0
        }
    }

    /// The length of which a margin along one axis is a percentage.
    pub open spec fn reference(&self, content: int, frame: int) -> int {
        if self.within_content() {
            content
        } else {
            frame
        }
    }

    /// The width of the frame and the percentage of it that the watermark is scaled to;
    /// nothing where the watermark keeps its size.
    pub fn scaling(&self, video_size: Option<FrameSize>) -> (r: Option<(Percent, u32)>)
        ensures
            r == match (self.width_percent, video_size) {
                (Some(percent), Some(size)) => Some((percent, size.width)),
                _ => None,
            },
    {
        match (self.width_percent, video_size) {
            (Some(percent), Some(size)) => Some((percent, size.width)),
            _ => None,
        }
    }

    /// The size at which the watermark is drawn, where `rounded` is the scaled size in
    /// whole pixels: each side of it is made even. Without a frame or a percentage the
    /// watermark keeps its size.
    pub fn scaled_size(
        &self,
        watermark_size: FrameSize,
        video_size: Option<FrameSize>,
        rounded: FrameSize,
    ) -> (r: FrameSize)
        requires
            self.width_percent is Some && video_size is Some ==> rounded.width < u32::MAX
                && rounded.height < u32::MAX,
        ensures
            if self.width_percent is Some && video_size is Some {
                r.width == even_up(rounded.width as int) && r.height == even_up(
                    rounded.height as int,
                )
            } else {
                r == watermark_size
            },
    {
        match self.scaling(video_size) {
            Some(_) => FrameSize {
                width: rounded.width + rounded.width % 2,
                height: rounded.height + rounded.height % 2,
            },
            None => watermark_size,
        }
    }

    /// The size of which the margins are percentages: the content where margins are
    /// measured from it, or else the frame.
    pub fn margin_reference(
        &self,
        source_content_size: &FrameSize,
        video_size: &FrameSize,
    ) -> (r: FrameSize)
        ensures
            r.width == self.reference(source_content_size.width as int, video_size.width as int),
            r.height == self.reference(source_content_size.height as int, video_size.height as int),
    {
        if let Some(true) = self.within_source_content {
            *source_content_size
        } else {
            *video_size
        }
    }

    /// The percentages of the margins, horizontal and vertical; one that is omitted is zero.
    pub fn margin_percents(&self) -> (r: (Percent, Percent))
        ensures
            r.0 == match self.horizontal_margin_percent {
                Some(percent) => percent,
                None => Percent { bits: 0 },
            },
            r.1 == match self.vertical_margin_percent {
                Some(percent) => percent,
                None => Percent { bits: 0 },
            },
    {
        let horizontal = match self.horizontal_margin_percent {
            Some(percent) => percent,
            None => Percent { bits: 0 },
        };
        let vertical = match self.vertical_margin_percent {
            Some(percent) => percent,
            None => Percent { bits: 0 },
        };
        (horizontal, vertical)
    }

    /// The bars that padding leaves on each side of the content, on both axes.
    fn bars(&self, source_content_size: &FrameSize, video_size: &FrameSize) -> (r: (u32, u32))
        ensures
            r.0 == self.bar(source_content_size.width as int, video_size.width as int),
            r.1 == self.bar(source_content_size.height as int, video_size.height as int),
    {
        let within = if let Some(true) = self.within_source_content {
            true
        } else {
            false
        };
        let bar_x: u32 = if within && video_size.width > source_content_size.width {
            (video_size.width - source_content_size.width) / 2
        } else {
            0
        };
        let bar_y: u32 = if within && video_size.height > source_content_size.height {
            (video_size.height - source_content_size.height) / 2
        } else {
            0
        };
        (bar_x, bar_y)
    }

    /// Whether the sums in the coordinates of the watermark stay within 32 bits.
    pub open spec fn fits_at(
        &self,
        content: FrameSize,
        scaled: FrameSize,
        frame: FrameSize,
        margins: Margins,
    ) -> bool {
        &&& coordinate_fits(
            self.location.column(),
            frame.width as int,
            scaled.width as int,
            margins.horizontal as int,
            self.bar(content.width as int, frame.width as int),
        )
        &&& coordinate_fits(
            self.location.row(),
            frame.height as int,
            scaled.height as int,
            margins.vertical as int,
            self.bar(content.height as int, frame.height as int),
        )
    }

    /// Whether the sums in the coordinates of the watermark stay within 32 bits.
    pub fn location_fits(
        &self,
        source_content_size: &FrameSize,
        scaled_size: &FrameSize,
        video_size: &FrameSize,
        margins: Margins,
    ) -> (r: bool)
        ensures
            r == self.fits_at(*source_content_size, *scaled_size, *video_size, margins),
    {
        let (bar_x, bar_y) = self.bars(source_content_size, video_size);
        let (column, row) = self.location.sides();
        place_fits(column, video_size.width, scaled_size.width, margins.horizontal, bar_x)
            && place_fits(row, video_size.height, scaled_size.height, margins.vertical, bar_y)
    }

    /// Where the upper left corner of the watermark stands, from the left and from the top.
    pub open spec fn corner(
        &self,
        content: FrameSize,
        scaled: FrameSize,
        frame: FrameSize,
        margins: Margins,
    ) -> (int, int) {
        (
            coordinate(
                self.location.column(),
                frame.width as int,
                scaled.width as int,
                margins.horizontal as int,
                self.bar(content.width as int, frame.width as int),
            ),
            coordinate(
                self.location.row(),
                frame.height as int,
                scaled.height as int,
                margins.vertical as int,
                self.bar(content.height as int, frame.height as int),
            ),
        )
    }

    /// Where the upper left corner of the watermark stands, with these margins in pixels.
    pub fn frame_location(
        &self,
        source_content_size: &FrameSize,
        scaled_size: &FrameSize,
        video_size: &FrameSize,
        margins: Margins,
    ) -> (r: FramePoint)
        requires
            self.fits_at(*source_content_size, *scaled_size, *video_size, margins),
        ensures
            r.x == coordinate(
                self.location.column(),
                video_size.width as int,
                scaled_size.width as int,
                margins.horizontal as int,
                self.bar(source_content_size.width as int, video_size.width as int),
            ),
            r.y == coordinate(
                self.location.row(),
                video_size.height as int,
                scaled_size.height as int,
                margins.vertical as int,
                self.bar(source_content_size.height as int, video_size.height as int),
            ),
            (r.x as int, r.y as int) == self.corner(
                *source_content_size,
                *scaled_size,
                *video_size,
                margins,
            ),
    {
        let (bar_x, bar_y) = self.bars(source_content_size, video_size);
        let (column, row) = self.location.sides();
        FramePoint {
            x: place(column, video_size.width, scaled_size.width, margins.horizontal, bar_x),
            y: place(row, video_size.height, scaled_size.height, margins.vertical, bar_y),
        }
    }
}

/// On each axis, where margins are measured from the content, a watermark that fits into
/// the content with its margin stays inside the content, whatever bars the padding leaves.
/// The bars are of equal width on both sides; where they are not, the far one is a pixel
/// wider than the near one and the watermark may reach that pixel.
pub proof fn law_watermark_inside_content(
    watermark: WatermarkInput,
    side: Side,
    frame: int,
    content: int,
    size: int,
    margin: int,
)
    requires
        watermark.within_content(),
        0 <= content <= frame,
        (frame - content) % 2 == 0,
        0 <= size,
        0 <= margin,
        match side {
            Side::Middle => size + 2 * margin <= content,
            _ => size + margin <= content,
        },
    ensures
        ({
            let bar = watermark.bar(content, frame);
            let at = coordinate(side, frame, size, margin, bar);
            bar <= at && at + size <= bar + content
        }),
{
}

/// Where the content fills the frame, it makes no difference whether margins are measured
/// from the content or from the frame.
pub proof fn law_filled_frame_ignores_content(
    watermark: WatermarkInput,
    other: WatermarkInput,
    side: Side,
    frame: int,
    size: int,
    margin: int,
)
    ensures
        watermark.reference(frame, frame) == other.reference(frame, frame),
        coordinate(side, frame, size, margin, watermark.bar(frame, frame)) == coordinate(
            side,
            frame,
            size,
            margin,
            other.bar(frame, frame),
        ),
{
}

/// A block of headers ends with a carriage return and a line feed.
pub proof fn law_header_block_is_terminated(headers: Seq<Seq<char>>)
    requires
        headers.len() > 0,
    ensures
        seq!['\r', '\n'].is_suffix_of(header_block(headers)),
{
    let block = header_block(headers);
    let before = header_block(headers.drop_last()) + headers.last();
    assert(block =~= before + seq!['\r', '\n']);
    assert(block.subrange(block.len() - 2, block.len() as int) =~= seq!['\r', '\n']);
}

/// At most one stream is the one to use.
pub proof fn law_choice_is_unique(
    all: Seq<ProbeResultVideoStream>,
    wanted: Option<u32>,
    v: ProbeResultVideoStream,
    w: ProbeResultVideoStream,
)
    requires
        chosen_video(all, wanted, v),
        chosen_video(all, wanted, w),
    ensures
        v == w,
{
    match wanted {
        Some(index) if crate::probe::has_video_at(all, index) => {
            let i = choose|i: int|
                #[trigger] crate::probe::first_position(all, index, i) && all[i] == v;
            let k = choose|k: int|
                #[trigger] crate::probe::first_position(all, index, k) && all[k] == w;
            assert(i == k);
        },
        _ => {
            let i = choose|i: int| #[trigger] crate::probe::lowest_position(all, i) && all[i] == v;
            let k = choose|k: int| #[trigger] crate::probe::lowest_position(all, k) && all[k] == w;
            assert(i == k);
        },
    }
}

/// At most one stream of sound is the one to use.
pub proof fn law_audio_choice_is_unique(
    all: Seq<ProbeResultAudioStream>,
    wanted: Option<u32>,
    a: ProbeResultAudioStream,
    b: ProbeResultAudioStream,
)
    requires
        chosen_audio(all, wanted, a),
        chosen_audio(all, wanted, b),
    ensures
        a == b,
{
    match wanted {
        Some(index) if crate::probe::has_audio_at(all, index) => {
            let i = choose|i: int|
                #[trigger] crate::probe::first_audio_position(all, index, i) && all[i] == a;
            let k = choose|k: int|
                #[trigger] crate::probe::first_audio_position(all, index, k) && all[k] == b;
            assert(i == k);
        },
        _ => {
            let i = choose|i: int| #[trigger] crate::probe::widest_position(all, i) && all[i] == a;
            let k = choose|k: int| #[trigger] crate::probe::widest_position(all, k) && all[k] == b;
            assert(i == k);
        },
    }
}

/// The stream to use is a stream of the input, and of the wanted kind.
pub proof fn law_choice_is_of_the_input(
    streams: Seq<crate::probe::ProbeResultStream>,
    kind: CodecType,
    wanted: Option<u32>,
    v: ProbeResultVideoStream,
)
    requires
        chosen_video(crate::probe::video_streams(streams, kind), wanted, v),
    ensures
        v.codec_type == kind,
        streams.contains(crate::probe::ProbeResultStream::Video(v)),
{
    let all = crate::probe::video_streams(streams, kind);
    assert(all.contains(v));
    lemma_video_streams_are_of_the_input(streams, kind, v);
}

/// What the list of picture streams of one kind holds is of that kind and in the input.
proof fn lemma_video_streams_are_of_the_input(
    streams: Seq<crate::probe::ProbeResultStream>,
    kind: CodecType,
    v: ProbeResultVideoStream,
)
    requires
        crate::probe::video_streams(streams, kind).contains(v),
    ensures
        v.codec_type == kind,
        streams.contains(crate::probe::ProbeResultStream::Video(v)),
    decreases streams.len(),
{
    if streams.len() > 0 {
        let before = crate::probe::video_streams(streams.drop_last(), kind);
        if before.contains(v) {
            lemma_video_streams_are_of_the_input(streams.drop_last(), kind, v);
            let stream = crate::probe::ProbeResultStream::Video(v);
            let i = choose|i: int|
                0 <= i < streams.drop_last().len() && streams.drop_last()[i] == stream;
            assert(streams[i] == stream);
        } else {
            assert(streams[streams.len() - 1] == streams.last());
        }
    }
}

/// Where the watermark stands in the upper left corner, its distance from the left and from
/// the top is the margin, and behind that the bar on that side where margins are measured
/// from the content: half of what the content leaves of the frame.
pub proof fn law_upper_left_keeps_its_distance(
    watermark: WatermarkInput,
    content: FrameSize,
    scaled: FrameSize,
    frame: FrameSize,
    margins: Margins,
)
    requires
        watermark.location == WatermarkLocation::TopLeft,
    ensures
        ({
            let (x, y) = watermark.corner(content, scaled, frame, margins);
            let (bar_x, bar_y) = (x - margins.horizontal, y - margins.vertical);
            if watermark.within_source_content == Some(true) {
                &&& content.width <= frame.width ==> 2 * bar_x <= frame.width - content.width < 2
                    * bar_x + 2
                &&& content.width > frame.width ==> bar_x == 0
                &&& content.height <= frame.height ==> 2 * bar_y <= frame.height - content.height
                    < 2 * bar_y + 2
                &&& content.height > frame.height ==> bar_y == 0
            } else {
                bar_x == 0 && bar_y == 0
            }
        }),
{
}

/// A watermark at the right edge is the mirror image of the same one at the left edge, and
/// stands as high; where the frame has no room for it with its distance, it stands at the
/// left edge of the frame.
pub proof fn law_left_and_right_mirror(
    left: WatermarkInput,
    right: WatermarkInput,
    content: FrameSize,
    scaled: FrameSize,
    frame: FrameSize,
    margins: Margins,
)
    requires
        right == (WatermarkInput { location: right.location, ..left }),
        (left.location == WatermarkLocation::TopLeft && right.location
            == WatermarkLocation::TopRight) || (left.location == WatermarkLocation::CenterLeft
            && right.location == WatermarkLocation::CenterRight) || (left.location
            == WatermarkLocation::BottomLeft && right.location == WatermarkLocation::BottomRight),
    ensures
        ({
            let (x, y) = left.corner(content, scaled, frame, margins);
            let (mirrored, same) = right.corner(content, scaled, frame, margins);
            &&& same == y
            &&& x + scaled.width <= frame.width ==> x + scaled.width + mirrored == frame.width
            &&& x + scaled.width > frame.width ==> mirrored == 0
        }),
{
}

/// A watermark at the lower edge is the mirror image of the same one at the upper edge, and
/// stands as far from the left; where the frame has no room for it with its distance, it
/// stands at the upper edge of the frame.
pub proof fn law_top_and_bottom_mirror(
    top: WatermarkInput,
    bottom: WatermarkInput,
    content: FrameSize,
    scaled: FrameSize,
    frame: FrameSize,
    margins: Margins,
)
    requires
        bottom == (WatermarkInput { location: bottom.location, ..top }),
        (top.location == WatermarkLocation::TopLeft && bottom.location
            == WatermarkLocation::BottomLeft) || (top.location == WatermarkLocation::TopCenter
            && bottom.location == WatermarkLocation::BottomCenter) || (top.location
            == WatermarkLocation::TopRight && bottom.location == WatermarkLocation::BottomRight),
    ensures
        ({
            let (x, y) = top.corner(content, scaled, frame, margins);
            let (same, mirrored) = bottom.corner(content, scaled, frame, margins);
            &&& same == x
            &&& y + scaled.height <= frame.height ==> y + scaled.height + mirrored == frame.height
            &&& y + scaled.height > frame.height ==> mirrored == 0
        }),
{
}

/// A watermark in a middle column or row stands, but for its margin, as far from one edge of
/// the frame as from the other, to the pixel, whatever the content; along the other axis it
/// stands as the same one in a corner does.
pub proof fn law_middle_is_centered(
    middle: WatermarkInput,
    cornered: WatermarkInput,
    content: FrameSize,
    scaled: FrameSize,
    frame: FrameSize,
    margins: Margins,
)
    requires
        cornered == (WatermarkInput { location: cornered.location, ..middle }),
    ensures
        ({
            let (x, y) = middle.corner(content, scaled, frame, margins);
            let (corner_x, corner_y) = cornered.corner(content, scaled, frame, margins);
            let (room_x, room_y) = (frame.width - scaled.width, frame.height - scaled.height);
            let (left, top) = (x - margins.horizontal, y - margins.vertical);
            let centered_x = if room_x >= 0 {
                2 * left <= room_x < 2 * left + 2
            } else {
                left == 0
            };
            let centered_y = if room_y >= 0 {
                2 * top <= room_y < 2 * top + 2
            } else {
                top == 0
            };
            match (middle.location, cornered.location) {
                (WatermarkLocation::TopCenter, WatermarkLocation::TopLeft) => centered_x && y
                    == corner_y,
                (WatermarkLocation::BottomCenter, WatermarkLocation::BottomLeft) => centered_x && y
                    == corner_y,
                (WatermarkLocation::CenterLeft, WatermarkLocation::TopLeft) => centered_y && x
                    == corner_x,
                (WatermarkLocation::CenterRight, WatermarkLocation::TopRight) => centered_y && x
                    == corner_x,
                (WatermarkLocation::Center, _) => centered_x && centered_y,
                _ => true,
            }
        }),
{
}

/// Where the sums of every distance stay within 32 bits, the place of the watermark can be
/// told, and the place is then within 32 bits.
pub proof fn law_small_distances_fit(
    watermark: WatermarkInput,
    content: FrameSize,
    scaled: FrameSize,
    frame: FrameSize,
    margins: Margins,
)
    ensures
        frame.width / 2 + margins.horizontal <= u32::MAX && frame.height / 2 + margins.vertical
            <= u32::MAX ==> watermark.fits_at(content, scaled, frame, margins),
        watermark.fits_at(content, scaled, frame, margins) ==> ({
            let (x, y) = watermark.corner(content, scaled, frame, margins);
            0 <= x <= u32::MAX && 0 <= y <= u32::MAX
        }),
{
}

/// Margins are percentages of the content only where they are said to be measured from it;
/// said otherwise or not at all, they are percentages of the frame.
pub proof fn law_margins_refer_to_the_frame_by_default(
    watermark: WatermarkInput,
    content: int,
    frame: int,
)
    ensures
        watermark.within_source_content is None ==> watermark.reference(content, frame) == frame,
        watermark.within_source_content == Some(false) ==> watermark.reference(content, frame)
            == frame,
        watermark.within_source_content == Some(true) ==> watermark.reference(content, frame)
            == content,
{
}

/// A side is made even by at most one pixel, never by taking one away.
pub proof fn law_even_sides(n: int)
    ensures
        even_up(n) % 2 == 0,
        n <= even_up(n) <= n + 1,
{
}

/// Whether the second list of arguments is the first with some more put in at one place.
pub open spec fn is_put_in(
    without: Seq<Seq<char>>,
    with: Seq<Seq<char>>,
    more: Seq<Seq<char>>,
) -> bool {
    exists|k: int|
        0 <= k <= without.len() && with == #[trigger] without.take(k) + more + without.skip(k)
}

/// Two lists with more between them are the two lists with more put in.
proof fn lemma_put_in(a: Seq<Seq<char>>, more: Seq<Seq<char>>, b: Seq<Seq<char>>)
    ensures
        is_put_in(a + b, a + more + b, more),
{
    let without = a + b;
    assert(without.take(a.len() as int) =~= a);
    assert(without.skip(a.len() as int) =~= b);
    assert(a + more + b == without.take(a.len() as int) + more + without.skip(a.len() as int));
}

/// The arguments that limit the time of an HTTP source.
spec fn timeout_args(options: HttpInputOptions) -> Seq<Seq<char>> {
    number_option("-timeout"@, nat_of_u64(options.timeout_us))
}

/// The protocols that an HTTP source may use.
spec fn http_protocols() -> Seq<Seq<char>> {
    seq!["-protocol_whitelist"@, "file,http,https,tcp,tls,crypto"@]
}

/// The arguments behind those for the user agent.
spec fn behind_user_agent(options: HttpInputOptions) -> Seq<Seq<char>> {
    options.header_args() + http_protocols()
}

/// The arguments behind those for the time limit.
spec fn behind_timeout(options: HttpInputOptions) -> Seq<Seq<char>> {
    options.user_agent_args() + behind_user_agent(options)
}

/// The arguments behind those for keeping the connection.
spec fn behind_keep_alive(options: HttpInputOptions) -> Seq<Seq<char>> {
    timeout_args(options) + behind_timeout(options)
}

/// The arguments behind those for reconnecting.
spec fn behind_reconnect(options: HttpInputOptions) -> Seq<Seq<char>> {
    options.keep_alive_args() + behind_keep_alive(options)
}

/// Lists can be joined in either order.
proof fn lemma_joined(a: Seq<Seq<char>>, b: Seq<Seq<char>>, c: Seq<Seq<char>>)
    ensures
        a + b + c == a + (b + c),
{
    assert(a + b + c =~= a + (b + c));
}

/// The arguments of an HTTP source, parted behind each of its options.
proof fn lemma_parts_of_http_args(source: HttpInputSource)
    ensures
        ({
            let o = source.options;
            let args = source.input_args();
            let (a, b, c) = (o.reconnect_args(), o.keep_alive_args(), timeout_args(o));
            let (d, e) = (o.user_agent_args(), o.header_args());
            &&& args == a + b + c + d + e + http_protocols()
            &&& args == a + b + c + d + behind_user_agent(o)
            &&& args == a + b + c + behind_timeout(o)
            &&& args == a + b + behind_keep_alive(o)
            &&& args == a + behind_reconnect(o)
        }),
{
    let o = source.options;
    let (a, b, c) = (o.reconnect_args(), o.keep_alive_args(), timeout_args(o));
    let (d, e) = (o.user_agent_args(), o.header_args());
    lemma_joined(a + b + c + d, e, http_protocols());
    lemma_joined(a + b + c, d, behind_user_agent(o));
    lemma_joined(a + b, c, behind_timeout(o));
    lemma_joined(a, b, behind_keep_alive(o));
}

/// Without options an HTTP source is opened with nothing but the protocols it may use. A
/// connection that is told to be closed is opened like one of which nothing is said, and a
/// delay has no effect where there is no reconnecting.
pub proof fn law_plain_http_arguments(source: HttpInputSource)
    requires
        source.options.headers@.len() == 0,
        source.options.user_agent is None,
        source.options.timeout_us is None,
        !source.options.reconnect,
        source.options.keep_alive != Some(true),
    ensures
        source.input_args() == seq!["-protocol_whitelist"@, "file,http,https,tcp,tls,crypto"@],
        InputSource::Http(source).input_args() == source.input_args(),
{
    assert(source.input_args() =~= seq![
        "-protocol_whitelist"@,
        "file,http,https,tcp,tls,crypto"@,
    ]);
}

/// A time limit adds its two arguments to those of an HTTP source, whatever else is set.
pub proof fn law_http_timeout_is_added(less: HttpInputSource, more: HttpInputSource, micros: u64)
    requires
        less.options.timeout_us is None,
        more.options == (HttpInputOptions { timeout_us: Some(micros), ..less.options }),
    ensures
        is_put_in(
            less.input_args(),
            more.input_args(),
            seq!["-timeout"@, crate::text::decimal(micros as nat)],
        ),
{
    let o = less.options;
    let extra = seq!["-timeout"@, crate::text::decimal(micros as nat)];
    let a = o.reconnect_args() + o.keep_alive_args();
    let b = behind_timeout(o);
    lemma_parts_of_http_args(less);
    lemma_parts_of_http_args(more);
    lemma_put_in(a, extra, b);
    assert(Seq::<Seq<char>>::empty() + b =~= b);
}

/// A user agent adds its two arguments to those of an HTTP source, whatever else is set.
pub proof fn law_http_user_agent_is_added(
    less: HttpInputSource,
    more: HttpInputSource,
    user_agent: String,
)
    requires
        less.options.user_agent is None,
        more.options == (HttpInputOptions { user_agent: Some(user_agent), ..less.options }),
    ensures
        is_put_in(
            less.input_args(),
            more.input_args(),
            seq!["-user_agent"@, user_agent@],
        ),
{
    let o = less.options;
    let extra = seq!["-user_agent"@, user_agent@];
    let a = o.reconnect_args() + o.keep_alive_args() + timeout_args(o);
    let b = behind_user_agent(o);
    lemma_parts_of_http_args(less);
    lemma_parts_of_http_args(more);
    lemma_put_in(a, extra, b);
    assert(Seq::<Seq<char>>::empty() + b =~= b);
}

/// Headers add two arguments to those of an HTTP source, whatever else is set: the option
/// and all headers in one text.
pub proof fn law_http_headers_are_added(less: HttpInputSource, more: HttpInputSource)
    requires
        less.options.headers@.len() == 0,
        more.options.headers@.len() > 0,
        more.options == (HttpInputOptions { headers: more.options.headers, ..less.options }),
    ensures
        is_put_in(
            less.input_args(),
            more.input_args(),
            seq![
                "-headers"@,
                header_block(crate::text::strings_view(more.options.headers@)),
            ],
        ),
{
    let o = less.options;
    let extra = seq!["-headers"@, header_block(crate::text::strings_view(more.options.headers@))];
    let a = o.reconnect_args() + o.keep_alive_args() + timeout_args(o) + o.user_agent_args();
    let b = http_protocols();
    lemma_parts_of_http_args(less);
    lemma_parts_of_http_args(more);
    lemma_put_in(a, extra, b);
    assert(Seq::<Seq<char>>::empty() + b =~= b);
}

/// A text of headers holds each of them followed by a carriage return and a line feed, in
/// their order, and nothing else.
pub proof fn law_header_blocks_join(a: Seq<Seq<char>>, b: Seq<Seq<char>>, header: Seq<char>)
    ensures
        header_block(Seq::empty()).len() == 0,
        header_block(seq![header]) == header + seq!['\r', '\n'],
        header_block(a + b) == header_block(a) + header_block(b),
    decreases b.len(),
{
    assert(seq![header].drop_last() =~= Seq::empty());
    reveal_with_fuel(header_block, 2);
    assert(header_block(seq![header]) =~= header + seq!['\r', '\n']);
    if b.len() == 0 {
        assert(a + b =~= a);
        assert(header_block(a + b) =~= header_block(a) + header_block(b));
    } else {
        law_header_blocks_join(a, b.drop_last(), header);
        assert((a + b).drop_last() =~= a + b.drop_last());
        assert((a + b).last() == b.last());
        assert(header_block(a + b) =~= header_block(a) + header_block(b));
    }
}

/// A connection that is kept adds its two arguments to those of an HTTP source, whatever
/// else is set.
pub proof fn law_http_keep_alive_is_added(less: HttpInputSource, more: HttpInputSource)
    requires
        less.options.keep_alive != Some(true),
        more.options == (HttpInputOptions { keep_alive: Some(true), ..less.options }),
    ensures
        is_put_in(less.input_args(), more.input_args(), seq!["-multiple_requests"@, "1"@]),
{
    let o = less.options;
    let extra = seq!["-multiple_requests"@, "1"@];
    let b = behind_keep_alive(o);
    lemma_parts_of_http_args(less);
    lemma_parts_of_http_args(more);
    lemma_put_in(o.reconnect_args(), extra, b);
    assert(Seq::<Seq<char>>::empty() + b =~= b);
}

/// Reconnecting adds its arguments to those of an HTTP source, whatever else is set, and a
/// longest delay adds two more where the source reconnects.
pub proof fn law_http_reconnect_is_added(
    less: HttpInputSource,
    more: HttpInputSource,
    delayed: HttpInputSource,
    delay: u32,
)
    requires
        !less.options.reconnect,
        less.options.reconnect_delay_max is None,
        more.options == (HttpInputOptions { reconnect: true, ..less.options }),
        delayed.options == (HttpInputOptions { reconnect_delay_max: Some(delay), ..more.options }),
    ensures
        is_put_in(
            less.input_args(),
            more.input_args(),
            seq![
                "-reconnect"@,
                "1"@,
                "-reconnect_on_network_error"@,
                "1"@,
                "-reconnect_streamed"@,
                "1"@,
            ],
        ),
        is_put_in(
            more.input_args(),
            delayed.input_args(),
            seq!["-reconnect_delay_max"@, crate::text::decimal(delay as nat)],
        ),
{
    let none = Seq::<Seq<char>>::empty();
    let b = behind_reconnect(less.options);
    let first = seq![
        "-reconnect"@,
        "1"@,
        "-reconnect_on_network_error"@,
        "1"@,
        "-reconnect_streamed"@,
        "1"@,
    ];
    let second = seq!["-reconnect_delay_max"@, crate::text::decimal(delay as nat)];
    lemma_parts_of_http_args(less);
    lemma_parts_of_http_args(more);
    lemma_parts_of_http_args(delayed);
    assert(more.options.reconnect_args() =~= first);
    assert(delayed.options.reconnect_args() =~= first + second);
    assert(none + b =~= b);
    assert(none + first + b =~= first + b);
    lemma_put_in(none, first, b);
    lemma_put_in(first, second, b);
}

/// Streams are opened with the protocols that they may use, and with a time limit before
/// that where there is one.
pub proof fn law_stream_arguments(rtsp: RtspInputSource, rtmp: RtmpInputSource)
    ensures
        ({
            let protocols = seq!["-protocol_whitelist"@, "file,rtp,rtsp,udp,tcp,tls,crypto"@];
            InputSource::Rtsp(rtsp).input_args() == match rtsp.options.timeout_us {
                Some(n) => seq!["-timeout"@, crate::text::decimal(n as nat)] + protocols,
                None => protocols,
            }
        }),
        ({
            let protocols = seq!["-protocol_whitelist"@, "file,rtmp,rtmps,tcp,tls,crypto"@];
            InputSource::Rtmp(rtmp).input_args() == match rtmp.options.timeout_us {
                Some(n) => seq!["-timeout"@, crate::text::decimal(n as nat)] + protocols,
                None => protocols,
            }
        }),
{
    assert(Seq::<Seq<char>>::empty() + seq![
        "-protocol_whitelist"@,
        "file,rtp,rtsp,udp,tcp,tls,crypto"@,
    ] =~= seq!["-protocol_whitelist"@, "file,rtp,rtsp,udp,tcp,tls,crypto"@]);
    assert(Seq::<Seq<char>>::empty() + seq![
        "-protocol_whitelist"@,
        "file,rtmp,rtmps,tcp,tls,crypto"@,
    ] =~= seq!["-protocol_whitelist"@, "file,rtmp,rtmps,tcp,tls,crypto"@]);
}

/// A file is opened without arguments of its own, a generated source as what it is.
pub proof fn law_file_arguments(local: LocalInputSource, lavfi: LavfiInputSource)
    ensures
        InputSource::Local(local).input_args().len() == 0,
        InputSource::Lavfi(lavfi).input_args() == seq!["-f"@, "lavfi"@],
{
}

/// Two input sources have the same view exactly where they are of the same kind and agree in
/// every text, number and flag.
pub proof fn law_views_tell_inputs_apart(a: InputSource, b: InputSource)
    ensures
        a@ == b@ <==> match (a, b) {
            (InputSource::Local(x), InputSource::Local(y)) => x.path@ == y.path@,
            (InputSource::Lavfi(x), InputSource::Lavfi(y)) => x.params@ == y.params@,
            (InputSource::Http(x), InputSource::Http(y)) => {
                &&& x.uri@ == y.uri@
                &&& x.options.headers@.len() == y.options.headers@.len()
                &&& forall|n: int|
                    0 <= n < x.options.headers@.len() ==> (#[trigger] x.options.headers@[n])@
                        == y.options.headers@[n]@
                &&& match (x.options.user_agent, y.options.user_agent) {
                    (Some(s), Some(t)) => s@ == t@,
                    (None, None) => true,
                    _ => false,
                }
                &&& x.options.timeout_us == y.options.timeout_us
                &&& x.options.reconnect == y.options.reconnect
                &&& x.options.reconnect_delay_max == y.options.reconnect_delay_max
                &&& x.options.keep_alive == y.options.keep_alive
            },
            (InputSource::Rtsp(x), InputSource::Rtsp(y)) => x.uri@ == y.uri@
                && x.options.timeout_us == y.options.timeout_us,
            (InputSource::Rtmp(x), InputSource::Rtmp(y)) => x.uri@ == y.uri@
                && x.options.timeout_us == y.options.timeout_us,
            _ => false,
        },
{
    if let (InputSource::Http(x), InputSource::Http(y)) = (a, b) {
        let (s, t) = (
            crate::text::strings_view(x.options.headers@),
            crate::text::strings_view(y.options.headers@),
        );
        if s == t {
            assert(s.len() == t.len());
            assert forall|n: int| 0 <= n < x.options.headers@.len() implies (
            #[trigger] x.options.headers@[n])@ == y.options.headers@[n]@ by {
                assert(s[n] == t[n]);
            }
        }
        if x.options.headers@.len() == y.options.headers@.len() && forall|n: int|
            0 <= n < x.options.headers@.len() ==> (#[trigger] x.options.headers@[n])@
                == y.options.headers@[n]@ {
            assert(s =~= t);
        }
    }
}

/// Two sets of options are the same exactly where those sources are that have them and one
/// address.
pub proof fn law_same_options_make_same_inputs(a: HttpInputSource, b: HttpInputSource)
    requires
        a.uri@ == b.uri@,
    ensures
        a.options.same(&b.options) <==> InputSource::Http(a)@ == InputSource::Http(b)@,
{
}

/// The list of picture streams of one kind holds exactly the streams of the input that are
/// pictures of that kind.
pub proof fn law_picture_streams_are_listed(
    streams: Seq<crate::probe::ProbeResultStream>,
    kind: CodecType,
    v: ProbeResultVideoStream,
)
    ensures
        crate::probe::video_streams(streams, kind).contains(v) <==> v.codec_type == kind
            && streams.contains(crate::probe::ProbeResultStream::Video(v)),
    decreases streams.len(),
{
    let stream = crate::probe::ProbeResultStream::Video(v);
    let all = crate::probe::video_streams(streams, kind);
    if all.contains(v) {
        lemma_video_streams_are_of_the_input(streams, kind, v);
    }
    if v.codec_type == kind && streams.contains(stream) {
        let i = choose|i: int| 0 <= i < streams.len() && streams[i] == stream;
        let before = crate::probe::video_streams(streams.drop_last(), kind);
        if i == streams.len() - 1 {
            assert(all.last() == v);
        } else {
            assert(streams.drop_last()[i] == stream);
            law_picture_streams_are_listed(streams.drop_last(), kind, v);
            let k = choose|k: int| 0 <= k < before.len() && before[k] == v;
            assert(all[k] == v);
        }
    }
}

/// The list of sound streams holds exactly the streams of the input that are sound.
pub proof fn law_sound_streams_are_listed(
    streams: Seq<crate::probe::ProbeResultStream>,
    a: ProbeResultAudioStream,
)
    ensures
        crate::probe::audio_streams(streams).contains(a) <==> streams.contains(
            crate::probe::ProbeResultStream::Audio(a),
        ),
    decreases streams.len(),
{
    let stream = crate::probe::ProbeResultStream::Audio(a);
    let all = crate::probe::audio_streams(streams);
    if streams.len() > 0 {
        let before = crate::probe::audio_streams(streams.drop_last());
        law_sound_streams_are_listed(streams.drop_last(), a);
        if all.contains(a) {
            if before.contains(a) {
                let i = choose|i: int|
                    0 <= i < streams.drop_last().len() && streams.drop_last()[i] == stream;
                assert(streams[i] == stream);
            } else {
                assert(streams[streams.len() - 1] == streams.last());
            }
        }
        if streams.contains(stream) {
            let i = choose|i: int| 0 <= i < streams.len() && streams[i] == stream;
            if i == streams.len() - 1 {
                assert(all.last() == a);
            } else {
                assert(streams.drop_last()[i] == stream);
                let k = choose|k: int| 0 <= k < before.len() && before[k] == a;
                assert(all[k] == a);
            }
        }
    }
}

/// The pictures come from a video stream of the input, and from the wanted one if the input
/// has such a video stream, or else from one with the lowest index; they are missing only
/// where the input has no video stream.
pub proof fn law_pictures_are_chosen(
    streams: Seq<crate::probe::ProbeResultStream>,
    wanted: Option<u32>,
    choice: Option<ProbeResultVideoStream>,
    other: ProbeResultVideoStream,
)
    requires
        InputSettings::selects_picture(streams, wanted, choice),
        other.codec_type == CodecType::Video,
        streams.contains(crate::probe::ProbeResultStream::Video(other)),
    ensures
        choice matches Some(v) && {
            &&& v.codec_type == CodecType::Video
            &&& streams.contains(crate::probe::ProbeResultStream::Video(v))
            &&& wanted == Some(other.stream_index) ==> v.stream_index == other.stream_index
            &&& v.stream_index <= other.stream_index || wanted == Some(v.stream_index)
        },
{
    let all = crate::probe::video_streams(streams, CodecType::Video);
    law_picture_streams_are_listed(streams, CodecType::Video, other);
    let k = choose|k: int| 0 <= k < all.len() && all[k] == other;
    assert(all[k] == other);
    let v = choice->0;
    law_choice_is_of_the_input(streams, CodecType::Video, wanted, v);
}

/// The sound comes from a sound stream of the input, and from the wanted one if the input has
/// it, or else from one with the most channels; it is missing only where the input has no
/// sound stream.
pub proof fn law_sound_is_chosen(
    streams: Seq<crate::probe::ProbeResultStream>,
    wanted: Option<u32>,
    choice: Option<ProbeResultAudioStream>,
    other: ProbeResultAudioStream,
)
    requires
        InputSettings::selects_sound(streams, wanted, choice),
        streams.contains(crate::probe::ProbeResultStream::Audio(other)),
    ensures
        choice matches Some(a) && {
            &&& streams.contains(crate::probe::ProbeResultStream::Audio(a))
            &&& wanted == Some(other.stream_index) ==> a.stream_index == other.stream_index
            &&& a.channels >= other.channels || wanted == Some(a.stream_index)
        },
{
    let all = crate::probe::audio_streams(streams);
    law_sound_streams_are_listed(streams, other);
    let k = choose|k: int| 0 <= k < all.len() && all[k] == other;
    assert(all[k] == other);
    let a = choice->0;
    assert(all.contains(a));
    law_sound_streams_are_listed(streams, a);
}

/// Of streams of sound with as many channels the first is used, where none is wanted.
pub proof fn law_first_of_equal_sounds(
    first: ProbeResultAudioStream,
    second: ProbeResultAudioStream,
    choice: Option<ProbeResultAudioStream>,
)
    requires
        first.channels == second.channels,
        InputSettings::selects_sound(
            seq![
                crate::probe::ProbeResultStream::Audio(first),
                crate::probe::ProbeResultStream::Audio(second),
            ],
            None,
            choice,
        ),
    ensures
        choice == Some(first),
{
    let streams = seq![
        crate::probe::ProbeResultStream::Audio(first),
        crate::probe::ProbeResultStream::Audio(second),
    ];
    assert(streams.drop_last().drop_last() =~= Seq::empty());
    assert(streams.drop_last().last() == streams[0]);
    reveal_with_fuel(crate::probe::audio_streams, 3);
    let all = crate::probe::audio_streams(streams);
    assert(all =~= seq![first, second]);
    assert(all[0] == first && all[1] == second);
}

/// Where there is nothing of the kind, no stream is chosen.
pub proof fn law_nothing_is_chosen_of_nothing(
    streams: Seq<crate::probe::ProbeResultStream>,
    wanted: Option<u32>,
    pictures: Option<ProbeResultVideoStream>,
    sound: Option<ProbeResultAudioStream>,
)
    requires
        InputSettings::selects_picture(streams, wanted, pictures),
        InputSettings::selects_sound(streams, wanted, sound),
    ensures
        pictures matches Some(v) ==> v.codec_type == CodecType::Video && streams.contains(
            crate::probe::ProbeResultStream::Video(v),
        ),
        sound matches Some(a) ==> streams.contains(crate::probe::ProbeResultStream::Audio(a)),
{
    if let Some(v) = pictures {
        law_choice_is_of_the_input(streams, CodecType::Video, wanted, v);
    }
    if let Some(a) = sound {
        assert(crate::probe::audio_streams(streams).contains(a));
        law_sound_streams_are_listed(streams, a);
    }
}

/// A subtitle is a subtitle stream of the input. The wanted one is used if the input has it;
/// without it a subtitle is used exactly where it is all that the input holds.
pub proof fn law_subtitle_is_chosen(
    settings: InputSettings,
    input: ProbedInput,
    choice: Option<ProbeResultVideoStream>,
    other: ProbeResultVideoStream,
)
    requires
        settings.subtitle_input == Some(input),
        settings.selects_subtitle(choice),
        other.codec_type == CodecType::Subtitle,
        input.probe_result.streams@.contains(crate::probe::ProbeResultStream::Video(other)),
    ensures
        choice matches Some(v) ==> v.codec_type == CodecType::Subtitle
            && input.probe_result.streams@.contains(crate::probe::ProbeResultStream::Video(v)),
        input.stream_index == Some(other.stream_index) ==> choice is Some
            && choice->0.stream_index == other.stream_index,
        input.probe_result.streams@.len() == 1 ==> choice == Some(other),
        input.probe_result.streams@.len() > 1 ==> (choice matches Some(v) ==> input.stream_index
            == Some(v.stream_index)),
{
    let streams = input.probe_result.streams@;
    let all = crate::probe::video_streams(streams, CodecType::Subtitle);
    law_picture_streams_are_listed(streams, CodecType::Subtitle, other);
    let k = choose|k: int| 0 <= k < all.len() && all[k] == other;
    assert(all[k] == other);
    if let Some(v) = choice {
        assert(all.contains(v));
        law_picture_streams_are_listed(streams, CodecType::Subtitle, v);
    }
    if streams.len() == 1 {
        assert(streams.drop_last() =~= Seq::empty());
        reveal_with_fuel(crate::probe::video_streams, 2);
        assert(all =~= seq![other]);
    }
}

/// Without a subtitle stream no subtitle is used.
pub proof fn law_no_subtitle_without_stream(
    settings: InputSettings,
    choice: Option<ProbeResultVideoStream>,
)
    requires
        settings.selects_subtitle(choice),
        choice is Some,
    ensures
        settings.subtitle_input matches Some(input) && choice->0.codec_type == CodecType::Subtitle
            && input.probe_result.streams@.contains(
            crate::probe::ProbeResultStream::Video(choice->0),
        ),
{
    let streams = settings.subtitle_input->0.probe_result.streams@;
    let all = crate::probe::video_streams(streams, CodecType::Subtitle);
    assert(all.contains(choice->0));
    law_picture_streams_are_listed(streams, CodecType::Subtitle, choice->0);
}

/// Two results of probing are the same exactly where they hold the same streams in the same
/// order and agree on whether the pictures are a single one.
pub proof fn law_same_probe_results(a: ProbeResult, b: ProbeResult)
    ensures
        a.same(&b) <==> a.still_image == b.still_image && a.streams@.len() == b.streams@.len()
            && forall|i: int| 0 <= i < a.streams@.len() ==> #[trigger] a.streams@[i]
            == b.streams@[i],
{
    if a.streams@.len() == b.streams@.len() && forall|i: int|
        0 <= i < a.streams@.len() ==> #[trigger] a.streams@[i] == b.streams@[i] {
        assert(a.streams@ =~= b.streams@);
    }
}

/// Of video streams with one index the first is used, where none is wanted.
pub proof fn law_first_of_equal_pictures(
    first: ProbeResultVideoStream,
    second: ProbeResultVideoStream,
    choice: Option<ProbeResultVideoStream>,
)
    requires
        first.codec_type == CodecType::Video,
        second.codec_type == CodecType::Video,
        first.stream_index == second.stream_index,
        InputSettings::selects_picture(
            seq![
                crate::probe::ProbeResultStream::Video(first),
                crate::probe::ProbeResultStream::Video(second),
            ],
            None,
            choice,
        ),
    ensures
        choice == Some(first),
{
    let streams = seq![
        crate::probe::ProbeResultStream::Video(first),
        crate::probe::ProbeResultStream::Video(second),
    ];
    assert(streams.drop_last().drop_last() =~= Seq::empty());
    assert(streams.drop_last().last() == streams[0]);
    reveal_with_fuel(crate::probe::video_streams, 3);
    let all = crate::probe::video_streams(streams, CodecType::Video);
    assert(all =~= seq![first, second]);
    assert(all[0] == first && all[1] == second);
}

} // verus!
