//! The sources of an item: which of them are played, and how they are opened.

use vstd::prelude::*;

use crate::channel_session::{ChannelSession, TrackKind};
use crate::error::ChannelError;
use crate::input::{
    HttpInputOptions, HttpInputSource, InputSource, InputSourceView, LavfiInputSource,
    LocalInputSource, RtmpInputOptions, RtmpInputSource, RtspInputOptions, RtspInputSource,
};
use crate::playout::{PlayoutItem, PlayoutItemSource, PlayoutItemTracks, SourceView, TrackSelection};
use crate::text::{clone_strings, decimal_string, to_chars, trimmed};

verus! {

broadcast use vstd::string::group_string_axioms;

/// The selection for one track.
pub open spec fn selection(tracks: PlayoutItemTracks, kind: TrackKind) -> Option<TrackSelection> {
    match kind {
        TrackKind::Audio => tracks.audio,
        TrackKind::Video => tracks.video,
        TrackKind::Subtitle => tracks.subtitle,
    }
}

/// The selection of an item for one track.
pub open spec fn item_selection(item: PlayoutItem, kind: TrackKind) -> Option<TrackSelection> {
    match item.tracks {
        Some(tracks) => selection(tracks, kind),
        None => None,
    }
}

/// The source of a track: its own, if it has one, or else that of the item.
pub open spec fn resolved(item: PlayoutItem, kind: TrackKind) -> Option<SourceView> {
    match item_selection(item, kind) {
        Some(TrackSelection { source: Some(source), .. }) => Some(source@),
        _ => crate::playout::optional_source(item.source),
    }
}

/// The stream that an item selects for a track.
pub open spec fn selected_stream(item: PlayoutItem, kind: TrackKind) -> Option<u32> {
    match item_selection(item, kind) {
        Some(selection) => selection.stream_index,
        None => None,
    }
}

/// The selection of an item for one track.
fn select_track(item: &PlayoutItem, kind: TrackKind) -> (r: Option<&TrackSelection>)
    ensures
        match r {
            Some(selection) => item_selection(*item, kind) == Some(*selection),
            None => item_selection(*item, kind) is None,
        },
{
    match &item.tracks {
        Some(tracks) => match kind {
            TrackKind::Audio => match &tracks.audio {
                Some(s) => Some(s),
                None => None,
            },
            TrackKind::Video => match &tracks.video {
                Some(s) => Some(s),
                None => None,
            },
            TrackKind::Subtitle => match &tracks.subtitle {
                Some(s) => Some(s),
                None => None,
            },
        },
        None => None,
    }
}

/// The source of a track: its own, if it has one, or else that of the item.
pub fn resolve_source(item: &PlayoutItem, kind: TrackKind) -> (r: Option<PlayoutItemSource>)
    ensures
        crate::playout::optional_source(r) == resolved(*item, kind),
{
    if let Some(selection) = select_track(item, kind) {
        if let Some(source) = &selection.source {
            return Some(source.clone());
        }
    }
    match &item.source {
        Some(source) => Some(source.clone()),
        None => None,
    }
}

/// The stream that an item selects for a track.
pub fn selected_index(item: &PlayoutItem, kind: TrackKind) -> (r: Option<u32>)
    ensures
        r == selected_stream(*item, kind),
{
    match select_track(item, kind) {
        Some(selection) => selection.stream_index,
        None => None,
    }
}

/// Whether a source is live: a network stream that cannot be sought, or a script that says
/// that it is.
pub open spec fn is_live_source(source: SourceView) -> bool {
    match source {
        SourceView::Script { is_live: Some(true), .. } => true,
        SourceView::Rtsp { .. } => true,
        SourceView::Rtmp { .. } => true,
        _ => false,
    }
}

/// Whether a source is live.
pub fn source_is_live(source: &PlayoutItemSource) -> (r: bool)
    ensures
        r == is_live_source(source@),
{
    match source {
        PlayoutItemSource::Script { is_live: Some(live), .. } => *live,
        PlayoutItemSource::Rtsp { .. } => true,
        PlayoutItemSource::Rtmp { .. } => true,
        _ => false,
    }
}

/// The sources of the tracks of an item.
pub struct ItemSources {
    pub audio: PlayoutItemSource,
    pub video: PlayoutItemSource,
    pub subtitle: Option<PlayoutItemSource>,
    /// Whether sound and pictures come from one source.
    pub audio_is_video: bool,
    /// Whether subtitles and pictures come from one source.
    pub subtitle_is_video: bool,
    /// Whether the sound or the pictures are live.
    pub is_live: bool,
}

impl ItemSources {
    /// Whether these are the sources of an item.
    pub open spec fn of(&self, item: PlayoutItem) -> bool {
        &&& resolved(item, TrackKind::Audio) == Some(self.audio@)
        &&& resolved(item, TrackKind::Video) == Some(self.video@)
        &&& resolved(item, TrackKind::Subtitle) == crate::playout::optional_source(self.subtitle)
        &&& self.audio_is_video == (self.audio@ == self.video@)
        &&& self.subtitle_is_video == (resolved(item, TrackKind::Subtitle) == Some(self.video@))
        &&& self.is_live == (is_live_source(self.video@) || is_live_source(self.audio@))
    }

    /// The sources of an item; an error where there is none for sound, or else none for
    /// pictures.
    pub fn plan(item: &PlayoutItem) -> (r: Result<ItemSources, ChannelError>)
        ensures
            match r {
                Ok(sources) => sources.of(*item),
                Err(ChannelError::PlayoutJsonAudioSourceRequired) => resolved(
                    *item,
                    TrackKind::Audio,
                ) is None,
                Err(ChannelError::PlayoutJsonVideoSourceRequired) => resolved(
                    *item,
                    TrackKind::Audio,
                ) is Some && resolved(*item, TrackKind::Video) is None,
                Err(_) => false,
            },
    {
        let audio = match resolve_source(item, TrackKind::Audio) {
            Some(source) => source,
            None => return Err(ChannelError::PlayoutJsonAudioSourceRequired),
        };
        let video = match resolve_source(item, TrackKind::Video) {
            Some(source) => source,
            None => return Err(ChannelError::PlayoutJsonVideoSourceRequired),
        };
        let subtitle = resolve_source(item, TrackKind::Subtitle);
        let audio_is_video = audio == video;
        let subtitle_is_video = match &subtitle {
            Some(source) => *source == video,
            None => false,
        };
        let is_live = source_is_live(&video) || source_is_live(&audio);
        Ok(ItemSources { audio, video, subtitle, audio_is_video, subtitle_is_video, is_live })
    }
}

/// The texts of a source in which variables are replaced before it is opened.
pub open spec fn templates(source: SourceView) -> Seq<Seq<char>> {
    match source {
        SourceView::Http { uri, headers, user_agent, .. } => {
            let header_texts = match headers {
                Some(headers) => headers,
                None => Seq::empty(),
            };
            let user_agent_text = match user_agent {
                Some(text) => seq![text],
                None => Seq::empty(),
            };
            seq![uri] + header_texts + user_agent_text
        },
        SourceView::Rtsp { uri, .. } => seq![uri],
        SourceView::Rtmp { uri, .. } => seq![uri],
        SourceView::Script { command, args, .. } => if crate::text::trim(command).len() == 0 {
            Seq::empty()
        } else {
            seq![command] + args
        },
        _ => Seq::empty(),
    }
}

/// Whether a text is nothing but white space.
fn is_blank(s: &str) -> (r: bool)
    ensures
        r == (crate::text::trim(s@).len() == 0),
{
    let chars = to_chars(s);
    trimmed(&chars).len() == 0
}

/// The texts of a source in which variables are replaced before it is opened, in the order
/// in which they are replaced.
pub fn source_templates(source: &PlayoutItemSource) -> (r: Vec<String>)
    ensures
        crate::text::strings_view(r@) == templates(source@),
{
    let mut r: Vec<String> = Vec::new();
    match source {
        PlayoutItemSource::Http { uri, headers, user_agent, .. } => {
            r.push(uri.clone());
            if let Some(headers) = headers {
                let mut copies = clone_strings(headers);
                let ghost views = crate::text::strings_view(copies@);
                let ghost before = r@;
                r.append(&mut copies);
                assert(crate::text::strings_view(r@) =~= crate::text::strings_view(before) + views);
            }
            if let Some(user_agent) = user_agent {
                r.push(user_agent.clone());
            }
        },
        PlayoutItemSource::Rtsp { uri, .. } => {
            r.push(uri.clone());
        },
        PlayoutItemSource::Rtmp { uri, .. } => {
            r.push(uri.clone());
        },
        PlayoutItemSource::Script { command, args, .. } => {
            if !is_blank(command.as_str()) {
                r.push(command.clone());
                let mut copies = clone_strings(args);
                let ghost views = crate::text::strings_view(copies@);
                let ghost before = r@;
                r.append(&mut copies);
                assert(crate::text::strings_view(r@) =~= crate::text::strings_view(before) + views);
            }
        },
        _ => {},
    }
    assert(crate::text::strings_view(r@) =~= templates(source@));
    r
}

/// A command whose output is a source.
pub struct ScriptCommand {
    pub command: String,
    pub args: Vec<String>,
}

/// How a source is opened.
pub enum SourceConversion {
    /// As this input.
    Input(InputSource),
    /// Through a local server that runs this command.
    Script(ScriptCommand),
}

/// How a source is opened, with its texts as sequences of characters.
pub enum ConversionView {
    Input(InputSourceView),
    Script { command: Seq<char>, args: Seq<Seq<char>> },
}

impl View for SourceConversion {
    type V = ConversionView;

    open spec fn view(&self) -> ConversionView {
        match *self {
            SourceConversion::Input(source) => ConversionView::Input(source@),
            SourceConversion::Script(script) => ConversionView::Script {
                command: script.command@,
                args: crate::text::strings_view(script.args@),
            },
        }
    }
}

/// A black picture of this size that says that a script has no command.
pub open spec fn missing_command_params(width: nat, height: nat) -> Seq<char> {
    "color=c=black:s="@ + crate::text::decimal(width) + "x"@ + crate::text::decimal(height)
        + ":r=24,drawtext=fontcolor=white:fontsize=42:text='ERROR\\: script source missing command':x=(w-text_w)/2:y=(h-text_h)/2"@
}

/// How a source is opened once its templates have become these texts, with a picture of
/// this size for a script without a command.
pub open spec fn conversion(
    source: SourceView,
    texts: Seq<Seq<char>>,
    width: nat,
    height: nat,
) -> ConversionView {
    match source {
        SourceView::Local { path, .. } => ConversionView::Input(InputSourceView::Local { path }),
        SourceView::Lavfi { params } => ConversionView::Input(InputSourceView::Lavfi { params }),
        SourceView::Http {
            headers,
            user_agent,
            timeout_us,
            reconnect,
            reconnect_delay_max,
            keep_alive,
            ..
        } => {
            let end = 1 + match headers {
                Some(headers) => headers.len() as int,
                None => 0,
            };
            ConversionView::Input(
                InputSourceView::Http {
                    uri: texts[0],
                    headers: texts.subrange(1, end),
                    user_agent: match user_agent {
                        Some(_) => Some(texts[end]),
                        None => None,
                    },
                    timeout_us,
                    reconnect: match reconnect {
                        Some(reconnect) => reconnect,
                        None => true,
                    },
                    reconnect_delay_max,
                    keep_alive,
                },
            )
        },
        SourceView::Rtsp { timeout_us, .. } => ConversionView::Input(
            InputSourceView::Rtsp { uri: texts[0], timeout_us },
        ),
        SourceView::Rtmp { timeout_us, .. } => ConversionView::Input(
            InputSourceView::Rtmp { uri: texts[0], timeout_us },
        ),
        SourceView::Script { command, .. } => if crate::text::trim(command).len() == 0 {
            ConversionView::Input(
                InputSourceView::Lavfi { params: missing_command_params(width, height) },
            )
        } else {
            ConversionView::Script { command: texts[0], args: texts.skip(1) }
        },
    }
}

/// Whether `e` is the first error among the results.
pub open spec fn is_first_error(
    results: Seq<Result<String, ChannelError>>,
    e: ChannelError,
) -> bool {
    exists|i: int|
        {
            &&& 0 <= i < results.len()
            &&& #[trigger] results[i] == Err::<String, ChannelError>(e)
            &&& forall|j: int| 0 <= j < i ==> (#[trigger] results[j]) is Ok
        }
}

/// Whether no result is an error.
pub open spec fn all_ok(results: Seq<Result<String, ChannelError>>) -> bool {
    forall|i: int| 0 <= i < results.len() ==> (#[trigger] results[i]) is Ok
}

/// The texts of results that are no errors.
pub open spec fn texts_of(results: Seq<Result<String, ChannelError>>) -> Seq<Seq<char>> {
    results.map_values(|r: Result<String, ChannelError>| r->Ok_0@)
}

/// Whether there are results for all of so many templates, or for the first of them up to
/// one that failed.
pub open spec fn covers(results: Seq<Result<String, ChannelError>>, count: nat) -> bool {
    ||| results.len() == count
    ||| 0 < results.len() < count && results.last() is Err
}

/// The texts of the results, or the first error among them.
fn collect_texts(results: Vec<Result<String, ChannelError>>) -> (r: Result<
    Vec<String>,
    ChannelError,
>)
    ensures
        match r {
            Ok(texts) => all_ok(results@) && texts_of(results@) == crate::text::strings_view(texts@),
            Err(e) => is_first_error(results@, e),
        },
{
    let ghost all = results@;
    let mut results = results;
    let mut texts: Vec<String> = Vec::new();
    let n: usize = results.len();
    let mut failed: Option<usize> = None;
    let mut i: usize = 0;
    while i < n && failed.is_none()
        invariant
            results@ == all,
            n == all.len(),
            i <= n,
            match failed {
                Some(k) => k < n && all[k as int] is Err && forall|j: int|
                    0 <= j < k ==> (#[trigger] all[j]) is Ok,
                None => texts@.len() == i && forall|j: int|
                    0 <= j < i ==> (#[trigger] all[j] matches Ok(s) && s@ == texts@[j]@),
            },
        decreases n - i,
    {
        match &results[i] {
            Ok(text) => {
                texts.push(text.clone());
            },
            Err(_) => {
                failed = Some(i);
            },
        }
        i = i + 1;
    }
    match failed {
        Some(k) => match results.remove(k) {
            Err(e) => {
                assert(all[k as int] == Err::<String, ChannelError>(e));
                Err(e)
            },
            Ok(_) => Ok(texts),
        },
        None => {
            assert(texts_of(all) =~= crate::text::strings_view(texts@));
            Ok(texts)
        },
    }
}

/// A black picture of this size.
pub open spec fn black_params(width: nat, height: nat) -> Seq<char> {
    "color=c=black:s="@ + crate::text::decimal(width) + "x"@ + crate::text::decimal(height)
}

/// A black picture of this size.
pub(crate) fn black(width: u32, height: u32) -> (r: String)
    ensures
        r@ == black_params(width as nat, height as nat),
{
    let mut r = "color=c=black:s=".to_owned();
    r.append(decimal_string(width as u64).as_str());
    r.append("x");
    r.append(decimal_string(height as u64).as_str());
    r
}

impl ChannelSession {
    /// The width of the pictures of the channel, if it is not set that of full HD.
    pub open spec fn picture_width(&self) -> u32 {
        match self.channel_config.video.width {
            Some(width) => width,
            None => 1920,
        }
    }

    /// The height of the pictures of the channel, if it is not set that of full HD.
    pub open spec fn picture_height(&self) -> u32 {
        match self.channel_config.video.height {
            Some(height) => height,
            None => 1080,
        }
    }

    /// The size of the pictures of the channel.
    pub(crate) fn picture_size(&self) -> (r: (u32, u32))
        ensures
            r == (self.picture_width(), self.picture_height()),
    {
        let width: u32 = match self.channel_config.video.width {
            Some(width) => width,
            None => 1920,
        };
        let height: u32 = match self.channel_config.video.height {
            Some(height) => height,
            None => 1080,
        };
        (width, height)
    }

    /// How a source is opened, where `expanded` is what became of its templates; those behind
    /// one that failed need not be there. The first template that failed is the error.
    pub fn playout_source_to_input_source(
        &self,
        source: PlayoutItemSource,
        expanded: Vec<Result<String, ChannelError>>,
    ) -> (r: Result<SourceConversion, ChannelError>)
        requires
            covers(expanded@, templates(source@).len()),
        ensures
            match r {
                Ok(converted) => all_ok(expanded@) && converted@ == conversion(
                    source@,
                    texts_of(expanded@),
                    self.picture_width() as nat,
                    self.picture_height() as nat,
                ),
                Err(e) => is_first_error(expanded@, e),
            },
    {
        let ghost results = expanded@;
        let mut texts = match collect_texts(expanded) {
            Ok(texts) => texts,
            Err(e) => return Err(e),
        };
        assert(results.len() == templates(source@).len()) by {
            if results.len() > 0 {
                assert(results[results.len() - 1] is Ok);
            }
        }
        let ghost all = crate::text::strings_view(texts@);
        let ghost width = self.picture_width() as nat;
        let ghost height = self.picture_height() as nat;
        let ghost wanted = conversion(source@, all, width, height);
        let converted = match source {
            PlayoutItemSource::Local { path, .. } => SourceConversion::Input(
                InputSource::Local(LocalInputSource { path }),
            ),
            PlayoutItemSource::Lavfi { params } => SourceConversion::Input(
                InputSource::Lavfi(LavfiInputSource { params }),
            ),
            PlayoutItemSource::Http {
                headers,
                user_agent,
                timeout_us,
                reconnect,
                reconnect_delay_max,
                keep_alive,
                ..
            } => {
                let ghost end = 1 + match headers {
                    Some(headers) => headers@.len() as int,
                    None => 0,
                };
                assert(all.len() == end + if user_agent is Some {
                    1int
                } else {
                    0
                });
                let expanded_ua = match user_agent {
                    Some(_) => texts.pop(),
                    None => None,
                };
                let uri = texts.remove(0);
                assert(crate::text::strings_view(texts@) =~= all.subrange(1, end));
                SourceConversion::Input(
                    InputSource::Http(
                        HttpInputSource {
                            uri,
                            options: HttpInputOptions {
                                headers: texts,
                                user_agent: expanded_ua,
                                timeout_us,
                                reconnect: match reconnect {
                                    Some(reconnect) => reconnect,
                                    None => true,
                                },
                                reconnect_delay_max,
                                keep_alive,
                            },
                        },
                    ),
                )
            },
            PlayoutItemSource::Rtsp { timeout_us, .. } => SourceConversion::Input(
                InputSource::Rtsp(
                    RtspInputSource {
                        uri: texts.remove(0),
                        options: RtspInputOptions { timeout_us },
                    },
                ),
            ),
            PlayoutItemSource::Rtmp { timeout_us, .. } => SourceConversion::Input(
                InputSource::Rtmp(
                    RtmpInputSource {
                        uri: texts.remove(0),
                        options: RtmpInputOptions { timeout_us },
                    },
                ),
            ),
            PlayoutItemSource::Script { command, .. } => if is_blank(command.as_str()) {
                let (w, h) = self.picture_size();
                let mut params = black(w, h);
                params.append(
                    ":r=24,drawtext=fontcolor=white:fontsize=42:text='ERROR\\: script source missing command':x=(w-text_w)/2:y=(h-text_h)/2",
                );
                SourceConversion::Input(InputSource::Lavfi(LavfiInputSource { params }))
            } else {
                let command = texts.remove(0);
                assert(crate::text::strings_view(texts@) =~= all.skip(1));
                SourceConversion::Script(ScriptCommand { command, args: texts })
            },
        };
        assert(converted@ == wanted);
        Ok(converted)
    }

    /// The input of a script that a local server runs behind this address: a connection
    /// that is not made again once it ends.
    pub fn script_input_source(url: String) -> (r: InputSource)
        ensures
            r@ == (InputSourceView::Http {
                uri: url@,
                headers: Seq::empty(),
                user_agent: None,
                timeout_us: None,
                reconnect: false,
                reconnect_delay_max: None,
                keep_alive: None,
            }),
    {
        let options = HttpInputOptions { reconnect: false, ..HttpInputOptions::default() };
        assert(crate::text::strings_view(options.headers@) =~= Seq::empty());
        InputSource::Http(HttpInputSource { uri: url, options })
    }
}

/// A track with a source of its own is played from it, whatever the source of the item.
pub proof fn law_own_source_first(item: PlayoutItem, kind: TrackKind, own: PlayoutItemSource)
    requires
        item_selection(item, kind) matches Some(selection) && selection.source == Some(own),
    ensures
        resolved(item, kind) == Some(own@),
{
}

/// Tracks without sources of their own are all played from the source of the item.
pub proof fn law_default_source_shared(item: PlayoutItem, a: TrackKind, b: TrackKind)
    requires
        item_selection(item, a) matches Some(selection) ==> selection.source is None,
        item_selection(item, b) matches Some(selection) ==> selection.source is None,
    ensures
        resolved(item, a) == resolved(item, b),
        resolved(item, a) == crate::playout::optional_source(item.source),
{
}

/// What a source is opened for.
#[derive(Debug, Copy, Clone, PartialEq, Eq, Structural)]
pub enum OpenFor {
    Audio,
    Video,
    Subtitle,
    Watermark,
}

/// A source that is to be opened and probed.
pub struct OpenTask {
    pub purpose: OpenFor,
    pub source: PlayoutItemSource,
    /// Whether the item fails where it is not known how to open the source; otherwise the
    /// item is played without it.
    pub required: bool,
}

/// A source that is to be opened, with its texts as sequences of characters.
pub struct TaskView {
    pub purpose: OpenFor,
    pub source: SourceView,
    pub required: bool,
}

impl View for OpenTask {
    type V = TaskView;

    open spec fn view(&self) -> TaskView {
        TaskView { purpose: self.purpose, source: self.source@, required: self.required }
    }
}

/// The views of a list of tasks.
pub open spec fn tasks_view(v: Seq<OpenTask>) -> Seq<TaskView> {
    v.map_values(|t: OpenTask| t@)
}

/// The sources that are opened for an item, each of them once: that of the sound; that of
/// the pictures where it is another; that of the subtitles where there is one and it is not
/// that of the pictures; that of the watermark where there is one. Only the subtitles can
/// be done without.
pub open spec fn tasks(item: PlayoutItem, sources: ItemSources) -> Seq<TaskView> {
    let none = Seq::<TaskView>::empty();
    let audio = seq![TaskView { purpose: OpenFor::Audio, source: sources.audio@, required: true }];
    let video = if sources.audio_is_video {
        none
    } else {
        seq![TaskView { purpose: OpenFor::Video, source: sources.video@, required: true }]
    };
    let subtitle = match sources.subtitle {
        Some(source) if !sources.subtitle_is_video => seq![
            TaskView { purpose: OpenFor::Subtitle, source: source@, required: false },
        ],
        _ => none,
    };
    let watermark = match item.watermark {
        Some(watermark) => seq![
            TaskView {
                purpose: OpenFor::Watermark,
                source: watermark.source@,
                required: true,
            },
        ],
        None => none,
    };
    audio + video + subtitle + watermark
}

/// The sources that are opened for an item.
pub fn open_tasks(item: &PlayoutItem, sources: &ItemSources) -> (r: Vec<OpenTask>)
    ensures
        tasks_view(r@) == tasks(*item, *sources),
{
    let mut r: Vec<OpenTask> = Vec::new();
    r.push(
        OpenTask { purpose: OpenFor::Audio, source: sources.audio.clone(), required: true },
    );
    if !sources.audio_is_video {
        r.push(
            OpenTask { purpose: OpenFor::Video, source: sources.video.clone(), required: true },
        );
    }
    if !sources.subtitle_is_video {
        if let Some(source) = &sources.subtitle {
            r.push(
                OpenTask { purpose: OpenFor::Subtitle, source: source.clone(), required: false },
            );
        }
    }
    if let Some(watermark) = &item.watermark {
        r.push(
            OpenTask {
                purpose: OpenFor::Watermark,
                source: watermark.source.clone(),
                required: true,
            },
        );
    }
    assert(tasks_view(r@) =~= tasks(*item, *sources));
    r
}

/// The sound comes from the source of the audio track, the pictures from that of the video
/// track and the subtitles from that of the subtitle track, where the track has one, and
/// otherwise from the source of the item.
pub proof fn law_each_track_has_its_source(item: PlayoutItem, own: PlayoutItemSource)
    ensures
        item.tracks matches Some(t) && t.audio matches Some(s) && s.source == Some(own)
            ==> resolved(item, TrackKind::Audio) == Some(own@),
        item.tracks matches Some(t) && t.video matches Some(s) && s.source == Some(own)
            ==> resolved(item, TrackKind::Video) == Some(own@),
        item.tracks matches Some(t) && t.subtitle matches Some(s) && s.source == Some(own)
            ==> resolved(item, TrackKind::Subtitle) == Some(own@),
        item.source == Some(own) && !(item.tracks matches Some(t) && t.audio matches Some(s)
            && s.source is Some) ==> resolved(item, TrackKind::Audio) == Some(own@),
        item.source == Some(own) && !(item.tracks matches Some(t) && t.video matches Some(s)
            && s.source is Some) ==> resolved(item, TrackKind::Video) == Some(own@),
        item.source == Some(own) && !(item.tracks matches Some(t) && t.subtitle matches Some(s)
            && s.source is Some) ==> resolved(item, TrackKind::Subtitle) == Some(own@),
        item.source is None && item.tracks is None ==> resolved(item, TrackKind::Audio) is None
            && resolved(item, TrackKind::Video) is None && resolved(
            item,
            TrackKind::Subtitle,
        ) is None,
        item.source is None && (item.tracks matches Some(t) && t.audio is None) ==> resolved(
            item,
            TrackKind::Audio,
        ) is None,
        item.source is None && (item.tracks matches Some(t) && t.video is None) ==> resolved(
            item,
            TrackKind::Video,
        ) is None,
        item.source is None && (item.tracks matches Some(t) && t.subtitle is None) ==> resolved(
            item,
            TrackKind::Subtitle,
        ) is None,
{
}

/// The stream of each track is the one that the item selects for it by name.
pub proof fn law_each_track_has_its_stream(item: PlayoutItem, selection: TrackSelection)
    ensures
        item.tracks matches Some(t) && t.audio == Some(selection) ==> selected_stream(
            item,
            TrackKind::Audio,
        ) == selection.stream_index,
        item.tracks matches Some(t) && t.video == Some(selection) ==> selected_stream(
            item,
            TrackKind::Video,
        ) == selection.stream_index,
        item.tracks matches Some(t) && t.subtitle == Some(selection) ==> selected_stream(
            item,
            TrackKind::Subtitle,
        ) == selection.stream_index,
        !(item.tracks matches Some(t) && t.audio is Some) ==> selected_stream(
            item,
            TrackKind::Audio,
        ) is None,
        !(item.tracks matches Some(t) && t.video is Some) ==> selected_stream(
            item,
            TrackKind::Video,
        ) is None,
        !(item.tracks matches Some(t) && t.subtitle is Some) ==> selected_stream(
            item,
            TrackKind::Subtitle,
        ) is None,
{
}

/// What can be sought or is generated is never live, what is streamed always is, and a script
/// only where it says so.
pub proof fn law_which_sources_are_live(source: PlayoutItemSource)
    ensures
        source is Local || source is Http || source is Lavfi ==> !is_live_source(source@),
        source is Rtsp || source is Rtmp ==> is_live_source(source@),
        source is Script ==> is_live_source(source@) == (source->is_live == Some(true)),
{
}

/// The sources of an item are those of its tracks; they are one exactly where the tracks
/// have one source, and the item is live exactly where its sound or its pictures are.
pub proof fn law_item_sources(item: PlayoutItem, sources: ItemSources)
    requires
        sources.of(item),
    ensures
        resolved(item, TrackKind::Audio) == Some(sources.audio@),
        resolved(item, TrackKind::Video) == Some(sources.video@),
        sources.subtitle matches Some(s) ==> resolved(item, TrackKind::Subtitle) == Some(s@),
        sources.subtitle is None ==> resolved(item, TrackKind::Subtitle) is None,
        sources.audio_is_video <==> resolved(item, TrackKind::Audio) == resolved(
            item,
            TrackKind::Video,
        ),
        sources.subtitle_is_video <==> resolved(item, TrackKind::Subtitle) == resolved(
            item,
            TrackKind::Video,
        ),
        sources.is_live <==> is_live_source(sources.audio@) || is_live_source(sources.video@),
{
}

/// Every source that is opened for an item is the one that the item has for that purpose, and
/// can be done without only where it is for the subtitles.
pub proof fn law_tasks_open_the_sources_of_the_item(
    item: PlayoutItem,
    sources: ItemSources,
    i: int,
)
    requires
        sources.of(item),
        0 <= i < tasks(item, sources).len(),
    ensures
        ({
            let task = tasks(item, sources)[i];
            &&& match task.purpose {
                OpenFor::Audio => resolved(item, TrackKind::Audio) == Some(task.source),
                OpenFor::Video => resolved(item, TrackKind::Video) == Some(task.source),
                OpenFor::Subtitle => resolved(item, TrackKind::Subtitle) == Some(task.source),
                OpenFor::Watermark => item.watermark matches Some(w) && w.source@ == task.source,
            }
            &&& task.required == !(task.purpose is Subtitle)
        }),
{
}

/// Whether a source is opened for a purpose.
pub open spec fn opens(item: PlayoutItem, sources: ItemSources, purpose: OpenFor) -> bool {
    exists|i: int|
        0 <= i < tasks(item, sources).len() && (#[trigger] tasks(item, sources)[i]).purpose
            == purpose
}

/// Sources are opened for the sound; for the pictures and the subtitles where they come from
/// elsewhere than the sound and the pictures; for the watermark where there is one; and for
/// nothing twice.
pub proof fn law_tasks_open_what_is_needed(item: PlayoutItem, sources: ItemSources)
    requires
        sources.of(item),
    ensures
        opens(item, sources, OpenFor::Audio),
        opens(item, sources, OpenFor::Video) <==> resolved(item, TrackKind::Video) != resolved(
            item,
            TrackKind::Audio,
        ),
        opens(item, sources, OpenFor::Subtitle) <==> resolved(item, TrackKind::Subtitle) is Some
            && resolved(item, TrackKind::Subtitle) != resolved(item, TrackKind::Video),
        opens(item, sources, OpenFor::Watermark) <==> item.watermark is Some,
        forall|i: int, j: int|
            0 <= i < j < tasks(item, sources).len() ==> (#[trigger] tasks(item, sources)[i]).purpose
                != (#[trigger] tasks(item, sources)[j]).purpose,
{
    let all = tasks(item, sources);
    let n = all.len() as int;
    assert(all[0].purpose == OpenFor::Audio);
    let videos = if sources.audio_is_video {
        0int
    } else {
        1
    };
    let subtitles = if sources.subtitle is Some && !sources.subtitle_is_video {
        1int
    } else {
        0
    };
    if videos == 1 {
        assert(all[1].purpose == OpenFor::Video);
    }
    if subtitles == 1 {
        assert(all[1 + videos].purpose == OpenFor::Subtitle);
    }
    if item.watermark is Some {
        assert(all[n - 1].purpose == OpenFor::Watermark);
    }
    assert forall|i: int| 0 <= i < n implies match (#[trigger] all[i]).purpose {
        OpenFor::Audio => i == 0,
        OpenFor::Video => i == 1 && videos == 1,
        OpenFor::Subtitle => i == 1 + videos && subtitles == 1,
        OpenFor::Watermark => i == n - 1 && item.watermark is Some,
    } by {}
}

/// The views of a list of tasks are those of its tasks, one for one, and a view keeps what
/// the source is opened for, the source and whether it can be done without.
pub proof fn law_views_of_tasks(v: Seq<OpenTask>)
    ensures
        tasks_view(v).len() == v.len(),
        forall|i: int|
            0 <= i < v.len() ==> {
                &&& (#[trigger] tasks_view(v)[i]).purpose == v[i].purpose
                &&& tasks_view(v)[i].source == v[i].source@
                &&& tasks_view(v)[i].required == v[i].required
            },
{
}

/// However its texts are expanded, a source is opened with its own expanded texts in their
/// own places, and with its own settings; one behind HTTP reconnects unless it says
/// otherwise; files and generated sources are opened as they are.
pub proof fn law_sources_are_opened_as_they_are(
    source: PlayoutItemSource,
    expand: spec_fn(Seq<char>) -> Seq<char>,
    width: nat,
    height: nat,
)
    ensures
        ({
            let opened = conversion(
                source@,
                templates(source@).map_values(expand),
                width,
                height,
            );
            match source {
                PlayoutItemSource::Local { path, .. } => opened == ConversionView::Input(
                    InputSourceView::Local { path: path@ },
                ),
                PlayoutItemSource::Lavfi { params } => opened == ConversionView::Input(
                    InputSourceView::Lavfi { params: params@ },
                ),
                PlayoutItemSource::Http {
                    uri,
                    headers,
                    user_agent,
                    timeout_us,
                    reconnect,
                    reconnect_delay_max,
                    keep_alive,
                    ..
                } => opened matches ConversionView::Input(input)
                    && input matches InputSourceView::Http {
                    uri: u,
                    headers: h,
                    user_agent: a,
                    timeout_us: t,
                    reconnect: r,
                    reconnect_delay_max: d,
                    keep_alive: k,
                } && {
                    &&& u == expand(uri@)
                    &&& match headers {
                        Some(list) => h.len() == list@.len() && forall|i: int|
                            0 <= i < list@.len() ==> #[trigger] h[i] == expand(list@[i]@),
                        None => h.len() == 0,
                    }
                    &&& match user_agent {
                        Some(text) => a == Some(expand(text@)),
                        None => a is None,
                    }
                    &&& t == timeout_us
                    &&& r == (reconnect != Some(false))
                    &&& d == reconnect_delay_max
                    &&& k == keep_alive
                },
                PlayoutItemSource::Rtsp { uri, timeout_us } => opened == ConversionView::Input(
                    InputSourceView::Rtsp { uri: expand(uri@), timeout_us },
                ),
                PlayoutItemSource::Rtmp { uri, timeout_us } => opened == ConversionView::Input(
                    InputSourceView::Rtmp { uri: expand(uri@), timeout_us },
                ),
                PlayoutItemSource::Script { command, args, .. } => crate::text::trim(
                    command@,
                ).len() > 0 ==> (opened matches ConversionView::Script { command: c, args: g } && {
                    &&& c == expand(command@)
                    &&& g.len() == args@.len()
                    &&& forall|i: int|
                        0 <= i < args@.len() ==> #[trigger] g[i] == expand(args@[i]@)
                }),
            }
        }),
{
    match source {
        PlayoutItemSource::Http { uri, headers, user_agent, .. } => {
            let all = templates(source@);
            let count: int = match headers {
                Some(list) => list@.len() as int,
                None => 0,
            };
            assert(all[0] == uri@);
            if let Some(list) = headers {
                assert forall|i: int| 0 <= i < list@.len() implies all[1 + i]
                    == #[trigger] list@[i]@ by {}
                let h = all.map_values(expand).subrange(1, 1 + count);
                assert forall|i: int| 0 <= i < list@.len() implies #[trigger] h[i] == expand(
                    list@[i]@,
                ) by {
                    assert(all[1 + i] == list@[i]@);
                }
            }
            if let Some(text) = user_agent {
                assert(all[1 + count] == text@);
            }
        },
        PlayoutItemSource::Script { command, args, .. } => {
            if crate::text::trim(command@).len() > 0 {
                let all = templates(source@);
                assert(all[0] == command@);
                let g = all.map_values(expand).skip(1);
                assert forall|i: int| 0 <= i < args@.len() implies #[trigger] g[i] == expand(
                    args@[i]@,
                ) by {
                    assert(all[1 + i] == args@[i]@);
                }
            }
        },
        _ => {},
    }
}

/// A script whose command is nothing but white space is a picture, and nothing of it is
/// expanded.
pub proof fn law_script_without_command(
    command: Seq<char>,
    args: Seq<Seq<char>>,
    is_live: Option<bool>,
    width: nat,
    height: nat,
)
    requires
        forall|i: int| 0 <= i < command.len() ==> crate::text::is_white_space(#[trigger] command[i]),
    ensures
        ({
            let source = SourceView::Script { command, args, is_live };
            &&& templates(source).len() == 0
            &&& conversion(source, Seq::empty(), width, height) matches ConversionView::Input(input)
            &&& input is Lavfi
            &&& black_params(width, height).is_prefix_of(input->params)
        }),
{
    let none = Seq::<char>::empty();
    crate::text::law_trim_takes_white_space_only(command, none, none);
    assert(command + none + none =~= command);
    let params = missing_command_params(width, height);
    let black = black_params(width, height);
    assert(params.subrange(0, black.len() as int) =~= black);
}

/// The width and the height of the pictures are those that are set, each for itself, or else
/// those of full HD.
pub proof fn law_picture_size(session: ChannelSession, n: u32)
    ensures
        session.channel_config.video.width == Some(n) ==> session.picture_width() == n,
        session.channel_config.video.height == Some(n) ==> session.picture_height() == n,
        session.channel_config.video.width is None ==> session.picture_width() == 1920,
        session.channel_config.video.height is None ==> session.picture_height() == 1080,
{
}

/// A way of opening a source has the view of its input, or of its command and the arguments
/// of that, one for one.
pub proof fn law_views_of_conversions(converted: SourceConversion)
    ensures
        match converted {
            SourceConversion::Input(source) => converted@ == ConversionView::Input(source@),
            SourceConversion::Script(script) => converted@ matches ConversionView::Script {
                command,
                args,
            } && {
                &&& command == script.command@
                &&& args.len() == script.args@.len()
                &&& forall|i: int|
                    0 <= i < args.len() ==> #[trigger] args[i] == script.args@[i]@
            },
        },
{
}

/// The texts of results are those of the results, one for one.
pub proof fn law_texts_of_results(results: Seq<Result<String, ChannelError>>)
    ensures
        texts_of(results).len() == results.len(),
        forall|i: int|
            0 <= i < results.len() ==> (#[trigger] results[i] matches Ok(text) ==> texts_of(
                results,
            )[i] == text@),
{
}

/// Either there is no error among the results, or exactly one is the first.
pub proof fn law_first_error(
    results: Seq<Result<String, ChannelError>>,
    e: ChannelError,
    i: int,
    f: ChannelError,
)
    requires
        is_first_error(results, e),
        0 <= i < results.len(),
        results[i] == Err::<String, ChannelError>(f),
        forall|j: int| 0 <= j < i ==> (#[trigger] results[j]) is Ok,
    ensures
        e == f,
        !all_ok(results),
{
    let k = choose|k: int|
        {
            &&& 0 <= k < results.len()
            &&& #[trigger] results[k] == Err::<String, ChannelError>(e)
            &&& forall|j: int| 0 <= j < k ==> (#[trigger] results[j]) is Ok
        };
    if k < i {
        assert(results[k] is Ok);
    }
    if i < k {
        assert(results[i] is Ok);
    }
}

} // verus!
