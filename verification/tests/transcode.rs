use ersatztv::channel_session::ChannelSession;
use ersatztv::clock::{Duration, OffsetDateTime};
use ersatztv::config::{AudioNormalization, ChannelConfig, SubtitleMode, VideoNormalization};
use ersatztv::error::ChannelError;
use ersatztv::frame::{FrameSize, Percent};
use ersatztv::input;
use ersatztv::input::{InputSource, LavfiInputSource, LocalInputSource};
use ersatztv::playout::{
    PeriodicClock, PlayoutItem, PlayoutItemSource, PlayoutItemTracks, TrackSelection, Watermark,
    WatermarkLocation, WatermarkTiming,
};
use ersatztv::probe::{CodecType, ProbeResult, ProbeResultStream, ProbeResultVideoStream};
use ersatztv::sources::{
    open_tasks, source_templates, ItemSources, OpenFor, ScriptCommand, SourceConversion,
};
use ersatztv::transcode::{
    playout_location_to_pipeline, watermark_input, Attempt, Hz, ItemInputs, Kbps, Loudness,
    OpenedSource, StreamEnd, SubtitlePlan,
};
use ersatztv::web_vtt::Cue;

const SECOND: i128 = 1_000_000_000;

fn at(seconds: i128) -> OffsetDateTime {
    OffsetDateTime::new(seconds * SECOND, 0).unwrap()
}

fn session() -> ChannelSession {
    let config = ChannelConfig {
        number: "42".to_string(),
        output_folder: Some("/out".to_string()),
        ready_file_name: "ready".to_string(),
        virtual_start: None,
        segment_seconds: 4,
        ffmpeg_path: None,
        ffprobe_path: None,
        save_reports: true,
        reports_folder: Some("/reports".to_string()),
        audio: AudioNormalization {
            format: Some("aac".to_string()),
            bitrate_kbps: Some(192),
            buffer_kbps: Some(384),
            channels: Some(2),
            sample_rate_hz: Some(48_000),
            normalize_loudness: true,
            loudness: None,
        },
        video: VideoNormalization {
            format: Some("h264".to_string()),
            bit_depth: Some(8),
            width: Some(1280),
            height: Some(720),
            bitrate_kbps: Some(2000),
            buffer_kbps: None,
            scaling_mode: "crop".to_string(),
            filters: vec!["tonemap=hable".to_string()],
            deinterlace: true,
        },
        subtitle_mode: SubtitleMode::Convert,
    };
    ChannelSession::new(config, at(1000)).unwrap()
}

fn lavfi(params: &str) -> PlayoutItemSource {
    PlayoutItemSource::Lavfi {
        params: params.to_string(),
    }
}

fn local(path: &str) -> PlayoutItemSource {
    PlayoutItemSource::Local {
        path: path.to_string(),
        in_point_ms: None,
        out_point_ms: None,
    }
}

fn track(source: PlayoutItemSource) -> Option<TrackSelection> {
    Some(TrackSelection {
        source: Some(source),
        stream_index: None,
    })
}

fn item(source: Option<PlayoutItemSource>) -> PlayoutItem {
    PlayoutItem {
        id: "item".to_string(),
        start: at(1000),
        finish: at(1020),
        source,
        tracks: None,
        watermark: None,
    }
}

fn assert_fallback(item: &PlayoutItem, finish: OffsetDateTime) {
    assert_eq!(item.start, at(1000));
    assert_eq!(item.finish, finish);
    assert!(item.source.is_none());
    assert!(item.watermark.is_none());
    let tracks = item.tracks.as_ref().unwrap();
    assert!(
        tracks.audio.as_ref().unwrap().source
            == Some(lavfi("anullsrc=channel_layout=stereo:sample_rate=48000"))
    );
    assert!(tracks.video.as_ref().unwrap().source == Some(lavfi("color=c=black:s=1280x720")));
    assert!(tracks.subtitle.is_none());
    let id: Vec<char> = item.id.chars().collect();
    assert_eq!(id.len(), 36);
    for (i, c) in id.iter().enumerate() {
        if [8, 13, 18, 23].contains(&i) {
            assert_eq!(*c, '-');
        } else {
            assert!(c.is_ascii_digit() || ('a'..='f').contains(c));
        }
    }
    assert_eq!(id[14], '4');
    assert!(['8', '9', 'a', 'b'].contains(&id[19]));
}

#[test]
fn black_and_silence_stand_in_for_a_missing_item() {
    let session = session();
    assert_fallback(&session.fake_playout_item(None), at(1060));
    assert_fallback(&session.fake_playout_item(Some(at(1234))), at(1234));
    let no_item = Err(ChannelError::PlayoutJsonNoItem {
        next_start: Some(at(1111)),
    });
    assert_fallback(&session.item_to_transcode(no_item), at(1111));
    let no_item = Err(ChannelError::PlayoutJsonNoItem { next_start: None });
    assert_fallback(&session.item_to_transcode(no_item), at(1060));
    let failed = Err(ChannelError::Other("no file".to_string()));
    assert_fallback(&session.item_to_transcode(failed), at(1060));
    let loaded = session.item_to_transcode(Ok(item(Some(local("a")))));
    assert_eq!(loaded.id, "item");
}

#[test]
fn two_items_that_stand_in_have_different_identifiers() {
    let session = session();
    assert_ne!(session.fake_playout_item(None).id, session.fake_playout_item(None).id);
}

#[test]
fn without_a_size_the_black_picture_is_full_hd() {
    let mut session = session();
    session.channel_config.video.width = None;
    session.channel_config.video.height = None;
    let item = session.fallback_item("id".to_string(), None);
    assert_eq!(item.id, "id");
    let tracks = item.tracks.unwrap();
    assert!(tracks.video.unwrap().source == Some(lavfi("color=c=black:s=1920x1080")));
}

#[test]
fn a_failed_item_is_replaced_once() {
    let session = session();
    let current = item(Some(local("a")));
    match session.after_attempt(&current, Ok((at(1010), true))) {
        Attempt::Done { finish, is_complete } => {
            assert_eq!(finish, at(1010));
            assert!(is_complete);
        }
        _ => panic!("the item was transcoded"),
    }
    match session.after_attempt(&current, Err(ChannelError::StreamFailure("x".to_string()))) {
        Attempt::Retry(item) => assert_fallback(&item, at(1020)),
        _ => panic!("the item has to be replaced"),
    }
    match session.after_attempt(&current, Err(ChannelError::IdleTimeout("42".to_string()))) {
        Attempt::Abort(ChannelError::IdleTimeout(number)) => assert_eq!(number, "42"),
        _ => panic!("the session has to end"),
    }
    match ChannelSession::after_retry(Err(ChannelError::StreamFailure("y".to_string()))) {
        Attempt::Abort(ChannelError::StreamFailure(text)) => assert_eq!(text, "y"),
        _ => panic!("the session has to end"),
    }
    match ChannelSession::after_retry(Ok((at(1015), false))) {
        Attempt::Done { finish, is_complete } => {
            assert_eq!(finish, at(1015));
            assert!(!is_complete);
        }
        _ => panic!("the item was transcoded"),
    }
}

#[test]
fn sound_and_pictures_are_required() {
    assert!(matches!(
        ItemSources::plan(&item(None)).err(),
        Some(ChannelError::PlayoutJsonAudioSourceRequired)
    ));
    let mut only_audio = item(None);
    only_audio.tracks = Some(PlayoutItemTracks {
        audio: track(local("a")),
        video: None,
        subtitle: None,
    });
    assert!(matches!(
        ItemSources::plan(&only_audio).err(),
        Some(ChannelError::PlayoutJsonVideoSourceRequired)
    ));
}

#[test]
fn one_source_is_opened_once() {
    let current = item(Some(local("a")));
    let sources = ItemSources::plan(&current).unwrap();
    assert!(sources.audio_is_video);
    assert!(sources.subtitle_is_video);
    assert!(!sources.is_live);
    let tasks = open_tasks(&current, &sources);
    assert_eq!(tasks.len(), 1);
    assert_eq!(tasks[0].purpose, OpenFor::Audio);
    assert!(tasks[0].source == local("a"));
    assert!(tasks[0].required);
}

fn watermark() -> Watermark {
    Watermark {
        source: local("logo.png"),
        stream_index: Some(1),
        location: WatermarkLocation::BottomRight,
        width_percent: Some(Percent {
            bits: 10f32.to_bits(),
        }),
        within_source_content: Some(true),
        horizontal_margin_percent: None,
        vertical_margin_percent: Some(Percent {
            bits: 5f32.to_bits(),
        }),
        opacity_percent: None,
        timing: Some(WatermarkTiming::Periodic {
            clock: PeriodicClock::Content,
            frequency_ms: 600_000,
            phase_offset_ms: Some(1),
            disable_after_ms: Some(2),
            fade_ms: Some(3),
            hold_ms: 4,
        }),
    }
}

#[test]
fn different_sources_are_opened_in_turn() {
    let mut current = item(None);
    current.tracks = Some(PlayoutItemTracks {
        audio: track(local("a")),
        video: track(PlayoutItemSource::Rtsp {
            uri: "rtsp://host".to_string(),
            timeout_us: None,
        }),
        subtitle: track(local("s")),
    });
    current.watermark = Some(watermark());
    let sources = ItemSources::plan(&current).unwrap();
    assert!(!sources.audio_is_video);
    assert!(!sources.subtitle_is_video);
    assert!(sources.is_live);
    let tasks = open_tasks(&current, &sources);
    let purposes: Vec<(OpenFor, bool)> = tasks.iter().map(|t| (t.purpose, t.required)).collect();
    assert_eq!(
        purposes,
        vec![
            (OpenFor::Audio, true),
            (OpenFor::Video, true),
            (OpenFor::Subtitle, false),
            (OpenFor::Watermark, true),
        ]
    );
    assert!(tasks[3].source == local("logo.png"));
}

fn convert(
    source: PlayoutItemSource,
    expanded: Vec<Result<String, ChannelError>>,
) -> Result<SourceConversion, ChannelError> {
    assert!(expanded.len() <= source_templates(&source).len());
    session().playout_source_to_input_source(source, expanded)
}

fn ok(text: &str) -> Result<String, ChannelError> {
    Ok(text.to_string())
}

fn http() -> PlayoutItemSource {
    PlayoutItemSource::Http {
        uri: "{{U}}".to_string(),
        in_point_ms: Some(1),
        out_point_ms: None,
        headers: Some(vec!["A: {{A}}".to_string(), "B: b".to_string()]),
        user_agent: Some("{{UA}}".to_string()),
        timeout_us: Some(9),
        reconnect: None,
        reconnect_delay_max: Some(8),
        keep_alive: Some(true),
    }
}

#[test]
fn templates_are_expanded_in_order() {
    assert_eq!(
        source_templates(&http()),
        vec!["{{U}}", "A: {{A}}", "B: b", "{{UA}}"]
    );
    match convert(http(), vec![ok("http://u"), ok("A: 1"), ok("B: b"), ok("agent")]) {
        Ok(SourceConversion::Input(InputSource::Http(source))) => {
            assert_eq!(source.uri, "http://u");
            assert_eq!(source.options.headers, vec!["A: 1", "B: b"]);
            assert_eq!(source.options.user_agent, Some("agent".to_string()));
            assert_eq!(source.options.timeout_us, Some(9));
            assert!(source.options.reconnect);
            assert_eq!(source.options.reconnect_delay_max, Some(8));
            assert_eq!(source.options.keep_alive, Some(true));
        }
        _ => panic!("an http source is opened as one"),
    }
}

#[test]
fn the_first_template_that_fails_is_the_error() {
    let failed = |text: &str| Err(ChannelError::Other(text.to_string()));
    match convert(http(), vec![ok("u"), failed("first"), failed("second"), ok("ua")]) {
        Err(ChannelError::Other(text)) => assert_eq!(text, "first"),
        _ => panic!("a template failed"),
    }
    match convert(http(), vec![ok("u"), failed("only")]) {
        Err(ChannelError::Other(text)) => assert_eq!(text, "only"),
        _ => panic!("a template failed"),
    }
}

#[test]
fn sources_are_opened_as_what_they_are() {
    match convert(local("~/a.mkv"), Vec::new()) {
        Ok(SourceConversion::Input(InputSource::Local(source))) => {
            assert_eq!(source.path, "~/a.mkv")
        }
        _ => panic!("a file is opened as one"),
    }
    match convert(lavfi("anullsrc"), Vec::new()) {
        Ok(SourceConversion::Input(InputSource::Lavfi(source))) => {
            assert_eq!(source.params, "anullsrc")
        }
        _ => panic!("a generated source is opened as one"),
    }
    let rtsp = PlayoutItemSource::Rtsp {
        uri: "{{R}}".to_string(),
        timeout_us: Some(5),
    };
    match convert(rtsp, vec![ok("rtsp://host")]) {
        Ok(SourceConversion::Input(InputSource::Rtsp(source))) => {
            assert_eq!(source.uri, "rtsp://host");
            assert_eq!(source.options.timeout_us, Some(5));
        }
        _ => panic!("an rtsp source is opened as one"),
    }
    let rtmp = PlayoutItemSource::Rtmp {
        uri: "{{R}}".to_string(),
        timeout_us: None,
    };
    match convert(rtmp, vec![ok("rtmp://host")]) {
        Ok(SourceConversion::Input(InputSource::Rtmp(source))) => {
            assert_eq!(source.uri, "rtmp://host");
            assert_eq!(source.options.timeout_us, None);
        }
        _ => panic!("an rtmp source is opened as one"),
    }
}

#[test]
fn scripts_are_run_behind_a_local_address() {
    let script = PlayoutItemSource::Script {
        command: "{{C}}".to_string(),
        args: vec!["x".to_string(), "y".to_string()],
        is_live: None,
    };
    match convert(script, vec![ok("cmd"), ok("1"), ok("2")]) {
        Ok(SourceConversion::Script(ScriptCommand { command, args })) => {
            assert_eq!(command, "cmd");
            assert_eq!(args, vec!["1", "2"]);
        }
        _ => panic!("a script is run"),
    }
    match ChannelSession::script_input_source("http://127.0.0.1/1".to_string()) {
        InputSource::Http(source) => {
            assert_eq!(source.uri, "http://127.0.0.1/1");
            assert!(!source.options.reconnect);
            assert!(source.options.headers.is_empty());
            assert_eq!(source.options.timeout_us, None);
        }
        _ => panic!("a local address is opened over http"),
    }
}

#[test]
fn a_script_without_a_command_is_a_message() {
    let script = PlayoutItemSource::Script {
        command: " \t".to_string(),
        args: vec!["x".to_string()],
        is_live: None,
    };
    match convert(script, Vec::new()) {
        Ok(SourceConversion::Input(InputSource::Lavfi(source))) => assert_eq!(
            source.params,
            "color=c=black:s=1280x720:r=24,drawtext=fontcolor=white:fontsize=42:text='ERROR\\: script source missing command':x=(w-text_w)/2:y=(h-text_h)/2"
        ),
        _ => panic!("a message is shown"),
    }
}

fn subtitle_stream(subtitle_image: bool) -> ProbeResultVideoStream {
    ProbeResultVideoStream {
        stream_index: 2,
        codec_type: CodecType::Subtitle,
        subtitle_image,
    }
}

fn opened(path: &str, still_image: bool, subtitle_image: bool) -> OpenedSource {
    OpenedSource {
        input_source: InputSource::Local(LocalInputSource {
            path: path.to_string(),
        }),
        probe_result: ProbeResult {
            streams: vec![ProbeResultStream::Video(subtitle_stream(subtitle_image))],
            still_image,
        },
    }
}

fn path_of(source: &InputSource) -> &str {
    match source {
        InputSource::Local(local) => &local.path,
        _ => panic!("not a file"),
    }
}

#[test]
fn a_plan_takes_inputs_outputs_and_times_together() {
    let session = session();
    let current = PlayoutItem {
        finish: at(1100),
        ..item(Some(local("a")))
    };
    let sources = ItemSources::plan(&current).unwrap();
    assert!(session.can_plan(&current, &sources, false));
    let plan = session.plan_transcode(
        &current,
        &sources,
        false,
        Some(Duration { secs: 3, nanos: 0 }),
        ItemInputs {
            audio: opened("a", false, false),
            video: None,
            subtitle: None,
            watermark: Some(watermark_input(&watermark(), opened("logo.png", true, false))),
        },
    );
    assert_eq!(plan.finish, at(1044));
    assert!(!plan.is_complete);
    let settings = &plan.input_settings;
    assert_eq!(settings.start, at(1000));
    for input in [
        &settings.audio_input,
        &settings.video_input,
        settings.subtitle_input.as_ref().unwrap(),
    ] {
        assert_eq!(path_of(&input.input_source), "a");
        assert_eq!(input.in_point, Duration { secs: 0, nanos: 0 });
        assert_eq!(input.out_point, Duration { secs: 44, nanos: 0 });
        assert_eq!(input.stream_index, None);
    }
    assert_eq!(settings.watermark_input.as_ref().unwrap().stream_index, Some(1));
    let output = &plan.output_settings;
    assert_eq!(output.audio.bitrate, Some(Kbps(192)));
    assert_eq!(output.audio.buffer, Some(Kbps(384)));
    assert_eq!(output.audio.channels, Some(2));
    assert_eq!(output.audio.sample_rate, Some(Hz(48_000)));
    assert!(matches!(output.audio.loudness, Loudness::Default));
    assert_eq!(output.audio.format, Some("aac".to_string()));
    assert_eq!(output.video_format, Some("h264".to_string()));
    assert_eq!(output.bit_depth, Some(8));
    assert_eq!(output.scaling_mode, "crop");
    assert_eq!(output.filter_options, vec!["tonemap=hable"]);
    assert!(output.deinterlace);
    assert_eq!(output.accel, None);
    assert!(output.save_reports);
    assert_eq!(output.reports_folder, Some("/reports".to_string()));
    assert_eq!(output.video_bitrate, Some(Kbps(2000)));
    assert_eq!(output.video_buffer, None);
    assert_eq!(
        output.video_size,
        Some(FrameSize {
            width: 1280,
            height: 720,
        })
    );
    assert_eq!(output.playlist, "/out/ffmpeg.m3u8");
    assert_eq!(output.segment_template, "/out/live%06d.ts");
    assert_eq!(output.pts_offset, Some(Duration { secs: 3, nanos: 0 }));
    assert!(!output.realtime);
    assert!(!output.is_live);
    assert!(!output.default_frame_rate);
    assert!(matches!(output.subtitle_mode, SubtitleMode::Convert));
}

#[test]
fn a_still_image_starts_at_its_beginning() {
    let mut session = session();
    session.transcoded_until = at(1010);
    let mut current = item(None);
    current.tracks = Some(PlayoutItemTracks {
        audio: track(local("a")),
        video: track(local("p.png")),
        subtitle: None,
    });
    let sources = ItemSources::plan(&current).unwrap();
    assert!(session.can_plan(&current, &sources, true));
    let plan = session.plan_transcode(
        &current,
        &sources,
        true,
        None,
        ItemInputs {
            audio: opened("a", false, false),
            video: Some(opened("p.png", true, false)),
            subtitle: None,
            watermark: None,
        },
    );
    assert_eq!(plan.input_settings.audio_input.in_point, Duration { secs: 10, nanos: 0 });
    assert_eq!(plan.input_settings.video_input.in_point, Duration { secs: 0, nanos: 0 });
    assert_eq!(plan.input_settings.video_input.out_point, Duration { secs: 20, nanos: 0 });
    assert!(plan.input_settings.subtitle_input.is_none());
    assert!(plan.output_settings.default_frame_rate);
    assert!(plan.is_complete);
    assert_eq!(plan.finish, at(1020));
}

#[test]
fn loudness_and_size_follow_the_configuration() {
    let mut session = session();
    session.channel_config.audio.loudness = Some("I=-16".to_string());
    session.channel_config.subtitle_mode = SubtitleMode::Other("burn".to_string());
    session.hw_accel = Some("vaapi".to_string());
    session.channel_config.video.height = None;
    let output = session.output_settings(true, true, true, None);
    assert!(matches!(output.audio.loudness, Loudness::Configured(settings) if settings == "I=-16"));
    assert!(matches!(output.subtitle_mode, SubtitleMode::Other(name) if name == "burn"));
    assert_eq!(output.accel, Some("vaapi".to_string()));
    assert_eq!(output.video_size, None);
    assert!(output.is_live);
    session.channel_config.audio.normalize_loudness = false;
    let output = session.output_settings(true, true, true, None);
    assert!(matches!(output.audio.loudness, Loudness::Unchanged));
}

fn plan_subtitles(session: &ChannelSession, subtitle_image: bool) -> SubtitlePlan {
    let current = item(Some(local("a")));
    let sources = ItemSources::plan(&current).unwrap();
    let plan = session.plan_transcode(
        &current,
        &sources,
        true,
        None,
        ItemInputs {
            audio: opened("a", false, subtitle_image),
            video: None,
            subtitle: None,
            watermark: None,
        },
    );
    session.subtitle_plan(&plan.input_settings, &current)
}

#[test]
fn subtitles_are_taken_out_of_an_item_once() {
    let mut session = session();
    match plan_subtitles(&session, false) {
        SubtitlePlan::Extract(stream) => assert_eq!(stream, subtitle_stream(false)),
        _ => panic!("the subtitles are not yet there"),
    }
    let cue = Cue {
        start: Duration { secs: 1, nanos: 0 },
        end: Duration { secs: 2, nanos: 0 },
        text: "text".to_string(),
    };
    let source = session.keep_subtitles(
        &item(Some(local("a"))),
        vec![cue],
        Duration { secs: 7, nanos: 0 },
    );
    assert_eq!(source.cues.len(), 1);
    assert_eq!(source.cursor, 0);
    assert_eq!(source.next_segment_source_offset, Duration { secs: 7, nanos: 0 });
    match plan_subtitles(&session, false) {
        SubtitlePlan::Ready(source) => {
            assert_eq!(source.cues[0].text, "text");
            assert_eq!(source.cursor, 0);
            assert_eq!(source.next_segment_source_offset, Duration { secs: 0, nanos: 0 });
        }
        _ => panic!("the subtitles are kept"),
    }
    session.cached_subtitles = Some(("other".to_string(), Vec::new()));
    assert!(matches!(plan_subtitles(&session, false), SubtitlePlan::Extract(_)));
}

#[test]
fn subtitles_that_are_images_or_unwanted_are_skipped() {
    let mut session = session();
    assert!(matches!(plan_subtitles(&session, true), SubtitlePlan::Skip));
    session.channel_config.subtitle_mode = SubtitleMode::Other("burn".to_string());
    assert!(matches!(plan_subtitles(&session, false), SubtitlePlan::Skip));
}

#[test]
fn the_end_of_the_process_decides() {
    let session = session();
    let after = |end| session.after_stream(at(5), true, end);
    assert!(matches!(after(StreamEnd::Success), Ok((finish, true)) if finish == at(5)));
    let failure = |end| match after(end) {
        Err(ChannelError::StreamFailure(text)) => text,
        _ => panic!("not a failure"),
    };
    assert_eq!(failure(StreamEnd::NotStarted), "failed to spawn ffmpeg");
    assert_eq!(failure(StreamEnd::WaitFailed("gone".to_string())), "gone");
    assert_eq!(
        failure(StreamEnd::Exited("exit status: 1".to_string())),
        "ffmpeg exited exit status: 1"
    );
    assert!(matches!(
        after(StreamEnd::ViewersLeft),
        Err(ChannelError::IdleTimeout(number)) if number == "42"
    ));
}

#[test]
fn watermarks_keep_what_the_item_says() {
    let opened = OpenedSource {
        input_source: InputSource::Lavfi(LavfiInputSource {
            params: "logo".to_string(),
        }),
        probe_result: ProbeResult {
            streams: Vec::new(),
            still_image: true,
        },
    };
    let input = watermark_input(&watermark(), opened);
    assert_eq!(input.location, input::WatermarkLocation::BottomRight);
    assert_eq!(input.stream_index, Some(1));
    assert_eq!(input.width_percent, Some(Percent { bits: 10f32.to_bits() }));
    assert_eq!(input.within_source_content, Some(true));
    assert_eq!(input.horizontal_margin_percent, None);
    assert_eq!(input.vertical_margin_percent, Some(Percent { bits: 5f32.to_bits() }));
    assert_eq!(input.opacity_percent, None);
    assert_eq!(
        input.timing,
        Some(input::WatermarkTiming::Periodic(input::PeriodicTiming {
            clock: input::PeriodicClock::Content,
            frequency_ms: 600_000,
            phase_offset_ms: Some(1),
            disable_after_ms: Some(2),
            fade_ms: Some(3),
            hold_ms: 4,
        }))
    );
    assert!(input.probe_result.still_image);
}

#[test]
fn locations_keep_their_names() {
    assert_eq!(
        playout_location_to_pipeline(&WatermarkLocation::TopCenter),
        input::WatermarkLocation::TopCenter
    );
    assert_eq!(
        playout_location_to_pipeline(&WatermarkLocation::CenterLeft),
        input::WatermarkLocation::CenterLeft
    );
    assert_eq!(
        playout_location_to_pipeline(&WatermarkLocation::Center),
        input::WatermarkLocation::Center
    );
}
