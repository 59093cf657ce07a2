use ersatztv::clock::{Duration, OffsetDateTime};
use ersatztv::error::FFPipelineError;
use ersatztv::frame::{FramePoint, FrameSize, Percent};
use ersatztv::input::{
    FfmpegInputArgs, HttpInputOptions, HttpInputSource, InputSettings, InputSource,
    LavfiInputSource, LocalInputSource, Margins, ProbedInput, RtmpInputOptions, RtmpInputSource,
    RtspInputOptions, RtspInputSource, WatermarkInput, WatermarkLocation,
};
use ersatztv::probe::{
    CodecType, ProbeResult, ProbeResultAudioStream, ProbeResultStream, ProbeResultVideoStream,
};

fn picture(stream_index: u32, codec_type: CodecType) -> ProbeResultStream {
    ProbeResultStream::Video(ProbeResultVideoStream {
        stream_index,
        codec_type,
        subtitle_image: false,
    })
}

fn sound(stream_index: u32, channels: u32) -> ProbeResultStream {
    ProbeResultStream::Audio(ProbeResultAudioStream {
        stream_index,
        channels,
    })
}

fn local() -> InputSource {
    InputSource::Local(LocalInputSource {
        path: "a".to_string(),
    })
}

fn probed(streams: Vec<ProbeResultStream>, stream_index: Option<u32>) -> ProbedInput {
    ProbedInput {
        input_source: local(),
        probe_result: ProbeResult {
            streams,
            still_image: false,
        },
        in_point: Duration { secs: 0, nanos: 0 },
        out_point: Duration { secs: 0, nanos: 0 },
        stream_index,
    }
}

fn watermark(streams: Vec<ProbeResultStream>, stream_index: Option<u32>) -> WatermarkInput {
    WatermarkInput {
        input_source: local(),
        probe_result: ProbeResult {
            streams,
            still_image: true,
        },
        stream_index,
        location: WatermarkLocation::TopLeft,
        width_percent: None,
        within_source_content: None,
        horizontal_margin_percent: None,
        vertical_margin_percent: None,
        opacity_percent: None,
        timing: None,
    }
}

fn settings(audio: ProbedInput, video: ProbedInput) -> InputSettings {
    InputSettings {
        start: OffsetDateTime::new(0, 0).unwrap(),
        audio_input: audio,
        video_input: video,
        subtitle_input: None,
        watermark_input: None,
    }
}

fn streams() -> Vec<ProbeResultStream> {
    vec![
        picture(5, CodecType::Subtitle),
        picture(4, CodecType::Video),
        sound(1, 2),
        picture(2, CodecType::Video),
        sound(3, 6),
        sound(6, 6),
    ]
}

fn video_index(wanted: Option<u32>) -> u32 {
    let settings = settings(probed(streams(), None), probed(streams(), wanted));
    settings.select_video_stream().unwrap().stream_index
}

fn audio_index(wanted: Option<u32>) -> u32 {
    let settings = settings(probed(streams(), wanted), probed(streams(), None));
    settings.select_audio_stream().unwrap().stream_index
}

#[test]
fn the_wanted_video_stream_goes_first() {
    assert_eq!(video_index(Some(4)), 4);
    assert_eq!(video_index(None), 2);
    assert_eq!(video_index(Some(5)), 2);
    assert_eq!(video_index(Some(9)), 2);
}

#[test]
fn the_wanted_audio_stream_goes_first() {
    assert_eq!(audio_index(Some(1)), 1);
    assert_eq!(audio_index(None), 3);
    assert_eq!(audio_index(Some(4)), 3);
}

#[test]
fn video_and_audio_are_required() {
    let none = settings(
        probed(vec![picture(0, CodecType::Video)], None),
        probed(vec![sound(0, 2)], Some(0)),
    );
    assert_eq!(
        none.select_video_stream().err(),
        Some(FFPipelineError::VideoInputIsRequired)
    );
    assert_eq!(
        none.select_audio_stream().err(),
        Some(FFPipelineError::AudioInputIsRequired)
    );
}

fn subtitle_of(streams: Vec<ProbeResultStream>, wanted: Option<u32>) -> Option<u32> {
    let mut settings = settings(probed(Vec::new(), None), probed(Vec::new(), None));
    settings.subtitle_input = Some(probed(streams, wanted));
    settings.select_subtitle_stream().map(|s| s.stream_index)
}

#[test]
fn a_subtitle_is_taken_if_wanted_or_alone() {
    assert_eq!(subtitle_of(streams(), Some(5)), Some(5));
    assert_eq!(subtitle_of(streams(), None), None);
    assert_eq!(subtitle_of(streams(), Some(4)), None);
    let alone = || vec![picture(0, CodecType::Subtitle)];
    assert_eq!(subtitle_of(alone(), None), Some(0));
    assert_eq!(subtitle_of(alone(), Some(7)), Some(0));
    assert_eq!(subtitle_of(vec![picture(0, CodecType::Video)], None), None);
    let none = settings(probed(Vec::new(), None), probed(Vec::new(), None));
    assert!(none.select_subtitle_stream().is_none());
}

#[test]
fn a_watermark_is_taken_like_a_video() {
    let mut settings = settings(probed(Vec::new(), None), probed(Vec::new(), None));
    assert!(settings.select_watermark_stream().is_none());
    settings.watermark_input = Some(watermark(streams(), Some(4)));
    assert_eq!(settings.select_watermark_stream().unwrap().stream_index, 4);
    settings.watermark_input = Some(watermark(streams(), None));
    assert_eq!(settings.select_watermark_stream().unwrap().stream_index, 2);
    settings.watermark_input = Some(watermark(vec![sound(0, 2)], None));
    assert!(settings.select_watermark_stream().is_none());
}

#[test]
fn paths_without_a_tilde_are_not_expanded() {
    for path in ["/media/a.mkv", "a/~/b", "~user/a", ""] {
        let source = LocalInputSource {
            path: path.to_string(),
        };
        assert_eq!(source.expand_path(), Some(path.to_string()));
    }
}

#[test]
fn a_tilde_is_replaced_where_there_is_a_home() {
    let source = LocalInputSource {
        path: "~/films/a.mkv".to_string(),
    };
    if let Some(expanded) = source.expand_path() {
        assert!(expanded.ends_with("/films/a.mkv"));
        assert!(!expanded.starts_with('~'));
        let detour = LocalInputSource {
            path: "~//./films/./a.mkv".to_string(),
        };
        assert_eq!(detour.expand_path(), Some(expanded));
    }
}

#[test]
fn local_and_generated_sources_have_fixed_arguments() {
    assert!(local().args_for_input().is_empty());
    let lavfi = InputSource::Lavfi(LavfiInputSource {
        params: "anullsrc".to_string(),
    });
    assert_eq!(lavfi.args_for_input(), vec!["-f", "lavfi"]);
}

#[test]
fn http_arguments_follow_the_options() {
    let source = HttpInputSource {
        uri: "http://host/a".to_string(),
        options: HttpInputOptions {
            headers: vec!["A: b".to_string(), "C: d".to_string()],
            user_agent: Some("agent".to_string()),
            timeout_us: Some(5_000_000),
            reconnect: true,
            reconnect_delay_max: Some(30),
            keep_alive: Some(true),
        },
    };
    assert_eq!(
        source.args_for_input(),
        vec![
            "-reconnect",
            "1",
            "-reconnect_on_network_error",
            "1",
            "-reconnect_streamed",
            "1",
            "-reconnect_delay_max",
            "30",
            "-multiple_requests",
            "1",
            "-timeout",
            "5000000",
            "-user_agent",
            "agent",
            "-headers",
            "A: b\r\nC: d\r\n",
            "-protocol_whitelist",
            "file,http,https,tcp,tls,crypto",
        ]
    );
    let plain = InputSource::Http(HttpInputSource {
        uri: "http://host/a".to_string(),
        options: HttpInputOptions {
            reconnect_delay_max: Some(30),
            keep_alive: Some(false),
            ..HttpInputOptions::default()
        },
    });
    assert_eq!(
        plain.clone().args_for_input(),
        vec!["-protocol_whitelist", "file,http,https,tcp,tls,crypto"]
    );
}

#[test]
fn streaming_arguments_follow_the_options() {
    let rtsp = InputSource::Rtsp(RtspInputSource {
        uri: "rtsp://host/a".to_string(),
        options: RtspInputOptions {
            timeout_us: Some(u64::MAX),
        },
    });
    assert_eq!(
        rtsp.args_for_input(),
        vec![
            "-timeout",
            "18446744073709551615",
            "-protocol_whitelist",
            "file,rtp,rtsp,udp,tcp,tls,crypto",
        ]
    );
    let rtmp = InputSource::Rtmp(RtmpInputSource {
        uri: "rtmp://host/a".to_string(),
        options: RtmpInputOptions::default(),
    });
    assert_eq!(
        rtmp.args_for_input(),
        vec!["-protocol_whitelist", "file,rtmp,rtmps,tcp,tls,crypto"]
    );
}

const FRAME: FrameSize = FrameSize {
    width: 1920,
    height: 1080,
};
const CONTENT: FrameSize = FrameSize {
    width: 1440,
    height: 1080,
};
const SIZE: FrameSize = FrameSize {
    width: 100,
    height: 50,
};
const MARGINS: Margins = Margins {
    horizontal: 10,
    vertical: 5,
};

fn place(location: WatermarkLocation, within: Option<bool>) -> (u32, u32) {
    let mut input = watermark(Vec::new(), None);
    input.location = location;
    input.within_source_content = within;
    assert!(input.location_fits(&CONTENT, &SIZE, &FRAME, MARGINS));
    let FramePoint { x, y } = input.frame_location(&CONTENT, &SIZE, &FRAME, MARGINS);
    (x, y)
}

#[test]
fn watermarks_keep_their_margins_from_the_frame() {
    assert_eq!(place(WatermarkLocation::TopLeft, None), (10, 5));
    assert_eq!(place(WatermarkLocation::TopCenter, None), (920, 5));
    assert_eq!(place(WatermarkLocation::TopRight, None), (1810, 5));
    assert_eq!(place(WatermarkLocation::CenterLeft, Some(false)), (10, 520));
    assert_eq!(place(WatermarkLocation::Center, None), (920, 520));
    assert_eq!(place(WatermarkLocation::CenterRight, None), (1810, 520));
    assert_eq!(place(WatermarkLocation::BottomLeft, None), (10, 1025));
    assert_eq!(place(WatermarkLocation::BottomCenter, None), (920, 1025));
    assert_eq!(place(WatermarkLocation::BottomRight, None), (1810, 1025));
}

#[test]
fn watermarks_within_the_content_avoid_the_bars() {
    assert_eq!(place(WatermarkLocation::TopLeft, Some(true)), (250, 5));
    assert_eq!(place(WatermarkLocation::TopRight, Some(true)), (1570, 5));
    assert_eq!(place(WatermarkLocation::Center, Some(true)), (920, 520));
    assert_eq!(place(WatermarkLocation::BottomLeft, Some(true)), (250, 1025));
}

#[test]
fn margins_that_cannot_be_represented_do_not_fit() {
    let margins = Margins {
        horizontal: u32::MAX,
        vertical: 0,
    };
    let mut input = watermark(Vec::new(), None);
    assert!(input.location_fits(&CONTENT, &SIZE, &FRAME, margins));
    input.location = WatermarkLocation::Center;
    assert!(!input.location_fits(&CONTENT, &SIZE, &FRAME, margins));
    input.location = WatermarkLocation::TopLeft;
    input.within_source_content = Some(true);
    assert!(!input.location_fits(&CONTENT, &SIZE, &FRAME, margins));
}

#[test]
fn an_omitted_margin_is_zero() {
    let zero = Percent {
        bits: 0f32.to_bits(),
    };
    let five = Percent {
        bits: 5f32.to_bits(),
    };
    let mut input = watermark(Vec::new(), None);
    assert_eq!(input.margin_percents(), (zero, zero));
    input.horizontal_margin_percent = Some(five);
    assert_eq!(input.margin_percents(), (five, zero));
    input.vertical_margin_percent = Some(five);
    assert_eq!(input.margin_percents(), (five, five));
}

#[test]
fn content_that_fills_the_frame_makes_no_difference() {
    for within in [None, Some(false), Some(true)] {
        let mut input = watermark(Vec::new(), None);
        input.location = WatermarkLocation::BottomRight;
        input.within_source_content = within;
        let point = input.frame_location(&FRAME, &SIZE, &FRAME, MARGINS);
        assert_eq!(point, FramePoint { x: 1810, y: 1025 });
        assert_eq!(input.margin_reference(&FRAME, &FRAME), FRAME);
    }
}

#[test]
fn margins_refer_to_the_content_or_to_the_frame() {
    let mut input = watermark(Vec::new(), None);
    assert_eq!(input.margin_reference(&CONTENT, &FRAME), FRAME);
    input.within_source_content = Some(true);
    assert_eq!(input.margin_reference(&CONTENT, &FRAME), CONTENT);
}

#[test]
fn watermarks_larger_than_the_frame_stand_at_its_edge() {
    let mut input = watermark(Vec::new(), None);
    input.location = WatermarkLocation::BottomRight;
    let large = FrameSize {
        width: 4000,
        height: 4000,
    };
    let point = input.frame_location(&FRAME, &large, &FRAME, MARGINS);
    assert_eq!(point, FramePoint { x: 0, y: 0 });
}

#[test]
fn scaled_watermarks_have_even_sides() {
    let mut input = watermark(Vec::new(), None);
    let rounded = FrameSize {
        width: 193,
        height: 96,
    };
    assert_eq!(input.scaled_size(SIZE, Some(FRAME), rounded), SIZE);
    input.width_percent = Some(Percent {
        bits: 10f32.to_bits(),
    });
    assert_eq!(input.scaled_size(SIZE, None, rounded), SIZE);
    assert_eq!(
        input.scaling(Some(FRAME)),
        Some((Percent { bits: 10f32.to_bits() }, 1920))
    );
    assert_eq!(
        input.scaled_size(SIZE, Some(FRAME), rounded),
        FrameSize {
            width: 194,
            height: 96,
        }
    );
}

#[test]
fn a_copy_of_a_watermark_is_equal() {
    let input = watermark(streams(), Some(4));
    let copy = input.clone();
    assert_eq!(copy.probe_result.streams, input.probe_result.streams);
    assert_eq!(copy.stream_index, Some(4));
    assert_eq!(copy.location, WatermarkLocation::TopLeft);
}
