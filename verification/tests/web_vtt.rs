use ersatztv::clock::Duration;
use ersatztv::error::FFPipelineError;
use ersatztv::input::{
    HttpInputOptions, HttpInputSource, InputSource, LavfiInputSource, LocalInputSource, ProbedInput,
    RtmpInputOptions, RtmpInputSource, RtspInputOptions, RtspInputSource,
};
use ersatztv::probe::{
    CodecType, ProbeResult, ProbeResultAudioStream, ProbeResultStream, ProbeResultVideoStream,
};
use ersatztv::web_vtt::{
    format_vtt_ts, parse_internal, parse_text, parse_timestamp, plan_conversion, Cue, VttConversion,
};

type StdDuration = std::time::Duration;

fn std_duration(d: Duration) -> StdDuration {
    StdDuration::new(d.secs, d.nanos)
}

fn read_seconds(text: &str) -> Option<Duration> {
    let value: f64 = text.parse().ok()?;
    let span = StdDuration::from_secs_f64(value);
    Some(Duration {
        secs: span.as_secs(),
        nanos: span.subsec_nanos(),
    })
}

fn parse_vtt(body: &str) -> Vec<Cue> {
    let mut parser = parse_internal(body);
    while let Some(text) = parser.next_question() {
        let seconds = read_seconds(&text);
        if let Some(value) = seconds {
            assert!(parser.answer_fits(value));
        }
        parser.answer(seconds);
    }
    let cues = parser.finish();
    let again = parse_text(body, read_seconds).unwrap();
    assert_eq!(cues.len(), again.len());
    for (a, b) in cues.iter().zip(&again) {
        assert_eq!((a.start, a.end, &a.text), (b.start, b.end, &b.text));
    }
    cues
}

fn parse_span(text: &str) -> Option<StdDuration> {
    let fields = parse_timestamp(text)?;
    let seconds = read_seconds(&fields.seconds)?;
    assert!(fields.fits(seconds));
    Some(std_duration(fields.duration(seconds)))
}

#[test]
fn vtt_should_parse() {
    let vtt_text = r"WEBVTT
00:00:00.500 --> 00:00:02.000
The Web is always changing

00:00:02.500 --> 00:00:04.300
and the way we access it is changing
";

    let parsed = parse_vtt(vtt_text);

    assert_eq!(parsed.len(), 2);
    assert_eq!(std_duration(parsed[0].start), StdDuration::from_secs_f64(0.5));
    assert_eq!(std_duration(parsed[0].end), StdDuration::from_secs(2));
    assert_eq!(parsed[0].text, "The Web is always changing");
    assert_eq!(std_duration(parsed[1].start), StdDuration::from_secs_f64(2.5));
    assert_eq!(std_duration(parsed[1].end), StdDuration::from_secs_f64(4.3));
    assert_eq!(parsed[1].text, "and the way we access it is changing");
}

#[test]
fn vtt_should_parse_mm_ss() {
    let vtt_text = r"WEBVTT

00:02.499 --> 00:06.416
[SERENE MUSIC]

00:11.791 --> 00:13.958
[BROOK BABBLES]
[FLY BUZZES]

00:16.166 --> 00:17.666
[BIRD TWEETS]
";

    let parsed = parse_vtt(vtt_text);

    assert_eq!(parsed.len(), 3);
    assert_eq!(std_duration(parsed[0].start), StdDuration::from_secs_f64(2.499));
    assert_eq!(std_duration(parsed[0].end), StdDuration::from_secs_f64(6.416));
    assert_eq!(parsed[0].text, "[SERENE MUSIC]");
    assert_eq!(std_duration(parsed[1].start), StdDuration::from_secs_f64(11.791));
    assert_eq!(std_duration(parsed[1].end), StdDuration::from_secs_f64(13.958));
    assert_eq!(parsed[1].text, "[BROOK BABBLES]\n[FLY BUZZES]");
    assert_eq!(std_duration(parsed[2].start), StdDuration::from_secs_f64(16.166));
    assert_eq!(std_duration(parsed[2].end), StdDuration::from_secs_f64(17.666));
    assert_eq!(parsed[2].text, "[BIRD TWEETS]");
}

#[test]
fn parse_timestamp_seconds_float() {
    let cases = [
        ("00:00:01.5", 1.5),
        ("00:01.5", 1.5),
        ("00:00:01.005", 1.005),
        ("00:01.005", 1.005),
    ];
    for (input, expected) in cases {
        assert_eq!(parse_span(input), Some(StdDuration::from_secs_f64(expected)));
    }
}

#[test]
fn timestamps_need_two_or_three_fields_of_numbers() {
    assert_eq!(parse_span("01:02:03.25"), Some(StdDuration::from_millis(3_723_250)));
    assert_eq!(parse_span("+1:00:00"), Some(StdDuration::from_secs(3600)));
    assert!(parse_timestamp("5").is_none());
    assert!(parse_timestamp("1:2:3:4").is_none());
    assert!(parse_timestamp("x:00:00").is_none());
    assert!(parse_timestamp("00:-1:00").is_none());
    assert!(parse_timestamp(":00:00").is_none());
    assert!(parse_timestamp("18446744073709551616:00:00").is_none());
    assert_eq!(parse_span("00:00:abc"), None);
}

#[test]
fn a_timestamp_that_is_too_long_does_not_fit() {
    let fields = parse_timestamp("18446744073709551615:00:00").unwrap();
    assert!(!fields.fits(Duration { secs: 0, nanos: 0 }));
    let fields = parse_timestamp("00:01:00").unwrap();
    assert!(!fields.fits(Duration { secs: u64::MAX, nanos: 0 }));
}

#[test]
fn without_a_header_there_are_no_cues() {
    assert_eq!(parse_vtt("00:00:00.500 --> 00:00:02.000\ntext\n").len(), 0);
    assert_eq!(parse_vtt("").len(), 0);
}

#[test]
fn notes_and_styles_are_left_out_of_cues() {
    let parsed = parse_vtt("WEBVTT\n\n00:01.0 --> 00:02.0\nNOTE hidden\nfirst\nSTYLE x\nsecond\n\n");
    assert_eq!(parsed.len(), 1);
    assert_eq!(parsed[0].text, "first\nsecond");
}

#[test]
fn cue_text_is_trimmed() {
    let parsed = parse_vtt("WEBVTT\n00:01.0 --> 00:02.0\n \u{a0}text \u{3000}\t\n");
    assert_eq!(parsed[0].text, "text");
}

#[test]
fn carriage_returns_end_lines_with_line_feeds_only() {
    let parsed = parse_vtt("WEBVTT\r\n00:01.0 --> 00:02.0\r\na\rb\r\n\r\n");
    assert_eq!(parsed.len(), 1);
    assert_eq!(parsed[0].text, "a\rb");
}

#[test]
fn lines_with_bad_times_are_skipped() {
    let parsed = parse_vtt(
        "WEBVTT\n00:01.0 --> 00:02.0 --> 00:03.0\n00:01.0 --> oops\n00:x1 --> 00:02\n--> \n00:04.0 --> 00:05.0\ntext",
    );
    assert_eq!(parsed.len(), 1);
    assert_eq!(parsed[0].start, Duration { secs: 4, nanos: 0 });
    assert_eq!(parsed[0].end, Duration { secs: 5, nanos: 0 });
    assert_eq!(parsed[0].text, "text");
}

#[test]
fn only_texts_of_seconds_are_asked_for() {
    let mut parser =
        parse_internal("-1\n00:01 --> 00:02\nWEBVTT\n-1\ninf\n00:03 --> x:04\n00:05 --> 00:06\n00:07 --> 00:08\n");
    let mut asked = Vec::new();
    while let Some(text) = parser.next_question() {
        parser.answer(read_seconds(&text));
        asked.push(text);
    }
    assert_eq!(asked, vec!["03", "05", "06"]);
    assert_eq!(parser.finish().len(), 1);
}

#[test]
fn timestamps_that_cannot_be_represented_give_nothing() {
    let long = "18446744073709551615:00:00 --> 00:01";
    assert!(parse_text(&format!("WEBVTT\n{}\n", long), read_seconds).is_none());
    assert!(parse_text(&format!("{}\nWEBVTT\n", long), read_seconds).is_some());
    let cues = parse_text(&format!("WEBVTT\n0:0 --> 0:1\n{}\n", long), read_seconds).unwrap();
    assert_eq!(cues.len(), 1);
    assert_eq!(cues[0].text, long);
    let late = "WEBVTT\n00:x --> 18446744073709551615:00:00\n";
    assert_eq!(parse_text(late, read_seconds).unwrap().len(), 0);
    let broken = |_: &str| Some(Duration { secs: 0, nanos: u32::MAX });
    assert!(parse_text("WEBVTT\n0:0 --> 0:1\n", broken).is_none());
}

#[test]
fn text_before_the_signature_is_ignored() {
    let file = "WEBVTT\n\n00:01 --> 00:02\na\n";
    let cues = parse_vtt(&format!("00:07 --> 00:08\nbefore\n\n{}", file));
    assert_eq!(cues.len(), 1);
    assert_eq!(cues[0].text, "a");
}

#[test]
fn files_join_behind_an_empty_line() {
    let file = "WEBVTT\n00:01 --> 00:02\na\nb";
    let more = "00:03 --> 00:04\nc\n\n\n00:05 --> 00:06\nd";
    let joined = parse_vtt(&format!("{}\n\n{}", file, more));
    let mut apart = parse_vtt(file);
    apart.extend(parse_vtt(&format!("WEBVTT\n{}", more)));
    let texts = |cues: &Vec<Cue>| -> Vec<String> { cues.iter().map(|c| c.text.clone()).collect() };
    assert_eq!(texts(&joined), vec!["a\nb", "c", "d"]);
    assert_eq!(texts(&joined), texts(&apart));
    for cue in &joined {
        assert!(!cue.text.contains("\n\n"));
    }
}

#[test]
fn overlapping_arrows_count_once() {
    let parsed = parse_vtt("WEBVTT\n00:01.0 --> --> \n\n");
    assert_eq!(parsed.len(), 0);
}

#[test]
fn timestamps_are_written_with_milliseconds() {
    let at = |secs: u64, nanos: u32| format_vtt_ts(Duration { secs, nanos });
    assert_eq!(at(0, 0), "00:00:00.000");
    assert_eq!(at(3661, 5_999_999), "01:01:01.005");
    assert_eq!(at(359_999, 999_000_000), "99:59:59.999");
    assert_eq!(at(360_000, 0), "100:00:00.000");
}

#[test]
fn written_timestamps_sort_as_spans() {
    let spans = [
        (0, 0),
        (0, 999_999),
        (0, 1_000_000),
        (0, 10_000_000),
        (0, 999_999_999),
        (1, 0),
        (9, 999_000_000),
        (10, 0),
        (59, 0),
        (60, 0),
        (599, 0),
        (600, 0),
        (3599, 999_000_000),
        (3600, 0),
        (36_000, 0),
        (359_999, 999_999_999),
    ];
    for (i, (s1, n1)) in spans.iter().enumerate() {
        for (s2, n2) in &spans[i..] {
            let a = format_vtt_ts(Duration { secs: *s1, nanos: *n1 });
            let b = format_vtt_ts(Duration { secs: *s2, nanos: *n2 });
            assert_eq!(a.len(), 12);
            assert_eq!(b.len(), 12);
            assert!(a <= b);
            let millis = |s: u64, n: u32| StdDuration::new(s, n).as_millis();
            assert_eq!(a == b, millis(*s1, *n1) == millis(*s2, *n2));
        }
    }
}

#[test]
fn written_timestamps_are_read_back() {
    for (secs, nanos) in [(0, 0), (59, 999_000_000), (3661, 5_000_000), (360_000, 250_000_000)] {
        let text = format_vtt_ts(Duration { secs, nanos });
        assert_eq!(parse_span(&text), Some(StdDuration::new(secs, nanos)));
        let body = format!("WEBVTT\n\n{} --> {}\ntext\n", text, text);
        let parsed = parse_vtt(&body);
        assert_eq!(parsed.len(), 1);
        assert_eq!(parsed[0].start, Duration { secs, nanos });
        assert_eq!(parsed[0].end, Duration { secs, nanos });
    }
}

fn picture(stream_index: u32, codec_type: CodecType) -> ProbeResultStream {
    ProbeResultStream::Video(subtitle(stream_index, codec_type))
}

fn subtitle(stream_index: u32, codec_type: CodecType) -> ProbeResultVideoStream {
    ProbeResultVideoStream {
        stream_index,
        codec_type,
        subtitle_image: false,
    }
}

fn probed(input_source: InputSource) -> ProbedInput {
    ProbedInput {
        input_source,
        probe_result: ProbeResult {
            streams: vec![
                picture(0, CodecType::Video),
                ProbeResultStream::Audio(ProbeResultAudioStream {
                    stream_index: 1,
                    channels: 2,
                }),
                picture(2, CodecType::Subtitle),
                picture(3, CodecType::Subtitle),
            ],
            still_image: false,
        },
        in_point: Duration { secs: 0, nanos: 0 },
        out_point: Duration { secs: 1, nanos: 0 },
        stream_index: None,
    }
}

fn local() -> InputSource {
    InputSource::Local(LocalInputSource {
        path: "/media/film.mkv".to_string(),
    })
}

#[test]
fn conversion_maps_the_subtitle_by_its_position() {
    let input = probed(local());
    let plan = plan_conversion(&input, &subtitle(3, CodecType::Subtitle)).unwrap();
    assert_eq!(plan.input_path, "/media/film.mkv");
    assert_eq!(plan.subtitle_index, 1);
    assert_eq!(
        plan.args(&input, "/tmp/out.vtt"),
        vec![
            "-nostdin", "-hide_banner", "-loglevel", "error", "-i", "/media/film.mkv", "-map",
            "0:s:1", "-c:s", "webvtt", "-y", "/tmp/out.vtt",
        ]
    );
}

#[test]
fn conversion_opens_network_sources_with_their_arguments() {
    let input = probed(InputSource::Rtmp(RtmpInputSource {
        uri: "rtmp://host/live".to_string(),
        options: RtmpInputOptions {
            timeout_us: Some(7),
        },
    }));
    let plan: VttConversion = plan_conversion(&input, &subtitle(2, CodecType::Subtitle)).unwrap();
    assert_eq!(
        plan.args(&input, "o"),
        vec![
            "-nostdin",
            "-hide_banner",
            "-loglevel",
            "error",
            "-timeout",
            "7",
            "-protocol_whitelist",
            "file,rtmp,rtmps,tcp,tls,crypto",
            "-i",
            "rtmp://host/live",
            "-map",
            "0:s:0",
            "-c:s",
            "webvtt",
            "-y",
            "o",
        ]
    );
    let http = probed(InputSource::Http(HttpInputSource {
        uri: "http://host/a".to_string(),
        options: HttpInputOptions::default(),
    }));
    let plan = plan_conversion(&http, &subtitle(2, CodecType::Subtitle)).unwrap();
    assert_eq!(plan.input_path, "http://host/a");
}

#[test]
fn conversion_fails_without_the_subtitle_or_a_fitting_source() {
    let failed = |input: &ProbedInput, index: u32| {
        plan_conversion(input, &subtitle(index, CodecType::Subtitle)).err()
    };
    assert_eq!(
        failed(&probed(local()), 0),
        Some(FFPipelineError::FailedToConvertSubtitle)
    );
    let rtsp = probed(InputSource::Rtsp(RtspInputSource {
        uri: "rtsp://host/live".to_string(),
        options: RtspInputOptions::default(),
    }));
    assert_eq!(failed(&rtsp, 2), Some(FFPipelineError::FailedToConvertSubtitle));
    let lavfi = probed(InputSource::Lavfi(LavfiInputSource {
        params: "anullsrc".to_string(),
    }));
    assert_eq!(failed(&lavfi, 2), Some(FFPipelineError::FailedToConvertSubtitle));
}
