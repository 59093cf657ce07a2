use ersatztv::channel_session::{
    plan_output_folder, playlist_step, ChannelSession, ChannelSessionState, PlaylistAction,
    RunAction, RunEvent, TrackKind,
};
use ersatztv::clock::{Duration, OffsetDateTime};
use ersatztv::config::{AudioNormalization, ChannelConfig, SubtitleMode, VideoNormalization};
use ersatztv::error::ChannelError;
use ersatztv::playout::{PlayoutItem, PlayoutItemSource, PlayoutItemTracks, TrackSelection};
use ersatztv::sources::{resolve_source, selected_index, source_is_live};
use ersatztv::channel_session::ChannelSessionState::{
    SeekAndRealtime, SeekAndWorkAhead, ZeroAndRealtime, ZeroAndWorkAhead,
};

const SECOND: i128 = 1_000_000_000;

fn at(seconds: i128) -> OffsetDateTime {
    OffsetDateTime::new(seconds * SECOND, 0).unwrap()
}

fn millis(n: u64) -> Duration {
    Duration::from_millis(n)
}

fn config(output_folder: Option<&str>) -> ChannelConfig {
    ChannelConfig {
        number: "42".to_string(),
        output_folder: output_folder.map(|s| s.to_string()),
        ready_file_name: "ready".to_string(),
        virtual_start: None,
        segment_seconds: 4,
        ffmpeg_path: None,
        ffprobe_path: None,
        save_reports: false,
        reports_folder: None,
        audio: AudioNormalization {
            format: None,
            bitrate_kbps: None,
            buffer_kbps: None,
            channels: None,
            sample_rate_hz: None,
            normalize_loudness: false,
            loudness: None,
        },
        video: VideoNormalization {
            format: None,
            bit_depth: None,
            width: None,
            height: None,
            bitrate_kbps: None,
            buffer_kbps: None,
            scaling_mode: "scale".to_string(),
            filters: Vec::new(),
            deinterlace: false,
        },
        subtitle_mode: SubtitleMode::Other("burn".to_string()),
    }
}

fn session(now: i128) -> ChannelSession {
    ChannelSession::new(config(Some("/out")), at(now)).unwrap()
}

fn local(in_point_ms: Option<u64>, out_point_ms: Option<u64>) -> PlayoutItemSource {
    PlayoutItemSource::Local {
        path: "/media/a.mkv".to_string(),
        in_point_ms,
        out_point_ms,
    }
}

fn item(start: i128, finish: i128) -> PlayoutItem {
    PlayoutItem {
        id: "item".to_string(),
        start: at(start),
        finish: at(finish),
        source: Some(local(None, None)),
        tracks: None,
        watermark: None,
    }
}

#[test]
fn a_session_writes_into_its_output_folder() {
    let session = session(1000);
    assert_eq!(session.paths.generated_playlist_file, "/out/live.m3u8");
    assert_eq!(session.paths.generated_subtitle_playlist_file, "/out/live_sub.m3u8");
    assert_eq!(session.paths.ffmpeg_playlist_file, "/out/ffmpeg.m3u8");
    assert_eq!(session.paths.output_segment_template, "/out/live%06d.ts");
    assert_eq!(session.paths.ready_file, "/out/ready");
    assert_eq!(session.transcoded_until, at(1000));
    assert_eq!(session.start_time_offset, 0);
    assert_eq!(session.state, ChannelSessionState::SeekAndWorkAhead);
    assert!(session.cached_subtitles.is_none());
}

#[test]
fn a_folder_that_ends_in_a_separator_gets_no_other() {
    let session = ChannelSession::new(config(Some("/out/")), at(0)).unwrap();
    assert_eq!(session.paths.ready_file, "/out/ready");
}

#[test]
fn an_empty_folder_gets_no_separator() {
    let session = ChannelSession::new(config(Some("")), at(0)).unwrap();
    assert_eq!(session.paths.ready_file, "ready");
    assert_eq!(session.paths.generated_playlist_file, "live.m3u8");
}

#[test]
fn tools_are_found_by_name_or_by_their_configured_paths() {
    let session = session(0);
    assert_eq!(session.ffmpeg_path, "ffmpeg");
    assert_eq!(session.ffprobe_path, "ffprobe");
    assert!(session.hw_accel.is_none());
    let mut config = config(Some("/out"));
    config.ffmpeg_path = Some("/opt/ffmpeg".to_string());
    config.ffprobe_path = Some("/opt/ffprobe".to_string());
    let session = ChannelSession::new(config, at(0)).unwrap();
    assert_eq!(session.ffmpeg_path, "/opt/ffmpeg");
    assert_eq!(session.ffprobe_path, "/opt/ffprobe");
}

#[test]
fn a_session_needs_an_output_folder() {
    let result = ChannelSession::new(config(None), at(0));
    assert!(matches!(
        result.err(),
        Some(ChannelError::ChannelConfigOutputFolderRequired)
    ));
}

#[test]
fn a_virtual_start_sets_the_clock_of_the_channel() {
    let mut config = config(Some("/out"));
    config.virtual_start = OffsetDateTime::new(500 * SECOND, -18_000);
    let now = OffsetDateTime::new(1000 * SECOND, 3600).unwrap();
    let session = ChannelSession::new(config, now).unwrap();
    assert_eq!(session.start_time_offset, -500 * SECOND);
    assert_eq!(session.transcoded_until.unix_nanos, 500 * SECOND);
    assert_eq!(session.transcoded_until.offset_seconds, 3600);
    let action = session.run_step(RunEvent::Clock { now });
    assert!(matches!(action, RunAction::Transcode { realtime: false }));
}

#[test]
fn a_session_works_ahead_first_and_then_looks_around() {
    let session = session(1000);
    assert!(matches!(
        session.run_step(RunEvent::Started),
        RunAction::Transcode { realtime: false }
    ));
    assert!(matches!(session.run_step(RunEvent::Transcoded), RunAction::CheckViewers));
    assert!(matches!(session.run_step(RunEvent::Slept), RunAction::CheckViewers));
    assert!(matches!(
        session.run_step(RunEvent::Checked { timed_out: false }),
        RunAction::ReadClock
    ));
}

fn at_buffer(buffer_nanos: i128) -> RunAction {
    let mut session = session(1000);
    session.transcoded_until = OffsetDateTime::new(1000 * SECOND + buffer_nanos, 0).unwrap();
    session.run_step(RunEvent::Clock { now: at(1000) })
}

#[test]
fn the_buffer_decides_the_pace() {
    assert!(matches!(at_buffer(-5 * SECOND), RunAction::Transcode { realtime: false }));
    assert!(matches!(at_buffer(0), RunAction::Transcode { realtime: false }));
    assert!(matches!(at_buffer(30 * SECOND - 1), RunAction::Transcode { realtime: false }));
    assert!(matches!(at_buffer(30 * SECOND), RunAction::Transcode { realtime: true }));
    assert!(matches!(at_buffer(60 * SECOND), RunAction::Transcode { realtime: true }));
    assert!(matches!(at_buffer(60 * SECOND + 1), RunAction::Sleep { seconds: 5 }));
}

#[test]
fn a_session_without_viewers_ends() {
    let session = session(1000);
    for event in [RunEvent::ViewersLeft, RunEvent::Checked { timed_out: true }] {
        match session.run_step(event) {
            RunAction::Fail(ChannelError::IdleTimeout(number)) => assert_eq!(number, "42"),
            _ => panic!("the session goes on"),
        }
    }
}

#[test]
fn the_output_folder_is_emptied_or_created() {
    for ready in [false, true] {
        for folder in [false, true] {
            let plan = plan_output_folder(ready, folder);
            assert_eq!(plan.remove_ready_file, ready);
            assert_eq!(plan.empty_folder, folder);
        }
    }
}

#[test]
fn playlists_are_kept_until_the_viewers_are_gone() {
    assert_eq!(playlist_step(false), PlaylistAction::Sleep { seconds: 2 });
    assert_eq!(playlist_step(true), PlaylistAction::NotifyAndStop);
}

#[test]
fn states_are_named() {
    let names: Vec<&str> = vec![
        ChannelSessionState::SeekAndWorkAhead.name(),
        ChannelSessionState::ZeroAndWorkAhead.name(),
        ChannelSessionState::SeekAndRealtime.name(),
        ChannelSessionState::ZeroAndRealtime.name(),
    ];
    assert_eq!(
        names,
        vec!["SeekAndWorkAhead", "ZeroAndWorkAhead", "SeekAndRealtime", "ZeroAndRealtime"]
    );
}

#[test]
fn a_pace_keeps_the_starting_point() {
    for (state, realtime, expected) in [
        (SeekAndWorkAhead, false, SeekAndWorkAhead),
        (SeekAndRealtime, false, SeekAndWorkAhead),
        (ZeroAndRealtime, false, ZeroAndWorkAhead),
        (ZeroAndWorkAhead, true, ZeroAndRealtime),
        (SeekAndWorkAhead, true, SeekAndRealtime),
        (ZeroAndRealtime, true, ZeroAndRealtime),
    ] {
        assert_eq!(state.at_pace(realtime), expected);
        assert_eq!(expected.at_pace(realtime), expected);
        let mut session = session(0);
        session.state = state;
        session.begin_transcode(realtime);
        assert_eq!(session.state, expected);
    }
}

#[test]
fn the_next_state_follows_from_completion() {
    for (state, complete, expected) in [
        (SeekAndWorkAhead, false, SeekAndRealtime),
        (SeekAndWorkAhead, true, ZeroAndWorkAhead),
        (ZeroAndWorkAhead, false, SeekAndRealtime),
        (ZeroAndWorkAhead, true, ZeroAndWorkAhead),
        (SeekAndRealtime, false, ZeroAndRealtime),
        (SeekAndRealtime, true, ZeroAndRealtime),
        (ZeroAndRealtime, false, ZeroAndRealtime),
        (ZeroAndRealtime, true, ZeroAndRealtime),
    ] {
        assert_eq!(ChannelSession::next_state(state, complete), expected);
        let mut session = session(0);
        session.state = state;
        session.end_transcode(at(7), complete);
        assert_eq!(session.transcoded_until, at(7));
        assert_eq!(session.state, expected);
    }
}

#[test]
fn working_ahead_plays_a_limited_part() {
    let session = session(1010);
    let item = item(1000, 2000);
    let source = local(Some(500), None);
    assert!(session.timing_fits(&item, &source, false, false, false));
    let timing = session.input_timing(&item, &source, false, false, false);
    assert_eq!(timing.in_point, millis(10_500));
    assert_eq!(timing.out_point, millis(54_500));
    assert_eq!(timing.finish, at(1054));
    assert!(!timing.is_complete);
}

#[test]
fn an_item_from_zero_ignores_the_clock() {
    let session = session(1010);
    let item = item(1000, 2000);
    let timing = session.input_timing(&item, &local(None, None), true, false, false);
    assert_eq!(timing.in_point, millis(0));
    assert_eq!(timing.out_point, millis(44_000));
    assert_eq!(timing.finish, at(1044));
    assert!(!timing.is_complete);
}

#[test]
fn exactly_the_limit_completes_an_item() {
    let session = session(1000);
    let timing = session.input_timing(&item(1000, 1044), &local(None, None), false, false, false);
    assert!(timing.is_complete);
    assert_eq!(timing.out_point, millis(44_000));
    assert_eq!(timing.finish, at(1044));
}

#[test]
fn realtime_completes_an_item() {
    let session = session(1010);
    let item = item(1000, 2000);
    let source = local(Some(500), Some(700_000));
    let timing = session.input_timing(&item, &source, false, true, false);
    assert_eq!(timing.in_point, millis(10_500));
    assert_eq!(timing.out_point, millis(700_000));
    assert_eq!(timing.finish, at(2000));
    assert!(timing.is_complete);
    let timing = session.input_timing(&item, &local(Some(500), None), false, true, false);
    assert_eq!(timing.out_point, millis(1_000_500));
}

#[test]
fn live_content_never_seeks() {
    let session = session(1010);
    let item = item(1000, 2000);
    let source = PlayoutItemSource::Rtsp {
        uri: "rtsp://host/live".to_string(),
        timeout_us: None,
    };
    let timing = session.input_timing(&item, &source, false, false, true);
    assert_eq!(timing.in_point, millis(0));
    assert_eq!(timing.out_point, millis(1_000_000));
    assert_eq!(timing.finish, at(2000));
    assert!(timing.is_complete);
}

#[test]
fn before_the_start_of_an_item_nothing_has_been_played() {
    let session = session(990);
    let timing = session.input_timing(&item(1000, 1010), &local(Some(5), None), false, false, false);
    assert_eq!(timing.in_point, millis(5));
    assert_eq!(timing.out_point, millis(10_005));
    assert!(timing.is_complete);
}

#[test]
fn parts_of_an_item_join() {
    let mut session = session(1010);
    let item = item(1000, 1100);
    let source = local(Some(500), None);
    session.begin_transcode(false);
    let first = session.input_timing(&item, &source, false, false, false);
    session.end_transcode(first.finish, first.is_complete);
    assert_eq!(session.state, ChannelSessionState::SeekAndRealtime);
    let second = session.input_timing(&item, &source, false, true, false);
    assert_eq!(second.in_point, first.out_point);
    assert!(second.finish.unix_nanos > first.finish.unix_nanos);
    assert!(second.is_complete);
    assert_eq!(second.finish, at(1100));
    assert_eq!(second.out_point, millis(100_500));
}

#[test]
fn the_output_does_not_go_back() {
    let mut session = session(1010);
    let item = item(1000, 1100);
    let source = local(None, None);
    let mut until = session.transcoded_until.unix_nanos;
    for _ in 0..3 {
        let part = session.input_timing(&item, &source, false, false, false);
        assert!(part.finish.unix_nanos > until);
        assert!(part.finish.unix_nanos <= item.finish.unix_nanos);
        until = part.finish.unix_nanos;
        session.end_transcode(part.finish, part.is_complete);
    }
    assert_eq!(session.transcoded_until, at(1100));
}

#[test]
fn the_tracks_of_an_item_agree() {
    let session = session(1010);
    let item = item(1000, 1100);
    let a = session.input_timing(&item, &local(None, None), false, false, false);
    let b = session.input_timing(&item, &local(Some(70_000), Some(80_000)), false, false, false);
    assert_eq!(a.finish, b.finish);
    assert_eq!(a.is_complete, b.is_complete);
}

#[test]
fn times_that_cannot_be_represented_do_not_fit() {
    let session = session(1010);
    let item = item(1000, 1100);
    let late = local(Some(u64::MAX), None);
    assert!(!session.timing_fits(&item, &late, false, false, false));
    assert!(!session.timing_fits(&item, &late, false, false, true));
    let seek = local(Some(u64::MAX - 100_000), None);
    assert!(session.timing_fits(&item, &seek, false, true, false));
}

#[test]
fn a_track_goes_before_the_item() {
    let own = PlayoutItemSource::Lavfi {
        params: "anullsrc".to_string(),
    };
    let mut item = item(0, 10);
    item.tracks = Some(PlayoutItemTracks {
        audio: Some(TrackSelection {
            source: Some(own.clone()),
            stream_index: None,
        }),
        video: Some(TrackSelection {
            source: None,
            stream_index: Some(3),
        }),
        subtitle: None,
    });
    assert!(resolve_source(&item, TrackKind::Audio) == Some(own));
    assert!(resolve_source(&item, TrackKind::Video) == Some(local(None, None)));
    assert!(resolve_source(&item, TrackKind::Subtitle) == Some(local(None, None)));
    assert_eq!(selected_index(&item, TrackKind::Audio), None);
    assert_eq!(selected_index(&item, TrackKind::Video), Some(3));
    assert_eq!(selected_index(&item, TrackKind::Subtitle), None);
    item.source = None;
    assert!(resolve_source(&item, TrackKind::Video).is_none());
}

#[test]
fn network_streams_and_some_scripts_are_live() {
    let script = |is_live| PlayoutItemSource::Script {
        command: "c".to_string(),
        args: Vec::new(),
        is_live,
    };
    assert!(source_is_live(&script(Some(true))));
    assert!(!source_is_live(&script(Some(false))));
    assert!(!source_is_live(&script(None)));
    assert!(!source_is_live(&local(None, None)));
    assert!(source_is_live(&PlayoutItemSource::Rtmp {
        uri: "u".to_string(),
        timeout_us: None,
    }));
}
