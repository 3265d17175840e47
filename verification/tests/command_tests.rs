//! Command constructors, error codes, audio profiles, and event filters.

use xiao_stream::command::{Command, CommandError, CommandResult, ShellResponse};
use xiao_stream::config::{encoder_rate, AudioConfig, AudioScene};
use xiao_stream::events::{
    AcceptAll, AudioEventsOnly, NotificationLevel, NotificationsOnly, ServerEvent,
};
use xiao_stream::protocol::RpcResult;

#[test]
fn error_codes() {
    assert_eq!(CommandError::new(-7, "x").code, -7);
    assert_eq!(CommandError::not_found("a").code, -1);
    assert_eq!(CommandError::invalid_args("b").code, -2);
    assert_eq!(CommandError::permission_denied("c").code, -3);
    assert_eq!(CommandError::internal("d").code, -500);
    assert_eq!(CommandError::timeout("e").code, -408);
    let ni = CommandError::not_implemented();
    assert_eq!(ni.code, -501);
    assert_eq!(ni.message, "Not implemented");
}

#[test]
fn command_constructors() {
    match Command::shell("echo hi") {
        Command::Shell(req) => {
            assert_eq!(req.command, "echo hi");
            assert_eq!(req.timeout_secs, None);
        },
        _ => panic!("shell() must build a shell command"),
    }
    match Command::shell_with_timeout("sleep 2", 1) {
        Command::Shell(req) => {
            assert_eq!(req.command, "sleep 2");
            assert_eq!(req.timeout_secs, Some(1));
        },
        _ => panic!("shell_with_timeout() must build a shell command"),
    }
    assert_eq!(Command::ping(777), Command::Ping { timestamp: 777 });
}

#[test]
fn result_helpers() {
    let ok = CommandResult::shell_ok("done".to_string());
    assert!(!ok.is_error());
    assert!(ok.as_error().is_none());
    match &ok {
        CommandResult::Shell(resp) => {
            assert_eq!(resp.stdout, "done");
            assert_eq!(resp.stderr, "");
            assert_eq!(resp.exit_code, 0);
        },
        _ => panic!("shell_ok must build a shell result"),
    }
    let err = CommandResult::error(CommandError::timeout("late"));
    assert!(err.is_error());
    assert_eq!(err.as_error().unwrap().code, -408);
}

#[test]
fn rpc_result_from_shell_response() {
    let resp = ShellResponse {
        stdout: "out".to_string(),
        stderr: "err".to_string(),
        exit_code: 3,
    };
    let legacy = RpcResult::from(resp);
    assert_eq!(legacy.stdout, "out");
    assert_eq!(legacy.stderr, "err");
    assert_eq!(legacy.code, 3);
}

#[test]
fn audio_profiles() {
    let voice = AudioConfig::voice_16k();
    assert_eq!(voice.sample_rate, 16_000);
    assert_eq!(voice.channels, 1);
    assert_eq!(voice.frame_size, 320);
    assert_eq!(voice.audio_scene, AudioScene::Voice);
    assert_eq!(voice.bitrate, 32_000);
    assert!(voice.vbr);
    assert!(voice.fec);

    let music = AudioConfig::music_48k();
    assert_eq!(music.sample_rate, 48_000);
    assert_eq!(music.channels, 2);
    assert_eq!(music.frame_size, 960);
    assert_eq!(music.audio_scene, AudioScene::Music);
    assert_eq!(music.bitrate, 128_000);

    let stock = AudioConfig::default();
    assert_eq!(stock.sample_rate, 16_000);
    assert_eq!(stock.channels, 1);
}

#[test]
fn frame_duration() {
    assert_eq!(AudioConfig::voice_16k().frame_duration_us(), 20_000);
    assert_eq!(AudioConfig::music_48k().frame_duration_us(), 20_000);
}

#[test]
fn encoder_rate_fallback() {
    // Supported rates pass through; others fall back to the nearest
    // stock rate.
    assert_eq!(encoder_rate(8_000), 8_000);
    assert_eq!(encoder_rate(48_000), 48_000);
    assert_eq!(encoder_rate(44_100), 48_000);
    assert_eq!(encoder_rate(11_025), 16_000);
    assert_eq!(encoder_rate(96_000), 48_000);
}

#[test]
fn event_filters() {
    let status = ServerEvent::AudioStatusChanged { is_recording: true, is_playing: false };
    let note = ServerEvent::Notification {
        level: NotificationLevel::Info,
        title: "t".to_string(),
        message: "m".to_string(),
    };
    let joined = ServerEvent::ClientJoined { addr: "a".to_string(), model: "m".to_string() };
    let done = ServerEvent::RecordingComplete {
        filename: "f.wav".to_string(),
        duration_ms: 1_000,
        size_bytes: 32_000,
    };

    let all = AcceptAll;
    assert!(all.should_process(&status));
    assert!(all.should_process(&note));

    let notes = NotificationsOnly;
    assert!(notes.should_process(&note));
    assert!(!notes.should_process(&status));
    assert!(!notes.should_process(&joined));

    let audio = AudioEventsOnly;
    assert!(audio.should_process(&status));
    assert!(audio.should_process(&done));
    assert!(!audio.should_process(&note));
    assert!(!audio.should_process(&joined));
}
