//! The two message-loop cores, packet by packet, and the stream
//! trackers sessions own on each side.

use xiao_stream::client::{self, ClientAction};
use xiao_stream::command::{Command, CommandResult, SetVolumeRequest};
use xiao_stream::protocol::{ClientInfo, ControlPacket, EventMessage};
use xiao_stream::server::{self, ServerAction};
use xiao_stream::session::{ActivePipelines, ActiveStreams, PipelineHandle, Session, StreamHandle};
use xiao_stream::Endpoint;

fn session() -> Session {
    Session::new(
        ClientInfo { model: "m".to_string(), serial_number: "s".to_string() },
        Endpoint { ip0: 10, ip1: 0, ip2: 0, ip3: 1, port: 5000 },
        Endpoint { ip0: 10, ip1: 0, ip2: 0, ip3: 1, port: 6000 },
        1_000,
    )
}

fn strings() -> (String, String, String) {
    ("model-x".to_string(), "serial-y".to_string(), "2.0.0".to_string())
}

#[test]
fn client_answers_get_info() {
    let mut s = session();
    let (model, serial, version) = strings();
    let act = client::handle_packet(
        &mut s,
        &model,
        &serial,
        &version,
        ControlPacket::RpcRequest {
            id: 5,
            command: Command::GetInfo,
            run_async: false,
            timeout_ms: None,
        },
        0,
        0,
        1_060,
    );
    match act {
        ClientAction::Send(ControlPacket::RpcResponse { id, result: CommandResult::Info(i) }) => {
            assert_eq!(id, 5);
            assert_eq!(i.model, "model-x");
            assert_eq!(i.serial_number, "serial-y");
            assert_eq!(i.version, "2.0.0");
            assert_eq!(i.uptime_secs, 60);
            assert_eq!(i.audio_state.volume, 100);
            assert!(!i.audio_state.is_recording);
        }
        _ => panic!("an information call must be answered in place"),
    }
}

#[test]
fn client_clamps_volume_and_reports_both() {
    let mut s = session();
    let (model, serial, version) = strings();
    let act = client::handle_packet(
        &mut s,
        &model,
        &serial,
        &version,
        ControlPacket::RpcRequest {
            id: 6,
            command: Command::SetVolume(SetVolumeRequest { volume: 240 }),
            run_async: false,
            timeout_ms: None,
        },
        0,
        0,
        0,
    );
    match act {
        ClientAction::Send(ControlPacket::RpcResponse {
            id,
            result: CommandResult::Volume(v),
        }) => {
            assert_eq!(id, 6);
            assert_eq!(v.previous, 100);
            assert_eq!(v.current, 100);
        }
        _ => panic!("a volume call must be answered in place"),
    }
    assert_eq!(s.volume, 100);
    let act = client::handle_packet(
        &mut s,
        &model,
        &serial,
        &version,
        ControlPacket::RpcRequest {
            id: 7,
            command: Command::SetVolume(SetVolumeRequest { volume: 40 }),
            run_async: false,
            timeout_ms: None,
        },
        0,
        0,
        0,
    );
    assert!(matches!(act, ClientAction::Send(_)));
    assert_eq!(s.volume, 40);
}

#[test]
fn client_hands_shell_to_executor() {
    let mut s = session();
    let (model, serial, version) = strings();
    let act = client::handle_packet(
        &mut s,
        &model,
        &serial,
        &version,
        ControlPacket::RpcRequest {
            id: 8,
            command: Command::shell("echo hi"),
            run_async: true,
            timeout_ms: Some(1_000),
        },
        0,
        0,
        0,
    );
    match act {
        ClientAction::RunShell { id, request } => {
            assert_eq!(id, 8);
            assert_eq!(request.command, "echo hi");
        }
        _ => panic!("a shell call goes to the executor"),
    }
}

#[test]
fn client_resolves_responses_once() {
    let mut s = session();
    let (model, serial, version) = strings();
    let id = s.rpc.register();
    assert_eq!(s.rpc.pending_count(), 1);
    let reply = ControlPacket::RpcResponse {
        id,
        result: CommandResult::Pong { timestamp: 1, server_time: 2 },
    };
    let act = client::handle_packet(&mut s, &model, &serial, &version, reply, 0, 0, 0);
    assert!(matches!(act, ClientAction::Idle));
    assert_eq!(s.rpc.pending_count(), 0);
}

#[test]
fn client_clock_learns_from_pong() {
    let mut s = session();
    let (model, serial, version) = strings();
    let act = client::handle_packet(
        &mut s,
        &model,
        &serial,
        &version,
        ControlPacket::Pong { seq: 1, client_timestamp_us: 1_000, server_timestamp_us: 5_000 },
        2_000,
        0,
        0,
    );
    assert!(matches!(act, ClientAction::Idle));
    assert_eq!(s.clock.offset_us, 3_500);
}

#[test]
fn server_answers_ping_and_info() {
    let mut s = session();
    let (model, serial, version) = strings();
    let act = server::handle_packet(
        &mut s,
        &model,
        &serial,
        &version,
        7,
        ControlPacket::Ping { seq: 2, timestamp_us: 10 },
        20,
        0,
    );
    match act {
        ServerAction::Send(ControlPacket::Pong { seq, client_timestamp_us, server_timestamp_us }) => {
            assert_eq!((seq, client_timestamp_us, server_timestamp_us), (2, 10, 20));
        }
        _ => panic!("a ping is answered with a pong"),
    }
    let act = server::handle_packet(
        &mut s,
        &model,
        &serial,
        &version,
        7,
        ControlPacket::RpcRequest {
            id: 3,
            command: Command::GetInfo,
            run_async: false,
            timeout_ms: None,
        },
        0,
        0,
    );
    match act {
        ServerAction::Send(ControlPacket::RpcResponse { id, result: CommandResult::Info(i) }) => {
            assert_eq!(id, 3);
            assert_eq!(i.uptime_secs, 7);
            assert_eq!(i.model, "model-x");
        }
        _ => panic!("an information call is answered from server state"),
    }
}

#[test]
fn server_publishes_client_events() {
    let mut s = session();
    let (model, serial, version) = strings();
    let ev = EventMessage {
        name: "key.press".to_string(),
        payload: vec![1],
        timestamp_us: 9,
    };
    let act = server::handle_packet(
        &mut s,
        &model,
        &serial,
        &version,
        0,
        ControlPacket::Event(ev.clone()),
        0,
        0,
    );
    match act {
        ServerAction::Publish(out) => assert_eq!(out, ev),
        _ => panic!("a client event is published"),
    }
}

#[test]
fn pipeline_trackers_replace_and_stop() {
    let mut p = ActivePipelines::default();
    assert!(!p.is_recording() && !p.is_playing());
    p.start_recording(PipelineHandle::new());
    p.start_playback(PipelineHandle::new());
    assert!(p.is_recording() && p.is_playing());
    p.start_recording(PipelineHandle::new());
    assert!(p.is_recording());
    p.stop_recording();
    assert!(!p.is_recording() && p.is_playing());
    p.stop_all();
    assert!(!p.is_recording() && !p.is_playing());

    let mut st = ActiveStreams::default();
    st.start_recording(StreamHandle::new());
    st.start_playback(StreamHandle::new());
    assert!(st.is_recording() && st.is_playing());
    st.stop_playback();
    assert!(st.is_recording() && !st.is_playing());
    st.stop_all();
    assert!(!st.is_recording());

    let mut h = StreamHandle::new();
    assert!(!h.is_stopped());
    h.stop();
    assert!(h.is_stopped());
}

#[test]
fn server_record_flow_messages() {
    let mut s = session();
    let cfg = xiao_stream::config::AudioConfig::voice_16k();
    let msgs = server::start_record(&mut s, cfg, 500);
    assert_eq!(msgs.len(), 2);
    assert!(matches!(msgs[0], ControlPacket::StartRecording { .. }));
    match &msgs[1] {
        ControlPacket::Event(ev) => {
            assert_eq!(ev.name, "audio.status");
            assert_eq!(ev.payload, vec![1, 0]);
            assert_eq!(ev.timestamp_us, 500);
        }
        _ => panic!("the second message announces the audio status"),
    }
    assert!(s.is_recording());

    let msgs = server::stop_record(&mut s, 600);
    assert!(matches!(msgs[0], ControlPacket::StopRecording));
    match &msgs[1] {
        ControlPacket::Event(ev) => assert_eq!(ev.payload, vec![0, 0]),
        _ => panic!("the second message announces the audio status"),
    }
    assert!(!s.is_recording());
}

#[test]
fn server_play_flow_messages() {
    let mut s = session();
    let cfg = xiao_stream::config::AudioConfig::music_48k();
    let msgs = server::start_play(&mut s, cfg, 700);
    assert!(matches!(msgs[0], ControlPacket::StartPlayback { .. }));
    match &msgs[1] {
        ControlPacket::Event(ev) => assert_eq!(ev.payload, vec![0, 1]),
        _ => panic!("the second message announces the audio status"),
    }
    assert!(s.is_playing());
    let msgs = server::stop_play(&mut s, 800);
    assert!(matches!(msgs[0], ControlPacket::StopPlayback));
    assert!(!s.is_playing());
    assert_eq!(msgs.len(), 2);
}
