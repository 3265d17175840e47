//! Control-message and audio-datagram codecs: encode/decode round trips
//! and the frame-size boundary.

use xiao_stream::command::{
    AudioState, Command, CommandError, CommandResult, DeviceInfo, SetVolumeRequest,
    SetVolumeResponse, ShellRequest, ShellResponse,
};
use xiao_stream::config::{AudioConfig, AudioScene};
use xiao_stream::protocol::{
    control_frame_bytes, control_from_bytes, control_to_bytes, frame_body_len, frame_len_accepted,
    packet_from_bytes, packet_to_bytes, AudioPacket, ClientInfo, ControlPacket, EventMessage,
};

fn round_trip(msg: ControlPacket) {
    let bytes = control_to_bytes(&msg).expect("well-formed message must encode");
    let back = control_from_bytes(&bytes).expect("encoded message must decode");
    assert_eq!(back, msg);
}

#[test]
fn control_round_trip_discovery() {
    round_trip(ControlPacket::Discovery { protocol: "xiao/2".to_string(), port: 8080 });
}

#[test]
fn control_round_trip_hellos() {
    round_trip(ControlPacket::ServerHello {
        auth: "xiao-client".to_string(),
        version: "2.0.0".to_string(),
        udp_port: 40000,
    });
    round_trip(ControlPacket::ClientHello {
        auth: "xiao-server".to_string(),
        version: "2.0.0".to_string(),
        udp_port: 40001,
        info: ClientInfo {
            model: "Open-XiaoAi-V2".to_string(),
            serial_number: "00:11:22:33:44:55".to_string(),
        },
    });
}

#[test]
fn control_round_trip_heartbeat() {
    round_trip(ControlPacket::Ping { seq: 7, timestamp_us: 123_456_789 });
    round_trip(ControlPacket::Pong {
        seq: 7,
        client_timestamp_us: 123_456_789,
        server_timestamp_us: 123_500_000,
    });
}

#[test]
fn control_round_trip_rpc() {
    round_trip(ControlPacket::RpcRequest {
        id: 42,
        command: Command::Shell(ShellRequest {
            command: "echo hello".to_string(),
            timeout_secs: Some(5),
        }),
        run_async: true,
        timeout_ms: Some(10_000),
    });
    round_trip(ControlPacket::RpcRequest {
        id: 43,
        command: Command::GetInfo,
        run_async: false,
        timeout_ms: None,
    });
    round_trip(ControlPacket::RpcRequest {
        id: 44,
        command: Command::SetVolume(SetVolumeRequest { volume: 55 }),
        run_async: false,
        timeout_ms: Some(0),
    });
    round_trip(ControlPacket::RpcRequest {
        id: 45,
        command: Command::Ping { timestamp: 999 },
        run_async: true,
        timeout_ms: None,
    });
}

#[test]
fn control_round_trip_rpc_responses() {
    round_trip(ControlPacket::RpcResponse {
        id: 42,
        result: CommandResult::Shell(ShellResponse {
            stdout: "hello\n".to_string(),
            stderr: String::new(),
            exit_code: 0,
        }),
    });
    round_trip(ControlPacket::RpcResponse {
        id: 46,
        result: CommandResult::Info(DeviceInfo {
            model: "m".to_string(),
            serial_number: "s".to_string(),
            version: "2.0.0".to_string(),
            uptime_secs: 3600,
            audio_state: AudioState { is_recording: true, is_playing: false, volume: 80 },
        }),
    });
    round_trip(ControlPacket::RpcResponse {
        id: 47,
        result: CommandResult::Volume(SetVolumeResponse { previous: 80, current: 100 }),
    });
    round_trip(ControlPacket::RpcResponse {
        id: 48,
        result: CommandResult::Pong { timestamp: 1, server_time: 2 },
    });
    round_trip(ControlPacket::RpcResponse {
        id: 49,
        result: CommandResult::Error(CommandError {
            code: -408,
            message: "Task timed out".to_string(),
        }),
    });
}

#[test]
fn control_round_trip_negative_exit_code() {
    round_trip(ControlPacket::RpcResponse {
        id: 1,
        result: CommandResult::Shell(ShellResponse {
            stdout: String::new(),
            stderr: "killed".to_string(),
            exit_code: -9,
        }),
    });
}

#[test]
fn control_round_trip_events_and_audio() {
    round_trip(ControlPacket::Event(EventMessage {
        name: "playing.status".to_string(),
        payload: vec![1, 2, 3, 250],
        timestamp_us: 55_555,
    }));
    round_trip(ControlPacket::StartRecording { config: AudioConfig::voice_16k() });
    round_trip(ControlPacket::StopRecording);
    round_trip(ControlPacket::StartPlayback { config: AudioConfig::music_48k() });
    round_trip(ControlPacket::StopPlayback);
}

#[test]
fn control_round_trip_unicode_strings() {
    round_trip(ControlPacket::Discovery { protocol: "xiao 发现 ≠ ascii".to_string(), port: 1 });
}

#[test]
fn control_round_trip_negative_bitrate_config() {
    let mut config = AudioConfig::voice_16k();
    config.bitrate = -1;
    config.audio_scene = AudioScene::Music;
    round_trip(ControlPacket::StartPlayback { config });
}

#[test]
fn control_decode_rejects_trailing_garbage() {
    let msg = ControlPacket::StopRecording;
    let mut bytes = control_to_bytes(&msg).unwrap();
    bytes.push(0);
    assert!(control_from_bytes(&bytes).is_none());
}

#[test]
fn control_decode_rejects_unknown_tag() {
    let bytes = vec![200u8];
    assert!(control_from_bytes(&bytes).is_none());
}

#[test]
fn audio_packet_round_trip() {
    let p = AudioPacket { seq: 31, timestamp: 1_700_000_000_000_123, data: vec![9; 160] };
    let bytes = packet_to_bytes(&p).expect("payload within bound must encode");
    let back = packet_from_bytes(&bytes).expect("encoded packet must decode");
    assert_eq!(back, p);
}

#[test]
fn audio_packet_round_trip_empty_payload() {
    let p = AudioPacket { seq: 0, timestamp: 0, data: Vec::new() };
    let bytes = packet_to_bytes(&p).unwrap();
    let back = packet_from_bytes(&bytes).unwrap();
    assert_eq!(back, p);
}

#[test]
fn audio_packet_payload_bound() {
    let ok = AudioPacket { seq: 1, timestamp: 1, data: vec![0; 4096] };
    assert!(packet_to_bytes(&ok).is_some());
    let too_big = AudioPacket { seq: 1, timestamp: 1, data: vec![0; 4097] };
    assert!(packet_to_bytes(&too_big).is_none());
}

#[test]
fn frame_length_boundary() {
    // 1 MiB exactly is accepted; one more byte closes the connection.
    assert!(frame_len_accepted(1_048_576));
    assert!(!frame_len_accepted(1_048_577));
}

#[test]
fn frame_encode_boundary() {
    // An event body of exactly 1 MiB frames fine; one byte more does not.
    // Body layout: tag(1) + name(4) + payload(4 + n) + timestamp(8).
    let fit = ControlPacket::Event(EventMessage {
        name: String::new(),
        payload: vec![0; 1_048_576 - 17],
        timestamp_us: 0,
    });
    let frame = control_frame_bytes(&fit).expect("1 MiB body must frame");
    assert_eq!(frame.len(), 4 + 1_048_576);
    assert_eq!(frame_body_len(&frame), Some(1_048_576));
    assert!(frame_len_accepted(frame_body_len(&frame).unwrap()));

    let over = ControlPacket::Event(EventMessage {
        name: String::new(),
        payload: vec![0; 1_048_576 - 16],
        timestamp_us: 0,
    });
    assert!(control_frame_bytes(&over).is_none());
}

#[test]
fn frame_header_is_big_endian() {
    let msg = ControlPacket::StopPlayback;
    let frame = control_frame_bytes(&msg).unwrap();
    let body = control_to_bytes(&msg).unwrap();
    assert_eq!(frame.len(), 4 + body.len());
    let n = body.len() as u32;
    assert_eq!(&frame[0..4], &n.to_be_bytes());
    assert_eq!(&frame[4..], &body[..]);
}
