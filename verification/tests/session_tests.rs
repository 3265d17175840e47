//! Sessions, the registry, the handshake gates, and the two message-loop
//! cores.

use xiao_stream::client;
use xiao_stream::command::Command;
use xiao_stream::protocol::{ClientInfo, ControlPacket};
use xiao_stream::server;
use xiao_stream::session::{
    check_client_hello, check_server_hello, ClientConfig, HandshakeError, PipelineHandle,
    ServerConfig, Session, SessionManager,
};
use xiao_stream::Endpoint;

fn ep(last: u8, port: u16) -> Endpoint {
    Endpoint { ip0: 192, ip1: 168, ip2: 1, ip3: last, port }
}

fn info() -> ClientInfo {
    ClientInfo { model: "m".to_string(), serial_number: "s".to_string() }
}

fn session_at(last: u8) -> Session {
    Session::new(info(), ep(last, 5000), ep(last, 6000), 100)
}

#[test]
fn handshake_rejects_wrong_auth() {
    // The client presents auth "X"; the server expects "Y": rejected,
    // and the connection is then closed by the caller.
    let cfg = ServerConfig {
        version: "2.0.0".to_string(),
        client_auth: "xiao-client".to_string(),
        server_auth: "Y".to_string(),
        timeout: 60,
    };
    let hello = ControlPacket::ClientHello {
        auth: "X".to_string(),
        version: "2.0.0".to_string(),
        udp_port: 40000,
        info: info(),
    };
    assert_eq!(check_client_hello(&hello, &cfg), Err(HandshakeError::AuthMismatch));
}

#[test]
fn handshake_rejects_wrong_version() {
    let cfg = ServerConfig::default();
    let hello = ControlPacket::ClientHello {
        auth: "xiao-server".to_string(),
        version: "1.0.0".to_string(),
        udp_port: 40000,
        info: info(),
    };
    assert_eq!(check_client_hello(&hello, &cfg), Err(HandshakeError::VersionMismatch));
}

#[test]
fn handshake_rejects_wrong_message() {
    let cfg = ServerConfig::default();
    assert_eq!(
        check_client_hello(&ControlPacket::StopPlayback, &cfg),
        Err(HandshakeError::UnexpectedMessage)
    );
}

#[test]
fn handshake_accepts_matching_hello() {
    let cfg = ServerConfig::default();
    let hello = ControlPacket::ClientHello {
        auth: "xiao-server".to_string(),
        version: "2.0.0".to_string(),
        udp_port: 40000,
        info: info(),
    };
    let (got, port) = check_client_hello(&hello, &cfg).expect("matching hello must pass");
    assert_eq!(got, info());
    assert_eq!(port, 40000);
}

#[test]
fn client_side_handshake_mirror() {
    let cfg = ClientConfig::default();
    let hello = ControlPacket::ServerHello {
        auth: "xiao-client".to_string(),
        version: "2.0.0".to_string(),
        udp_port: 41000,
    };
    assert_eq!(check_server_hello(&hello, &cfg), Ok(41000));
    let bad = ControlPacket::ServerHello {
        auth: "nope".to_string(),
        version: "2.0.0".to_string(),
        udp_port: 41000,
    };
    assert_eq!(check_server_hello(&bad, &cfg), Err(HandshakeError::AuthMismatch));
}

#[test]
fn distinct_addresses_distinct_sessions() {
    let mut mgr = SessionManager::new();
    mgr.register(session_at(1));
    mgr.register(session_at(2));
    let a = mgr.get(ep(1, 5000)).expect("registered session must be found");
    let b = mgr.get(ep(2, 5000)).expect("registered session must be found");
    assert_ne!(a.tcp_addr, b.tcp_addr);
    assert_eq!(a.tcp_addr, ep(1, 5000));
    assert_eq!(b.tcp_addr, ep(2, 5000));
    assert_eq!(mgr.count(), 2);
}

#[test]
fn reregistering_replaces() {
    let mut mgr = SessionManager::new();
    mgr.register(session_at(1));
    mgr.register(session_at(1));
    assert_eq!(mgr.count(), 1);
}

#[test]
fn lookup_by_udp_address() {
    let mut mgr = SessionManager::new();
    mgr.register(session_at(1));
    let s = mgr.get_by_udp(ep(1, 6000)).expect("udp lookup must find the session");
    assert_eq!(s.tcp_addr, ep(1, 5000));
    assert!(mgr.get_by_udp(ep(9, 6000)).is_none());
}

#[test]
fn unregister_tears_down() {
    let mut mgr = SessionManager::new();
    mgr.register(session_at(1));
    let s = mgr.unregister(ep(1, 5000)).expect("unregister must return the session");
    assert!(!s.is_alive());
    assert!(!s.pipelines.recorder.is_some());
    assert_eq!(s.rpc.pending_count(), 0);
    assert!(mgr.get(ep(1, 5000)).is_none());
    assert!(mgr.unregister(ep(1, 5000)).is_none());
}

#[test]
fn broadcast_except_filters_sender() {
    let mut mgr = SessionManager::new();
    mgr.register(session_at(1));
    mgr.register(session_at(2));
    mgr.register(session_at(3));
    let targets = mgr.addrs_except(ep(2, 5000));
    assert_eq!(targets.len(), 2);
    assert!(targets.contains(&ep(1, 5000)));
    assert!(targets.contains(&ep(3, 5000)));
    assert!(!targets.contains(&ep(2, 5000)));
    assert_eq!(mgr.all_addrs().len(), 3);
}

#[test]
fn teardown_cancels_pipelines_and_rpcs() {
    // Start recording, then cancel the session: the pipelines stop and
    // every pending call is dropped.
    let mut s = session_at(1);
    s.start_recording(PipelineHandle::new(), xiao_stream::config::AudioConfig::voice_16k());
    let _id = s.rpc.register();
    assert!(s.is_recording());
    assert_eq!(s.rpc.pending_count(), 1);
    s.cleanup();
    assert!(!s.is_alive());
    assert!(!s.is_recording());
    assert!(!s.is_playing());
    assert_eq!(s.rpc.pending_count(), 0);
}

#[test]
fn volume_is_clamped_at_session() {
    let mut s = session_at(1);
    assert_eq!(s.volume, 100);
    let prev = s.set_volume(250);
    assert_eq!(prev, 100);
    assert_eq!(s.volume, 100);
    let prev = s.set_volume(33);
    assert_eq!(prev, 100);
    assert_eq!(s.volume, 33);
}

#[test]
fn client_loop_answers_ping() {
    let mut s = session_at(1);
    let model = "m".to_string();
    let serial = "s".to_string();
    let version = "2.0.0".to_string();
    let act = client::handle_packet(
        &mut s,
        &model,
        &serial,
        &version,
        ControlPacket::Ping { seq: 3, timestamp_us: 111 },
        222,
        0,
        0,
    );
    match act {
        client::ClientAction::Send(ControlPacket::Pong {
            seq,
            client_timestamp_us,
            server_timestamp_us,
        }) => {
            assert_eq!((seq, client_timestamp_us, server_timestamp_us), (3, 111, 222));
        },
        _ => panic!("a ping must be answered with a pong"),
    }
}

#[test]
fn client_loop_starts_and_stops_pipelines() {
    let mut s = session_at(1);
    let model = "m".to_string();
    let serial = "s".to_string();
    let version = "2.0.0".to_string();
    let cfg = xiao_stream::config::AudioConfig::voice_16k();
    let act = client::handle_packet(
        &mut s,
        &model,
        &serial,
        &version,
        ControlPacket::StartRecording { config: cfg },
        0,
        0,
        0,
    );
    assert!(matches!(act, client::ClientAction::StartRecording(_)));
    assert!(s.is_recording());
    let act = client::handle_packet(
        &mut s,
        &model,
        &serial,
        &version,
        ControlPacket::StopRecording,
        0,
        0,
        0,
    );
    assert!(matches!(act, client::ClientAction::StopRecording));
    assert!(!s.is_recording());
}

#[test]
fn server_loop_forwards_shell() {
    let mut s = session_at(1);
    let model = "XiaoAi-Server".to_string();
    let serial = "SERVER-001".to_string();
    let version = "2.0.0".to_string();
    let act = server::handle_packet(
        &mut s,
        &model,
        &serial,
        &version,
        10,
        ControlPacket::RpcRequest {
            id: 9,
            command: Command::shell("ls"),
            run_async: false,
            timeout_ms: None,
        },
        0,
        0,
    );
    match act {
        server::ServerAction::Forward { id, command } => {
            assert_eq!(id, 9);
            assert!(matches!(command, Command::Shell(_)));
        },
        _ => panic!("a shell command must be forwarded to the client"),
    }
}
