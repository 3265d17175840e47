//! The server's message-loop core: for every control packet a client can
//! send after the handshake, what the server answers, how the session
//! state moves, and what it asks the runtime to do.

use vstd::prelude::*;
use crate::clock::clock_after_pong;
use crate::command::{
    Command, CommandView, CommandResult, CommandResultView, DeviceInfo, AudioState,
};
use crate::protocol::{ControlPacket, ControlPacketView, EventMessage};
use crate::config::AudioConfig;
use crate::session::Session;

verus! {

/// What the runtime must do after one client packet is handled.
#[derive(Debug)]
pub enum ServerAction {
    /// Nothing to do.
    Idle,
    /// Send this packet back to the client.
    Send(ControlPacket),
    /// Forward this command to the client and relay its answer to call
    /// `id`.
    Forward { id: u32, command: Command },
    /// Hand this event to the local subscribers.
    Publish(EventMessage),
}

/// Handle one packet from a client.  Shell and volume commands are the
/// client's to execute: they are forwarded; information requests are
/// answered from the server's own state.
#[verifier::rlimit(60)]
pub fn handle_packet(
    session: &mut Session,
    srv_model: &String,
    srv_serial: &String,
    srv_version: &String,
    uptime_secs: u64,
    packet: ControlPacket,
    now_us: u64,
    now_ms: u64,
) -> (r: ServerAction)
    requires
        old(session).wf(),
    ensures
        final(session).wf(),
        // Heartbeat: answered at once; the session does not move.
        packet@ matches ControlPacketView::Ping { seq, timestamp_us } ==> (r matches
            ServerAction::Send(p) && p@ == (ControlPacketView::Pong {
            seq,
            client_timestamp_us: timestamp_us,
            server_timestamp_us: now_us,
        }) && *final(session) == *old(session)),
        // Heartbeat answer: the clock estimate takes the sample.
        packet@ matches ControlPacketView::Pong {
            seq,
            client_timestamp_us,
            server_timestamp_us,
        } ==> (r is Idle && final(session).clock == clock_after_pong(
            old(session).clock,
            client_timestamp_us,
            server_timestamp_us,
            now_us,
        ) && final(session).rpc == old(session).rpc),
        // A response: its pending entry is gone.
        packet@ matches ControlPacketView::RpcResponse { id, result } ==> (r is Idle && !final(session).rpc.is_pending(id) && (forall|x: u32|
            x != id ==> final(session).rpc.is_pending(x) == old(session).rpc.is_pending(x))),
        // Shell and volume commands belong to the client: forwarded
        // under the same call id.
        packet@ matches ControlPacketView::RpcRequest { id, command, .. } ==> ((command
            is Shell || command is SetVolume) ==> (r matches ServerAction::Forward {
            id: rid,
            command: fwd,
        } && rid == id && fwd@ == command && *final(session) == *old(session))),
        // An information call: answered from the server's own state.
        packet@ matches ControlPacketView::RpcRequest { id, command, .. } ==> (command
            is GetInfo ==> (r matches ServerAction::Send(p) && p@ matches
            ControlPacketView::RpcResponse { id: rid, result } && rid == id && (result matches
            CommandResultView::Info(info) && info.model == srv_model@ && info.serial_number
            == srv_serial@ && info.version == srv_version@ && info.uptime_secs == uptime_secs)
            && *final(session) == *old(session))),
        // A latency probe: answered with the echoed stamp and our clock.
        packet@ matches ControlPacketView::RpcRequest { id, command, .. } ==> (command matches
            CommandView::Ping { timestamp } ==> (r matches ServerAction::Send(p) && p@ matches
            ControlPacketView::RpcResponse { id: rid, result } && rid == id && result
            == (CommandResultView::Pong { timestamp, server_time: now_ms }) && *final(session)
            == *old(session))),
        // A client event is handed to the subscribers.
        packet@ matches ControlPacketView::Event(ev) ==> (r matches ServerAction::Publish(out)
            && out@ == ev && *final(session) == *old(session)),
        // Anything else is ignored.
        packet@ is Discovery || packet@ is ClientHello || packet@ is ServerHello || packet@
            is StartRecording || packet@ is StopRecording || packet@ is StartPlayback
            || packet@ is StopPlayback ==> (r is Idle && *final(session) == *old(session)),
{
    match packet {
        ControlPacket::Ping { seq, timestamp_us } => ServerAction::Send(
            ControlPacket::Pong {
                seq,
                client_timestamp_us: timestamp_us,
                server_timestamp_us: now_us,
            },
        ),
        ControlPacket::Pong { seq: _, client_timestamp_us, server_timestamp_us } => {
            session.clock.on_pong(client_timestamp_us, server_timestamp_us, now_us);
            ServerAction::Idle
        },
        ControlPacket::RpcResponse { id, result: _ } => {
            let _found: bool = session.rpc.resolve(id);
            ServerAction::Idle
        },
        ControlPacket::RpcRequest { id, command, .. } => match command {
            Command::Shell(req) => ServerAction::Forward { id, command: Command::Shell(req) },
            Command::SetVolume(req) => ServerAction::Forward {
                id,
                command: Command::SetVolume(req),
            },
            Command::GetInfo => {
                let info = DeviceInfo {
                    model: srv_model.clone(),
                    serial_number: srv_serial.clone(),
                    version: srv_version.clone(),
                    uptime_secs,
                    audio_state: AudioState {
                        is_recording: session.is_recording(),
                        is_playing: session.is_playing(),
                        volume: session.volume,
                    },
                };
                ServerAction::Send(
                    ControlPacket::RpcResponse { id, result: CommandResult::Info(info) },
                )
            },
            Command::Ping { timestamp } => ServerAction::Send(
                ControlPacket::RpcResponse {
                    id,
                    result: CommandResult::Pong { timestamp, server_time: now_ms },
                },
            ),
        },
        ControlPacket::Event(ev) => ServerAction::Publish(ev),
        _ => ServerAction::Idle,
    }
}

/// The audio-status event sent to a session after recording or playback
/// starts or stops: one byte for each flag.
pub fn audio_status_event(is_recording: bool, is_playing: bool, now_us: u64) -> (r: ControlPacket)
    ensures
        r@ matches ControlPacketView::Event(ev) && ev.name == "audio.status"@ && ev.payload
            == seq![
            (if is_recording {
                1u8
            } else {
                0u8
            }),
            (if is_playing {
                1u8
            } else {
                0u8
            }),
        ] && ev.timestamp_us == now_us,
{
    proof {
        reveal_strlit("audio.status");
    }
    let mut payload: Vec<u8> = Vec::new();
    payload.push(if is_recording {
        1
    } else {
        0
    });
    payload.push(if is_playing {
        1
    } else {
        0
    });
    proof {
        assert(payload@ =~= seq![
            (if is_recording {
                1u8
            } else {
                0u8
            }),
            (if is_playing {
                1u8
            } else {
                0u8
            }),
        ]);
    }
    ControlPacket::Event(
        EventMessage { name: "audio.status".to_owned(), payload, timestamp_us: now_us },
    )
}

/// Start recording a session: mark the stream on the session, then tell
/// the client to start capturing and announce the new audio status.
pub fn start_record(session: &mut Session, config: AudioConfig, now_us: u64) -> (msgs: Vec<
    ControlPacket,
>)
    requires
        old(session).wf(),
    ensures
        final(session).wf(),
        final(session).pipelines.recorder is Some,
        final(session).recording_config matches Some(c) && c@ == config@,
        final(session).rpc == old(session).rpc,
        msgs@.len() == 2,
        msgs@[0]@ == (ControlPacketView::StartRecording { config: config@ }),
        msgs@[1]@ matches ControlPacketView::Event(ev) && ev.name == "audio.status"@
            && ev.payload[0] == 1,
{
    let announce: ControlPacket = ControlPacket::StartRecording {
        config: crate::config::clone_config(&config),
    };
    session.start_recording(crate::session::PipelineHandle::new(), config);
    let status: ControlPacket = audio_status_event(true, session.is_playing(), now_us);
    let mut msgs: Vec<ControlPacket> = Vec::new();
    msgs.push(announce);
    msgs.push(status);
    msgs
}

/// Stop recording a session: drop the stream and tell the client, then
/// announce the new audio status.
pub fn stop_record(session: &mut Session, now_us: u64) -> (msgs: Vec<ControlPacket>)
    requires
        old(session).wf(),
    ensures
        final(session).wf(),
        final(session).pipelines.recorder is None,
        final(session).recording_config is None,
        final(session).rpc == old(session).rpc,
        msgs@.len() == 2,
        msgs@[0]@ is StopRecording,
        msgs@[1]@ matches ControlPacketView::Event(ev) && ev.name == "audio.status"@
            && ev.payload[0] == 0,
{
    session.stop_recording();
    let status: ControlPacket = audio_status_event(false, session.is_playing(), now_us);
    let mut msgs: Vec<ControlPacket> = Vec::new();
    msgs.push(ControlPacket::StopRecording);
    msgs.push(status);
    msgs
}

/// Start playback towards a session: mark the stream, then tell the
/// client to start receiving and announce the new audio status.
pub fn start_play(session: &mut Session, config: AudioConfig, now_us: u64) -> (msgs: Vec<
    ControlPacket,
>)
    requires
        old(session).wf(),
    ensures
        final(session).wf(),
        final(session).pipelines.player is Some,
        final(session).rpc == old(session).rpc,
        msgs@.len() == 2,
        msgs@[0]@ == (ControlPacketView::StartPlayback { config: config@ }),
        msgs@[1]@ matches ControlPacketView::Event(ev) && ev.name == "audio.status"@
            && ev.payload[1] == 1,
{
    session.start_playback(crate::session::PipelineHandle::new());
    let status: ControlPacket = audio_status_event(session.is_recording(), true, now_us);
    let mut msgs: Vec<ControlPacket> = Vec::new();
    msgs.push(ControlPacket::StartPlayback { config });
    msgs.push(status);
    msgs
}

/// Stop playback towards a session: drop the stream and tell the
/// client, then announce the new audio status.
pub fn stop_play(session: &mut Session, now_us: u64) -> (msgs: Vec<ControlPacket>)
    requires
        old(session).wf(),
    ensures
        final(session).wf(),
        final(session).pipelines.player is None,
        final(session).rpc == old(session).rpc,
        msgs@.len() == 2,
        msgs@[0]@ is StopPlayback,
        msgs@[1]@ matches ControlPacketView::Event(ev) && ev.name == "audio.status"@
            && ev.payload[1] == 0,
{
    session.stop_playback();
    let status: ControlPacket = audio_status_event(session.is_recording(), false, now_us);
    let mut msgs: Vec<ControlPacket> = Vec::new();
    msgs.push(ControlPacket::StopPlayback);
    msgs.push(status);
    msgs
}

} // verus!
