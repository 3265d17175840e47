//! The client's message-loop core: for every control packet the server
//! can send, what the client answers, how its session state moves, and
//! what it asks the runtime to do.  The runtime performs the actions;
//! every decision is made here.

use vstd::prelude::*;
use crate::clock::clock_after_pong;
use crate::command::{
    Command, CommandView, CommandResult, CommandResultView, ShellRequest, DeviceInfo, AudioState,
    SetVolumeResponse,
};
use crate::config::{AudioConfig, clone_config};
use crate::protocol::{ControlPacket, ControlPacketView};
use crate::session::{Session, PipelineHandle};

verus! {

/// What the runtime must do after one packet is handled.
#[derive(Debug)]
pub enum ClientAction {
    /// Nothing to do.
    Idle,
    /// Send this packet to the server.
    Send(ControlPacket),
    /// Run this shell request and answer call `id` with its outcome.
    RunShell { id: u32, request: ShellRequest },
    /// Start the capture pipeline under this configuration.
    StartRecording(AudioConfig),
    /// Stop the capture pipeline.
    StopRecording,
    /// Start the playback pipeline under this configuration.
    StartPlayback(AudioConfig),
    /// Stop the playback pipeline.
    StopPlayback,
}

/// Handle one packet from the server.  `now_us` is the local clock in
/// microseconds, `now_ms` in milliseconds, `now_secs` in seconds.
#[verifier::rlimit(60)]
pub fn handle_packet(
    session: &mut Session,
    cfg_model: &String,
    cfg_serial: &String,
    cfg_version: &String,
    packet: ControlPacket,
    now_us: u64,
    now_ms: u64,
    now_secs: u64,
) -> (r: ClientAction)
    requires
        old(session).wf(),
    ensures
        final(session).wf(),
        // Heartbeat: answered at once, echoing the peer clock and adding
        // ours; the session does not move.
        packet@ matches ControlPacketView::Ping { seq, timestamp_us } ==> r matches
            ClientAction::Send(p) && p@ == (ControlPacketView::Pong {
            seq,
            client_timestamp_us: timestamp_us,
            server_timestamp_us: now_us,
        }) && *final(session) == *old(session),
        // Heartbeat answer: the clock estimate takes the sample.
        packet@ matches ControlPacketView::Pong {
            seq,
            client_timestamp_us,
            server_timestamp_us,
        } ==> r is Idle && final(session).clock == clock_after_pong(
            old(session).clock,
            client_timestamp_us,
            server_timestamp_us,
            now_us,
        ) && final(session).rpc == old(session).rpc && final(session).pipelines == old(session).pipelines,
        // A response: its pending entry is gone, everything else stays.
        packet@ matches ControlPacketView::RpcResponse { id, result } ==> r is Idle && !final(session).rpc.is_pending(id) && (forall|x: u32|
            x != id ==> final(session).rpc.is_pending(x) == old(session).rpc.is_pending(x))
            && final(session).pipelines == old(session).pipelines,
        // A shell call: handed to the executor under the same id.
        packet@ matches ControlPacketView::RpcRequest { id, command, .. } ==> (command is Shell
            ==> (r matches ClientAction::RunShell { id: rid, request } && rid == id
            && CommandView::Shell(request@) == command && *final(session) == *old(session))),
        // An information call: answered from the configuration and the
        // session's audio state.
        packet@ matches ControlPacketView::RpcRequest { id, command, .. } ==> (command
            is GetInfo ==> (r matches ClientAction::Send(p) && p@ matches
            ControlPacketView::RpcResponse { id: rid, result } && rid == id && (result matches
            CommandResultView::Info(info) && info.model == cfg_model@ && info.serial_number
            == cfg_serial@ && info.version == cfg_version@ && info.audio_state.volume == old(session).volume && info.audio_state.is_recording == (old(session).pipelines.recorder is Some) && info.audio_state.is_playing == (old(session).pipelines.player is Some)) && *final(session) == *old(session))),
        // A volume call: the volume is clamped to 100 and both values
        // are reported.
        packet@ matches ControlPacketView::RpcRequest { id, command, .. } ==> (command matches
            CommandView::SetVolume(req) ==> r matches ClientAction::Send(p) && p@ matches
            ControlPacketView::RpcResponse { id: rid, result } && rid == id && result
            == CommandResultView::Volume(
            SetVolumeResponse {
                previous: old(session).volume,
                current: if req.volume > 100 {
                    100u8
                } else {
                    req.volume
                },
            },
        ) && final(session).volume == (if req.volume > 100 {
            100u8
        } else {
            req.volume
        }) && final(session).pipelines == old(session).pipelines && final(session).rpc == old(session).rpc),
        // A latency probe: answered with the echoed stamp and our clock.
        packet@ matches ControlPacketView::RpcRequest { id, command, .. } ==> (command matches
            CommandView::Ping { timestamp } ==> r matches ClientAction::Send(p) && p@ matches
            ControlPacketView::RpcResponse { id: rid, result } && rid == id && result
            == (CommandResultView::Pong { timestamp, server_time: now_ms }) && *final(session)
            == *old(session)),
        // Audio commands: the session's pipeline state moves and the
        // runtime is told to move the real pipelines the same way.
        packet@ matches ControlPacketView::StartRecording { config } ==> r matches
            ClientAction::StartRecording(c) && c@ == config && final(session).pipelines.recorder is Some && final(session).rpc == old(session).rpc,
        packet@ is StopRecording ==> r is StopRecording && final(session).pipelines.recorder is None && final(session).rpc == old(session).rpc,
        packet@ matches ControlPacketView::StartPlayback { config } ==> r matches
            ClientAction::StartPlayback(c) && c@ == config && final(session).pipelines.player is Some && final(session).rpc == old(session).rpc,
        packet@ is StopPlayback ==> r is StopPlayback && final(session).pipelines.player is None && final(session).rpc == old(session).rpc,
        // Anything else is ignored.
        packet@ is Discovery || packet@ is ClientHello || packet@ is ServerHello || packet@
            is Event ==> r is Idle && *final(session) == *old(session),
{
    match packet {
        ControlPacket::Ping { seq, timestamp_us } => ClientAction::Send(
            ControlPacket::Pong {
                seq,
                client_timestamp_us: timestamp_us,
                server_timestamp_us: now_us,
            },
        ),
        ControlPacket::Pong { seq: _, client_timestamp_us, server_timestamp_us } => {
            feed_clock(session, client_timestamp_us, server_timestamp_us, now_us);
            ClientAction::Idle
        },
        ControlPacket::RpcResponse { id, result: _ } => {
            let _found: bool = session.rpc.resolve(id);
            ClientAction::Idle
        },
        ControlPacket::RpcRequest { id, command, .. } => match command {
            Command::Shell(request) => ClientAction::RunShell { id, request },
            Command::GetInfo => {
                let info = DeviceInfo {
                    model: cfg_model.clone(),
                    serial_number: cfg_serial.clone(),
                    version: cfg_version.clone(),
                    uptime_secs: session.uptime_secs(now_secs),
                    audio_state: AudioState {
                        is_recording: session.is_recording(),
                        is_playing: session.is_playing(),
                        volume: session.volume,
                    },
                };
                ClientAction::Send(
                    ControlPacket::RpcResponse { id, result: CommandResult::Info(info) },
                )
            },
            Command::SetVolume(req) => {
                let prev: u8 = session.set_volume(req.volume);
                let resp = SetVolumeResponse { previous: prev, current: session.volume };
                ClientAction::Send(
                    ControlPacket::RpcResponse { id, result: CommandResult::Volume(resp) },
                )
            },
            Command::Ping { timestamp } => ClientAction::Send(
                ControlPacket::RpcResponse {
                    id,
                    result: CommandResult::Pong { timestamp, server_time: now_ms },
                },
            ),
        },
        ControlPacket::StartRecording { config } => {
            session.start_recording(PipelineHandle::new(), clone_config(&config));
            ClientAction::StartRecording(config)
        },
        ControlPacket::StopRecording => {
            session.stop_recording();
            ClientAction::StopRecording
        },
        ControlPacket::StartPlayback { config } => {
            session.start_playback(PipelineHandle::new());
            ClientAction::StartPlayback(config)
        },
        ControlPacket::StopPlayback => {
            session.stop_playback();
            ClientAction::StopPlayback
        },
        _ => ClientAction::Idle,
    }
}

/// Feed one heartbeat round trip into the session's clock estimate.
fn feed_clock(session: &mut Session, t1: u64, t2: u64, t4: u64)
    requires
        old(session).wf(),
    ensures
        final(session).wf(),
        final(session).clock == clock_after_pong(old(session).clock, t1, t2, t4),
        *final(session) == (Session { clock: final(session).clock, ..*old(session) }),
{
    session.clock.on_pong(t1, t2, t4);
}

} // verus!
