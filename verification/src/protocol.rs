//! The control-channel message set and the audio datagram: every value
//! that crosses the network, with its exact wire form and the proof that
//! decoding inverts encoding.

use vstd::prelude::*;
use crate::encoding::{
    le_bytes, be_bytes, be_val, bool_byte, string_bytes, bytes_block, opt_u64_bytes, varint_bytes,
    sd_le, sd_bool, sd_string, sd_bytes, sd_opt_u64, sd_varint, lemma_sd_le, lemma_sd_bool,
    lemma_sd_string, lemma_sd_bytes, lemma_sd_opt_u64, lemma_sd_varint, lemma_pow256_values,
    lemma_be_val_bound, enc_le, enc_be, dec_be, enc_u16, enc_u32, enc_u64,
    enc_u128, enc_varint, enc_bool, enc_string, enc_bytes, enc_opt_u64, rd_u8, rd_u16, rd_u32,
    rd_u64, rd_u128, rd_varint, rd_bool, rd_string, rd_bytes, rd_opt_u64,
};
use crate::command::{
    Command, CommandView, CommandResult, CommandResultView, ShellResponse, str_len_ok,
    enc_command, sd_command, lemma_command_round_trip, enc_command_exec, rd_command,
    enc_command_result, sd_command_result, lemma_command_result_round_trip,
    enc_command_result_exec, rd_command_result,
};
use crate::config::{
    AudioConfig, AudioConfigView, enc_config, sd_config, lemma_config_round_trip, enc_config_exec,
    rd_config, config_wf_check,
};

verus! {

/// What a client says about itself during the handshake.
#[derive(Debug, Clone, PartialEq, Eq)]
pub struct ClientInfo {
    pub model: String,
    pub serial_number: String,
}

pub struct ClientInfoView {
    pub model: Seq<char>,
    pub serial_number: Seq<char>,
}

impl View for ClientInfo {
    type V = ClientInfoView;

    open spec fn view(&self) -> ClientInfoView {
        ClientInfoView { model: self.model@, serial_number: self.serial_number@ }
    }
}

impl ClientInfoView {
    pub open spec fn wf(self) -> bool {
        self.model.len() < 0x1_0000_0000 && self.serial_number.len() < 0x1_0000_0000
    }
}

/// Wire form of a `ClientInfo`.
pub open spec fn enc_client_info(v: ClientInfoView) -> Seq<u8> {
    string_bytes(v.model) + string_bytes(v.serial_number)
}

/// Parse a `ClientInfo` from the front of `s`.
pub open spec fn sd_client_info(s: Seq<u8>) -> Option<(ClientInfoView, Seq<u8>)> {
    match sd_string(s) {
        None => None,
        Some((model, s)) => match sd_string(s) {
            None => None,
            Some((serial_number, s)) => Some((ClientInfoView { model, serial_number }, s)),
        },
    }
}

pub proof fn lemma_client_info_round_trip(v: ClientInfoView, rest: Seq<u8>)
    requires
        v.wf(),
    ensures
        sd_client_info(enc_client_info(v) + rest) == Some((v, rest)),
{
    assert(enc_client_info(v) + rest =~= string_bytes(v.model) + (string_bytes(v.serial_number)
        + rest));
    lemma_sd_string(v.model, string_bytes(v.serial_number) + rest);
    lemma_sd_string(v.serial_number, rest);
}

pub fn enc_client_info_exec(v: &ClientInfo, out: &mut Vec<u8>)
    requires
        v@.wf(),
    ensures
        final(out)@ == old(out)@ + enc_client_info(v@),
{
    enc_string(&v.model, out);
    enc_string(&v.serial_number, out);
    assert(out@ =~= old(out)@ + enc_client_info(v@));
}

pub fn rd_client_info(b: &Vec<u8>, i: &mut usize) -> (r: Option<ClientInfo>)
    requires
        *old(i) <= b.len(),
    ensures
        r is None ==> sd_client_info(b@.skip(*old(i) as int)) is None,
        r matches Some(v) ==> *old(i) <= *final(i) <= b.len() && sd_client_info(
            b@.skip(*old(i) as int),
        ) == Some((v@, b@.skip(*final(i) as int))),
{
    let model: String = match rd_string(b, i) {
        None => {
            return None;
        },
        Some(v) => v,
    };
    let serial_number: String = match rd_string(b, i) {
        None => {
            return None;
        },
        Some(v) => v,
    };
    Some(ClientInfo { model, serial_number })
}

/// An application event pushed over the control channel: a name, an
/// opaque payload, and the sender's clock in microseconds.
#[derive(Debug, Clone, PartialEq, Eq)]
pub struct EventMessage {
    pub name: String,
    pub payload: Vec<u8>,
    pub timestamp_us: u64,
}

pub struct EventMessageView {
    pub name: Seq<char>,
    pub payload: Seq<u8>,
    pub timestamp_us: u64,
}

impl View for EventMessage {
    type V = EventMessageView;

    open spec fn view(&self) -> EventMessageView {
        EventMessageView {
            name: self.name@,
            payload: self.payload@,
            timestamp_us: self.timestamp_us,
        }
    }
}

impl EventMessageView {
    pub open spec fn wf(self) -> bool {
        self.name.len() < 0x1_0000_0000 && self.payload.len() < 0x1_0000_0000
    }
}

/// Wire form of an `EventMessage`.
pub open spec fn enc_event(v: EventMessageView) -> Seq<u8> {
    string_bytes(v.name) + bytes_block(v.payload) + le_bytes(v.timestamp_us as int, 8)
}

/// Parse an `EventMessage` from the front of `s`.
pub open spec fn sd_event(s: Seq<u8>) -> Option<(EventMessageView, Seq<u8>)> {
    match sd_string(s) {
        None => None,
        Some((name, s)) => match sd_bytes(s) {
            None => None,
            Some((payload, s)) => match sd_le(s, 8) {
                None => None,
                Some((ts, s)) => Some(
                    (EventMessageView { name, payload, timestamp_us: ts as u64 }, s),
                ),
            },
        },
    }
}

pub proof fn lemma_event_round_trip(v: EventMessageView, rest: Seq<u8>)
    requires
        v.wf(),
    ensures
        sd_event(enc_event(v) + rest) == Some((v, rest)),
{
    lemma_pow256_values();
    let r2 = le_bytes(v.timestamp_us as int, 8) + rest;
    let r1 = bytes_block(v.payload) + r2;
    assert(enc_event(v) + rest =~= string_bytes(v.name) + r1);
    lemma_sd_string(v.name, r1);
    assert(r1 =~= bytes_block(v.payload) + r2);
    lemma_sd_bytes(v.payload, r2);
    lemma_sd_le(v.timestamp_us as int, 8, rest);
}

pub fn enc_event_exec(v: &EventMessage, out: &mut Vec<u8>)
    requires
        v@.wf(),
    ensures
        final(out)@ == old(out)@ + enc_event(v@),
{
    enc_string(&v.name, out);
    enc_bytes(&v.payload, out);
    enc_u64(v.timestamp_us, out);
    assert(out@ =~= old(out)@ + enc_event(v@));
}

pub fn rd_event(b: &Vec<u8>, i: &mut usize) -> (r: Option<EventMessage>)
    requires
        *old(i) <= b.len(),
    ensures
        r is None ==> sd_event(b@.skip(*old(i) as int)) is None,
        r matches Some(v) ==> *old(i) <= *final(i) <= b.len() && sd_event(
            b@.skip(*old(i) as int),
        ) == Some((v@, b@.skip(*final(i) as int))),
{
    let name: String = match rd_string(b, i) {
        None => {
            return None;
        },
        Some(v) => v,
    };
    let payload: Vec<u8> = match rd_bytes(b, i) {
        None => {
            return None;
        },
        Some(v) => v,
    };
    let timestamp_us: u64 = match rd_u64(b, i) {
        None => {
            return None;
        },
        Some(v) => v,
    };
    Some(EventMessage { name, payload, timestamp_us })
}

/// Largest audio payload carried in one datagram, in bytes.
pub const MAX_AUDIO_PAYLOAD: usize = 4096;

/// One timestamped, sequence-numbered slice of encoded audio, sent as a
/// single UDP datagram.  The timestamp is in microseconds on the sender's
/// synchronized clock.
#[derive(Debug, Clone, PartialEq, Eq)]
pub struct AudioPacket {
    pub seq: u32,
    pub timestamp: u128,
    pub data: Vec<u8>,
}

pub struct AudioPacketView {
    pub seq: u32,
    pub timestamp: u128,
    pub data: Seq<u8>,
}

impl View for AudioPacket {
    type V = AudioPacketView;

    open spec fn view(&self) -> AudioPacketView {
        AudioPacketView { seq: self.seq, timestamp: self.timestamp, data: self.data@ }
    }
}

impl AudioPacketView {
    /// The payload fits one datagram.
    pub open spec fn wf(self) -> bool {
        self.data.len() <= MAX_AUDIO_PAYLOAD
    }
}

/// Wire form of an `AudioPacket`: sequence, timestamp, then the payload
/// behind a varint length.
pub open spec fn enc_packet(v: AudioPacketView) -> Seq<u8> {
    le_bytes(v.seq as int, 4) + le_bytes(v.timestamp as int, 16) + varint_bytes(
        v.data.len(),
    ) + v.data
}

/// Parse an `AudioPacket` from the front of `s`.
pub open spec fn sd_packet(s: Seq<u8>) -> Option<(AudioPacketView, Seq<u8>)> {
    match sd_le(s, 4) {
        None => None,
        Some((seq, s)) => match sd_le(s, 16) {
            None => None,
            Some((ts, s)) => match sd_varint(s) {
                None => None,
                Some((n, s)) => if n <= MAX_AUDIO_PAYLOAD && s.len() >= n {
                    Some(
                        (
                            AudioPacketView {
                                seq: seq as u32,
                                timestamp: ts as u128,
                                data: s.subrange(0, n),
                            },
                            s.skip(n),
                        ),
                    )
                } else {
                    None
                },
            },
        },
    }
}

/// An encoded `AudioPacket` reads back as the value it was written from.
pub proof fn lemma_packet_round_trip(v: AudioPacketView, rest: Seq<u8>)
    requires
        v.wf(),
    ensures
        sd_packet(enc_packet(v) + rest) == Some((v, rest)),
{
    lemma_pow256_values();
    let r3 = v.data + rest;
    let r2 = varint_bytes(v.data.len()) + r3;
    let r1 = le_bytes(v.timestamp as int, 16) + r2;
    assert(enc_packet(v) + rest =~= le_bytes(v.seq as int, 4) + r1);
    lemma_sd_le(v.seq as int, 4, r1);
    assert(r1 =~= le_bytes(v.timestamp as int, 16) + r2);
    lemma_sd_le(v.timestamp as int, 16, r2);
    assert(r2 =~= varint_bytes(v.data.len()) + r3);
    lemma_sd_varint(v.data.len(), r3);
    assert(r3.subrange(0, v.data.len() as int) =~= v.data);
    assert(r3.skip(v.data.len() as int) =~= rest);
}

/// Encode `p` as one datagram.  `None` exactly when the payload is over
/// the datagram bound.
pub fn packet_to_bytes(p: &AudioPacket) -> (r: Option<Vec<u8>>)
    ensures
        r is None <==> !p@.wf(),
        r matches Some(v) ==> v@ == enc_packet(p@),
{
    if p.data.len() > MAX_AUDIO_PAYLOAD {
        return None;
    }
    let mut out: Vec<u8> = Vec::new();
    enc_u32(p.seq, &mut out);
    enc_u128(p.timestamp, &mut out);
    enc_varint(p.data.len() as u64, &mut out);
    let mut k: usize = 0;
    let ghost head = out@;
    while k < p.data.len()
        invariant
            k <= p.data.len(),
            out@ == head + p.data@.subrange(0, k as int),
        decreases p.data.len() - k,
    {
        out.push(p.data[k]);
        assert(out@ =~= head + p.data@.subrange(0, (k + 1) as int));
        k = k + 1;
    }
    proof {
        assert(p.data@.subrange(0, p.data@.len() as int) =~= p.data@);
        assert(out@ =~= enc_packet(p@));
    }
    Some(out)
}

/// Decode one datagram.  `None` exactly when the bytes are not the whole
/// wire form of a packet.
pub fn packet_from_bytes(b: &Vec<u8>) -> (r: Option<AudioPacket>)
    ensures
        r is None ==> !(sd_packet(b@) matches Some((v, rem)) && rem.len() == 0),
        r matches Some(p) ==> sd_packet(b@) == Some((p@, Seq::<u8>::empty())),
{
    proof {
        assert(b@.skip(0) =~= b@);
    }
    let mut i: usize = 0;
    let seq: u32 = match rd_u32(b, &mut i) {
        None => {
            return None;
        },
        Some(v) => v,
    };
    let timestamp: u128 = match rd_u128(b, &mut i) {
        None => {
            return None;
        },
        Some(v) => v,
    };
    let n64: u64 = match rd_varint(b, &mut i) {
        None => {
            return None;
        },
        Some(v) => v,
    };
    if n64 > MAX_AUDIO_PAYLOAD as u64 {
        return None;
    }
    let n: usize = n64 as usize;
    if b.len() - i < n {
        return None;
    }
    let ghost payload_start = i;
    let mut data: Vec<u8> = Vec::new();
    let mut k: usize = 0;
    #[verifier::loop_isolation(false)]
    while k < n
        invariant
            k <= n,
            payload_start + n <= b.len(),
            i == payload_start + k,
            data@ == b@.skip(payload_start as int).subrange(0, k as int),
        decreases n - k,
    {
        data.push(b[i]);
        assert(data@ =~= b@.skip(payload_start as int).subrange(0, (k + 1) as int));
        i = i + 1;
        k = k + 1;
    }
    if i != b.len() {
        proof {
            assert(b@.skip(payload_start as int).len() > n);
        }
        return None;
    }
    proof {
        crate::encoding::lemma_skip_skip(b@, payload_start as int, n as int);
        assert(b@.skip(payload_start as int).skip(n as int) =~= b@.skip(i as int));
        assert(b@.skip(i as int) =~= Seq::<u8>::empty());
    }
    Some(AudioPacket { seq, timestamp, data })
}

/// The result shape of the legacy shell RPC: captured output and exit
/// code.
#[derive(Debug, Clone, PartialEq, Eq, Default)]
pub struct RpcResult {
    pub stdout: String,
    pub stderr: String,
    pub code: i32,
}

pub struct RpcResultView {
    pub stdout: Seq<char>,
    pub stderr: Seq<char>,
    pub code: i32,
}

impl View for RpcResult {
    type V = RpcResultView;

    open spec fn view(&self) -> RpcResultView {
        RpcResultView { stdout: self.stdout@, stderr: self.stderr@, code: self.code }
    }
}

impl From<ShellResponse> for RpcResult {
    /// Carry a shell response over field for field.
    fn from(resp: ShellResponse) -> (r: RpcResult)
    {
        RpcResult { stdout: resp.stdout, stderr: resp.stderr, code: resp.exit_code }
    }
}

impl vstd::std_specs::convert::FromSpecImpl<ShellResponse> for RpcResult {
    open spec fn obeys_from_spec() -> bool {
        true
    }

    open spec fn from_spec(resp: ShellResponse) -> RpcResult {
        RpcResult { stdout: resp.stdout, stderr: resp.stderr, code: resp.exit_code }
    }
}

/// Every message of the TCP control channel.  The tag order is fixed by
/// the protocol and must not change.
#[derive(Debug, Clone, PartialEq, Eq)]
pub enum ControlPacket {
    /// A server announcing its control port.
    Discovery { protocol: String, port: u16 },
    /// Second half of the handshake.
    ServerHello { auth: String, version: String, udp_port: u16 },
    /// First half of the handshake.
    ClientHello { auth: String, version: String, udp_port: u16, info: ClientInfo },
    /// Heartbeat; carries the sender's clock in microseconds.
    Ping { seq: u32, timestamp_us: u64 },
    /// Heartbeat answer, echoing the client clock and adding the server's.
    Pong { seq: u32, client_timestamp_us: u64, server_timestamp_us: u64 },
    /// A command, to be answered with the same id.
    RpcRequest { id: u32, command: Command, run_async: bool, timeout_ms: Option<u64> },
    /// The answer to a command.
    RpcResponse { id: u32, result: CommandResult },
    /// An application event.
    Event(EventMessage),
    /// Ask the peer to start capturing and sending audio.
    StartRecording { config: AudioConfig },
    /// Ask the peer to stop capturing.
    StopRecording,
    /// Ask the peer to start receiving and playing audio.
    StartPlayback { config: AudioConfig },
    /// Ask the peer to stop playing.
    StopPlayback,
}

pub enum ControlPacketView {
    Discovery { protocol: Seq<char>, port: u16 },
    ServerHello { auth: Seq<char>, version: Seq<char>, udp_port: u16 },
    ClientHello { auth: Seq<char>, version: Seq<char>, udp_port: u16, info: ClientInfoView },
    Ping { seq: u32, timestamp_us: u64 },
    Pong { seq: u32, client_timestamp_us: u64, server_timestamp_us: u64 },
    RpcRequest { id: u32, command: CommandView, run_async: bool, timeout_ms: Option<u64> },
    RpcResponse { id: u32, result: CommandResultView },
    Event(EventMessageView),
    StartRecording { config: AudioConfigView },
    StopRecording,
    StartPlayback { config: AudioConfigView },
    StopPlayback,
}

impl View for ControlPacket {
    type V = ControlPacketView;

    open spec fn view(&self) -> ControlPacketView {
        match self {
            ControlPacket::Discovery { protocol, port } => ControlPacketView::Discovery {
                protocol: protocol@,
                port: *port,
            },
            ControlPacket::ServerHello { auth, version, udp_port } => ControlPacketView::ServerHello {
                auth: auth@,
                version: version@,
                udp_port: *udp_port,
            },
            ControlPacket::ClientHello { auth, version, udp_port, info } => ControlPacketView::ClientHello {
                auth: auth@,
                version: version@,
                udp_port: *udp_port,
                info: info@,
            },
            ControlPacket::Ping { seq, timestamp_us } => ControlPacketView::Ping {
                seq: *seq,
                timestamp_us: *timestamp_us,
            },
            ControlPacket::Pong { seq, client_timestamp_us, server_timestamp_us } => ControlPacketView::Pong {
                seq: *seq,
                client_timestamp_us: *client_timestamp_us,
                server_timestamp_us: *server_timestamp_us,
            },
            ControlPacket::RpcRequest { id, command, run_async, timeout_ms } => ControlPacketView::RpcRequest {
                id: *id,
                command: command@,
                run_async: *run_async,
                timeout_ms: *timeout_ms,
            },
            ControlPacket::RpcResponse { id, result } => ControlPacketView::RpcResponse {
                id: *id,
                result: result@,
            },
            ControlPacket::Event(ev) => ControlPacketView::Event(ev@),
            ControlPacket::StartRecording { config } => ControlPacketView::StartRecording {
                config: config@,
            },
            ControlPacket::StopRecording => ControlPacketView::StopRecording,
            ControlPacket::StartPlayback { config } => ControlPacketView::StartPlayback {
                config: config@,
            },
            ControlPacket::StopPlayback => ControlPacketView::StopPlayback,
        }
    }
}

impl ControlPacketView {
    /// Every string and byte block in the message fits its four-byte
    /// length field.
    pub open spec fn wf(self) -> bool {
        match self {
            ControlPacketView::Discovery { protocol, .. } => protocol.len() < 0x1_0000_0000,
            ControlPacketView::ServerHello { auth, version, .. } => auth.len() < 0x1_0000_0000
                && version.len() < 0x1_0000_0000,
            ControlPacketView::ClientHello { auth, version, info, .. } => auth.len()
                < 0x1_0000_0000 && version.len() < 0x1_0000_0000 && info.wf(),
            ControlPacketView::Ping { .. } => true,
            ControlPacketView::Pong { .. } => true,
            ControlPacketView::RpcRequest { command, .. } => command.wf(),
            ControlPacketView::RpcResponse { result, .. } => result.wf(),
            ControlPacketView::Event(ev) => ev.wf(),
            ControlPacketView::StartRecording { config } => config.wf(),
            ControlPacketView::StopRecording => true,
            ControlPacketView::StartPlayback { config } => config.wf(),
            ControlPacketView::StopPlayback => true,
        }
    }
}

/// Wire form of a `ControlPacket`: a tag byte, then the variant's fields.
pub open spec fn enc_control(v: ControlPacketView) -> Seq<u8> {
    match v {
        ControlPacketView::Discovery { protocol, port } => le_bytes(0, 1) + string_bytes(protocol)
            + le_bytes(port as int, 2),
        ControlPacketView::ServerHello { auth, version, udp_port } => le_bytes(1, 1)
            + string_bytes(auth) + string_bytes(version) + le_bytes(udp_port as int, 2),
        ControlPacketView::ClientHello { auth, version, udp_port, info } => le_bytes(2, 1)
            + string_bytes(auth) + string_bytes(version) + le_bytes(udp_port as int, 2)
            + enc_client_info(info),
        ControlPacketView::Ping { seq, timestamp_us } => le_bytes(3, 1) + le_bytes(seq as int, 4)
            + le_bytes(timestamp_us as int, 8),
        ControlPacketView::Pong { seq, client_timestamp_us, server_timestamp_us } => le_bytes(4, 1)
            + le_bytes(seq as int, 4) + le_bytes(client_timestamp_us as int, 8) + le_bytes(
            server_timestamp_us as int,
            8,
        ),
        ControlPacketView::RpcRequest { id, command, run_async, timeout_ms } => le_bytes(5, 1)
            + le_bytes(id as int, 4) + enc_command(command) + bool_byte(run_async) + opt_u64_bytes(
            timeout_ms,
        ),
        ControlPacketView::RpcResponse { id, result } => le_bytes(6, 1) + le_bytes(id as int, 4)
            + enc_command_result(result),
        ControlPacketView::Event(ev) => le_bytes(7, 1) + enc_event(ev),
        ControlPacketView::StartRecording { config } => le_bytes(8, 1) + enc_config(config),
        ControlPacketView::StopRecording => le_bytes(9, 1),
        ControlPacketView::StartPlayback { config } => le_bytes(10, 1) + enc_config(config),
        ControlPacketView::StopPlayback => le_bytes(11, 1),
    }
}

/// Parse a `ControlPacket` from the front of `s`.
pub open spec fn sd_control(s: Seq<u8>) -> Option<(ControlPacketView, Seq<u8>)> {
    match sd_le(s, 1) {
        None => None,
        Some((tag, s)) => if tag == 0 {
            match sd_string(s) {
                None => None,
                Some((protocol, s)) => match sd_le(s, 2) {
                    None => None,
                    Some((port, s)) => Some(
                        (ControlPacketView::Discovery { protocol, port: port as u16 }, s),
                    ),
                },
            }
        } else if tag == 1 {
            match sd_string(s) {
                None => None,
                Some((auth, s)) => match sd_string(s) {
                    None => None,
                    Some((version, s)) => match sd_le(s, 2) {
                        None => None,
                        Some((udp_port, s)) => Some(
                            (
                                ControlPacketView::ServerHello {
                                    auth,
                                    version,
                                    udp_port: udp_port as u16,
                                },
                                s,
                            ),
                        ),
                    },
                },
            }
        } else if tag == 2 {
            match sd_string(s) {
                None => None,
                Some((auth, s)) => match sd_string(s) {
                    None => None,
                    Some((version, s)) => match sd_le(s, 2) {
                        None => None,
                        Some((udp_port, s)) => match sd_client_info(s) {
                            None => None,
                            Some((info, s)) => Some(
                                (
                                    ControlPacketView::ClientHello {
                                        auth,
                                        version,
                                        udp_port: udp_port as u16,
                                        info,
                                    },
                                    s,
                                ),
                            ),
                        },
                    },
                },
            }
        } else if tag == 3 {
            match sd_le(s, 4) {
                None => None,
                Some((seq, s)) => match sd_le(s, 8) {
                    None => None,
                    Some((ts, s)) => Some(
                        (
                            ControlPacketView::Ping {
                                seq: seq as u32,
                                timestamp_us: ts as u64,
                            },
                            s,
                        ),
                    ),
                },
            }
        } else if tag == 4 {
            match sd_le(s, 4) {
                None => None,
                Some((seq, s)) => match sd_le(s, 8) {
                    None => None,
                    Some((cts, s)) => match sd_le(s, 8) {
                        None => None,
                        Some((sts, s)) => Some(
                            (
                                ControlPacketView::Pong {
                                    seq: seq as u32,
                                    client_timestamp_us: cts as u64,
                                    server_timestamp_us: sts as u64,
                                },
                                s,
                            ),
                        ),
                    },
                },
            }
        } else if tag == 5 {
            match sd_le(s, 4) {
                None => None,
                Some((id, s)) => match sd_command(s) {
                    None => None,
                    Some((command, s)) => match sd_bool(s) {
                        None => None,
                        Some((run_async, s)) => match sd_opt_u64(s) {
                            None => None,
                            Some((timeout_ms, s)) => Some(
                                (
                                    ControlPacketView::RpcRequest {
                                        id: id as u32,
                                        command,
                                        run_async,
                                        timeout_ms,
                                    },
                                    s,
                                ),
                            ),
                        },
                    },
                },
            }
        } else if tag == 6 {
            match sd_le(s, 4) {
                None => None,
                Some((id, s)) => match sd_command_result(s) {
                    None => None,
                    Some((result, s)) => Some(
                        (ControlPacketView::RpcResponse { id: id as u32, result }, s),
                    ),
                },
            }
        } else if tag == 7 {
            match sd_event(s) {
                None => None,
                Some((ev, s)) => Some((ControlPacketView::Event(ev), s)),
            }
        } else if tag == 8 {
            match sd_config(s) {
                None => None,
                Some((config, s)) => Some((ControlPacketView::StartRecording { config }, s)),
            }
        } else if tag == 9 {
            Some((ControlPacketView::StopRecording, s))
        } else if tag == 10 {
            match sd_config(s) {
                None => None,
                Some((config, s)) => Some((ControlPacketView::StartPlayback { config }, s)),
            }
        } else if tag == 11 {
            Some((ControlPacketView::StopPlayback, s))
        } else {
            None
        },
    }
}

/// An encoded control message reads back as the value it was written
/// from, whatever follows it in the stream.
#[verifier::rlimit(100)]
pub proof fn lemma_control_round_trip(v: ControlPacketView, rest: Seq<u8>)
    requires
        v.wf(),
    ensures
        sd_control(enc_control(v) + rest) == Some((v, rest)),
{
    match v {
        ControlPacketView::Discovery { protocol, port } => {
            lemma_control_rt_discovery(protocol, port, rest);
        },
        ControlPacketView::ServerHello { auth, version, udp_port } => {
            lemma_control_rt_server_hello(auth, version, udp_port, rest);
        },
        ControlPacketView::ClientHello { auth, version, udp_port, info } => {
            lemma_control_rt_client_hello(auth, version, udp_port, info, rest);
        },
        ControlPacketView::Ping { seq, timestamp_us } => {
            lemma_control_rt_ping(seq, timestamp_us, rest);
        },
        ControlPacketView::Pong { seq, client_timestamp_us, server_timestamp_us } => {
            lemma_control_rt_pong(seq, client_timestamp_us, server_timestamp_us, rest);
        },
        ControlPacketView::RpcRequest { id, command, run_async, timeout_ms } => {
            lemma_control_rt_rpc_request(id, command, run_async, timeout_ms, rest);
        },
        ControlPacketView::RpcResponse { id, result } => {
            lemma_control_rt_rpc_response(id, result, rest);
        },
        ControlPacketView::Event(ev) => {
            lemma_control_rt_event(ev, rest);
        },
        ControlPacketView::StartRecording { config } => {
            lemma_control_rt_start_recording(config, rest);
        },
        ControlPacketView::StopRecording => {
            lemma_pow256_values();
            lemma_sd_le(9, 1, rest);
        },
        ControlPacketView::StartPlayback { config } => {
            lemma_control_rt_start_playback(config, rest);
        },
        ControlPacketView::StopPlayback => {
            lemma_pow256_values();
            lemma_sd_le(11, 1, rest);
        },
    }
}

#[verifier::rlimit(60)]
proof fn lemma_control_rt_event(ev: EventMessageView, rest: Seq<u8>)
    requires
        ev.wf(),
    ensures
        sd_control(enc_control(ControlPacketView::Event(ev)) + rest) == Some(
            (ControlPacketView::Event(ev), rest),
        ),
{
    let v = ControlPacketView::Event(ev);
    lemma_pow256_values();
    assert(enc_control(v) + rest =~= le_bytes(7, 1) + (enc_event(ev) + rest));
    lemma_sd_le(7, 1, enc_event(ev) + rest);
    lemma_event_round_trip(ev, rest);
}

#[verifier::rlimit(60)]
proof fn lemma_control_rt_start_recording(config: AudioConfigView, rest: Seq<u8>)
    requires
        config.wf(),
    ensures
        sd_control(enc_control(ControlPacketView::StartRecording { config }) + rest) == Some(
            (ControlPacketView::StartRecording { config }, rest),
        ),
{
    let v = ControlPacketView::StartRecording { config };
    lemma_pow256_values();
    assert(enc_control(v) + rest =~= le_bytes(8, 1) + (enc_config(config) + rest));
    lemma_sd_le(8, 1, enc_config(config) + rest);
    lemma_config_round_trip(config, rest);
}

#[verifier::rlimit(60)]
proof fn lemma_control_rt_start_playback(config: AudioConfigView, rest: Seq<u8>)
    requires
        config.wf(),
    ensures
        sd_control(enc_control(ControlPacketView::StartPlayback { config }) + rest) == Some(
            (ControlPacketView::StartPlayback { config }, rest),
        ),
{
    let v = ControlPacketView::StartPlayback { config };
    lemma_pow256_values();
    assert(enc_control(v) + rest =~= le_bytes(10, 1) + (enc_config(config) + rest));
    lemma_sd_le(10, 1, enc_config(config) + rest);
    lemma_config_round_trip(config, rest);
}

#[verifier::rlimit(60)]
proof fn lemma_control_rt_discovery(protocol: Seq<char>, port: u16, rest: Seq<u8>)
    requires
        protocol.len() < 0x1_0000_0000,
    ensures
        sd_control(enc_control(ControlPacketView::Discovery { protocol, port }) + rest) == Some(
            (ControlPacketView::Discovery { protocol, port }, rest),
        ),
{
    let v = ControlPacketView::Discovery { protocol, port };
    lemma_pow256_values();
    let r2 = le_bytes(port as int, 2) + rest;
    let r1 = string_bytes(protocol) + r2;
    assert(enc_control(v) + rest =~= le_bytes(0, 1) + r1);
    lemma_sd_le(0, 1, r1);
    assert(r1 =~= string_bytes(protocol) + r2);
    lemma_sd_string(protocol, r2);
    lemma_sd_le(port as int, 2, rest);
}

#[verifier::rlimit(60)]
proof fn lemma_control_rt_server_hello(auth: Seq<char>, version: Seq<char>, udp_port: u16, rest: Seq<u8>)
    requires
        auth.len() < 0x1_0000_0000,
        version.len() < 0x1_0000_0000,
    ensures
        sd_control(enc_control(ControlPacketView::ServerHello { auth, version, udp_port }) + rest)
            == Some((ControlPacketView::ServerHello { auth, version, udp_port }, rest)),
{
    let v = ControlPacketView::ServerHello { auth, version, udp_port };
    lemma_pow256_values();
    let r3 = le_bytes(udp_port as int, 2) + rest;
    let r2 = string_bytes(version) + r3;
    let r1 = string_bytes(auth) + r2;
    assert(enc_control(v) + rest =~= le_bytes(1, 1) + r1);
    lemma_sd_le(1, 1, r1);
    assert(r1 =~= string_bytes(auth) + r2);
    lemma_sd_string(auth, r2);
    assert(r2 =~= string_bytes(version) + r3);
    lemma_sd_string(version, r3);
    lemma_sd_le(udp_port as int, 2, rest);
}

#[verifier::rlimit(60)]
proof fn lemma_control_rt_client_hello(
    auth: Seq<char>,
    version: Seq<char>,
    udp_port: u16,
    info: ClientInfoView,
    rest: Seq<u8>,
)
    requires
        auth.len() < 0x1_0000_0000,
        version.len() < 0x1_0000_0000,
        info.wf(),
    ensures
        sd_control(
            enc_control(ControlPacketView::ClientHello { auth, version, udp_port, info }) + rest,
        ) == Some((ControlPacketView::ClientHello { auth, version, udp_port, info }, rest)),
{
    let v = ControlPacketView::ClientHello { auth, version, udp_port, info };
    lemma_pow256_values();
    let r4 = enc_client_info(info) + rest;
    let r3 = le_bytes(udp_port as int, 2) + r4;
    let r2 = string_bytes(version) + r3;
    let r1 = string_bytes(auth) + r2;
    assert(enc_control(v) + rest =~= le_bytes(2, 1) + r1);
    lemma_sd_le(2, 1, r1);
    assert(r1 =~= string_bytes(auth) + r2);
    lemma_sd_string(auth, r2);
    assert(r2 =~= string_bytes(version) + r3);
    lemma_sd_string(version, r3);
    assert(r3 =~= le_bytes(udp_port as int, 2) + r4);
    lemma_sd_le(udp_port as int, 2, r4);
    lemma_client_info_round_trip(info, rest);
}

#[verifier::rlimit(60)]
proof fn lemma_control_rt_ping(seq: u32, timestamp_us: u64, rest: Seq<u8>)
    ensures
        sd_control(enc_control(ControlPacketView::Ping { seq, timestamp_us }) + rest) == Some(
            (ControlPacketView::Ping { seq, timestamp_us }, rest),
        ),
{
    let v = ControlPacketView::Ping { seq, timestamp_us };
    lemma_pow256_values();
    let r2 = le_bytes(timestamp_us as int, 8) + rest;
    let r1 = le_bytes(seq as int, 4) + r2;
    assert(enc_control(v) + rest =~= le_bytes(3, 1) + r1);
    lemma_sd_le(3, 1, r1);
    assert(r1 =~= le_bytes(seq as int, 4) + r2);
    lemma_sd_le(seq as int, 4, r2);
    lemma_sd_le(timestamp_us as int, 8, rest);
}

#[verifier::rlimit(60)]
proof fn lemma_control_rt_pong(
    seq: u32,
    client_timestamp_us: u64,
    server_timestamp_us: u64,
    rest: Seq<u8>,
)
    ensures
        sd_control(
            enc_control(
                ControlPacketView::Pong { seq, client_timestamp_us, server_timestamp_us },
            ) + rest,
        ) == Some(
            (ControlPacketView::Pong { seq, client_timestamp_us, server_timestamp_us }, rest),
        ),
{
    let v = ControlPacketView::Pong { seq, client_timestamp_us, server_timestamp_us };
    lemma_pow256_values();
    let r3 = le_bytes(server_timestamp_us as int, 8) + rest;
    let r2 = le_bytes(client_timestamp_us as int, 8) + r3;
    let r1 = le_bytes(seq as int, 4) + r2;
    assert(enc_control(v) + rest =~= le_bytes(4, 1) + r1);
    lemma_sd_le(4, 1, r1);
    assert(r1 =~= le_bytes(seq as int, 4) + r2);
    lemma_sd_le(seq as int, 4, r2);
    assert(r2 =~= le_bytes(client_timestamp_us as int, 8) + r3);
    lemma_sd_le(client_timestamp_us as int, 8, r3);
    lemma_sd_le(server_timestamp_us as int, 8, rest);
}

#[verifier::rlimit(60)]
proof fn lemma_control_rt_rpc_request(
    id: u32,
    command: CommandView,
    run_async: bool,
    timeout_ms: Option<u64>,
    rest: Seq<u8>,
)
    requires
        command.wf(),
    ensures
        sd_control(
            enc_control(ControlPacketView::RpcRequest { id, command, run_async, timeout_ms })
                + rest,
        ) == Some((ControlPacketView::RpcRequest { id, command, run_async, timeout_ms }, rest)),
{
    let v = ControlPacketView::RpcRequest { id, command, run_async, timeout_ms };
    lemma_pow256_values();
    let r4 = opt_u64_bytes(timeout_ms) + rest;
    let r3 = bool_byte(run_async) + r4;
    let r2 = enc_command(command) + r3;
    let r1 = le_bytes(id as int, 4) + r2;
    assert(enc_control(v) + rest =~= le_bytes(5, 1) + r1);
    lemma_sd_le(5, 1, r1);
    assert(r1 =~= le_bytes(id as int, 4) + r2);
    lemma_sd_le(id as int, 4, r2);
    assert(r2 =~= enc_command(command) + r3);
    lemma_command_round_trip(command, r3);
    assert(r3 =~= bool_byte(run_async) + r4);
    lemma_sd_bool(run_async, r4);
    lemma_sd_opt_u64(timeout_ms, rest);
}

#[verifier::rlimit(60)]
proof fn lemma_control_rt_rpc_response(id: u32, result: CommandResultView, rest: Seq<u8>)
    requires
        result.wf(),
    ensures
        sd_control(enc_control(ControlPacketView::RpcResponse { id, result }) + rest) == Some(
            (ControlPacketView::RpcResponse { id, result }, rest),
        ),
{
    let v = ControlPacketView::RpcResponse { id, result };
    lemma_pow256_values();
    let r2 = enc_command_result(result) + rest;
    let r1 = le_bytes(id as int, 4) + r2;
    assert(enc_control(v) + rest =~= le_bytes(6, 1) + r1);
    lemma_sd_le(6, 1, r1);
    assert(r1 =~= le_bytes(id as int, 4) + r2);
    lemma_sd_le(id as int, 4, r2);
    lemma_command_result_round_trip(result, rest);
}

/// The value a whole byte string holds, when it is exactly one encoded
/// control message.
pub open spec fn spec_control_from_bytes(s: Seq<u8>) -> Option<ControlPacketView> {
    match sd_control(s) {
        None => None,
        Some((v, rem)) => if rem.len() == 0 {
            Some(v)
        } else {
            None
        },
    }
}

/// Encoding then decoding any well-formed control message gives it back.
pub proof fn lemma_control_bytes_inverse(v: ControlPacketView)
    requires
        v.wf(),
    ensures
        spec_control_from_bytes(enc_control(v)) == Some(v),
{
    lemma_control_round_trip(v, Seq::empty());
    assert(enc_control(v) + Seq::<u8>::empty() =~= enc_control(v));
}

impl ControlPacket {
    /// Runtime check of the wire bounds that encoding needs.
    pub fn wf_check(&self) -> (r: bool)
        ensures
            r == self@.wf(),
    {
        match self {
            ControlPacket::Discovery { protocol, .. } => str_len_ok(protocol),
            ControlPacket::ServerHello { auth, version, .. } => str_len_ok(auth) && str_len_ok(
                version,
            ),
            ControlPacket::ClientHello { auth, version, info, .. } => str_len_ok(auth)
                && str_len_ok(version) && str_len_ok(&info.model) && str_len_ok(
                &info.serial_number,
            ),
            ControlPacket::Ping { .. } => true,
            ControlPacket::Pong { .. } => true,
            ControlPacket::RpcRequest { command, .. } => command.wf_check(),
            ControlPacket::RpcResponse { result, .. } => result.wf_check(),
            ControlPacket::Event(ev) => str_len_ok(&ev.name) && (ev.payload.len() as u64)
                < 0x1_0000_0000u64,
            ControlPacket::StartRecording { config } => config_wf_check(config),
            ControlPacket::StopRecording => true,
            ControlPacket::StartPlayback { config } => config_wf_check(config),
            ControlPacket::StopPlayback => true,
        }
    }
}

/// Append the wire form of `v` to `out`.
#[verifier::rlimit(100)]
pub fn enc_control_exec(v: &ControlPacket, out: &mut Vec<u8>)
    requires
        v@.wf(),
    ensures
        final(out)@ == old(out)@ + enc_control(v@),
{
    proof {
        lemma_pow256_values();
    }
    match v {
        ControlPacket::Discovery { protocol, port } => {
            enc_le(0, 1, out);
            enc_string(protocol, out);
            enc_u16(*port, out);
            assert(out@ =~= old(out)@ + enc_control(v@));
        },
        ControlPacket::ServerHello { auth, version, udp_port } => {
            enc_le(1, 1, out);
            enc_string(auth, out);
            enc_string(version, out);
            enc_u16(*udp_port, out);
            assert(out@ =~= old(out)@ + enc_control(v@));
        },
        ControlPacket::ClientHello { auth, version, udp_port, info } => {
            enc_le(2, 1, out);
            enc_string(auth, out);
            enc_string(version, out);
            assert(out@ =~= old(out)@ + (le_bytes(2, 1) + string_bytes(auth@) + string_bytes(
                version@,
            )));
            enc_u16(*udp_port, out);
            enc_client_info_exec(info, out);
            assert(out@ =~= old(out)@ + enc_control(v@));
        },
        ControlPacket::Ping { seq, timestamp_us } => {
            enc_le(3, 1, out);
            enc_u32(*seq, out);
            enc_u64(*timestamp_us, out);
            assert(out@ =~= old(out)@ + enc_control(v@));
        },
        ControlPacket::Pong { seq, client_timestamp_us, server_timestamp_us } => {
            enc_le(4, 1, out);
            enc_u32(*seq, out);
            enc_u64(*client_timestamp_us, out);
            enc_u64(*server_timestamp_us, out);
            assert(out@ =~= old(out)@ + enc_control(v@));
        },
        ControlPacket::RpcRequest { id, command, run_async, timeout_ms } => {
            enc_le(5, 1, out);
            enc_u32(*id, out);
            enc_command_exec(command, out);
            assert(out@ =~= old(out)@ + (le_bytes(5, 1) + le_bytes(*id as int, 4) + enc_command(
                command@,
            )));
            enc_bool(*run_async, out);
            enc_opt_u64(timeout_ms, out);
            assert(out@ =~= old(out)@ + enc_control(v@));
        },
        ControlPacket::RpcResponse { id, result } => {
            enc_le(6, 1, out);
            enc_u32(*id, out);
            enc_command_result_exec(result, out);
            assert(out@ =~= old(out)@ + enc_control(v@));
        },
        ControlPacket::Event(ev) => {
            enc_le(7, 1, out);
            enc_event_exec(ev, out);
            assert(out@ =~= old(out)@ + enc_control(v@));
        },
        ControlPacket::StartRecording { config } => {
            enc_le(8, 1, out);
            enc_config_exec(config, out);
            assert(out@ =~= old(out)@ + enc_control(v@));
        },
        ControlPacket::StopRecording => {
            enc_le(9, 1, out);
        },
        ControlPacket::StartPlayback { config } => {
            enc_le(10, 1, out);
            enc_config_exec(config, out);
            assert(out@ =~= old(out)@ + enc_control(v@));
        },
        ControlPacket::StopPlayback => {
            enc_le(11, 1, out);
        },
    }
}

/// Read a `ControlPacket` at cursor `i`, advancing it.
pub fn rd_control(b: &Vec<u8>, i: &mut usize) -> (r: Option<ControlPacket>)
    requires
        *old(i) <= b.len(),
    ensures
        r is None ==> sd_control(b@.skip(*old(i) as int)) is None,
        r matches Some(v) ==> *old(i) <= *final(i) <= b.len() && sd_control(
            b@.skip(*old(i) as int),
        ) == Some((v@, b@.skip(*final(i) as int))),
{
    let tag: u8 = match rd_u8(b, i) {
        None => {
            return None;
        },
        Some(v) => v,
    };
    if tag == 0 {
        let protocol: String = match rd_string(b, i) {
            None => {
                return None;
            },
            Some(v) => v,
        };
        match rd_u16(b, i) {
            None => None,
            Some(port) => Some(ControlPacket::Discovery { protocol, port }),
        }
    } else if tag == 1 {
        let auth: String = match rd_string(b, i) {
            None => {
                return None;
            },
            Some(v) => v,
        };
        let version: String = match rd_string(b, i) {
            None => {
                return None;
            },
            Some(v) => v,
        };
        match rd_u16(b, i) {
            None => None,
            Some(udp_port) => Some(ControlPacket::ServerHello { auth, version, udp_port }),
        }
    } else if tag == 2 {
        let auth: String = match rd_string(b, i) {
            None => {
                return None;
            },
            Some(v) => v,
        };
        let version: String = match rd_string(b, i) {
            None => {
                return None;
            },
            Some(v) => v,
        };
        let udp_port: u16 = match rd_u16(b, i) {
            None => {
                return None;
            },
            Some(v) => v,
        };
        match rd_client_info(b, i) {
            None => None,
            Some(info) => Some(ControlPacket::ClientHello { auth, version, udp_port, info }),
        }
    } else if tag == 3 {
        let seq: u32 = match rd_u32(b, i) {
            None => {
                return None;
            },
            Some(v) => v,
        };
        match rd_u64(b, i) {
            None => None,
            Some(timestamp_us) => Some(ControlPacket::Ping { seq, timestamp_us }),
        }
    } else if tag == 4 {
        let seq: u32 = match rd_u32(b, i) {
            None => {
                return None;
            },
            Some(v) => v,
        };
        let client_timestamp_us: u64 = match rd_u64(b, i) {
            None => {
                return None;
            },
            Some(v) => v,
        };
        match rd_u64(b, i) {
            None => None,
            Some(server_timestamp_us) => Some(
                ControlPacket::Pong { seq, client_timestamp_us, server_timestamp_us },
            ),
        }
    } else if tag == 5 {
        let id: u32 = match rd_u32(b, i) {
            None => {
                return None;
            },
            Some(v) => v,
        };
        let command: Command = match rd_command(b, i) {
            None => {
                return None;
            },
            Some(v) => v,
        };
        let run_async: bool = match rd_bool(b, i) {
            None => {
                return None;
            },
            Some(v) => v,
        };
        match rd_opt_u64(b, i) {
            None => None,
            Some(timeout_ms) => Some(
                ControlPacket::RpcRequest { id, command, run_async, timeout_ms },
            ),
        }
    } else if tag == 6 {
        let id: u32 = match rd_u32(b, i) {
            None => {
                return None;
            },
            Some(v) => v,
        };
        match rd_command_result(b, i) {
            None => None,
            Some(result) => Some(ControlPacket::RpcResponse { id, result }),
        }
    } else if tag == 7 {
        match rd_event(b, i) {
            None => None,
            Some(ev) => Some(ControlPacket::Event(ev)),
        }
    } else if tag == 8 {
        match rd_config(b, i) {
            None => None,
            Some(config) => Some(ControlPacket::StartRecording { config }),
        }
    } else if tag == 9 {
        Some(ControlPacket::StopRecording)
    } else if tag == 10 {
        match rd_config(b, i) {
            None => None,
            Some(config) => Some(ControlPacket::StartPlayback { config }),
        }
    } else if tag == 11 {
        Some(ControlPacket::StopPlayback)
    } else {
        None
    }
}

/// Encode `msg` as bytes.  `None` exactly when a string or byte block in
/// it is over its wire bound.
pub fn control_to_bytes(msg: &ControlPacket) -> (r: Option<Vec<u8>>)
    ensures
        r is None <==> !msg@.wf(),
        r matches Some(v) ==> v@ == enc_control(msg@),
{
    if !msg.wf_check() {
        return None;
    }
    let mut out: Vec<u8> = Vec::new();
    enc_control_exec(msg, &mut out);
    Some(out)
}

/// Decode bytes that must hold exactly one control message.
pub fn control_from_bytes(b: &Vec<u8>) -> (r: Option<ControlPacket>)
    ensures
        r is None ==> spec_control_from_bytes(b@) is None,
        r matches Some(m) ==> spec_control_from_bytes(b@) == Some(m@),
{
    proof {
        assert(b@.skip(0) =~= b@);
    }
    let mut i: usize = 0;
    match rd_control(b, &mut i) {
        None => None,
        Some(m) => {
            if i == b.len() {
                proof {
                    assert(b@.skip(i as int) =~= Seq::<u8>::empty());
                }
                Some(m)
            } else {
                None
            }
        },
    }
}

/// A control frame on TCP: four big-endian length bytes, then the body.
pub open spec fn frame_bytes(body: Seq<u8>) -> Seq<u8> {
    be_bytes(body.len() as int, 4) + body
}

/// Frame `msg` for the TCP channel.  `None` exactly when the message is
/// not well formed or its body is over the frame bound.
pub fn control_frame_bytes(msg: &ControlPacket) -> (r: Option<Vec<u8>>)
    ensures
        r is None <==> (!msg@.wf() || enc_control(msg@).len() > crate::MAX_FRAME_LEN),
        r matches Some(v) ==> v@ == frame_bytes(enc_control(msg@)),
{
    let body: Vec<u8> = match control_to_bytes(msg) {
        None => {
            return None;
        },
        Some(v) => v,
    };
    if body.len() > crate::MAX_FRAME_LEN as usize {
        return None;
    }
    proof {
        lemma_pow256_values();
    }
    let mut out: Vec<u8> = Vec::new();
    enc_be(body.len() as u128, 4, &mut out);
    let ghost head = out@;
    let mut k: usize = 0;
    while k < body.len()
        invariant
            k <= body.len(),
            out@ == head + body@.subrange(0, k as int),
        decreases body.len() - k,
    {
        out.push(body[k]);
        assert(out@ =~= head + body@.subrange(0, (k + 1) as int));
        k = k + 1;
    }
    proof {
        assert(body@.subrange(0, body@.len() as int) =~= body@);
        assert(out@ =~= frame_bytes(enc_control(msg@)));
    }
    Some(out)
}

/// The body length a frame header announces.  `None` when fewer than
/// four bytes have arrived.
pub fn frame_body_len(b: &Vec<u8>) -> (r: Option<u32>)
    ensures
        b@.len() >= 4 ==> r == Some((be_val(b@.subrange(0, 4)) as u32)),
        b@.len() < 4 ==> r is None,
{
    if b.len() < 4 {
        return None;
    }
    let v: u128 = dec_be(b, 0, 4);
    proof {
        lemma_be_val_bound(b@.subrange(0, 4));
        lemma_pow256_values();
    }
    Some(v as u32)
}

/// Whether an announced body length is within the frame bound.  A peer
/// that announces more closes the connection.
pub fn frame_len_accepted(n: u32) -> (r: bool)
    ensures
        r == (n <= crate::MAX_FRAME_LEN),
{
    n <= crate::MAX_FRAME_LEN
}

} // verus!
