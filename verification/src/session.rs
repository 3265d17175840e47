//! Sessions and their registry: the post-handshake association between
//! one peer pair, the pipelines it owns, its pending calls, and the
//! manager that keeps one session per TCP peer address.

use vstd::prelude::*;
use crate::Endpoint;
use crate::clock::ClockState;
use crate::config::AudioConfig;
use crate::protocol::{ClientInfo, ControlPacket, ControlPacketView};
use crate::rpc::RpcManager;

verus! {

/// Which peer said what during the handshake, when it went wrong.
#[derive(Debug, Clone, Copy, PartialEq, Eq, Structural)]
pub enum HandshakeError {
    /// The peer speaks another protocol version.
    VersionMismatch,
    /// The peer's authentication string is not the expected one.
    AuthMismatch,
    /// The first message was not the expected hello.
    UnexpectedMessage,
}

/// The server's identity and expectations.
#[derive(Debug, Clone)]
pub struct ServerConfig {
    /// Protocol version both sides must speak.
    pub version: String,
    /// What the server sends as its own authentication.
    pub client_auth: String,
    /// What the server expects in a client hello.
    pub server_auth: String,
    /// Seconds of silence after which a session is torn down.
    pub timeout: u64,
}

impl Default for ServerConfig {
    fn default() -> (r: ServerConfig)
        ensures
            r.version@ == "2.0.0"@,
            r.client_auth@ == "xiao-client"@,
            r.server_auth@ == "xiao-server"@,
            r.timeout == 60,
    {
        ServerConfig {
            version: "2.0.0".to_owned(),
            client_auth: "xiao-client".to_owned(),
            server_auth: "xiao-server".to_owned(),
            timeout: 60,
        }
    }
}

/// The client's identity and expectations.
#[derive(Debug, Clone)]
pub struct ClientConfig {
    /// Model name announced in the hello.
    pub model: String,
    /// Serial number announced in the hello.
    pub serial_number: String,
    /// Protocol version both sides must speak.
    pub version: String,
    /// What the client sends as its own authentication.
    pub server_auth: String,
    /// What the client expects in a server hello.
    pub client_auth: String,
    /// Seconds between heartbeats.
    pub heartbeat_interval: u64,
    /// Seconds of silence after which the connection is abandoned.
    pub timeout: u64,
}

impl Default for ClientConfig {
    fn default() -> (r: ClientConfig)
        ensures
            r.model@ == "Open-XiaoAi-V2"@,
            r.serial_number@ == "00:00:00:00:00:00"@,
            r.version@ == "2.0.0"@,
            r.server_auth@ == "xiao-server"@,
            r.client_auth@ == "xiao-client"@,
            r.heartbeat_interval == 10,
            r.timeout == 60,
    {
        ClientConfig {
            model: "Open-XiaoAi-V2".to_owned(),
            serial_number: "00:00:00:00:00:00".to_owned(),
            version: "2.0.0".to_owned(),
            server_auth: "xiao-server".to_owned(),
            client_auth: "xiao-client".to_owned(),
            heartbeat_interval: 10,
            timeout: 60,
        }
    }
}

/// The server's gate on a client hello: right message, right version,
/// right authentication — in that order of checking.
pub fn check_client_hello(msg: &ControlPacket, cfg: &ServerConfig) -> (r: Result<
    (ClientInfo, u16),
    HandshakeError,
>)
    ensures
        !(msg@ is ClientHello) ==> r == Err::<(ClientInfo, u16), HandshakeError>(
            HandshakeError::UnexpectedMessage,
        ),
        msg@ matches ControlPacketView::ClientHello { auth, version, udp_port, info } ==> {
            &&& (version != cfg.version@ ==> r == Err::<(ClientInfo, u16), HandshakeError>(
                HandshakeError::VersionMismatch,
            ))
            &&& (version == cfg.version@ && auth != cfg.server_auth@ ==> r == Err::<
                (ClientInfo, u16),
                HandshakeError,
            >(HandshakeError::AuthMismatch))
            &&& (version == cfg.version@ && auth == cfg.server_auth@ ==> (r matches Ok(p)
                && p.0@ == info && p.1 == udp_port))
        },
{
    match msg {
        ControlPacket::ClientHello { auth, version, udp_port, info } => {
            if !(*version == cfg.version) {
                Err(HandshakeError::VersionMismatch)
            } else if !(*auth == cfg.server_auth) {
                Err(HandshakeError::AuthMismatch)
            } else {
                let echoed = ClientInfo {
                    model: info.model.clone(),
                    serial_number: info.serial_number.clone(),
                };
                Ok((echoed, *udp_port))
            }
        },
        _ => Err(HandshakeError::UnexpectedMessage),
    }
}

/// The client's gate on a server hello, mirror of the server's.
pub fn check_server_hello(msg: &ControlPacket, cfg: &ClientConfig) -> (r: Result<
    u16,
    HandshakeError,
>)
    ensures
        !(msg@ is ServerHello) ==> r == Err::<u16, HandshakeError>(
            HandshakeError::UnexpectedMessage,
        ),
        msg@ matches ControlPacketView::ServerHello { auth, version, udp_port } ==> {
            &&& (version != cfg.version@ ==> r == Err::<u16, HandshakeError>(
                HandshakeError::VersionMismatch,
            ))
            &&& (version == cfg.version@ && auth != cfg.client_auth@ ==> r == Err::<
                u16,
                HandshakeError,
            >(HandshakeError::AuthMismatch))
            &&& (version == cfg.version@ && auth == cfg.client_auth@ ==> r == Ok::<
                u16,
                HandshakeError,
            >(udp_port))
        },
{
    match msg {
        ControlPacket::ServerHello { auth, version, udp_port } => {
            if !(*version == cfg.version) {
                Err(HandshakeError::VersionMismatch)
            } else if !(*auth == cfg.client_auth) {
                Err(HandshakeError::AuthMismatch)
            } else {
                Ok(*udp_port)
            }
        },
        _ => Err(HandshakeError::UnexpectedMessage),
    }
}

/// Stands for one running pipeline task; stopping it is recorded here
/// and mirrored onto the task's cancellation signal by the runtime glue.
#[derive(Debug, Clone, Copy, PartialEq, Eq, Structural)]
pub struct PipelineHandle {
    pub stopped: bool,
}

impl PipelineHandle {
    pub fn new() -> (r: PipelineHandle)
        ensures
            !r.stopped,
    {
        PipelineHandle { stopped: false }
    }

    /// Ask the pipeline to stop.
    pub fn stop(&mut self)
        ensures
            final(self).stopped,
    {
        self.stopped = true;
    }

    pub fn is_stopped(&self) -> (r: bool)
        ensures
            r == self.stopped,
    {
        self.stopped
    }
}

/// Stands for one running server-side stream task.
#[derive(Debug, Clone, Copy, PartialEq, Eq, Structural)]
pub struct StreamHandle {
    pub stopped: bool,
}

impl StreamHandle {
    pub fn new() -> (r: StreamHandle)
        ensures
            !r.stopped,
    {
        StreamHandle { stopped: false }
    }

    /// Ask the stream to stop.
    pub fn stop(&mut self)
        ensures
            final(self).stopped,
    {
        self.stopped = true;
    }

    pub fn is_stopped(&self) -> (r: bool)
        ensures
            r == self.stopped,
    {
        self.stopped
    }
}

/// A session owns at most one record pipeline and one playback pipeline;
/// starting a new one replaces the old.
#[derive(Debug, Clone, Copy, PartialEq, Eq, Structural)]
pub struct ActivePipelines {
    pub recorder: Option<PipelineHandle>,
    pub player: Option<PipelineHandle>,
}

impl Default for ActivePipelines {
    fn default() -> (r: ActivePipelines)
        ensures
            r.recorder is None,
            r.player is None,
    {
        ActivePipelines { recorder: None, player: None }
    }
}

impl ActivePipelines {
    /// Drop both pipelines.
    pub fn stop_all(&mut self)
        ensures
            final(self).recorder is None,
            final(self).player is None,
    {
        self.recorder = None;
        self.player = None;
    }

    /// Replace the record pipeline; the prior one, if any, is dropped.
    pub fn start_recording(&mut self, handle: PipelineHandle)
        ensures
            final(self).recorder == Some(handle),
            final(self).player == old(self).player,
    {
        self.recorder = Some(handle);
    }

    pub fn stop_recording(&mut self)
        ensures
            final(self).recorder is None,
            final(self).player == old(self).player,
    {
        self.recorder = None;
    }

    /// Replace the playback pipeline; the prior one, if any, is dropped.
    pub fn start_playback(&mut self, handle: PipelineHandle)
        ensures
            final(self).player == Some(handle),
            final(self).recorder == old(self).recorder,
    {
        self.player = Some(handle);
    }

    pub fn stop_playback(&mut self)
        ensures
            final(self).player is None,
            final(self).recorder == old(self).recorder,
    {
        self.player = None;
    }

    pub fn is_recording(&self) -> (r: bool)
        ensures
            r == (self.recorder is Some),
    {
        self.recorder.is_some()
    }

    pub fn is_playing(&self) -> (r: bool)
        ensures
            r == (self.player is Some),
    {
        self.player.is_some()
    }
}

/// A session owns at most one recorder stream and one playback stream on
/// the server side as well.
#[derive(Debug, Clone, Copy, PartialEq, Eq, Structural)]
pub struct ActiveStreams {
    pub recorder: Option<StreamHandle>,
    pub playback: Option<StreamHandle>,
}

impl Default for ActiveStreams {
    fn default() -> (r: ActiveStreams)
        ensures
            r.recorder is None,
            r.playback is None,
    {
        ActiveStreams { recorder: None, playback: None }
    }
}

impl ActiveStreams {
    /// Drop both streams.
    pub fn stop_all(&mut self)
        ensures
            final(self).recorder is None,
            final(self).playback is None,
    {
        self.recorder = None;
        self.playback = None;
    }

    /// Replace the recorder stream; the prior one, if any, is dropped.
    pub fn start_recording(&mut self, handle: StreamHandle)
        ensures
            final(self).recorder == Some(handle),
            final(self).playback == old(self).playback,
    {
        self.recorder = Some(handle);
    }

    pub fn stop_recording(&mut self)
        ensures
            final(self).recorder is None,
            final(self).playback == old(self).playback,
    {
        self.recorder = None;
    }

    /// Replace the playback stream; the prior one, if any, is dropped.
    pub fn start_playback(&mut self, handle: StreamHandle)
        ensures
            final(self).playback == Some(handle),
            final(self).recorder == old(self).recorder,
    {
        self.playback = Some(handle);
    }

    pub fn stop_playback(&mut self)
        ensures
            final(self).playback is None,
            final(self).recorder == old(self).recorder,
    {
        self.playback = None;
    }

    pub fn is_recording(&self) -> (r: bool)
        ensures
            r == (self.recorder is Some),
    {
        self.recorder.is_some()
    }

    pub fn is_playing(&self) -> (r: bool)
        ensures
            r == (self.playback is Some),
    {
        self.playback.is_some()
    }
}

/// The state of one peer association: who the peer is, where its audio
/// goes, which pipelines run, which calls are pending, the clock offset
/// estimate, and the playback volume.
#[derive(Debug)]
pub struct Session {
    /// What the client said about itself.
    pub info: ClientInfo,
    /// The TCP peer address; it identifies the session.
    pub tcp_addr: Endpoint,
    /// The peer's UDP audio address.
    pub audio_addr: Endpoint,
    /// Whether the session has been cancelled.
    pub cancelled: bool,
    /// The pipelines this session owns.
    pub pipelines: ActivePipelines,
    /// The configuration recording runs under, while it does.
    pub recording_config: Option<AudioConfig>,
    /// Outstanding calls.
    pub rpc: RpcManager,
    /// The offset estimate against the peer clock.
    pub clock: ClockState,
    /// Playback volume, 0 to 100.
    pub volume: u8,
    /// When the session was created, in seconds.
    pub created_at_secs: u64,
}

impl Session {
    pub open spec fn wf(self) -> bool {
        &&& self.rpc.wf()
        &&& self.clock.wf()
    }

    /// A fresh, live session with no pipelines and no pending calls.
    pub fn new(info: ClientInfo, tcp_addr: Endpoint, audio_addr: Endpoint, now_secs: u64) -> (r:
        Session)
        ensures
            r.wf(),
            r.info == info,
            r.tcp_addr == tcp_addr,
            r.audio_addr == audio_addr,
            !r.cancelled,
            r.pipelines.recorder is None,
            r.pipelines.player is None,
            r.recording_config is None,
            r.rpc.pending_spec() == Seq::<u32>::empty(),
            r.volume == 100,
            r.created_at_secs == now_secs,
    {
        Session {
            info,
            tcp_addr,
            audio_addr,
            cancelled: false,
            pipelines: ActivePipelines::default(),
            recording_config: None,
            rpc: RpcManager::new(),
            clock: ClockState::new(),
            volume: 100,
            created_at_secs: now_secs,
        }
    }

    /// The session's identifier: its TCP peer address.
    pub fn id(&self) -> (r: Endpoint)
        ensures
            r == self.tcp_addr,
    {
        self.tcp_addr
    }

    /// A session stays alive until it is cancelled.
    pub fn is_alive(&self) -> (r: bool)
        ensures
            r == !self.cancelled,
    {
        !self.cancelled
    }

    /// Seconds since creation, by the given clock.
    pub fn uptime_secs(&self, now_secs: u64) -> (r: u64)
        ensures
            now_secs >= self.created_at_secs ==> r == now_secs - self.created_at_secs,
            now_secs < self.created_at_secs ==> r == 0,
    {
        if now_secs >= self.created_at_secs {
            now_secs - self.created_at_secs
        } else {
            0
        }
    }

    /// Set the playback volume, clamped to 100; the previous volume is
    /// returned.
    pub fn set_volume(&mut self, vol: u8) -> (prev: u8)
        ensures
            prev == old(self).volume,
            final(self).volume == (if vol > 100 {
                100u8
            } else {
                vol
            }),
            *final(self) == (Session { volume: final(self).volume, ..*old(self) }),
    {
        let prev: u8 = self.volume;
        self.volume = if vol > 100 {
            100
        } else {
            vol
        };
        prev
    }

    /// Mark a recording started under `config`.
    pub fn start_recording(&mut self, handle: PipelineHandle, config: AudioConfig)
        ensures
            final(self).pipelines.recorder == Some(handle),
            final(self).pipelines.player == old(self).pipelines.player,
            final(self).recording_config == Some(config),
            final(self).rpc == old(self).rpc,
            final(self).clock == old(self).clock,
            final(self).cancelled == old(self).cancelled,
    {
        self.pipelines.start_recording(handle);
        self.recording_config = Some(config);
    }

    /// Mark recording stopped.
    pub fn stop_recording(&mut self)
        ensures
            final(self).pipelines.recorder is None,
            final(self).pipelines.player == old(self).pipelines.player,
            final(self).recording_config is None,
            final(self).rpc == old(self).rpc,
            final(self).clock == old(self).clock,
            final(self).cancelled == old(self).cancelled,
    {
        self.pipelines.stop_recording();
        self.recording_config = None;
    }

    /// Mark a playback started.
    pub fn start_playback(&mut self, handle: PipelineHandle)
        ensures
            final(self).pipelines.player == Some(handle),
            final(self).pipelines.recorder == old(self).pipelines.recorder,
            final(self).rpc == old(self).rpc,
            final(self).clock == old(self).clock,
            final(self).cancelled == old(self).cancelled,
    {
        self.pipelines.start_playback(handle);
    }

    /// Mark playback stopped.
    pub fn stop_playback(&mut self)
        ensures
            final(self).pipelines.player is None,
            final(self).pipelines.recorder == old(self).pipelines.recorder,
            final(self).rpc == old(self).rpc,
            final(self).clock == old(self).clock,
            final(self).cancelled == old(self).cancelled,
    {
        self.pipelines.stop_playback();
    }

    pub fn is_recording(&self) -> (r: bool)
        ensures
            r == (self.pipelines.recorder is Some),
    {
        self.pipelines.is_recording()
    }

    pub fn is_playing(&self) -> (r: bool)
        ensures
            r == (self.pipelines.player is Some),
    {
        self.pipelines.is_playing()
    }

    /// Tear the session down: cancel it, stop both pipelines, and drop
    /// every pending call.
    pub fn cleanup(&mut self)
        requires
            old(self).wf(),
        ensures
            final(self).wf(),
            final(self).cancelled,
            final(self).pipelines.recorder is None,
            final(self).pipelines.player is None,
            final(self).rpc.pending_spec() == Seq::<u32>::empty(),
            final(self).info == old(self).info,
            final(self).tcp_addr == old(self).tcp_addr,
            final(self).audio_addr == old(self).audio_addr,
    {
        self.cancelled = true;
        self.pipelines.stop_all();
        self.rpc.cancel_all();
    }
}

/// The first session in `s` whose TCP address is `tcp`.
pub open spec fn find_tcp(s: Seq<Session>, tcp: Endpoint) -> Option<Session>
    decreases s.len(),
{
    if s.len() == 0 {
        None
    } else if s[0].tcp_addr == tcp {
        Some(s[0])
    } else {
        find_tcp(s.skip(1), tcp)
    }
}

/// The first session in `s` whose UDP audio address is `udp`.
pub open spec fn find_udp(s: Seq<Session>, udp: Endpoint) -> Option<Session>
    decreases s.len(),
{
    if s.len() == 0 {
        None
    } else if s[0].audio_addr == udp {
        Some(s[0])
    } else {
        find_udp(s.skip(1), udp)
    }
}

/// What `find_tcp` returns carries the address it was looked up by.
pub proof fn lemma_find_tcp_addr(s: Seq<Session>, tcp: Endpoint)
    ensures
        find_tcp(s, tcp) matches Some(x) ==> x.tcp_addr == tcp,
    decreases s.len(),
{
    if s.len() > 0 && !(s[0].tcp_addr == tcp) {
        lemma_find_tcp_addr(s.skip(1), tcp);
    }
}

/// The registry of live sessions, at most one per TCP peer address and
/// one per UDP audio address.
#[derive(Debug)]
pub struct SessionManager {
    sessions: Vec<Session>,
}

impl SessionManager {
    /// The registered sessions, oldest first.
    pub closed spec fn sessions_spec(self) -> Seq<Session> {
        self.sessions@
    }

    /// The session registered for a TCP peer address.
    pub open spec fn spec_get(self, tcp: Endpoint) -> Option<Session> {
        find_tcp(self.sessions_spec(), tcp)
    }

    /// The session registered for a UDP audio address.
    pub open spec fn spec_get_by_udp(self, udp: Endpoint) -> Option<Session> {
        find_udp(self.sessions_spec(), udp)
    }

    /// No two sessions share a TCP address or a UDP audio address, and
    /// every registered session is itself well formed.
    pub closed spec fn wf(self) -> bool {
        &&& forall|i: int, j: int|
            0 <= i < j < self.sessions@.len() ==> self.sessions@[i].tcp_addr
                != self.sessions@[j].tcp_addr && self.sessions@[i].audio_addr
                != self.sessions@[j].audio_addr
        &&& forall|i: int| 0 <= i < self.sessions@.len() ==> (#[trigger] self.sessions@[i]).wf()
    }

    /// An empty registry.
    pub fn new() -> (r: SessionManager)
        ensures
            r.wf(),
            r.sessions_spec() == Seq::<Session>::empty(),
    {
        SessionManager { sessions: Vec::new() }
    }

    /// How many sessions are registered.
    pub fn count(&self) -> (r: usize)
        ensures
            r == self.sessions_spec().len(),
    {
        self.sessions.len()
    }

    /// Register a session.  Any session already holding its TCP or UDP
    /// address is dropped first, so each address maps to one session.
    pub fn register(&mut self, session: Session)
        requires
            old(self).wf(),
            session.wf(),
        ensures
            final(self).wf(),
            final(self).spec_get(session.tcp_addr) == Some(session),
            final(self).sessions_spec().last() == session,
            forall|i: int|
                0 <= i < final(self).sessions_spec().len() - 1 ==> old(self).sessions_spec().contains(#[trigger] final(self).sessions_spec()[i]) && final(self).sessions_spec()[i].tcp_addr != session.tcp_addr,
    {
        let ghost olds = self.sessions@;
        let mut k: usize = 0;
        #[verifier::loop_isolation(false)]
        while k < self.sessions.len()
            invariant
                k <= self.sessions.len(),
                forall|i: int|
                    0 <= i < k ==> #[trigger] self.sessions@[i].tcp_addr != session.tcp_addr
                        && self.sessions@[i].audio_addr != session.audio_addr,
                forall|i: int|
                    0 <= i < self.sessions@.len() ==> olds.contains(
                        #[trigger] self.sessions@[i],
                    ),
                forall|i: int, j: int|
                    0 <= i < j < self.sessions@.len() ==> self.sessions@[i].tcp_addr
                        != self.sessions@[j].tcp_addr && self.sessions@[i].audio_addr
                        != self.sessions@[j].audio_addr,
                forall|i: int|
                    0 <= i < self.sessions@.len() ==> (#[trigger] self.sessions@[i]).wf(),
            decreases self.sessions.len() - k,
        {
            let same_tcp: bool = self.sessions[k].tcp_addr == session.tcp_addr;
            let same_udp: bool = self.sessions[k].audio_addr == session.audio_addr;
            if same_tcp || same_udp {
                let ghost pre = self.sessions@;
                self.sessions.remove(k);
                proof {
                    let newp = self.sessions@;
                    assert forall|i: int|
                        0 <= i < newp.len() implies olds.contains(#[trigger] newp[i]) by {
                        if i < k {
                            assert(newp[i] == pre[i]);
                        } else {
                            assert(newp[i] == pre[i + 1]);
                        }
                    }
                    assert forall|i: int, j: int|
                        0 <= i < j < newp.len() implies newp[i].tcp_addr != newp[j].tcp_addr
                        && newp[i].audio_addr != newp[j].audio_addr by {
                        let io = if i < k { i } else { i + 1 };
                        let jo = if j < k { j } else { j + 1 };
                        assert(newp[i] == pre[io]);
                        assert(newp[j] == pre[jo]);
                    }
                    assert forall|i: int| 0 <= i < newp.len() implies (
                    #[trigger] newp[i]).wf() by {
                        if i < k {
                            assert(newp[i] == pre[i]);
                        } else {
                            assert(newp[i] == pre[i + 1]);
                        }
                    }
                }
            } else {
                k = k + 1;
            }
        }
        let ghost kept = self.sessions@;
        self.sessions.push(session);
        proof {
            let full = self.sessions@;
            assert(full.last() == session);
            assert forall|i: int, j: int|
                0 <= i < j < full.len() implies full[i].tcp_addr != full[j].tcp_addr
                && full[i].audio_addr != full[j].audio_addr by {
                if j == full.len() - 1 {
                    assert(full[i] == kept[i]);
                    assert(kept[i].tcp_addr != session.tcp_addr);
                    assert(kept[i].audio_addr != session.audio_addr);
                } else {
                    assert(full[i] == kept[i]);
                    assert(full[j] == kept[j]);
                }
            }
            assert forall|i: int| 0 <= i < full.len() implies (#[trigger] full[i]).wf() by {
                if i < full.len() - 1 {
                    assert(full[i] == kept[i]);
                }
            }
            lemma_find_tcp_last(full, session.tcp_addr);
        }
    }

    /// Remove and tear down the session at a TCP peer address, handing
    /// back its final state.
    pub fn unregister(&mut self, tcp_addr: Endpoint) -> (r: Option<Session>)
        requires
            old(self).wf(),
        ensures
            final(self).wf(),
            r is Some <==> old(self).spec_get(tcp_addr) is Some,
            r matches Some(s) ==> s.tcp_addr == tcp_addr && s.cancelled
                && s.pipelines.recorder is None && s.pipelines.player is None
                && s.rpc.pending_spec() == Seq::<u32>::empty(),
            final(self).spec_get(tcp_addr) is None,
            forall|i: int|
                0 <= i < final(self).sessions_spec().len() ==> old(self).sessions_spec().contains(#[trigger] final(self).sessions_spec()[i]) && final(self).sessions_spec()[i].tcp_addr != tcp_addr,
    {
        let ghost olds = self.sessions@;
        let mut k: usize = 0;
        #[verifier::loop_isolation(false)]
        while k < self.sessions.len()
            invariant
                k <= self.sessions.len(),
                self.sessions@ == olds,
                forall|i: int| 0 <= i < k ==> #[trigger] olds[i].tcp_addr != tcp_addr,
            decreases self.sessions.len() - k,
        {
            if self.sessions[k].tcp_addr == tcp_addr {
                let mut s: Session = self.sessions.remove(k);
                proof {
                    let newp = self.sessions@;
                    assert(olds[k as int].tcp_addr == tcp_addr);
                    lemma_find_tcp_present(olds, tcp_addr, k as int);
                    assert forall|i: int|
                        0 <= i < newp.len() implies olds.contains(#[trigger] newp[i])
                        && newp[i].tcp_addr != tcp_addr by {
                        if i < k {
                            assert(newp[i] == olds[i]);
                        } else {
                            assert(newp[i] == olds[i + 1]);
                            if olds[i + 1].tcp_addr == tcp_addr {
                                assert(olds[k as int].tcp_addr == olds[i + 1].tcp_addr);
                            }
                        }
                    }
                    assert forall|i: int, j: int|
                        0 <= i < j < newp.len() implies newp[i].tcp_addr != newp[j].tcp_addr
                        && newp[i].audio_addr != newp[j].audio_addr by {
                        let io = if i < k { i } else { i + 1 };
                        let jo = if j < k { j } else { j + 1 };
                        assert(newp[i] == olds[io]);
                        assert(newp[j] == olds[jo]);
                    }
                    assert forall|i: int| 0 <= i < newp.len() implies (
                    #[trigger] newp[i]).wf() by {
                        if i < k {
                            assert(newp[i] == olds[i]);
                        } else {
                            assert(newp[i] == olds[i + 1]);
                        }
                    }
                    lemma_find_tcp_absent(newp, tcp_addr);
                    assert(s == olds[k as int]);
                    assert(s.wf());
                }
                s.cleanup();
                return Some(s);
            }
            k = k + 1;
        }
        proof {
            lemma_find_tcp_absent(olds, tcp_addr);
        }
        None
    }

    /// The session registered for a TCP peer address.
    pub fn get(&self, tcp_addr: Endpoint) -> (r: Option<&Session>)
        ensures
            r is None ==> self.spec_get(tcp_addr) is None,
            r matches Some(s) ==> self.spec_get(tcp_addr) == Some(*s) && s.tcp_addr == tcp_addr,
    {
        proof {
            assert(self.sessions@.skip(0) =~= self.sessions@);
        }
        let mut k: usize = 0;
        #[verifier::loop_isolation(false)]
        while k < self.sessions.len()
            invariant
                k <= self.sessions.len(),
                find_tcp(self.sessions@.skip(k as int), tcp_addr) == find_tcp(
                    self.sessions@,
                    tcp_addr,
                ),
            decreases self.sessions.len() - k,
        {
            proof {
                assert(self.sessions@.skip(k as int)[0] == self.sessions@[k as int]);
                assert(self.sessions@.skip(k as int).skip(1) =~= self.sessions@.skip(
                    k as int + 1,
                ));
            }
            if self.sessions[k].tcp_addr == tcp_addr {
                return Some(&self.sessions[k]);
            }
            k = k + 1;
        }
        proof {
            assert(self.sessions@.skip(self.sessions@.len() as int)
                =~= Seq::<Session>::empty());
        }
        None
    }

    /// The session registered for a UDP audio address.
    pub fn get_by_udp(&self, udp_addr: Endpoint) -> (r: Option<&Session>)
        ensures
            r is None ==> self.spec_get_by_udp(udp_addr) is None,
            r matches Some(s) ==> self.spec_get_by_udp(udp_addr) == Some(*s) && s.audio_addr
                == udp_addr,
    {
        proof {
            assert(self.sessions@.skip(0) =~= self.sessions@);
        }
        let mut k: usize = 0;
        #[verifier::loop_isolation(false)]
        while k < self.sessions.len()
            invariant
                k <= self.sessions.len(),
                find_udp(self.sessions@.skip(k as int), udp_addr) == find_udp(
                    self.sessions@,
                    udp_addr,
                ),
            decreases self.sessions.len() - k,
        {
            proof {
                assert(self.sessions@.skip(k as int)[0] == self.sessions@[k as int]);
                assert(self.sessions@.skip(k as int).skip(1) =~= self.sessions@.skip(
                    k as int + 1,
                ));
            }
            if self.sessions[k].audio_addr == udp_addr {
                return Some(&self.sessions[k]);
            }
            k = k + 1;
        }
        proof {
            assert(self.sessions@.skip(self.sessions@.len() as int)
                =~= Seq::<Session>::empty());
        }
        None
    }

    /// The TCP addresses of every registered session.
    pub fn all_addrs(&self) -> (r: Vec<Endpoint>)
        ensures
            r@.len() == self.sessions_spec().len(),
            forall|i: int|
                0 <= i < r@.len() ==> r@[i] == self.sessions_spec()[i].tcp_addr,
    {
        let mut out: Vec<Endpoint> = Vec::new();
        let mut k: usize = 0;
        #[verifier::loop_isolation(false)]
        while k < self.sessions.len()
            invariant
                k <= self.sessions.len(),
                out@.len() == k,
                forall|i: int| 0 <= i < k ==> out@[i] == self.sessions@[i].tcp_addr,
            decreases self.sessions.len() - k,
        {
            out.push(self.sessions[k].tcp_addr);
            k = k + 1;
        }
        out
    }

    /// The TCP addresses of every session but the named one: the
    /// broadcast-except routing decision.
    pub fn addrs_except(&self, except: Endpoint) -> (r: Vec<Endpoint>)
        ensures
            forall|i: int| 0 <= i < r@.len() ==> r@[i] != except,
            forall|j: int|
                0 <= j < self.sessions_spec().len() && #[trigger] self.sessions_spec()[
                    j
                ].tcp_addr != except ==> r@.contains(self.sessions_spec()[j].tcp_addr),
    {
        let mut out: Vec<Endpoint> = Vec::new();
        let mut k: usize = 0;
        #[verifier::loop_isolation(false)]
        while k < self.sessions.len()
            invariant
                k <= self.sessions.len(),
                forall|i: int| 0 <= i < out@.len() ==> out@[i] != except,
                forall|j: int|
                    0 <= j < k && #[trigger] self.sessions@[j].tcp_addr != except
                        ==> out@.contains(self.sessions@[j].tcp_addr),
            decreases self.sessions.len() - k,
        {
            let addr: Endpoint = self.sessions[k].tcp_addr;
            if !(addr == except) {
                let ghost preo = out@;
                out.push(addr);
                proof {
                    assert(out@[out@.len() - 1] == addr);
                    assert forall|j: int|
                        0 <= j < k + 1 && #[trigger] self.sessions@[j].tcp_addr != except
                        implies out@.contains(self.sessions@[j].tcp_addr) by {
                        if j < k {
                            let i = choose|i: int|
                                0 <= i < preo.len() && preo[i] == self.sessions@[j].tcp_addr;
                            assert(out@[i] == self.sessions@[j].tcp_addr);
                        } else {
                            assert(out@[out@.len() - 1] == self.sessions@[j].tcp_addr);
                        }
                    }
                }
            }
            k = k + 1;
        }
        out
    }
}

/// If everything before the last entry misses the address and the last
/// entry carries it, the lookup finds the last entry.
proof fn lemma_find_tcp_last(s: Seq<Session>, tcp: Endpoint)
    requires
        s.len() > 0,
        s.last().tcp_addr == tcp,
        forall|i: int| 0 <= i < s.len() - 1 ==> #[trigger] s[i].tcp_addr != tcp,
    ensures
        find_tcp(s, tcp) == Some(s.last()),
    decreases s.len(),
{
    if s.len() == 1 {
    } else {
        assert(s[0].tcp_addr != tcp);
        assert(s.skip(1).last() == s.last());
        assert forall|i: int| 0 <= i < s.skip(1).len() - 1 implies #[trigger] s.skip(1)[
            i
        ].tcp_addr != tcp by {
            assert(s.skip(1)[i] == s[i + 1]);
        }
        lemma_find_tcp_last(s.skip(1), tcp);
    }
}

/// A sequence holding the address at some index resolves it to a session.
proof fn lemma_find_tcp_present(s: Seq<Session>, tcp: Endpoint, at: int)
    requires
        0 <= at < s.len(),
        s[at].tcp_addr == tcp,
    ensures
        find_tcp(s, tcp) is Some,
    decreases s.len(),
{
    if s.len() > 0 && !(s[0].tcp_addr == tcp) {
        assert(s.skip(1)[at - 1] == s[at]);
        lemma_find_tcp_present(s.skip(1), tcp, at - 1);
    }
}

/// A sequence without the address resolves it to nothing.
proof fn lemma_find_tcp_absent(s: Seq<Session>, tcp: Endpoint)
    requires
        forall|i: int| 0 <= i < s.len() ==> #[trigger] s[i].tcp_addr != tcp,
    ensures
        find_tcp(s, tcp) is None,
    decreases s.len(),
{
    if s.len() > 0 {
        assert forall|i: int| 0 <= i < s.skip(1).len() implies #[trigger] s.skip(1)[i].tcp_addr
            != tcp by {
            assert(s.skip(1)[i] == s[i + 1]);
        }
        lemma_find_tcp_absent(s.skip(1), tcp);
    }
}

/// Two distinct TCP peer addresses never resolve to the same session:
/// what each lookup returns carries its own address.
pub proof fn lemma_distinct_sessions(m: SessionManager, a: Endpoint, b: Endpoint)
    requires
        a != b,
        m.spec_get(a) is Some,
        m.spec_get(b) is Some,
    ensures
        m.spec_get(a) != m.spec_get(b),
{
    lemma_find_tcp_addr(m.sessions_spec(), a);
    lemma_find_tcp_addr(m.sessions_spec(), b);
}



} // verus!
