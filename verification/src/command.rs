//! The RPC command vocabulary: requests, their results, and the error
//! values a command can fail with, together with their wire forms.

use vstd::prelude::*;
use crate::encoding::{
    le_bytes, bool_byte, string_bytes, opt_u32_bytes, sd_le, sd_bool, sd_string, sd_opt_u32,
    lemma_sd_le, lemma_sd_bool, lemma_sd_string, lemma_sd_opt_u32, lemma_pow256_values, enc_le,
    enc_u64, enc_bool, enc_string, enc_opt_u32, rd_u8, rd_u64, rd_bool, rd_string, rd_opt_u32,
};
use crate::config::{i32_field, i32_of_field, lemma_i32_field_round_trip, enc_i32, rd_i32};

verus! {

/// A request to run a shell command, with an optional timeout in seconds.
#[derive(Debug, Clone, PartialEq, Eq)]
pub struct ShellRequest {
    pub command: String,
    pub timeout_secs: Option<u32>,
}

pub struct ShellRequestView {
    pub command: Seq<char>,
    pub timeout_secs: Option<u32>,
}

impl View for ShellRequest {
    type V = ShellRequestView;

    open spec fn view(&self) -> ShellRequestView {
        ShellRequestView { command: self.command@, timeout_secs: self.timeout_secs }
    }
}

impl ShellRequestView {
    pub open spec fn wf(self) -> bool {
        self.command.len() < 0x1_0000_0000
    }
}

/// What a finished shell command produced.
#[derive(Debug, Clone, PartialEq, Eq)]
pub struct ShellResponse {
    pub stdout: String,
    pub stderr: String,
    pub exit_code: i32,
}

pub struct ShellResponseView {
    pub stdout: Seq<char>,
    pub stderr: Seq<char>,
    pub exit_code: i32,
}

impl View for ShellResponse {
    type V = ShellResponseView;

    open spec fn view(&self) -> ShellResponseView {
        ShellResponseView {
            stdout: self.stdout@,
            stderr: self.stderr@,
            exit_code: self.exit_code,
        }
    }
}

impl ShellResponseView {
    pub open spec fn wf(self) -> bool {
        self.stdout.len() < 0x1_0000_0000 && self.stderr.len() < 0x1_0000_0000
    }
}

/// A request for device metadata; it carries no payload.
#[derive(Debug, Clone, Copy, PartialEq, Eq, Structural)]
pub struct GetInfoRequest;

/// Whether audio is flowing, and at what volume.
#[derive(Debug, Clone, Copy, PartialEq, Eq, Structural)]
pub struct AudioState {
    pub is_recording: bool,
    pub is_playing: bool,
    pub volume: u8,
}

/// Device metadata returned for an information request.
#[derive(Debug, Clone, PartialEq, Eq)]
pub struct DeviceInfo {
    pub model: String,
    pub serial_number: String,
    pub version: String,
    pub uptime_secs: u64,
    pub audio_state: AudioState,
}

pub struct DeviceInfoView {
    pub model: Seq<char>,
    pub serial_number: Seq<char>,
    pub version: Seq<char>,
    pub uptime_secs: u64,
    pub audio_state: AudioState,
}

impl View for DeviceInfo {
    type V = DeviceInfoView;

    open spec fn view(&self) -> DeviceInfoView {
        DeviceInfoView {
            model: self.model@,
            serial_number: self.serial_number@,
            version: self.version@,
            uptime_secs: self.uptime_secs,
            audio_state: self.audio_state,
        }
    }
}

impl DeviceInfoView {
    pub open spec fn wf(self) -> bool {
        self.model.len() < 0x1_0000_0000 && self.serial_number.len() < 0x1_0000_0000
            && self.version.len() < 0x1_0000_0000
    }
}

/// A request to set the playback volume, from 0 to 100.
#[derive(Debug, Clone, Copy, PartialEq, Eq, Structural)]
pub struct SetVolumeRequest {
    pub volume: u8,
}

/// The volume before and after a volume change.
#[derive(Debug, Clone, Copy, PartialEq, Eq, Structural)]
pub struct SetVolumeResponse {
    pub previous: u8,
    pub current: u8,
}

/// Why a command failed, as a numeric code and a message.
#[derive(Debug, Clone, PartialEq, Eq)]
pub struct CommandError {
    pub code: i32,
    pub message: String,
}

pub struct CommandErrorView {
    pub code: i32,
    pub message: Seq<char>,
}

impl View for CommandError {
    type V = CommandErrorView;

    open spec fn view(&self) -> CommandErrorView {
        CommandErrorView { code: self.code, message: self.message@ }
    }
}

impl CommandErrorView {
    pub open spec fn wf(self) -> bool {
        self.message.len() < 0x1_0000_0000
    }
}

impl CommandError {
    /// An error with the given code and message.
    pub fn new(code: i32, message: &str) -> (r: CommandError)
        ensures
            r@.code == code,
            r@.message == message@,
    {
        CommandError { code, message: message.to_owned() }
    }

    /// Code -1: something named by the request does not exist.
    pub fn not_found(msg: &str) -> (r: CommandError)
        ensures
            r@.code == -1,
            r@.message == msg@,
    {
        CommandError::new(-1, msg)
    }

    /// Code -2: the request's arguments are malformed.
    pub fn invalid_args(msg: &str) -> (r: CommandError)
        ensures
            r@.code == -2,
            r@.message == msg@,
    {
        CommandError::new(-2, msg)
    }

    /// Code -3: the caller may not do this.
    pub fn permission_denied(msg: &str) -> (r: CommandError)
        ensures
            r@.code == -3,
            r@.message == msg@,
    {
        CommandError::new(-3, msg)
    }

    /// Code -500: the handler itself failed.
    pub fn internal(msg: &str) -> (r: CommandError)
        ensures
            r@.code == -500,
            r@.message == msg@,
    {
        CommandError::new(-500, msg)
    }

    /// Code -408: the command ran out of time.
    pub fn timeout(msg: &str) -> (r: CommandError)
        ensures
            r@.code == -408,
            r@.message == msg@,
    {
        CommandError::new(-408, msg)
    }

    /// Code -501: the peer does not handle this command.
    pub fn not_implemented() -> (r: CommandError)
        ensures
            r@.code == -501,
            r@.message == "Not implemented"@,
            r@.wf(),
    {
        proof {
            reveal_strlit("Not implemented");
        }
        CommandError::new(-501, "Not implemented")
    }
}

/// One remote procedure call.
#[derive(Debug, Clone, PartialEq, Eq)]
pub enum Command {
    /// Run a shell command on the peer.
    Shell(ShellRequest),
    /// Ask the peer for device metadata.
    GetInfo,
    /// Set the peer's playback volume.
    SetVolume(SetVolumeRequest),
    /// Measure round-trip latency; the timestamp is in milliseconds.
    Ping { timestamp: u64 },
}

pub enum CommandView {
    Shell(ShellRequestView),
    GetInfo,
    SetVolume(SetVolumeRequest),
    Ping { timestamp: u64 },
}

impl View for Command {
    type V = CommandView;

    open spec fn view(&self) -> CommandView {
        match self {
            Command::Shell(req) => CommandView::Shell(req@),
            Command::GetInfo => CommandView::GetInfo,
            Command::SetVolume(req) => CommandView::SetVolume(*req),
            Command::Ping { timestamp } => CommandView::Ping { timestamp: *timestamp },
        }
    }
}

impl CommandView {
    pub open spec fn wf(self) -> bool {
        match self {
            CommandView::Shell(req) => req.wf(),
            _ => true,
        }
    }
}

impl Command {
    /// A shell command without timeout.
    pub fn shell(cmd: &str) -> (r: Command)
        ensures
            r@ matches CommandView::Shell(req) && req.command == cmd@ && req.timeout_secs
                is None,
    {
        Command::Shell(ShellRequest { command: cmd.to_owned(), timeout_secs: None })
    }

    /// A shell command that is killed after `timeout` seconds.
    pub fn shell_with_timeout(cmd: &str, timeout: u32) -> (r: Command)
        ensures
            r@ matches CommandView::Shell(req) && req.command == cmd@ && req.timeout_secs
                == Some(timeout),
    {
        Command::Shell(ShellRequest { command: cmd.to_owned(), timeout_secs: Some(timeout) })
    }

    /// A latency probe carrying the caller's clock in milliseconds.
    pub fn ping(timestamp_ms: u64) -> (r: Command)
        ensures
            r@ == (CommandView::Ping { timestamp: timestamp_ms }),
    {
        Command::Ping { timestamp: timestamp_ms }
    }
}

/// What a command returned.
#[derive(Debug, Clone, PartialEq, Eq)]
pub enum CommandResult {
    /// Output of a shell command.
    Shell(ShellResponse),
    /// Device metadata.
    Info(DeviceInfo),
    /// Volume before and after a volume change.
    Volume(SetVolumeResponse),
    /// Answer to a latency probe; both clocks are in milliseconds.
    Pong { timestamp: u64, server_time: u64 },
    /// The command failed.
    Error(CommandError),
}

pub enum CommandResultView {
    Shell(ShellResponseView),
    Info(DeviceInfoView),
    Volume(SetVolumeResponse),
    Pong { timestamp: u64, server_time: u64 },
    Error(CommandErrorView),
}

impl View for CommandResult {
    type V = CommandResultView;

    open spec fn view(&self) -> CommandResultView {
        match self {
            CommandResult::Shell(resp) => CommandResultView::Shell(resp@),
            CommandResult::Info(info) => CommandResultView::Info(info@),
            CommandResult::Volume(resp) => CommandResultView::Volume(*resp),
            CommandResult::Pong { timestamp, server_time } => CommandResultView::Pong {
                timestamp: *timestamp,
                server_time: *server_time,
            },
            CommandResult::Error(err) => CommandResultView::Error(err@),
        }
    }
}

impl CommandResultView {
    pub open spec fn wf(self) -> bool {
        match self {
            CommandResultView::Shell(resp) => resp.wf(),
            CommandResultView::Info(info) => info.wf(),
            CommandResultView::Error(err) => err.wf(),
            _ => true,
        }
    }
}

impl CommandResult {
    /// A successful shell result with empty stderr and exit code 0.
    pub fn shell_ok(stdout: String) -> (r: CommandResult)
        ensures
            r@ matches CommandResultView::Shell(resp) && resp.stdout == stdout@ && resp.stderr
                == Seq::<char>::empty() && resp.exit_code == 0,
    {
        CommandResult::Shell(
            ShellResponse { stdout, stderr: String::new(), exit_code: 0 },
        )
    }

    /// Wrap an error value.
    pub fn error(err: CommandError) -> (r: CommandResult)
        ensures
            r@ == CommandResultView::Error(err@),
    {
        CommandResult::Error(err)
    }

    /// Whether this result is an error.
    pub fn is_error(&self) -> (r: bool)
        ensures
            r == (self@ is Error),
    {
        match self {
            CommandResult::Error(_) => true,
            _ => false,
        }
    }

    /// The error value, if this result is one.
    pub fn as_error(&self) -> (r: Option<&CommandError>)
        ensures
            r is Some <==> self@ is Error,
            r matches Some(e) ==> self@ == CommandResultView::Error(e@),
    {
        match self {
            CommandResult::Error(e) => Some(e),
            _ => None,
        }
    }
}

/// Wire form of a `ShellRequest`.
pub open spec fn enc_shell_request(v: ShellRequestView) -> Seq<u8> {
    string_bytes(v.command) + opt_u32_bytes(v.timeout_secs)
}

/// Parse a `ShellRequest` from the front of `s`.
pub open spec fn sd_shell_request(s: Seq<u8>) -> Option<(ShellRequestView, Seq<u8>)> {
    match sd_string(s) {
        None => None,
        Some((command, s)) => match sd_opt_u32(s) {
            None => None,
            Some((timeout_secs, s)) => Some((ShellRequestView { command, timeout_secs }, s)),
        },
    }
}

pub proof fn lemma_shell_request_round_trip(v: ShellRequestView, rest: Seq<u8>)
    requires
        v.wf(),
    ensures
        sd_shell_request(enc_shell_request(v) + rest) == Some((v, rest)),
{
    assert(enc_shell_request(v) + rest =~= string_bytes(v.command) + (opt_u32_bytes(
        v.timeout_secs,
    ) + rest));
    lemma_sd_string(v.command, opt_u32_bytes(v.timeout_secs) + rest);
    lemma_sd_opt_u32(v.timeout_secs, rest);
}

pub fn enc_shell_request_exec(v: &ShellRequest, out: &mut Vec<u8>)
    requires
        v@.wf(),
    ensures
        final(out)@ == old(out)@ + enc_shell_request(v@),
{
    enc_string(&v.command, out);
    enc_opt_u32(&v.timeout_secs, out);
    assert(out@ =~= old(out)@ + enc_shell_request(v@));
}

pub fn rd_shell_request(b: &Vec<u8>, i: &mut usize) -> (r: Option<ShellRequest>)
    requires
        *old(i) <= b.len(),
    ensures
        r is None ==> sd_shell_request(b@.skip(*old(i) as int)) is None,
        r matches Some(v) ==> *old(i) <= *final(i) <= b.len() && sd_shell_request(
            b@.skip(*old(i) as int),
        ) == Some((v@, b@.skip(*final(i) as int))),
{
    let command: String = match rd_string(b, i) {
        None => {
            return None;
        },
        Some(v) => v,
    };
    let timeout_secs: Option<u32> = match rd_opt_u32(b, i) {
        None => {
            return None;
        },
        Some(v) => v,
    };
    Some(ShellRequest { command, timeout_secs })
}

/// Wire form of a `ShellResponse`.
pub open spec fn enc_shell_response(v: ShellResponseView) -> Seq<u8> {
    string_bytes(v.stdout) + string_bytes(v.stderr) + le_bytes(i32_field(v.exit_code), 4)
}

/// Parse a `ShellResponse` from the front of `s`.
pub open spec fn sd_shell_response(s: Seq<u8>) -> Option<(ShellResponseView, Seq<u8>)> {
    match sd_string(s) {
        None => None,
        Some((stdout, s)) => match sd_string(s) {
            None => None,
            Some((stderr, s)) => match sd_le(s, 4) {
                None => None,
                Some((code, s)) => Some(
                    (ShellResponseView { stdout, stderr, exit_code: i32_of_field(code) }, s),
                ),
            },
        },
    }
}

pub proof fn lemma_shell_response_round_trip(v: ShellResponseView, rest: Seq<u8>)
    requires
        v.wf(),
    ensures
        sd_shell_response(enc_shell_response(v) + rest) == Some((v, rest)),
{
    lemma_i32_field_round_trip(v.exit_code);
    lemma_pow256_values();
    let r2 = le_bytes(i32_field(v.exit_code), 4) + rest;
    let r1 = string_bytes(v.stderr) + r2;
    assert(enc_shell_response(v) + rest =~= string_bytes(v.stdout) + r1);
    lemma_sd_string(v.stdout, r1);
    assert(r1 =~= string_bytes(v.stderr) + r2);
    lemma_sd_string(v.stderr, r2);
    lemma_sd_le(i32_field(v.exit_code), 4, rest);
}

pub fn enc_shell_response_exec(v: &ShellResponse, out: &mut Vec<u8>)
    requires
        v@.wf(),
    ensures
        final(out)@ == old(out)@ + enc_shell_response(v@),
{
    enc_string(&v.stdout, out);
    enc_string(&v.stderr, out);
    enc_i32(v.exit_code, out);
    assert(out@ =~= old(out)@ + enc_shell_response(v@));
}

pub fn rd_shell_response(b: &Vec<u8>, i: &mut usize) -> (r: Option<ShellResponse>)
    requires
        *old(i) <= b.len(),
    ensures
        r is None ==> sd_shell_response(b@.skip(*old(i) as int)) is None,
        r matches Some(v) ==> *old(i) <= *final(i) <= b.len() && sd_shell_response(
            b@.skip(*old(i) as int),
        ) == Some((v@, b@.skip(*final(i) as int))),
{
    let stdout: String = match rd_string(b, i) {
        None => {
            return None;
        },
        Some(v) => v,
    };
    let stderr: String = match rd_string(b, i) {
        None => {
            return None;
        },
        Some(v) => v,
    };
    let exit_code: i32 = match rd_i32(b, i) {
        None => {
            return None;
        },
        Some(v) => v,
    };
    Some(ShellResponse { stdout, stderr, exit_code })
}

/// Wire form of an `AudioState`.
pub open spec fn enc_audio_state(v: AudioState) -> Seq<u8> {
    bool_byte(v.is_recording) + bool_byte(v.is_playing) + le_bytes(v.volume as int, 1)
}

/// Parse an `AudioState` from the front of `s`.
pub open spec fn sd_audio_state(s: Seq<u8>) -> Option<(AudioState, Seq<u8>)> {
    match sd_bool(s) {
        None => None,
        Some((is_recording, s)) => match sd_bool(s) {
            None => None,
            Some((is_playing, s)) => match sd_le(s, 1) {
                None => None,
                Some((volume, s)) => Some(
                    (AudioState { is_recording, is_playing, volume: volume as u8 }, s),
                ),
            },
        },
    }
}

pub proof fn lemma_audio_state_round_trip(v: AudioState, rest: Seq<u8>)
    ensures
        sd_audio_state(enc_audio_state(v) + rest) == Some((v, rest)),
{
    lemma_pow256_values();
    let r2 = le_bytes(v.volume as int, 1) + rest;
    let r1 = bool_byte(v.is_playing) + r2;
    assert(enc_audio_state(v) + rest =~= bool_byte(v.is_recording) + r1);
    lemma_sd_bool(v.is_recording, r1);
    assert(r1 =~= bool_byte(v.is_playing) + r2);
    lemma_sd_bool(v.is_playing, r2);
    lemma_sd_le(v.volume as int, 1, rest);
}

pub fn enc_audio_state_exec(v: &AudioState, out: &mut Vec<u8>)
    ensures
        final(out)@ == old(out)@ + enc_audio_state(*v),
{
    proof {
        lemma_pow256_values();
    }
    enc_bool(v.is_recording, out);
    enc_bool(v.is_playing, out);
    enc_le(v.volume as u128, 1, out);
    assert(out@ =~= old(out)@ + enc_audio_state(*v));
}

pub fn rd_audio_state(b: &Vec<u8>, i: &mut usize) -> (r: Option<AudioState>)
    requires
        *old(i) <= b.len(),
    ensures
        r is None ==> sd_audio_state(b@.skip(*old(i) as int)) is None,
        r matches Some(v) ==> *old(i) <= *final(i) <= b.len() && sd_audio_state(
            b@.skip(*old(i) as int),
        ) == Some((v, b@.skip(*final(i) as int))),
{
    let is_recording: bool = match rd_bool(b, i) {
        None => {
            return None;
        },
        Some(v) => v,
    };
    let is_playing: bool = match rd_bool(b, i) {
        None => {
            return None;
        },
        Some(v) => v,
    };
    let volume: u8 = match rd_u8(b, i) {
        None => {
            return None;
        },
        Some(v) => v,
    };
    Some(AudioState { is_recording, is_playing, volume })
}

/// Wire form of a `DeviceInfo`.
pub open spec fn enc_device_info(v: DeviceInfoView) -> Seq<u8> {
    string_bytes(v.model) + string_bytes(v.serial_number) + string_bytes(v.version) + le_bytes(
        v.uptime_secs as int,
        8,
    ) + enc_audio_state(v.audio_state)
}

/// Parse a `DeviceInfo` from the front of `s`.
pub open spec fn sd_device_info(s: Seq<u8>) -> Option<(DeviceInfoView, Seq<u8>)> {
    match sd_string(s) {
        None => None,
        Some((model, s)) => match sd_string(s) {
            None => None,
            Some((serial_number, s)) => match sd_string(s) {
                None => None,
                Some((version, s)) => match sd_le(s, 8) {
                    None => None,
                    Some((uptime, s)) => match sd_audio_state(s) {
                        None => None,
                        Some((audio_state, s)) => Some(
                            (
                                DeviceInfoView {
                                    model,
                                    serial_number,
                                    version,
                                    uptime_secs: uptime as u64,
                                    audio_state,
                                },
                                s,
                            ),
                        ),
                    },
                },
            },
        },
    }
}

pub proof fn lemma_device_info_round_trip(v: DeviceInfoView, rest: Seq<u8>)
    requires
        v.wf(),
    ensures
        sd_device_info(enc_device_info(v) + rest) == Some((v, rest)),
{
    lemma_pow256_values();
    let r4 = enc_audio_state(v.audio_state) + rest;
    let r3 = le_bytes(v.uptime_secs as int, 8) + r4;
    let r2 = string_bytes(v.version) + r3;
    let r1 = string_bytes(v.serial_number) + r2;
    assert(enc_device_info(v) + rest =~= string_bytes(v.model) + r1);
    lemma_sd_string(v.model, r1);
    assert(r1 =~= string_bytes(v.serial_number) + r2);
    lemma_sd_string(v.serial_number, r2);
    assert(r2 =~= string_bytes(v.version) + r3);
    lemma_sd_string(v.version, r3);
    assert(r3 =~= le_bytes(v.uptime_secs as int, 8) + r4);
    lemma_sd_le(v.uptime_secs as int, 8, r4);
    lemma_audio_state_round_trip(v.audio_state, rest);
}

pub fn enc_device_info_exec(v: &DeviceInfo, out: &mut Vec<u8>)
    requires
        v@.wf(),
    ensures
        final(out)@ == old(out)@ + enc_device_info(v@),
{
    enc_string(&v.model, out);
    enc_string(&v.serial_number, out);
    assert(out@ =~= old(out)@ + (string_bytes(v@.model) + string_bytes(v@.serial_number)));
    enc_string(&v.version, out);
    enc_u64(v.uptime_secs, out);
    assert(out@ =~= old(out)@ + (string_bytes(v@.model) + string_bytes(v@.serial_number)
        + string_bytes(v@.version) + le_bytes(v@.uptime_secs as int, 8)));
    enc_audio_state_exec(&v.audio_state, out);
    assert(out@ =~= old(out)@ + enc_device_info(v@));
}

pub fn rd_device_info(b: &Vec<u8>, i: &mut usize) -> (r: Option<DeviceInfo>)
    requires
        *old(i) <= b.len(),
    ensures
        r is None ==> sd_device_info(b@.skip(*old(i) as int)) is None,
        r matches Some(v) ==> *old(i) <= *final(i) <= b.len() && sd_device_info(
            b@.skip(*old(i) as int),
        ) == Some((v@, b@.skip(*final(i) as int))),
{
    let model: String = match rd_string(b, i) {
        None => {
            return None;
        },
        Some(v) => v,
    };
    let serial_number: String = match rd_string(b, i) {
        None => {
            return None;
        },
        Some(v) => v,
    };
    let version: String = match rd_string(b, i) {
        None => {
            return None;
        },
        Some(v) => v,
    };
    let uptime_secs: u64 = match rd_u64(b, i) {
        None => {
            return None;
        },
        Some(v) => v,
    };
    let audio_state: AudioState = match rd_audio_state(b, i) {
        None => {
            return None;
        },
        Some(v) => v,
    };
    Some(DeviceInfo { model, serial_number, version, uptime_secs, audio_state })
}

/// Wire form of a `SetVolumeRequest`.
pub open spec fn enc_set_volume_request(v: SetVolumeRequest) -> Seq<u8> {
    le_bytes(v.volume as int, 1)
}

/// Parse a `SetVolumeRequest` from the front of `s`.
pub open spec fn sd_set_volume_request(s: Seq<u8>) -> Option<(SetVolumeRequest, Seq<u8>)> {
    match sd_le(s, 1) {
        None => None,
        Some((volume, s)) => Some((SetVolumeRequest { volume: volume as u8 }, s)),
    }
}

pub proof fn lemma_set_volume_request_round_trip(v: SetVolumeRequest, rest: Seq<u8>)
    ensures
        sd_set_volume_request(enc_set_volume_request(v) + rest) == Some((v, rest)),
{
    lemma_pow256_values();
    lemma_sd_le(v.volume as int, 1, rest);
}

pub fn enc_set_volume_request_exec(v: &SetVolumeRequest, out: &mut Vec<u8>)
    ensures
        final(out)@ == old(out)@ + enc_set_volume_request(*v),
{
    proof {
        lemma_pow256_values();
    }
    enc_le(v.volume as u128, 1, out);
}

pub fn rd_set_volume_request(b: &Vec<u8>, i: &mut usize) -> (r: Option<SetVolumeRequest>)
    requires
        *old(i) <= b.len(),
    ensures
        r is None ==> sd_set_volume_request(b@.skip(*old(i) as int)) is None,
        r matches Some(v) ==> *old(i) <= *final(i) <= b.len() && sd_set_volume_request(
            b@.skip(*old(i) as int),
        ) == Some((v, b@.skip(*final(i) as int))),
{
    match rd_u8(b, i) {
        None => None,
        Some(volume) => Some(SetVolumeRequest { volume }),
    }
}

/// Wire form of a `SetVolumeResponse`.
pub open spec fn enc_set_volume_response(v: SetVolumeResponse) -> Seq<u8> {
    le_bytes(v.previous as int, 1) + le_bytes(v.current as int, 1)
}

/// Parse a `SetVolumeResponse` from the front of `s`.
pub open spec fn sd_set_volume_response(s: Seq<u8>) -> Option<(SetVolumeResponse, Seq<u8>)> {
    match sd_le(s, 1) {
        None => None,
        Some((previous, s)) => match sd_le(s, 1) {
            None => None,
            Some((current, s)) => Some(
                (SetVolumeResponse { previous: previous as u8, current: current as u8 }, s),
            ),
        },
    }
}

pub proof fn lemma_set_volume_response_round_trip(v: SetVolumeResponse, rest: Seq<u8>)
    ensures
        sd_set_volume_response(enc_set_volume_response(v) + rest) == Some((v, rest)),
{
    lemma_pow256_values();
    assert(enc_set_volume_response(v) + rest =~= le_bytes(v.previous as int, 1) + (le_bytes(
        v.current as int,
        1,
    ) + rest));
    lemma_sd_le(v.previous as int, 1, le_bytes(v.current as int, 1) + rest);
    lemma_sd_le(v.current as int, 1, rest);
}

pub fn enc_set_volume_response_exec(v: &SetVolumeResponse, out: &mut Vec<u8>)
    ensures
        final(out)@ == old(out)@ + enc_set_volume_response(*v),
{
    proof {
        lemma_pow256_values();
    }
    enc_le(v.previous as u128, 1, out);
    enc_le(v.current as u128, 1, out);
    assert(out@ =~= old(out)@ + enc_set_volume_response(*v));
}

pub fn rd_set_volume_response(b: &Vec<u8>, i: &mut usize) -> (r: Option<SetVolumeResponse>)
    requires
        *old(i) <= b.len(),
    ensures
        r is None ==> sd_set_volume_response(b@.skip(*old(i) as int)) is None,
        r matches Some(v) ==> *old(i) <= *final(i) <= b.len() && sd_set_volume_response(
            b@.skip(*old(i) as int),
        ) == Some((v, b@.skip(*final(i) as int))),
{
    let previous: u8 = match rd_u8(b, i) {
        None => {
            return None;
        },
        Some(v) => v,
    };
    let current: u8 = match rd_u8(b, i) {
        None => {
            return None;
        },
        Some(v) => v,
    };
    Some(SetVolumeResponse { previous, current })
}

/// Wire form of a `CommandError`.
pub open spec fn enc_command_error(v: CommandErrorView) -> Seq<u8> {
    le_bytes(i32_field(v.code), 4) + string_bytes(v.message)
}

/// Parse a `CommandError` from the front of `s`.
pub open spec fn sd_command_error(s: Seq<u8>) -> Option<(CommandErrorView, Seq<u8>)> {
    match sd_le(s, 4) {
        None => None,
        Some((code, s)) => match sd_string(s) {
            None => None,
            Some((message, s)) => Some(
                (CommandErrorView { code: i32_of_field(code), message }, s),
            ),
        },
    }
}

pub proof fn lemma_command_error_round_trip(v: CommandErrorView, rest: Seq<u8>)
    requires
        v.wf(),
    ensures
        sd_command_error(enc_command_error(v) + rest) == Some((v, rest)),
{
    lemma_i32_field_round_trip(v.code);
    lemma_pow256_values();
    assert(enc_command_error(v) + rest =~= le_bytes(i32_field(v.code), 4) + (string_bytes(
        v.message,
    ) + rest));
    lemma_sd_le(i32_field(v.code), 4, string_bytes(v.message) + rest);
    lemma_sd_string(v.message, rest);
}

pub fn enc_command_error_exec(v: &CommandError, out: &mut Vec<u8>)
    requires
        v@.wf(),
    ensures
        final(out)@ == old(out)@ + enc_command_error(v@),
{
    enc_i32(v.code, out);
    enc_string(&v.message, out);
    assert(out@ =~= old(out)@ + enc_command_error(v@));
}

pub fn rd_command_error(b: &Vec<u8>, i: &mut usize) -> (r: Option<CommandError>)
    requires
        *old(i) <= b.len(),
    ensures
        r is None ==> sd_command_error(b@.skip(*old(i) as int)) is None,
        r matches Some(v) ==> *old(i) <= *final(i) <= b.len() && sd_command_error(
            b@.skip(*old(i) as int),
        ) == Some((v@, b@.skip(*final(i) as int))),
{
    let code: i32 = match rd_i32(b, i) {
        None => {
            return None;
        },
        Some(v) => v,
    };
    let message: String = match rd_string(b, i) {
        None => {
            return None;
        },
        Some(v) => v,
    };
    Some(CommandError { code, message })
}

/// Wire form of a `Command`: a tag byte, then the variant's payload.
pub open spec fn enc_command(v: CommandView) -> Seq<u8> {
    match v {
        CommandView::Shell(req) => le_bytes(0, 1) + enc_shell_request(req),
        CommandView::GetInfo => le_bytes(1, 1),
        CommandView::SetVolume(req) => le_bytes(2, 1) + enc_set_volume_request(req),
        CommandView::Ping { timestamp } => le_bytes(3, 1) + le_bytes(timestamp as int, 8),
    }
}

/// Parse a `Command` from the front of `s`.
pub open spec fn sd_command(s: Seq<u8>) -> Option<(CommandView, Seq<u8>)> {
    match sd_le(s, 1) {
        None => None,
        Some((tag, s)) => if tag == 0 {
            match sd_shell_request(s) {
                None => None,
                Some((req, s)) => Some((CommandView::Shell(req), s)),
            }
        } else if tag == 1 {
            Some((CommandView::GetInfo, s))
        } else if tag == 2 {
            match sd_set_volume_request(s) {
                None => None,
                Some((req, s)) => Some((CommandView::SetVolume(req), s)),
            }
        } else if tag == 3 {
            match sd_le(s, 8) {
                None => None,
                Some((timestamp, s)) => Some(
                    (CommandView::Ping { timestamp: timestamp as u64 }, s),
                ),
            }
        } else {
            None
        },
    }
}

pub proof fn lemma_command_round_trip(v: CommandView, rest: Seq<u8>)
    requires
        v.wf(),
    ensures
        sd_command(enc_command(v) + rest) == Some((v, rest)),
{
    lemma_pow256_values();
    match v {
        CommandView::Shell(req) => {
            assert(enc_command(v) + rest =~= le_bytes(0, 1) + (enc_shell_request(req) + rest));
            lemma_sd_le(0, 1, enc_shell_request(req) + rest);
            lemma_shell_request_round_trip(req, rest);
        },
        CommandView::GetInfo => {
            lemma_sd_le(1, 1, rest);
        },
        CommandView::SetVolume(req) => {
            assert(enc_command(v) + rest =~= le_bytes(2, 1) + (enc_set_volume_request(req)
                + rest));
            lemma_sd_le(2, 1, enc_set_volume_request(req) + rest);
            lemma_set_volume_request_round_trip(req, rest);
        },
        CommandView::Ping { timestamp } => {
            assert(enc_command(v) + rest =~= le_bytes(3, 1) + (le_bytes(timestamp as int, 8)
                + rest));
            lemma_sd_le(3, 1, le_bytes(timestamp as int, 8) + rest);
            lemma_sd_le(timestamp as int, 8, rest);
        },
    }
}

pub fn enc_command_exec(v: &Command, out: &mut Vec<u8>)
    requires
        v@.wf(),
    ensures
        final(out)@ == old(out)@ + enc_command(v@),
{
    proof {
        lemma_pow256_values();
    }
    match v {
        Command::Shell(req) => {
            enc_le(0, 1, out);
            enc_shell_request_exec(req, out);
            assert(out@ =~= old(out)@ + enc_command(v@));
        },
        Command::GetInfo => {
            enc_le(1, 1, out);
        },
        Command::SetVolume(req) => {
            enc_le(2, 1, out);
            enc_set_volume_request_exec(req, out);
            assert(out@ =~= old(out)@ + enc_command(v@));
        },
        Command::Ping { timestamp } => {
            enc_le(3, 1, out);
            enc_u64(*timestamp, out);
            assert(out@ =~= old(out)@ + enc_command(v@));
        },
    }
}

pub fn rd_command(b: &Vec<u8>, i: &mut usize) -> (r: Option<Command>)
    requires
        *old(i) <= b.len(),
    ensures
        r is None ==> sd_command(b@.skip(*old(i) as int)) is None,
        r matches Some(v) ==> *old(i) <= *final(i) <= b.len() && sd_command(
            b@.skip(*old(i) as int),
        ) == Some((v@, b@.skip(*final(i) as int))),
{
    let tag: u8 = match rd_u8(b, i) {
        None => {
            return None;
        },
        Some(v) => v,
    };
    if tag == 0 {
        match rd_shell_request(b, i) {
            None => None,
            Some(req) => Some(Command::Shell(req)),
        }
    } else if tag == 1 {
        Some(Command::GetInfo)
    } else if tag == 2 {
        match rd_set_volume_request(b, i) {
            None => None,
            Some(req) => Some(Command::SetVolume(req)),
        }
    } else if tag == 3 {
        match rd_u64(b, i) {
            None => None,
            Some(timestamp) => Some(Command::Ping { timestamp }),
        }
    } else {
        None
    }
}

/// Wire form of a `CommandResult`: a tag byte, then the variant's payload.
pub open spec fn enc_command_result(v: CommandResultView) -> Seq<u8> {
    match v {
        CommandResultView::Shell(resp) => le_bytes(0, 1) + enc_shell_response(resp),
        CommandResultView::Info(info) => le_bytes(1, 1) + enc_device_info(info),
        CommandResultView::Volume(resp) => le_bytes(2, 1) + enc_set_volume_response(resp),
        CommandResultView::Pong { timestamp, server_time } => le_bytes(3, 1) + le_bytes(
            timestamp as int,
            8,
        ) + le_bytes(server_time as int, 8),
        CommandResultView::Error(err) => le_bytes(4, 1) + enc_command_error(err),
    }
}

/// Parse a `CommandResult` from the front of `s`.
pub open spec fn sd_command_result(s: Seq<u8>) -> Option<(CommandResultView, Seq<u8>)> {
    match sd_le(s, 1) {
        None => None,
        Some((tag, s)) => if tag == 0 {
            match sd_shell_response(s) {
                None => None,
                Some((resp, s)) => Some((CommandResultView::Shell(resp), s)),
            }
        } else if tag == 1 {
            match sd_device_info(s) {
                None => None,
                Some((info, s)) => Some((CommandResultView::Info(info), s)),
            }
        } else if tag == 2 {
            match sd_set_volume_response(s) {
                None => None,
                Some((resp, s)) => Some((CommandResultView::Volume(resp), s)),
            }
        } else if tag == 3 {
            match sd_le(s, 8) {
                None => None,
                Some((timestamp, s)) => match sd_le(s, 8) {
                    None => None,
                    Some((server_time, s)) => Some(
                        (
                            CommandResultView::Pong {
                                timestamp: timestamp as u64,
                                server_time: server_time as u64,
                            },
                            s,
                        ),
                    ),
                },
            }
        } else if tag == 4 {
            match sd_command_error(s) {
                None => None,
                Some((err, s)) => Some((CommandResultView::Error(err), s)),
            }
        } else {
            None
        },
    }
}

#[verifier::rlimit(60)]
pub proof fn lemma_command_result_round_trip(v: CommandResultView, rest: Seq<u8>)
    requires
        v.wf(),
    ensures
        sd_command_result(enc_command_result(v) + rest) == Some((v, rest)),
{
    lemma_pow256_values();
    match v {
        CommandResultView::Shell(resp) => {
            assert(enc_command_result(v) + rest =~= le_bytes(0, 1) + (enc_shell_response(resp)
                + rest));
            lemma_sd_le(0, 1, enc_shell_response(resp) + rest);
            lemma_shell_response_round_trip(resp, rest);
        },
        CommandResultView::Info(info) => {
            assert(enc_command_result(v) + rest =~= le_bytes(1, 1) + (enc_device_info(info)
                + rest));
            lemma_sd_le(1, 1, enc_device_info(info) + rest);
            lemma_device_info_round_trip(info, rest);
        },
        CommandResultView::Volume(resp) => {
            assert(enc_command_result(v) + rest =~= le_bytes(2, 1) + (enc_set_volume_response(
                resp,
            ) + rest));
            lemma_sd_le(2, 1, enc_set_volume_response(resp) + rest);
            lemma_set_volume_response_round_trip(resp, rest);
        },
        CommandResultView::Pong { timestamp, server_time } => {
            let r2 = le_bytes(server_time as int, 8) + rest;
            let r1 = le_bytes(timestamp as int, 8) + r2;
            assert(enc_command_result(v) + rest =~= le_bytes(3, 1) + r1);
            lemma_sd_le(3, 1, r1);
            assert(r1 =~= le_bytes(timestamp as int, 8) + r2);
            lemma_sd_le(timestamp as int, 8, r2);
            lemma_sd_le(server_time as int, 8, rest);
        },
        CommandResultView::Error(err) => {
            assert(enc_command_result(v) + rest =~= le_bytes(4, 1) + (enc_command_error(err)
                + rest));
            lemma_sd_le(4, 1, enc_command_error(err) + rest);
            lemma_command_error_round_trip(err, rest);
        },
    }
}

pub fn enc_command_result_exec(v: &CommandResult, out: &mut Vec<u8>)
    requires
        v@.wf(),
    ensures
        final(out)@ == old(out)@ + enc_command_result(v@),
{
    proof {
        lemma_pow256_values();
    }
    match v {
        CommandResult::Shell(resp) => {
            enc_le(0, 1, out);
            enc_shell_response_exec(resp, out);
            assert(out@ =~= old(out)@ + enc_command_result(v@));
        },
        CommandResult::Info(info) => {
            enc_le(1, 1, out);
            enc_device_info_exec(info, out);
            assert(out@ =~= old(out)@ + enc_command_result(v@));
        },
        CommandResult::Volume(resp) => {
            enc_le(2, 1, out);
            enc_set_volume_response_exec(resp, out);
            assert(out@ =~= old(out)@ + enc_command_result(v@));
        },
        CommandResult::Pong { timestamp, server_time } => {
            enc_le(3, 1, out);
            enc_u64(*timestamp, out);
            enc_u64(*server_time, out);
            assert(out@ =~= old(out)@ + enc_command_result(v@));
        },
        CommandResult::Error(err) => {
            enc_le(4, 1, out);
            enc_command_error_exec(err, out);
            assert(out@ =~= old(out)@ + enc_command_result(v@));
        },
    }
}

pub fn rd_command_result(b: &Vec<u8>, i: &mut usize) -> (r: Option<CommandResult>)
    requires
        *old(i) <= b.len(),
    ensures
        r is None ==> sd_command_result(b@.skip(*old(i) as int)) is None,
        r matches Some(v) ==> *old(i) <= *final(i) <= b.len() && sd_command_result(
            b@.skip(*old(i) as int),
        ) == Some((v@, b@.skip(*final(i) as int))),
{
    let tag: u8 = match rd_u8(b, i) {
        None => {
            return None;
        },
        Some(v) => v,
    };
    if tag == 0 {
        match rd_shell_response(b, i) {
            None => None,
            Some(resp) => Some(CommandResult::Shell(resp)),
        }
    } else if tag == 1 {
        match rd_device_info(b, i) {
            None => None,
            Some(info) => Some(CommandResult::Info(info)),
        }
    } else if tag == 2 {
        match rd_set_volume_response(b, i) {
            None => None,
            Some(resp) => Some(CommandResult::Volume(resp)),
        }
    } else if tag == 3 {
        let timestamp: u64 = match rd_u64(b, i) {
            None => {
                return None;
            },
            Some(v) => v,
        };
        match rd_u64(b, i) {
            None => None,
            Some(server_time) => Some(CommandResult::Pong { timestamp, server_time }),
        }
    } else if tag == 4 {
        match rd_command_error(b, i) {
            None => None,
            Some(err) => Some(CommandResult::Error(err)),
        }
    } else {
        None
    }
}

/// One string fits a four-byte character count.
pub fn str_len_ok(s: &String) -> (r: bool)
    ensures
        r == (s@.len() < 0x1_0000_0000),
{
    (s.as_str().unicode_len() as u64) < 0x1_0000_0000u64
}

impl Command {
    /// Runtime check of the wire bounds that `enc_command_exec` needs.
    pub fn wf_check(&self) -> (r: bool)
        ensures
            r == self@.wf(),
    {
        match self {
            Command::Shell(req) => str_len_ok(&req.command),
            _ => true,
        }
    }
}

impl CommandResult {
    /// Runtime check of the wire bounds that `enc_command_result_exec`
    /// needs.
    pub fn wf_check(&self) -> (r: bool)
        ensures
            r == self@.wf(),
    {
        match self {
            CommandResult::Shell(resp) => str_len_ok(&resp.stdout) && str_len_ok(&resp.stderr),
            CommandResult::Info(info) => str_len_ok(&info.model) && str_len_ok(
                &info.serial_number,
            ) && str_len_ok(&info.version),
            CommandResult::Error(err) => str_len_ok(&err.message),
            _ => true,
        }
    }
}

} // verus!
