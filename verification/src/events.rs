//! Typed events both peers push over the control channel, and the
//! filters subscribers use to pick what they care about.  The fan-out
//! channel itself lives with the runtime; here are the payloads and the
//! filtering decisions.

use vstd::prelude::*;

verus! {

/// How loud a notification is.
#[derive(Debug, Clone, Copy, PartialEq, Eq, Structural)]
pub enum NotificationLevel {
    Debug,
    Info,
    Warning,
    Error,
}

/// What happened to a key.
#[derive(Debug, Clone, Copy, PartialEq, Eq, Structural)]
pub enum KeyAction {
    Press,
    Release,
    LongPress,
}

/// Events the server pushes to clients.
#[derive(Debug, Clone, PartialEq, Eq)]
pub enum ServerEvent {
    /// Recording or playback started or stopped.
    AudioStatusChanged { is_recording: bool, is_playing: bool },
    /// Another client joined.
    ClientJoined { addr: String, model: String },
    /// Another client left.
    ClientLeft { addr: String, model: String },
    /// A message for the user.
    Notification { level: NotificationLevel, title: String, message: String },
    /// A recording was finalized; its length in milliseconds.
    RecordingComplete { filename: String, duration_ms: u64, size_bytes: u64 },
    /// A playback reached the end of its file.
    PlaybackComplete { filename: String },
    /// Head count and uptime of the server.
    ServerStatus { connected_clients: u32, uptime_secs: u64 },
    /// Anything else, by name.
    Custom { name: String, payload: Vec<u8> },
}

/// Events a client pushes to the server.
#[derive(Debug, Clone, PartialEq, Eq)]
pub enum ClientEvent {
    /// A key was pressed on the device.
    KeyPress { key: String, action: KeyAction },
    /// Something went wrong on the device.
    Alert { level: NotificationLevel, message: String },
    /// Anything else, by name.
    Custom { name: String, payload: Vec<u8> },
}

/// Accepts every server event.
#[derive(Debug, Clone, Copy, PartialEq, Eq, Structural)]
pub struct AcceptAll;

impl AcceptAll {
    /// Every event passes.
    pub fn should_process(&self, _event: &ServerEvent) -> (r: bool)
        ensures
            r,
    {
        true
    }
}

/// Accepts notifications only.
#[derive(Debug, Clone, Copy, PartialEq, Eq, Structural)]
pub struct NotificationsOnly;

impl NotificationsOnly {
    /// Exactly the notification events pass.
    pub fn should_process(&self, event: &ServerEvent) -> (r: bool)
        ensures
            r == (event is Notification),
    {
        match event {
            ServerEvent::Notification { .. } => true,
            _ => false,
        }
    }
}

/// Accepts the audio lifecycle events only.
#[derive(Debug, Clone, Copy, PartialEq, Eq, Structural)]
pub struct AudioEventsOnly;

impl AudioEventsOnly {
    /// Exactly the audio status, recording-complete and
    /// playback-complete events pass.
    pub fn should_process(&self, event: &ServerEvent) -> (r: bool)
        ensures
            r == (event is AudioStatusChanged || event is RecordingComplete
                || event is PlaybackComplete),
    {
        match event {
            ServerEvent::AudioStatusChanged { .. } => true,
            ServerEvent::RecordingComplete { .. } => true,
            ServerEvent::PlaybackComplete { .. } => true,
            _ => false,
        }
    }
}

} // verus!
