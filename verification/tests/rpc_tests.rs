//! The RPC machinery: identifier uniqueness, single delivery, timeout
//! classification, and command dispatch.

use xiao_stream::command::{Command, CommandResult, ShellResponse};
use xiao_stream::rpc::{
    call_outcome, clamp_volume, deadline_passed, rpc_timeout_result, volume_response, RpcBuilder,
    RpcError, RpcHandler, RpcManager,
};

#[test]
fn ids_are_monotone_and_unique() {
    let mut m = RpcManager::new();
    let a = m.register();
    let b = m.register();
    let c = m.register();
    assert_eq!((a, b, c), (1, 2, 3));
    assert_eq!(m.pending_count(), 3);
}

#[test]
fn resolve_delivers_exactly_once() {
    let mut m = RpcManager::new();
    let id = m.register();
    // The first resolution finds the entry; afterwards it is gone, so a
    // duplicate response cannot be delivered again.
    assert!(m.resolve(id));
    assert!(!m.resolve(id));
    assert_eq!(m.pending_count(), 0);
}

#[test]
fn resolve_leaves_other_entries() {
    let mut m = RpcManager::new();
    let a = m.register();
    let b = m.register();
    assert!(m.resolve(a));
    assert_eq!(m.pending_count(), 1);
    assert!(m.resolve(b));
}

#[test]
fn cancel_drops_without_delivery() {
    let mut m = RpcManager::new();
    let id = m.register();
    m.cancel(id);
    assert!(!m.resolve(id));
    assert_eq!(m.pending_count(), 0);
}

#[test]
fn cancel_all_empties_table() {
    let mut m = RpcManager::new();
    m.register();
    m.register();
    m.cancel_all();
    assert_eq!(m.pending_count(), 0);
}

#[test]
fn zero_timeout_times_out_immediately() {
    // A deadline of zero milliseconds has always passed.
    assert!(deadline_passed(0, &Some(0)));
    assert!(!deadline_passed(0, &Some(1)));
    assert!(!deadline_passed(u64::MAX, &None));
    assert!(matches!(call_outcome(None, true), Err(RpcError::Timeout)));
}

#[test]
fn outcome_classification() {
    let resp = CommandResult::Pong { timestamp: 1, server_time: 2 };
    assert_eq!(call_outcome(Some(resp.clone()), false), Ok(resp));
    assert!(matches!(call_outcome(None, false), Err(RpcError::Cancelled)));
    // The deadline beats a response that arrived too late.
    let resp2 = CommandResult::Pong { timestamp: 1, server_time: 2 };
    assert!(matches!(call_outcome(Some(resp2), true), Err(RpcError::Timeout)));
}

#[test]
fn shell_call_with_timeout() {
    // A shell command slower than its deadline: the caller sees the
    // timeout, and the handler's own deadline reports code -408.
    let builder = RpcBuilder::new(Command::shell("sleep 2")).set_timeout(1_000);
    assert_eq!(builder.timeout, Some(1_000));
    let elapsed_ms: u64 = 1_000;
    assert!(deadline_passed(elapsed_ms, &builder.timeout));
    assert!(matches!(call_outcome(None, true), Err(RpcError::Timeout)));

    let reply = rpc_timeout_result();
    let err = reply.as_error().expect("a timeout reply is an error");
    assert_eq!(err.code, -408);
    assert!(err.message.contains("timed out"));
}

#[test]
fn builder_shapes() {
    let b = RpcBuilder::new(Command::GetInfo);
    assert!(!b.run_async);
    assert_eq!(b.timeout, None);
    let b = RpcBuilder::default(Command::GetInfo);
    assert!(b.run_async);
    assert_eq!(b.timeout, Some(10_000));
    let b = RpcBuilder::new(Command::GetInfo).set_async(true).set_timeout(77);
    assert!(b.run_async);
    assert_eq!(b.timeout, Some(77));
}

#[test]
fn handler_dispatch() {
    let h = RpcHandler::new();
    let shell = Command::shell("echo hi");
    let out = ShellResponse { stdout: "hi\n".to_string(), stderr: String::new(), exit_code: 0 };
    assert_eq!(h.respond(&shell, Some(out.clone())), CommandResult::Shell(out));
    let failed = h.respond(&shell, None);
    assert_eq!(failed.as_error().unwrap().code, -500);
    // Any command but a shell command is not implemented by this handler.
    let other = h.respond(&Command::GetInfo, None);
    assert_eq!(other.as_error().unwrap().code, -501);
    assert!(other.is_error());
}

#[test]
fn volume_clamping() {
    assert_eq!(clamp_volume(55), 55);
    assert_eq!(clamp_volume(100), 100);
    assert_eq!(clamp_volume(101), 100);
    assert_eq!(clamp_volume(255), 100);
    let (cur, resp) = volume_response(80, 250);
    assert_eq!(cur, 100);
    assert_eq!(resp.previous, 80);
    assert_eq!(resp.current, 100);
}
