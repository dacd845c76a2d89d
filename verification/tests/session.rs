//! Tests for the session lifecycle pipeline: connection establishment,
//! handshake, reconciliation, keepalive, and dispatch.

use bevy_irc::components::{Auth, Capabilities, Channels, Connection, Phase, Session};
use bevy_irc::observers::{send, DispatchError, SendVerdict};
use bevy_irc::proto::{Command, Incoming, Message, Outgoing};
use bevy_irc::systems::{
    connect, handshake_sent, identify, join_channels, ping, poll_connecting, poll_stream,
    request_capabilities, ConnectPoll, StreamItem,
};

const THRESHOLD_MS: u64 = 600_000;

fn strings(names: &[&str]) -> Vec<String> {
    names.iter().map(|n| n.to_string()).collect()
}

fn welcome() -> Message {
    Message {
        tags: None,
        prefix: None,
        command: Command::Response(1, vec!["welcome".to_string()]),
    }
}

fn new_session(channels: &[&str], caps: &[&str]) -> Session {
    Session::new(
        Connection::new("irc.example.com", 6667),
        Auth::new("bevy"),
        Channels(strings(channels)),
        Capabilities(strings(caps)),
    )
}

/// Drive a fresh session through connect, handshake and welcome.
fn registered_session(channels: &[&str], caps: &[&str]) -> Session {
    let mut s = new_session(channels, caps);
    assert_eq!(s.phase(), Phase::Connecting);
    assert!(connect(&mut s));
    poll_connecting(&mut s, ConnectPoll::Connected);
    assert_eq!(s.phase(), Phase::AwaitingHandshake);
    let cmds = identify(&s);
    assert!(!cmds.is_empty());
    handshake_sent(&mut s, true);
    assert_eq!(s.phase(), Phase::Identifying);
    let reply = poll_stream(&mut s, &StreamItem::Received(welcome()));
    assert!(reply.is_none());
    assert_eq!(s.phase(), Phase::Registered);
    s
}

#[test]
fn registered_implies_link() {
    let s = registered_session(&["#a"], &[]);
    assert_eq!(s.phase(), Phase::Registered);
    assert!(s.has_sender());
    assert!(s.has_stream());
}

#[test]
fn link_absent_until_connected() {
    let mut s = new_session(&[], &[]);
    assert!(!s.has_sender());
    assert!(!s.has_stream());
    assert!(connect(&mut s));
    assert!(!s.has_sender());
    assert!(!s.has_stream());
}

#[test]
fn connect_starts_one_attempt() {
    let mut s = new_session(&[], &[]);
    assert!(connect(&mut s));
    assert!(s.is_connecting());
    // The attempt is already in flight: nothing new is started.
    assert!(!connect(&mut s));
    poll_connecting(&mut s, ConnectPoll::Pending);
    assert!(!connect(&mut s));
    assert_eq!(s.phase(), Phase::Connecting);
}

#[test]
fn connect_error_returns_to_disconnected_and_retries() {
    let mut s = new_session(&[], &[]);
    assert!(connect(&mut s));
    poll_connecting(&mut s, ConnectPoll::Failed);
    assert_eq!(s.phase(), Phase::Disconnected);
    assert!(!s.has_sender());
    assert!(!s.has_stream());
    // Still declared: a fresh attempt starts on the following tick.
    assert!(connect(&mut s));
    assert_eq!(s.phase(), Phase::Connecting);
    assert!(s.is_connecting());
}

#[test]
fn handshake_password_then_nick() {
    let mut s = Session::new(
        Connection::new("irc.example.com", 6667),
        Auth::new("bevy").password("hunter2"),
        Channels(strings(&["#a"])),
        Capabilities(strings(&["cap.one"])),
    );
    assert!(connect(&mut s));
    poll_connecting(&mut s, ConnectPoll::Connected);
    let cmds = identify(&s);
    assert_eq!(
        cmds,
        vec![
            Command::Pass("hunter2".to_string()),
            Command::Nick("bevy".to_string()),
        ],
    );
    // No channel or capability command can be due before registration.
    assert!(join_channels(&mut s, &strings(&[])).is_empty());
    assert!(request_capabilities(&mut s).is_none());
}

#[test]
fn handshake_without_password() {
    let mut s = new_session(&[], &[]);
    assert!(connect(&mut s));
    poll_connecting(&mut s, ConnectPoll::Connected);
    let cmds = identify(&s);
    assert_eq!(cmds, vec![Command::Nick("bevy".to_string())]);
}

#[test]
fn handshake_failure_does_not_advance() {
    let mut s = new_session(&[], &[]);
    assert!(connect(&mut s));
    poll_connecting(&mut s, ConnectPoll::Connected);
    handshake_sent(&mut s, false);
    assert_eq!(s.phase(), Phase::AwaitingHandshake);
}

#[test]
fn handshake_runs_once() {
    let s = registered_session(&[], &[]);
    // Identifying is behind us: the driver emits nothing any more.
    assert!(identify(&s).is_empty());
}

#[test]
fn welcome_only_registers_identifying_sessions() {
    let mut s = new_session(&[], &[]);
    assert!(connect(&mut s));
    poll_connecting(&mut s, ConnectPoll::Connected);
    // Not yet identifying: the welcome response changes nothing.
    poll_stream(&mut s, &StreamItem::Received(welcome()));
    assert_eq!(s.phase(), Phase::AwaitingHandshake);
}

#[test]
fn reconcile_joins_missing_channels_only() {
    let mut s = registered_session(&["#a", "#b"], &[]);
    let observed = strings(&["#a"]);
    let cmds = join_channels(&mut s, &observed);
    assert_eq!(cmds, vec![Command::Join("#b".to_string())]);
}

#[test]
fn reconcile_join_then_part() {
    let mut s = registered_session(&["#a", "#b"], &[]);
    let cmds = join_channels(&mut s, &strings(&["#a"]));
    assert_eq!(cmds, vec![Command::Join("#b".to_string())]);
    // The caller now wants only "#b", and "#b" is joined from the prior step.
    s.set_channels(strings(&["#b"]));
    let cmds = join_channels(&mut s, &strings(&["#a", "#b"]));
    assert_eq!(cmds, vec![Command::Part("#a".to_string())]);
}

#[test]
fn reconcile_is_idempotent() {
    let mut s = registered_session(&["#a", "#b"], &[]);
    let observed = strings(&["#a", "#c"]);
    let first = join_channels(&mut s, &observed);
    assert_eq!(
        first,
        vec![
            Command::Join("#b".to_string()),
            Command::Part("#c".to_string()),
        ],
    );
    // No change to the desired or observed channels: nothing is emitted.
    let second = join_channels(&mut s, &observed);
    assert!(second.is_empty());
}

#[test]
fn reconcile_emits_nothing_when_converged() {
    let mut s = registered_session(&["#a"], &[]);
    let cmds = join_channels(&mut s, &strings(&["#a"]));
    assert!(cmds.is_empty());
}

#[test]
fn capabilities_one_combined_request() {
    let mut s = registered_session(&[], &["twitch.tv/tags", "twitch.tv/commands"]);
    let cmd = request_capabilities(&mut s);
    assert_eq!(
        cmd,
        Some(Command::CapReq("twitch.tv/tags twitch.tv/commands".to_string())),
    );
    // Unchanged desired set: no request is re-issued.
    assert!(request_capabilities(&mut s).is_none());
}

#[test]
fn capabilities_reissued_only_on_change() {
    let mut s = registered_session(&[], &["cap.one"]);
    assert_eq!(
        request_capabilities(&mut s),
        Some(Command::CapReq("cap.one".to_string())),
    );
    s.set_capabilities(strings(&["cap.one", "cap.two"]));
    assert_eq!(
        request_capabilities(&mut s),
        Some(Command::CapReq("cap.one cap.two".to_string())),
    );
    assert!(request_capabilities(&mut s).is_none());
}

#[test]
fn ping_with_empty_token_still_answered() {
    let mut s = registered_session(&[], &[]);
    let msg = Message { tags: None, prefix: None, command: Command::Ping(String::new()) };
    let reply = poll_stream(&mut s, &StreamItem::Received(msg));
    assert_eq!(reply, Some(Command::Pong(String::new())));
}

#[test]
fn ping_replied_with_pong_echoing_token() {
    let mut s = registered_session(&[], &[]);
    let msg = Message {
        tags: None,
        prefix: None,
        command: Command::Ping("tmi.example.com".to_string()),
    };
    let reply = poll_stream(&mut s, &StreamItem::Received(msg));
    assert_eq!(reply, Some(Command::Pong("tmi.example.com".to_string())));
    assert_eq!(s.phase(), Phase::Registered);
}

#[test]
fn keepalive_fires_at_threshold() {
    let mut s = registered_session(&[], &[]);
    // 599 s accumulated, a 2 s tick: the ping fires and the timer restarts.
    let quiet = ping(&mut s, 599_000, THRESHOLD_MS);
    assert!(quiet.is_none());
    assert_eq!(s.idle_ms(), 599_000);
    let fired = ping(&mut s, 2_000, THRESHOLD_MS);
    assert_eq!(fired, Some(Command::Ping(String::new())));
    assert_eq!(s.idle_ms(), 0);
}

#[test]
fn keepalive_holds_below_threshold() {
    let mut s = registered_session(&[], &[]);
    // 598 s accumulated, a 1 s tick: no ping.
    assert!(ping(&mut s, 598_000, THRESHOLD_MS).is_none());
    assert!(ping(&mut s, 1_000, THRESHOLD_MS).is_none());
    assert_eq!(s.idle_ms(), 599_000);
}

#[test]
fn send_failure_demotes_registered_session() {
    let mut s = registered_session(&["#a"], &["cap.one"]);
    let _ = join_channels(&mut s, &strings(&[]));
    let _ = request_capabilities(&mut s);
    let r = send(&mut s, SendVerdict::Failed);
    assert_eq!(r, Err(DispatchError::SendFailed));
    assert_eq!(s.phase(), Phase::Disconnected);
    assert!(!s.has_sender());
    assert!(!s.has_stream());
    // The reconciled state is forgotten: a reconnect re-applies everything.
    let mut s2 = registered_session(&["#a"], &["cap.one"]);
    assert_eq!(
        join_channels(&mut s2, &strings(&[])),
        vec![Command::Join("#a".to_string())],
    );
}

#[test]
fn send_success_changes_nothing() {
    let mut s = registered_session(&[], &[]);
    assert_eq!(send(&mut s, SendVerdict::Enqueued), Ok(()));
    assert_eq!(s.phase(), Phase::Registered);
    assert!(s.has_sender());
}

#[test]
fn dispatch_without_sender_has_no_side_effect() {
    let mut s = new_session(&[], &[]);
    let r = send(&mut s, SendVerdict::Enqueued);
    assert_eq!(r, Err(DispatchError::NoSender));
    assert_eq!(s.phase(), Phase::Connecting);
}

#[test]
fn stream_end_demotes_session() {
    let mut s = registered_session(&[], &[]);
    let reply = poll_stream(&mut s, &StreamItem::Ended);
    assert!(reply.is_none());
    assert_eq!(s.phase(), Phase::Disconnected);
    assert!(!s.has_sender());
    assert!(!s.has_stream());
}

#[test]
fn stream_error_demotes_session() {
    let mut s = registered_session(&[], &[]);
    poll_stream(&mut s, &StreamItem::Failed);
    assert_eq!(s.phase(), Phase::Disconnected);
    assert!(!s.has_sender());
    assert!(!s.has_stream());
}

#[test]
fn sessions_are_independent() {
    let mut a = registered_session(&[], &[]);
    let b = registered_session(&[], &[]);
    let _ = send(&mut a, SendVerdict::Failed);
    assert_eq!(a.phase(), Phase::Disconnected);
    assert_eq!(b.phase(), Phase::Registered);
}

#[test]
fn credentials_change_does_not_reauthenticate() {
    let mut s = registered_session(&[], &[]);
    s.set_auth(Auth::new("other"));
    assert_eq!(s.phase(), Phase::Registered);
}

#[test]
fn connection_endpoints() {
    let c = Connection::new("irc.example.com", 6667);
    assert_eq!(c.host(), "irc.example.com");
    assert_eq!(c.port(), 6667);
    let t = Connection::twitch();
    assert_eq!(t.host(), "irc.chat.twitch.tv");
    assert_eq!(t.port(), 6697);
}

#[test]
fn outgoing_event_wraps_command() {
    let o = Outgoing::new(Command::Nick("bevy".to_string()));
    assert_eq!(o.0, Command::Nick("bevy".to_string()));
}

#[test]
fn incoming_event_wraps_message() {
    let i = Incoming(welcome());
    assert_eq!(i.0, welcome());
}
