//! Built-in reactions to inbound messages, and the outbound dispatcher: the
//! single choke point every emitted command passes through, so that send
//! failures demote a session uniformly no matter which component asked for
//! the send.

use vstd::prelude::*;

use crate::components::{Phase, Session, SessionV};
use crate::proto::{CmdV, Command, Message, MsgV};

verus! {

/// What the transport reported for one attempted enqueue.
#[derive(Clone, Copy, Debug, PartialEq, Eq, Structural)]
pub enum SendVerdict {
    /// The command was enqueued.
    Enqueued,
    /// The enqueue failed.
    Failed,
}

/// Why a dispatch produced no successful send.
#[derive(Clone, Copy, Debug, PartialEq, Eq, Structural)]
pub enum DispatchError {
    /// The session holds no sender; nothing was attempted and nothing
    /// changed.
    NoSender,
    /// The enqueue failed; the session's link was dropped to force a
    /// reconnect.
    SendFailed,
}

/// Outbound dispatcher: fold the outcome of one dispatched command back into
/// the session.
///
/// The host attempts the real enqueue only when the session holds a sender
/// (`verdict` is ignored otherwise, since nothing was attempted). A missing
/// sender is reported with no side effect; a failed enqueue drops the
/// sender and receiver and returns the session to `Disconnected` — within
/// the same tick — forcing a reconnect on a later one; a successful enqueue
/// changes nothing.
pub fn send(s: &mut Session, verdict: SendVerdict) -> (r: Result<(), DispatchError>)
    requires
        old(s).wf(),
    ensures
        final(s).wf(),
        !old(s)@.sender ==> r == Err::<(), DispatchError>(DispatchError::NoSender)
            && final(s)@ == old(s)@,
        old(s)@.sender && verdict == SendVerdict::Enqueued ==> r == Ok::<(), DispatchError>(())
            && final(s)@ == old(s)@,
        old(s)@.sender && verdict == SendVerdict::Failed ==> r == Err::<(), DispatchError>(
            DispatchError::SendFailed,
        ) && final(s)@ == old(s)@.demoted(),
{
    if !s.has_sender() {
        Err(DispatchError::NoSender)
    } else {
        match verdict {
            SendVerdict::Enqueued => Ok(()),
            SendVerdict::Failed => {
                s.demote();
                Err(DispatchError::SendFailed)
            }
        }
    }
}

/// The pong owed for a message: a server ping is answered with exactly one
/// pong echoing the server's token; any other message is answered with none.
pub open spec fn pong_for(m: MsgV) -> Option<CmdV> {
    match m.command {
        CmdV::Ping(token) => Some(CmdV::Pong(token)),
        _ => None,
    }
}

/// React to a server ping: reply with exactly one pong echoing the same
/// token; emit nothing for any other message.
pub fn on_ping(msg: &Message) -> (reply: Option<Command>)
    ensures
        reply.deep_view() == pong_for(msg@),
{
    match &msg.command {
        Command::Ping(token) => Some(Command::Pong(token.clone())),
        _ => None,
    }
}

/// The session after observing one inbound message: the welcome-class
/// response while identifying — and nothing else — advances the phase to
/// `Registered`.
pub open spec fn welcome_update(v: SessionV, m: MsgV) -> SessionV {
    if m.is_welcome() && v.phase == Phase::Identifying {
        SessionV { phase: Phase::Registered, ..v }
    } else {
        v
    }
}

/// React to a registration confirmation: on the welcome-class response,
/// advance the session from `Identifying` to `Registered`. This is the sole
/// place a session becomes `Registered`.
pub fn on_welcome(s: &mut Session, msg: &Message)
    requires
        old(s).wf(),
    ensures
        final(s).wf(),
        final(s)@ == welcome_update(old(s)@, msg@),
{
    let welcome = match &msg.command {
        Command::Response(code, _) => *code == crate::proto::RPL_WELCOME,
        _ => false,
    };
    if welcome && matches!(s.phase(), Phase::Identifying) {
        s.set_phase(Phase::Registered);
        assert(s@ =~= welcome_update(old(s)@, msg@));
    }
}

} // verus!
