//! The per-tick pipeline: connection establishment, registration handshake,
//! declarative reconciliation of channels and capabilities, idle keepalive,
//! and inbound polling.
//!
//! Every function here is non-blocking: the host performs the actual network
//! work (starting connect operations, enqueueing commands, draining the
//! message stream) and feeds each observed outcome back in. Each tick runs,
//! per session: [`connect`], [`poll_connecting`], [`identify`] (then
//! [`handshake_sent`]), [`join_channels`], [`request_capabilities`],
//! [`ping`], and [`poll_stream`] for every drained item; all emitted commands
//! go through [`crate::observers::send`].

use vstd::prelude::*;

use crate::components::{distinct, Phase, Sender, Session, SessionV, Stream};
use crate::observers::{on_ping, on_welcome};
use crate::proto::{CmdV, Command, Message};

verus! {

/// What the host observed of a session's in-flight connect operation this
/// tick.
#[derive(Clone, Copy, Debug, PartialEq, Eq, Structural)]
pub enum ConnectPoll {
    /// The operation has not resolved yet.
    Pending,
    /// The operation resolved with a ready transport.
    Connected,
    /// The operation resolved with a connect error.
    Failed,
}

/// One item the host drained from a session's message stream this tick.
#[derive(Clone, Debug)]
pub enum StreamItem {
    /// A successfully parsed message.
    Received(Message),
    /// The stream reported a read error.
    Failed,
    /// The stream reached end of input.
    Ended,
}

/// A fresh connect attempt is owed: the session is disconnected, or wants a
/// connection and has no operation in flight.
pub open spec fn connect_due(v: SessionV) -> bool {
    v.phase == Phase::Disconnected || (v.phase == Phase::Connecting && !v.connecting)
}

/// Connection establisher, first half: record that a connect attempt starts.
///
/// Returns true exactly when the host must start a non-blocking connect
/// operation for this session (with transport-level keepalive disabled: this
/// layer owns pinging). At most one operation is ever in flight: once
/// recorded, further calls start nothing until the operation resolves. The
/// idle timer restarts with the attempt.
pub fn connect(s: &mut Session) -> (start: bool)
    requires
        old(s).wf(),
    ensures
        final(s).wf(),
        start == connect_due(old(s)@),
        start ==> final(s)@ == (SessionV {
            phase: Phase::Connecting,
            connecting: true,
            elapsed_ms: 0u64,
            ..old(s)@
        }),
        !start ==> final(s)@ == old(s)@,
{
    let due = match s.phase() {
        Phase::Disconnected => true,
        Phase::Connecting => !s.is_connecting(),
        _ => false,
    };
    if due {
        s.set_phase(Phase::Connecting);
        s.set_connecting(true);
        s.set_elapsed_ms(0);
        assert(s@ =~= (SessionV {
            phase: Phase::Connecting,
            connecting: true,
            elapsed_ms: 0u64,
            ..old(s)@
        }));
    }
    due
}

/// Connection establisher, second half: fold the result of polling the
/// in-flight connect operation (exactly once per tick, without blocking)
/// back into the session.
///
/// On success the transport link becomes present and the session advances to
/// `AwaitingHandshake`; on a connect error it returns to `Disconnected` with
/// no link, eligible for a fresh attempt on a later tick. A pending poll, or
/// a poll for a session with nothing in flight, changes nothing.
pub fn poll_connecting(s: &mut Session, poll: ConnectPoll)
    requires
        old(s).wf(),
    ensures
        final(s).wf(),
        !old(s)@.in_flight() || poll == ConnectPoll::Pending ==> final(s)@ == old(s)@,
        old(s)@.in_flight() && poll == ConnectPoll::Connected ==> final(s)@ == (SessionV {
            phase: Phase::AwaitingHandshake,
            connecting: false,
            sender: true,
            stream: true,
            ..old(s)@
        }),
        old(s)@.in_flight() && poll == ConnectPoll::Failed ==> final(s)@ == (SessionV {
            phase: Phase::Disconnected,
            connecting: false,
            ..old(s)@
        }),
{
    if matches!(s.phase(), Phase::Connecting) && s.is_connecting() {
        match poll {
            ConnectPoll::Pending => {}
            ConnectPoll::Connected => {
                s.set_connecting(false);
                s.set_link(Some(Sender), Some(Stream));
                s.set_phase(Phase::AwaitingHandshake);
                assert(s@ =~= (SessionV {
                    phase: Phase::AwaitingHandshake,
                    connecting: false,
                    sender: true,
                    stream: true,
                    ..old(s)@
                }));
            }
            ConnectPoll::Failed => {
                s.set_connecting(false);
                s.set_phase(Phase::Disconnected);
                assert(s@ =~= (SessionV {
                    phase: Phase::Disconnected,
                    connecting: false,
                    ..old(s)@
                }));
            }
        }
    }
}

/// The handshake commands owed to a session: once the transport is ready and
/// the session is not yet identifying or registered, the password command if
/// the credentials hold a password, then the nickname command — in that
/// order, and before any channel or capability command can become due (those
/// require the later `Registered` phase).
pub open spec fn handshake_cmds(v: SessionV) -> Seq<CmdV> {
    if v.phase == Phase::AwaitingHandshake {
        match v.pass {
            Some(p) => seq![CmdV::Pass(p), CmdV::Nick(v.nick)],
            None => seq![CmdV::Nick(v.nick)],
        }
    } else {
        Seq::empty()
    }
}

/// Handshake driver, first half: the authentication sequence to dispatch.
///
/// The driver only sends; the server's confirmation is observed
/// asynchronously by the inbound poller. The session advances only through
/// [`handshake_sent`], once the host has dispatched these commands.
pub fn identify(s: &Session) -> (cmds: Vec<Command>)
    requires
        s.wf(),
    ensures
        cmds.deep_view() == handshake_cmds(s@),
{
    let mut cmds: Vec<Command> = Vec::new();
    if matches!(s.phase(), Phase::AwaitingHandshake) {
        let auth = s.auth();
        match &auth.pass {
            Some(p) => {
                cmds.push(Command::Pass(p.clone()));
            }
            None => {}
        }
        cmds.push(Command::Nick(auth.nick.clone()));
    }
    assert(cmds.deep_view() =~= handshake_cmds(s@));
    cmds
}

/// Handshake driver, second half: record whether the authentication sequence
/// was dispatched in full.
///
/// Only then does the session advance to `Identifying`, the guard against a
/// second handshake. If a send failed, the phase does not advance; the
/// outbound dispatcher's failure handling has already demoted the session.
pub fn handshake_sent(s: &mut Session, ok: bool)
    requires
        old(s).wf(),
    ensures
        final(s).wf(),
        old(s)@.phase == Phase::AwaitingHandshake && ok ==> final(s)@ == (SessionV {
            phase: Phase::Identifying,
            ..old(s)@
        }),
        !(old(s)@.phase == Phase::AwaitingHandshake && ok) ==> final(s)@ == old(s)@,
{
    if matches!(s.phase(), Phase::AwaitingHandshake) && ok {
        s.set_phase(Phase::Identifying);
        assert(s@ =~= (SessionV { phase: Phase::Identifying, ..old(s)@ }));
    }
}

/// Whether a vector of names contains the given name.
fn vec_contains_string(v: &Vec<String>, x: &String) -> (r: bool)
    ensures
        r == v.deep_view().contains(x@),
{
    let mut i: usize = 0;
    while i < v.len()
        invariant
            0 <= i <= v.len(),
            forall|j: int| 0 <= j < i ==> v.deep_view()[j] != x@,
        decreases v.len() - i,
    {
        assert(v.deep_view()[i as int] == v@[i as int]@);
        if v[i].eq(x) {
            return true;
        }
        i = i + 1;
    }
    false
}

/// Whether two vectors of names hold the same names in the same order.
fn string_vecs_equal(a: &Vec<String>, b: &Vec<String>) -> (r: bool)
    ensures
        r == (a.deep_view() == b.deep_view()),
{
    if a.len() != b.len() {
        assert(a.deep_view().len() != b.deep_view().len());
        return false;
    }
    let mut i: usize = 0;
    while i < a.len()
        invariant
            0 <= i <= a.len(),
            a.len() == b.len(),
            forall|j: int| 0 <= j < i ==> a.deep_view()[j] == b.deep_view()[j],
        decreases a.len() - i,
    {
        assert(a.deep_view()[i as int] == a@[i as int]@);
        assert(b.deep_view()[i as int] == b@[i as int]@);
        if !a[i].eq(&b[i]) {
            return false;
        }
        i = i + 1;
    }
    assert(a.deep_view() =~= b.deep_view());
    true
}

/// Copy a vector of names.
fn clone_string_vec(v: &Vec<String>) -> (r: Vec<String>)
    ensures
        r.deep_view() == v.deep_view(),
{
    let mut r: Vec<String> = Vec::new();
    let mut i: usize = 0;
    while i < v.len()
        invariant
            0 <= i <= v.len(),
            r.deep_view().len() == i,
            forall|j: int| 0 <= j < i ==> r.deep_view()[j] == v.deep_view()[j],
        decreases v.len() - i,
    {
        r.push(v[i].clone());
        i = i + 1;
    }
    assert(r.deep_view() =~= v.deep_view());
    r
}

/// The join commands owed for a desired and an observed channel set: one
/// join, in declaration order, for each desired channel the server does not
/// report as joined.
pub open spec fn join_cmds(desired: Seq<Seq<char>>, observed: Seq<Seq<char>>) -> Seq<CmdV>
    decreases desired.len(),
{
    if desired.len() == 0 {
        Seq::empty()
    } else {
        join_cmds(desired.drop_last(), observed) + (if observed.contains(desired.last()) {
            Seq::<CmdV>::empty()
        } else {
            seq![CmdV::Join(desired.last())]
        })
    }
}

/// The part commands owed for a desired and an observed channel set: one
/// part, in observation order, for each channel the server reports as joined
/// that is no longer desired.
pub open spec fn part_cmds(desired: Seq<Seq<char>>, observed: Seq<Seq<char>>) -> Seq<CmdV>
    decreases observed.len(),
{
    if observed.len() == 0 {
        Seq::empty()
    } else {
        part_cmds(desired, observed.drop_last()) + (if desired.contains(observed.last()) {
            Seq::<CmdV>::empty()
        } else {
            seq![CmdV::Part(observed.last())]
        })
    }
}

/// Channel reconciliation is due: the session is registered and its desired
/// channel set differs from the set applied by the last reconciliation on
/// this registration (in particular, right after registration).
pub open spec fn channel_due(v: SessionV) -> bool {
    v.phase == Phase::Registered && v.reconciled != Some(v.channels)
}

/// The commands one channel reconciliation emits: when due, exactly the
/// joins for `desired - observed` followed by the parts for
/// `observed - desired`, and nothing for channels in both or neither set;
/// when not due, nothing.
pub open spec fn channel_cmds(v: SessionV, observed: Seq<Seq<char>>) -> Seq<CmdV> {
    if channel_due(v) {
        join_cmds(v.channels, observed) + part_cmds(v.channels, observed)
    } else {
        Seq::empty()
    }
}

/// The session after one channel reconciliation: when due, the desired set
/// is recorded as applied; otherwise unchanged.
pub open spec fn channel_update(v: SessionV) -> SessionV {
    if channel_due(v) {
        SessionV { reconciled: Some(v.channels), ..v }
    } else {
        v
    }
}

/// Channel reconciler: compare the desired channel set against the channel
/// set the server currently reports as joined, and emit the minimal command
/// set that converges the two — see [`channel_cmds`].
///
/// Runs only when registration is fresh or the desired set changed since the
/// last run, so re-running it with no intervening change emits nothing.
pub fn join_channels(s: &mut Session, observed: &Vec<String>) -> (cmds: Vec<Command>)
    requires
        old(s).wf(),
        distinct(observed.deep_view()),
    ensures
        final(s).wf(),
        cmds.deep_view() == channel_cmds(old(s)@, observed.deep_view()),
        final(s)@ == channel_update(old(s)@),
{
    let registered = matches!(s.phase(), Phase::Registered);
    let applied = match s.reconciled_channels() {
        Some(r) => string_vecs_equal(r, s.channels()),
        None => false,
    };
    if !registered || applied {
        assert(!channel_due(s@));
        let none: Vec<Command> = Vec::new();
        assert(none.deep_view() =~= Seq::<CmdV>::empty());
        return none;
    }
    assert(channel_due(s@));

    let ghost dv = old(s)@.channels;
    let ghost ov = observed.deep_view();
    let desired = clone_string_vec(s.channels());
    let mut cmds: Vec<Command> = Vec::new();
    assert(cmds.deep_view() =~= join_cmds(dv.take(0), ov));

    let mut i: usize = 0;
    while i < desired.len()
        invariant
            0 <= i <= desired.len(),
            desired.deep_view() == dv,
            ov == observed.deep_view(),
            cmds.deep_view() == join_cmds(dv.take(i as int), ov),
        decreases desired.len() - i,
    {
        let ghost prev = cmds.deep_view();
        if !vec_contains_string(observed, &desired[i]) {
            cmds.push(Command::Join(desired[i].clone()));
            assert(cmds.deep_view() =~= prev.push(CmdV::Join(dv[i as int])));
        }
        proof {
            assert(dv.take(i + 1).drop_last() =~= dv.take(i as int));
            assert(dv.take(i + 1).last() == dv[i as int]);
            assert(cmds.deep_view() =~= join_cmds(dv.take(i + 1), ov));
        }
        i = i + 1;
    }
    assert(dv.take(desired.len() as int) =~= dv);

    let mut i: usize = 0;
    while i < observed.len()
        invariant
            0 <= i <= observed.len(),
            desired.deep_view() == dv,
            ov == observed.deep_view(),
            cmds.deep_view() == join_cmds(dv, ov) + part_cmds(dv, ov.take(i as int)),
        decreases observed.len() - i,
    {
        let ghost prev = cmds.deep_view();
        if !vec_contains_string(&desired, &observed[i]) {
            cmds.push(Command::Part(observed[i].clone()));
            assert(cmds.deep_view() =~= prev.push(CmdV::Part(ov[i as int])));
        }
        proof {
            assert(ov.take(i + 1).drop_last() =~= ov.take(i as int));
            assert(ov.take(i + 1).last() == ov[i as int]);
            assert(cmds.deep_view() =~= join_cmds(dv, ov) + part_cmds(dv, ov.take(i + 1)));
        }
        i = i + 1;
    }
    assert(ov.take(observed.len() as int) =~= ov);
    assert(cmds.deep_view() =~= channel_cmds(old(s)@, observed.deep_view()));

    s.set_reconciled(Some(desired));
    assert(s@ =~= channel_update(old(s)@));
    cmds
}

/// Running channel reconciliation twice consecutively, with no change to the
/// desired channels or to the server-observed channels in between, emits
/// nothing the second time: the first run records the desired set as
/// applied, so the second is not due.
pub proof fn lemma_channel_reconcile_idempotent(v: SessionV, observed: Seq<Seq<char>>)
    ensures
        channel_cmds(channel_update(v), observed) == Seq::<CmdV>::empty(),
{
}

/// No two entries of a command sequence are the same.
pub open spec fn no_repeats(cmds: Seq<CmdV>) -> bool {
    forall|i: int, j: int| 0 <= i < j < cmds.len() ==> cmds[i] != cmds[j]
}

/// What the join half of a reconciliation emits: a join for exactly the
/// desired channels the server does not report, and nothing else.
pub proof fn lemma_join_cmds_membership(
    desired: Seq<Seq<char>>,
    observed: Seq<Seq<char>>,
    c: Seq<char>,
)
    ensures
        join_cmds(desired, observed).contains(CmdV::Join(c)) <==> (desired.contains(c)
            && !observed.contains(c)),
        forall|k: int| 0 <= k < join_cmds(desired, observed).len() ==> #[trigger] join_cmds(
            desired,
            observed,
        )[k] matches CmdV::Join(_),
    decreases desired.len(),
{
    broadcast use vstd::seq_lib::lemma_seq_concat_contains_all_elements;

    if desired.len() == 0 {
        assert(!desired.contains(c));
    } else {
        lemma_join_cmds_membership(desired.drop_last(), observed, c);
        assert(desired.contains(c) <==> (desired.drop_last().contains(c) || desired.last()
            == c)) by {
            if desired.contains(c) {
                let i = choose|i: int| 0 <= i < desired.len() && desired[i] == c;
                if i < desired.len() - 1 {
                    assert(desired.drop_last()[i] == c);
                }
            }
            if desired.drop_last().contains(c) {
                let i = choose|i: int|
                    0 <= i < desired.drop_last().len() && desired.drop_last()[i] == c;
                assert(desired[i] == c);
            }
        }
        if !observed.contains(desired.last()) {
            let tail = seq![CmdV::Join(desired.last())];
            assert(tail.contains(CmdV::Join(c)) <==> desired.last() == c) by {
                if desired.last() == c {
                    assert(tail[0] == CmdV::Join(c));
                }
            }
        }
    }
}

/// What the part half of a reconciliation emits: a part for exactly the
/// observed channels no longer desired, and nothing else.
pub proof fn lemma_part_cmds_membership(
    desired: Seq<Seq<char>>,
    observed: Seq<Seq<char>>,
    c: Seq<char>,
)
    ensures
        part_cmds(desired, observed).contains(CmdV::Part(c)) <==> (observed.contains(c)
            && !desired.contains(c)),
        forall|k: int| 0 <= k < part_cmds(desired, observed).len() ==> #[trigger] part_cmds(
            desired,
            observed,
        )[k] matches CmdV::Part(_),
    decreases observed.len(),
{
    broadcast use vstd::seq_lib::lemma_seq_concat_contains_all_elements;

    if observed.len() == 0 {
        assert(!observed.contains(c));
    } else {
        lemma_part_cmds_membership(desired, observed.drop_last(), c);
        assert(observed.contains(c) <==> (observed.drop_last().contains(c) || observed.last()
            == c)) by {
            if observed.contains(c) {
                let i = choose|i: int| 0 <= i < observed.len() && observed[i] == c;
                if i < observed.len() - 1 {
                    assert(observed.drop_last()[i] == c);
                }
            }
            if observed.drop_last().contains(c) {
                let i = choose|i: int|
                    0 <= i < observed.drop_last().len() && observed.drop_last()[i] == c;
                assert(observed[i] == c);
            }
        }
        if !desired.contains(observed.last()) {
            let tail = seq![CmdV::Part(observed.last())];
            assert(tail.contains(CmdV::Part(c)) <==> observed.last() == c) by {
                if observed.last() == c {
                    assert(tail[0] == CmdV::Part(c));
                }
            }
        }
    }
}

/// When the desired set holds no duplicates, no join is emitted twice.
pub proof fn lemma_join_cmds_no_repeats(desired: Seq<Seq<char>>, observed: Seq<Seq<char>>)
    requires
        distinct(desired),
    ensures
        no_repeats(join_cmds(desired, observed)),
    decreases desired.len(),
{
    if desired.len() > 0 {
        assert(distinct(desired.drop_last())) by {
            assert(forall|i: int| 0 <= i < desired.len() - 1
                ==> desired.drop_last()[i] == desired[i]);
        }
        lemma_join_cmds_no_repeats(desired.drop_last(), observed);
        let prefix = join_cmds(desired.drop_last(), observed);
        if !observed.contains(desired.last()) {
            // The appended join is fresh: its channel is not in the prefix.
            assert(!desired.drop_last().contains(desired.last())) by {
                if desired.drop_last().contains(desired.last()) {
                    let i = choose|i: int|
                        0 <= i < desired.drop_last().len() && desired.drop_last()[i]
                            == desired.last();
                    assert(desired[i] == desired[desired.len() - 1]);
                }
            }
            lemma_join_cmds_membership(desired.drop_last(), observed, desired.last());
            let whole = join_cmds(desired, observed);
            assert forall|i: int, j: int| 0 <= i < j < whole.len() implies whole[i]
                != whole[j] by {
                if j < prefix.len() {
                    assert(whole[i] == prefix[i] && whole[j] == prefix[j]);
                } else {
                    assert(whole[j] == CmdV::Join(desired.last()));
                    assert(whole[i] == prefix[i]);
                    if whole[i] == whole[j] {
                        assert(prefix.contains(CmdV::Join(desired.last())));
                    }
                }
            }
        }
    }
}

/// When the observed set holds no duplicates, no part is emitted twice.
pub proof fn lemma_part_cmds_no_repeats(desired: Seq<Seq<char>>, observed: Seq<Seq<char>>)
    requires
        distinct(observed),
    ensures
        no_repeats(part_cmds(desired, observed)),
    decreases observed.len(),
{
    if observed.len() > 0 {
        assert(distinct(observed.drop_last())) by {
            assert(forall|i: int| 0 <= i < observed.len() - 1
                ==> observed.drop_last()[i] == observed[i]);
        }
        lemma_part_cmds_no_repeats(desired, observed.drop_last());
        let prefix = part_cmds(desired, observed.drop_last());
        if !desired.contains(observed.last()) {
            assert(!observed.drop_last().contains(observed.last())) by {
                if observed.drop_last().contains(observed.last()) {
                    let i = choose|i: int|
                        0 <= i < observed.drop_last().len() && observed.drop_last()[i]
                            == observed.last();
                    assert(observed[i] == observed[observed.len() - 1]);
                }
            }
            lemma_part_cmds_membership(desired, observed.drop_last(), observed.last());
            let whole = part_cmds(desired, observed);
            assert forall|i: int, j: int| 0 <= i < j < whole.len() implies whole[i]
                != whole[j] by {
                if j < prefix.len() {
                    assert(whole[i] == prefix[i] && whole[j] == prefix[j]);
                } else {
                    assert(whole[j] == CmdV::Part(observed.last()));
                    assert(whole[i] == prefix[i]);
                    if whole[i] == whole[j] {
                        assert(prefix.contains(CmdV::Part(observed.last())));
                    }
                }
            }
        }
    }
}

/// One reconciliation run emits the minimal command set and nothing twice:
/// exactly one join for each channel in `desired - observed`, exactly one
/// part for each channel in `observed - desired`, and no command at all for
/// a channel in both sets or in neither.
pub proof fn lemma_channel_cmds_minimal(v: SessionV, observed: Seq<Seq<char>>)
    requires
        distinct(v.channels),
        distinct(observed),
    ensures
        no_repeats(channel_cmds(v, observed)),
        forall|c: Seq<char>| #[trigger] channel_cmds(v, observed).contains(CmdV::Join(c))
            <==> (channel_due(v) && v.channels.contains(c) && !observed.contains(c)),
        forall|c: Seq<char>| #[trigger] channel_cmds(v, observed).contains(CmdV::Part(c))
            <==> (channel_due(v) && observed.contains(c) && !v.channels.contains(c)),
{
    broadcast use vstd::seq_lib::lemma_seq_concat_contains_all_elements;

    let joins = join_cmds(v.channels, observed);
    let parts = part_cmds(v.channels, observed);
    assert forall|c: Seq<char>|
        #[trigger] channel_cmds(v, observed).contains(CmdV::Join(c)) <==> (channel_due(v)
            && v.channels.contains(c) && !observed.contains(c)) by {
        if channel_due(v) {
            lemma_join_cmds_membership(v.channels, observed, c);
            lemma_part_cmds_membership(v.channels, observed, c);
            if parts.contains(CmdV::Join(c)) {
                let k = choose|k: int| 0 <= k < parts.len() && parts[k] == CmdV::Join(c);
                assert(parts[k] matches CmdV::Part(_));
            }
        }
    }
    assert forall|c: Seq<char>|
        #[trigger] channel_cmds(v, observed).contains(CmdV::Part(c)) <==> (channel_due(v)
            && observed.contains(c) && !v.channels.contains(c)) by {
        if channel_due(v) {
            lemma_join_cmds_membership(v.channels, observed, c);
            lemma_part_cmds_membership(v.channels, observed, c);
            if joins.contains(CmdV::Part(c)) {
                let k = choose|k: int| 0 <= k < joins.len() && joins[k] == CmdV::Part(c);
                assert(joins[k] matches CmdV::Join(_));
            }
        }
    }
    if channel_due(v) {
        lemma_join_cmds_no_repeats(v.channels, observed);
        lemma_part_cmds_no_repeats(v.channels, observed);
        lemma_join_cmds_membership(v.channels, observed, Seq::empty());
        lemma_part_cmds_membership(v.channels, observed, Seq::empty());
        assert forall|i: int, j: int| 0 <= i < j < channel_cmds(v, observed).len() implies
            channel_cmds(v, observed)[i] != channel_cmds(v, observed)[j] by {
            let whole = channel_cmds(v, observed);
            if j < joins.len() {
                assert(whole[i] == joins[i] && whole[j] == joins[j]);
            } else if i >= joins.len() {
                assert(whole[i] == parts[i - joins.len()] && whole[j] == parts[j - joins.len()]);
            } else {
                // A join on the left, a part on the right: different shapes.
                assert(whole[i] == joins[i] && whole[j] == parts[j - joins.len()]);
                assert(joins[i] matches CmdV::Join(_));
                assert(parts[j - joins.len()] matches CmdV::Part(_));
            }
        }
    }
}

/// The space-joined list of capability names: the payload of the one
/// combined capability request.
pub open spec fn space_join(names: Seq<Seq<char>>) -> Seq<char>
    decreases names.len(),
{
    if names.len() == 0 {
        Seq::empty()
    } else if names.len() == 1 {
        names[0]
    } else {
        space_join(names.drop_last()) + seq![' '] + names.last()
    }
}

/// Join capability names with single spaces.
fn join_names(names: &Vec<String>) -> (r: String)
    ensures
        r@ == space_join(names.deep_view()),
{
    let ghost nv = names.deep_view();
    let mut r = String::new();
    let mut i: usize = 0;
    while i < names.len()
        invariant
            0 <= i <= names.len(),
            nv == names.deep_view(),
            r@ == space_join(nv.take(i as int)),
        decreases names.len() - i,
    {
        proof {
            reveal_strlit(" ");
        }
        if i > 0 {
            r.append(" ");
        }
        r.append(names[i].as_str());
        proof {
            assert(nv.take(i + 1).drop_last() =~= nv.take(i as int));
            assert(nv.take(i + 1).last() == nv[i as int]);
            if i == 0 {
                assert(r@ =~= space_join(nv.take(1)));
            } else {
                assert(" "@ =~= seq![' ']);
                assert(r@ =~= space_join(nv.take(i as int)) + seq![' '] + nv[i as int]);
                assert(r@ =~= space_join(nv.take(i + 1)));
            }
        }
        i = i + 1;
    }
    assert(nv.take(names.len() as int) =~= nv);
    r
}

/// Capability reconciliation is due: the session is registered and its
/// desired capability set differs from the one last requested on this
/// registration (in particular, right after registration).
pub open spec fn cap_due(v: SessionV) -> bool {
    v.phase == Phase::Registered && v.caps_applied != Some(v.capabilities)
}

/// The command one capability reconciliation emits: when due, exactly one
/// combined request carrying the space-joined list of all desired capability
/// names — never one request per capability; when not due, none.
pub open spec fn cap_cmd(v: SessionV) -> Option<CmdV> {
    if cap_due(v) {
        Some(CmdV::CapReq(space_join(v.capabilities)))
    } else {
        None
    }
}

/// The session after one capability reconciliation: when due, the desired
/// set is recorded as requested; otherwise unchanged.
pub open spec fn cap_update(v: SessionV) -> SessionV {
    if cap_due(v) {
        SessionV { caps_applied: Some(v.capabilities), ..v }
    } else {
        v
    }
}

/// Capability reconciler: on first registration, or whenever the desired
/// capability set has changed since the last request, emit a single combined
/// capability request whose payload is the space-joined list of all desired
/// capability names — see [`cap_cmd`]. Never emits unconditionally every
/// tick, and never one request per capability.
pub fn request_capabilities(s: &mut Session) -> (cmd: Option<Command>)
    requires
        old(s).wf(),
    ensures
        final(s).wf(),
        cmd.deep_view() == cap_cmd(old(s)@),
        final(s)@ == cap_update(old(s)@),
{
    let registered = matches!(s.phase(), Phase::Registered);
    let applied = match s.applied_capabilities() {
        Some(r) => string_vecs_equal(r, s.capabilities()),
        None => false,
    };
    if !registered || applied {
        assert(!cap_due(s@));
        return None;
    }
    assert(cap_due(s@));

    let req = join_names(s.capabilities());
    let wanted = clone_string_vec(s.capabilities());
    s.set_caps_applied(Some(wanted));
    assert(s@ =~= cap_update(old(s)@));
    Some(Command::CapReq(req))
}

/// Running capability reconciliation twice consecutively, with no change to
/// the desired capabilities in between, emits nothing the second time: the
/// first run records the desired set as requested, so the second is not due.
pub proof fn lemma_capability_reconcile_idempotent(v: SessionV)
    ensures
        cap_cmd(cap_update(v)) == None::<CmdV>,
{
}

/// The handshake comes before any channel or capability command of the same
/// session: while the authentication sequence is owed the session is still
/// awaiting its handshake, and channel and capability commands become due
/// only in the later `Registered` phase.
pub proof fn lemma_handshake_precedes_reconciliation(v: SessionV, observed: Seq<Seq<char>>)
    ensures
        handshake_cmds(v).len() > 0 ==> channel_cmds(v, observed) == Seq::<CmdV>::empty()
            && cap_cmd(v) is None,
{
}

/// Keepalive timer: idle accumulation reaches the threshold.
pub open spec fn ping_due(v: SessionV, delta_ms: u64, threshold_ms: u64) -> bool {
    v.elapsed_ms + delta_ms >= threshold_ms
}

/// Keepalive timer: advance the session's idle accumulator by this tick's
/// elapsed milliseconds; once the accumulated idle time reaches the
/// threshold, emit a ping with an empty token and restart the accumulator
/// from zero.
///
/// The timer is a dead-connection detector: it advances with wall-clock tick
/// time alone and is reset only by sending a ping (or starting a connect
/// attempt), not by other traffic.
pub fn ping(s: &mut Session, delta_ms: u64, threshold_ms: u64) -> (cmd: Option<Command>)
    requires
        old(s).wf(),
    ensures
        final(s).wf(),
        ping_due(old(s)@, delta_ms, threshold_ms) ==> {
            &&& cmd.deep_view() == Some(CmdV::Ping(Seq::<char>::empty()))
            &&& final(s)@ == (SessionV { elapsed_ms: 0u64, ..old(s)@ })
        },
        !ping_due(old(s)@, delta_ms, threshold_ms) ==> {
            &&& cmd is None
            &&& final(s)@ == (SessionV {
                elapsed_ms: (old(s)@.elapsed_ms + delta_ms) as u64,
                ..old(s)@
            })
        },
{
    let elapsed = s.idle_ms();
    if elapsed >= threshold_ms || delta_ms >= threshold_ms - elapsed {
        s.set_elapsed_ms(0);
        assert(s@ =~= (SessionV { elapsed_ms: 0u64, ..old(s)@ }));
        Some(Command::Ping(String::new()))
    } else {
        s.set_elapsed_ms(elapsed + delta_ms);
        assert(s@ =~= (SessionV { elapsed_ms: (old(s)@.elapsed_ms + delta_ms) as u64, ..old(s)@ }));
        None
    }
}

/// Inbound poller: fold one item the host drained from the session's
/// message stream — without blocking — back into the session.
///
/// A parsed message may confirm registration (see
/// [`crate::observers::on_welcome`]) and, if it is a server ping, is owed
/// exactly one pong reply echoing its token (see
/// [`crate::observers::on_ping`]); the host publishes the message itself on
/// both event surfaces, globally and scoped to this session. A read error or
/// end of input drops the receiver and sender and returns the session to
/// `Disconnected`.
pub fn poll_stream(s: &mut Session, item: &StreamItem) -> (reply: Option<Command>)
    requires
        old(s).wf(),
    ensures
        final(s).wf(),
        item matches StreamItem::Received(m) ==> {
            &&& final(s)@ == crate::observers::welcome_update(old(s)@, m@)
            &&& reply.deep_view() == crate::observers::pong_for(m@)
        },
        !(item matches StreamItem::Received(_)) && old(s)@.stream ==> final(s)@ == old(
            s,
        )@.demoted() && reply is None,
        !(item matches StreamItem::Received(_)) && !old(s)@.stream ==> final(s)@ == old(s)@
            && reply is None,
{
    match item {
        StreamItem::Received(m) => {
            on_welcome(s, m);
            on_ping(m)
        }
        _ => {
            if s.has_stream() {
                s.demote();
            }
            None
        }
    }
}

} // verus!
