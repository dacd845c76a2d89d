//! Per-session data: connection endpoint, credentials, desired channel and
//! capability sets, lifecycle phase, transport-link markers, and the idle
//! keepalive timer, together with the session record that ties them together.

use vstd::prelude::*;

verus! {

/// Position of a session in its lifecycle state machine.
#[derive(Clone, Copy, Debug, PartialEq, Eq, Structural)]
pub enum Phase {
    /// No connection; eligible for a fresh connect attempt.
    Disconnected,
    /// A connect attempt is wanted or in flight.
    Connecting,
    /// Transport ready; registration handshake not yet sent.
    AwaitingHandshake,
    /// Handshake sent; waiting for the server to confirm registration.
    Identifying,
    /// The server confirmed registration.
    Registered,
}

impl Phase {
    /// A transport link (sender and receiver) is held exactly in these phases.
    pub open spec fn linked(self) -> bool {
        self == Phase::AwaitingHandshake || self == Phase::Identifying || self == Phase::Registered
    }
}

/// The endpoint a session connects to; immutable after creation.
#[derive(Clone, Debug)]
pub struct Connection {
    host: String,
    port: u16,
}

impl Connection {
    /// Create a connection component for the given host and port.
    pub fn new(host: &str, port: u16) -> (c: Connection)
        ensures
            c.spec_host() == host@,
            c.spec_port() == port,
    {
        Connection { host: host.to_owned(), port }
    }

    /// Create a connection component for the Twitch IRC endpoint.
    #[must_use]
    pub fn twitch() -> (c: Connection)
        ensures
            c.spec_host() == "irc.chat.twitch.tv"@,
            c.spec_port() == 6697,
    {
        Connection { host: "irc.chat.twitch.tv".to_owned(), port: 6697 }
    }

    /// The host this connection is declared against.
    pub fn host(&self) -> (h: &str)
        ensures
            h@ == self.spec_host(),
    {
        self.host.as_str()
    }

    /// The port this connection is declared against.
    pub fn port(&self) -> (p: u16)
        ensures
            p == self.spec_port(),
    {
        self.port
    }

    /// The host as an abstract character sequence.
    pub closed spec fn spec_host(self) -> Seq<char> {
        self.host@
    }

    /// The port as an abstract value.
    pub closed spec fn spec_port(self) -> u16 {
        self.port
    }
}

/// Caller-supplied credentials: nickname and optional password.
#[derive(Clone, Debug)]
pub struct Auth {
    /// Nickname sent with the nickname command of the handshake.
    pub nick: String,
    /// Password sent with the password command of the handshake, if any.
    pub pass: Option<String>,
}

impl Auth {
    /// Create credentials with the given nickname and no password.
    pub fn new(nickname: &str) -> (a: Auth)
        ensures
            a.nick@ == nickname@,
            a.pass is None,
    {
        Auth { nick: nickname.to_owned(), pass: None }
    }

    /// Set the password on these credentials.
    #[must_use]
    pub fn password(self, password: &str) -> (a: Auth)
        ensures
            a.nick@ == self.nick@,
            a.pass.deep_view() == Some(password@),
    {
        Auth { pass: Some(password.to_owned()), ..self }
    }
}

/// The ordered set of channel names the caller wants joined.
#[derive(Clone, Debug, Default)]
pub struct Channels(pub Vec<String>);

/// The set of capability names the caller wants requested.
#[derive(Clone, Debug, Default)]
pub struct Capabilities(pub Vec<String>);

/// Marker for the outbound half of an established transport link. The host
/// owns the real transport sender; this records its presence in the session.
#[derive(Debug)]
pub struct Sender;

/// Marker for the inbound half of an established transport link. The host
/// owns the real message stream; this records its presence in the session.
#[derive(Debug)]
pub struct Stream;

/// Idle keepalive accumulator: milliseconds since the last keepalive ping.
#[derive(Clone, Copy, Debug, PartialEq, Eq, Structural)]
pub struct Pinger {
    /// Elapsed idle time in milliseconds.
    pub elapsed_ms: u64,
}

/// A sequence of names has no repeated entry.
pub open spec fn distinct(names: Seq<Seq<char>>) -> bool {
    forall|i: int, j: int| 0 <= i < j < names.len() ==> names[i] != names[j]
}

/// The abstract state of a session: everything its transitions are specified
/// over.
#[verifier::ext_equal]
pub ghost struct SessionV {
    /// Endpoint host.
    pub host: Seq<char>,
    /// Endpoint port.
    pub port: u16,
    /// Nickname of the credentials.
    pub nick: Seq<char>,
    /// Optional password of the credentials.
    pub pass: Option<Seq<char>>,
    /// Desired channel names, in declaration order.
    pub channels: Seq<Seq<char>>,
    /// Desired capability names.
    pub capabilities: Seq<Seq<char>>,
    /// Lifecycle phase.
    pub phase: Phase,
    /// Whether the outbound transport half is present.
    pub sender: bool,
    /// Whether the inbound transport half is present.
    pub stream: bool,
    /// Whether a connect operation is in flight.
    pub connecting: bool,
    /// Idle milliseconds accumulated since the last keepalive ping.
    pub elapsed_ms: u64,
    /// Desired channel set as of the last channel reconciliation on this
    /// registration, if one has run.
    pub reconciled: Option<Seq<Seq<char>>>,
    /// Desired capability set as of the last capability request on this
    /// registration, if one was issued.
    pub caps_applied: Option<Seq<Seq<char>>>,
}

impl SessionV {
    /// Well-formedness: the sender and receiver are both present or both
    /// absent, they are held exactly from handshake onwards, at most one
    /// connect operation is in flight and only while connecting, the desired
    /// sets hold no duplicates, and reconciled state exists only while
    /// registered.
    pub open spec fn wf(self) -> bool {
        &&& self.sender == self.stream
        &&& self.sender == self.phase.linked()
        &&& self.connecting ==> self.phase == Phase::Connecting
        &&& distinct(self.channels)
        &&& distinct(self.capabilities)
        &&& self.reconciled is Some ==> self.phase == Phase::Registered
        &&& self.caps_applied is Some ==> self.phase == Phase::Registered
    }

    /// The session after an unrecoverable send or receive failure: the
    /// transport link is dropped, the phase returns to `Disconnected`, and the
    /// reconciled state is forgotten so a future reconnect re-applies the
    /// desired channels and capabilities from scratch.
    pub open spec fn demoted(self) -> SessionV {
        SessionV {
            phase: Phase::Disconnected,
            sender: false,
            stream: false,
            connecting: false,
            reconciled: None,
            caps_applied: None,
            ..self
        }
    }

    /// A connect operation is in flight.
    pub open spec fn in_flight(self) -> bool {
        self.phase == Phase::Connecting && self.connecting
    }
}

/// One caller-declared connection and all its orchestration state.
pub struct Session {
    connection: Connection,
    auth: Auth,
    channels: Channels,
    capabilities: Capabilities,
    phase: Phase,
    sender: Option<Sender>,
    stream: Option<Stream>,
    connecting: bool,
    pinger: Pinger,
    reconciled: Option<Vec<String>>,
    caps_applied: Option<Vec<String>>,
}

impl View for Session {
    type V = SessionV;

    closed spec fn view(&self) -> SessionV {
        SessionV {
            host: self.connection.spec_host(),
            port: self.connection.spec_port(),
            nick: self.auth.nick@,
            pass: self.auth.pass.deep_view(),
            channels: self.channels.0.deep_view(),
            capabilities: self.capabilities.0.deep_view(),
            phase: self.phase,
            sender: self.sender is Some,
            stream: self.stream is Some,
            connecting: self.connecting,
            elapsed_ms: self.pinger.elapsed_ms,
            reconciled: self.reconciled.deep_view(),
            caps_applied: self.caps_applied.deep_view(),
        }
    }
}

impl Session {
    /// Well-formedness of the abstract state; established by the constructor
    /// and preserved by every transition.
    pub open spec fn wf(&self) -> bool {
        self@.wf()
    }

    /// Declare a session. The connection attempt is wanted immediately: the
    /// initial phase is `Connecting` with no operation in flight yet.
    pub fn new(
        connection: Connection,
        auth: Auth,
        channels: Channels,
        capabilities: Capabilities,
    ) -> (s: Session)
        requires
            distinct(channels.0.deep_view()),
            distinct(capabilities.0.deep_view()),
        ensures
            s.wf(),
            s@ == (SessionV {
                host: connection.spec_host(),
                port: connection.spec_port(),
                nick: auth.nick@,
                pass: auth.pass.deep_view(),
                channels: channels.0.deep_view(),
                capabilities: capabilities.0.deep_view(),
                phase: Phase::Connecting,
                sender: false,
                stream: false,
                connecting: false,
                elapsed_ms: 0u64,
                reconciled: None,
                caps_applied: None,
            }),
    {
        Session {
            connection,
            auth,
            channels,
            capabilities,
            phase: Phase::Connecting,
            sender: None,
            stream: None,
            connecting: false,
            pinger: Pinger { elapsed_ms: 0 },
            reconciled: None,
            caps_applied: None,
        }
    }

    /// Lifecycle phase of this session.
    pub fn phase(&self) -> (p: Phase)
        ensures
            p == self@.phase,
    {
        self.phase
    }

    /// Whether the outbound transport half is present.
    pub fn has_sender(&self) -> (b: bool)
        ensures
            b == self@.sender,
    {
        self.sender.is_some()
    }

    /// Whether the inbound transport half is present.
    pub fn has_stream(&self) -> (b: bool)
        ensures
            b == self@.stream,
    {
        self.stream.is_some()
    }

    /// Whether a connect operation is in flight.
    pub fn is_connecting(&self) -> (b: bool)
        ensures
            b == self@.connecting,
    {
        self.connecting
    }

    /// Idle milliseconds accumulated since the last keepalive ping.
    pub fn idle_ms(&self) -> (ms: u64)
        ensures
            ms == self@.elapsed_ms,
    {
        self.pinger.elapsed_ms
    }

    /// The endpoint this session was declared against.
    pub fn connection(&self) -> (c: &Connection)
        ensures
            c.spec_host() == self@.host,
            c.spec_port() == self@.port,
    {
        &self.connection
    }

    /// The desired channel names.
    pub fn channels(&self) -> (c: &Vec<String>)
        ensures
            c.deep_view() == self@.channels,
    {
        &self.channels.0
    }

    /// The desired capability names.
    pub fn capabilities(&self) -> (c: &Vec<String>)
        ensures
            c.deep_view() == self@.capabilities,
    {
        &self.capabilities.0
    }

    /// Replace the desired channel set. Takes effect at the next channel
    /// reconciliation.
    pub fn set_channels(&mut self, channels: Vec<String>)
        requires
            old(self).wf(),
            distinct(channels.deep_view()),
        ensures
            final(self).wf(),
            final(self)@ == (SessionV { channels: channels.deep_view(), ..old(self)@ }),
    {
        self.channels = Channels(channels);
    }

    /// Replace the desired capability set. Takes effect at the next
    /// capability reconciliation.
    pub fn set_capabilities(&mut self, capabilities: Vec<String>)
        requires
            old(self).wf(),
            distinct(capabilities.deep_view()),
        ensures
            final(self).wf(),
            final(self)@ == (SessionV { capabilities: capabilities.deep_view(), ..old(self)@ }),
    {
        self.capabilities = Capabilities(capabilities);
    }

    /// Replace the credentials. A change does not re-authenticate by itself:
    /// the new credentials are used at the next handshake.
    pub fn set_auth(&mut self, auth: Auth)
        requires
            old(self).wf(),
        ensures
            final(self).wf(),
            final(self)@ == (SessionV {
                nick: auth.nick@,
                pass: auth.pass.deep_view(),
                ..old(self)@
            }),
    {
        self.auth = auth;
    }

    pub(crate) fn set_phase(&mut self, phase: Phase)
        ensures
            final(self)@ == (SessionV { phase, ..old(self)@ }),
    {
        self.phase = phase;
    }

    pub(crate) fn set_link(&mut self, sender: Option<Sender>, stream: Option<Stream>)
        ensures
            final(self)@ == (SessionV {
                sender: sender is Some,
                stream: stream is Some,
                ..old(self)@
            }),
    {
        self.sender = sender;
        self.stream = stream;
    }

    pub(crate) fn set_connecting(&mut self, connecting: bool)
        ensures
            final(self)@ == (SessionV { connecting, ..old(self)@ }),
    {
        self.connecting = connecting;
    }

    pub(crate) fn set_elapsed_ms(&mut self, elapsed_ms: u64)
        ensures
            final(self)@ == (SessionV { elapsed_ms, ..old(self)@ }),
    {
        self.pinger = Pinger { elapsed_ms };
    }

    pub(crate) fn set_reconciled(&mut self, reconciled: Option<Vec<String>>)
        ensures
            final(self)@ == (SessionV { reconciled: reconciled.deep_view(), ..old(self)@ }),
    {
        self.reconciled = reconciled;
    }

    pub(crate) fn set_caps_applied(&mut self, caps_applied: Option<Vec<String>>)
        ensures
            final(self)@ == (SessionV { caps_applied: caps_applied.deep_view(), ..old(self)@ }),
    {
        self.caps_applied = caps_applied;
    }

    pub(crate) fn reconciled_channels(&self) -> (r: &Option<Vec<String>>)
        ensures
            r.deep_view() == self@.reconciled,
    {
        &self.reconciled
    }

    pub(crate) fn applied_capabilities(&self) -> (r: &Option<Vec<String>>)
        ensures
            r.deep_view() == self@.caps_applied,
    {
        &self.caps_applied
    }

    pub(crate) fn auth(&self) -> (a: &Auth)
        ensures
            a.nick@ == self@.nick,
            a.pass.deep_view() == self@.pass,
    {
        &self.auth
    }

    /// Drop the transport link and return to `Disconnected`, forgetting the
    /// reconciled state (see [`SessionV::demoted`]).
    pub(crate) fn demote(&mut self)
        requires
            old(self).wf(),
        ensures
            final(self).wf(),
            final(self)@ == old(self)@.demoted(),
    {
        self.phase = Phase::Disconnected;
        self.sender = None;
        self.stream = None;
        self.connecting = false;
        self.reconciled = None;
        self.caps_applied = None;
        assert(self@ =~= old(self)@.demoted());
    }
}

/// While a session is registered, the sender and the receiver are present:
/// the transport link invariant the whole pipeline preserves.
pub proof fn lemma_registered_implies_link(s: SessionV)
    requires
        s.wf(),
        s.phase == Phase::Registered,
    ensures
        s.sender,
        s.stream,
{
}

} // verus!
