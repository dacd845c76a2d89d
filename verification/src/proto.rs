//! The protocol commands this layer emits and the shape of parsed inbound
//! messages. The wire encoding itself is the transport library's business;
//! here a command is a tagged value so the outbound dispatcher has one
//! concrete signature.

use vstd::prelude::*;

verus! {

/// Numeric response code with which the server confirms registration.
pub const RPL_WELCOME: u16 = 1;

/// Abstract value of a [`Command`].
#[verifier::ext_equal]
pub ghost enum CmdV {
    /// Password command of the handshake.
    Pass(Seq<char>),
    /// Nickname command of the handshake.
    Nick(Seq<char>),
    /// Join the named channel.
    Join(Seq<char>),
    /// Part the named channel.
    Part(Seq<char>),
    /// Request the space-joined list of capability names.
    CapReq(Seq<char>),
    /// Keepalive ping carrying a token.
    Ping(Seq<char>),
    /// Reply to a server ping, echoing its token.
    Pong(Seq<char>),
    /// Chat message to a target.
    Privmsg(Seq<char>, Seq<char>),
    /// Numeric server response with its arguments.
    Response(u16, Seq<Seq<char>>),
    /// Anything this layer does not interpret.
    Raw(Seq<char>),
}

/// A protocol command, outbound or parsed from an inbound message.
#[derive(Clone, Debug, PartialEq, Eq)]
pub enum Command {
    /// Password command of the handshake.
    Pass(String),
    /// Nickname command of the handshake.
    Nick(String),
    /// Join the named channel.
    Join(String),
    /// Part the named channel.
    Part(String),
    /// Request the space-joined list of capability names.
    CapReq(String),
    /// Keepalive ping carrying a token.
    Ping(String),
    /// Reply to a server ping, echoing its token.
    Pong(String),
    /// Chat message to a target.
    Privmsg(String, String),
    /// Numeric server response with its arguments.
    Response(u16, Vec<String>),
    /// Anything this layer does not interpret.
    Raw(String),
}

impl View for Command {
    type V = CmdV;

    open spec fn view(&self) -> CmdV {
        match self {
            Command::Pass(p) => CmdV::Pass(p@),
            Command::Nick(n) => CmdV::Nick(n@),
            Command::Join(c) => CmdV::Join(c@),
            Command::Part(c) => CmdV::Part(c@),
            Command::CapReq(c) => CmdV::CapReq(c@),
            Command::Ping(t) => CmdV::Ping(t@),
            Command::Pong(t) => CmdV::Pong(t@),
            Command::Privmsg(t, m) => CmdV::Privmsg(t@, m@),
            Command::Response(c, args) => CmdV::Response(*c, args.deep_view()),
            Command::Raw(r) => CmdV::Raw(r@),
        }
    }
}

impl DeepView for Command {
    type V = CmdV;

    open spec fn deep_view(&self) -> CmdV {
        self.view()
    }
}

/// Abstract value of a [`Tag`].
#[verifier::ext_equal]
pub ghost struct TagV {
    /// Tag key.
    pub key: Seq<char>,
    /// Tag value, if the tag carries one.
    pub value: Option<Seq<char>>,
}

/// One metadata tag of an inbound message: a key and an optional value.
#[derive(Clone, Debug, PartialEq, Eq)]
pub struct Tag(pub String, pub Option<String>);

impl View for Tag {
    type V = TagV;

    open spec fn view(&self) -> TagV {
        TagV { key: self.0@, value: self.1.deep_view() }
    }
}

impl DeepView for Tag {
    type V = TagV;

    open spec fn deep_view(&self) -> TagV {
        self.view()
    }
}

/// Abstract value of a [`Message`].
#[verifier::ext_equal]
pub ghost struct MsgV {
    /// Metadata tags, if the message carries any.
    pub tags: Option<Seq<TagV>>,
    /// Sender prefix, if present.
    pub prefix: Option<Seq<char>>,
    /// The message's command.
    pub command: CmdV,
}

/// A parsed inbound or outbound protocol message.
#[derive(Clone, Debug, PartialEq, Eq)]
pub struct Message {
    /// Metadata tags, if the message carries any.
    pub tags: Option<Vec<Tag>>,
    /// Sender prefix, if present.
    pub prefix: Option<String>,
    /// The message's command.
    pub command: Command,
}

impl View for Message {
    type V = MsgV;

    open spec fn view(&self) -> MsgV {
        MsgV {
            tags: self.tags.deep_view(),
            prefix: self.prefix.deep_view(),
            command: self.command@,
        }
    }
}

impl DeepView for Message {
    type V = MsgV;

    open spec fn deep_view(&self) -> MsgV {
        self.view()
    }
}

impl MsgV {
    /// The message is the welcome-class response with which the server
    /// confirms registration.
    pub open spec fn is_welcome(self) -> bool {
        self.command matches CmdV::Response(code, _) && code == RPL_WELCOME
    }
}

/// An inbound message event, published both globally and scoped to the
/// originating session.
#[derive(Clone, Debug)]
pub struct Incoming(pub Message);

/// An outbound command event, funneled through the outbound dispatcher.
#[derive(Clone, Debug)]
pub struct Outgoing(pub Command);

impl Outgoing {
    /// Create a new outgoing command event.
    #[must_use]
    pub fn new(command: Command) -> (o: Outgoing)
        ensures
            o.0 == command,
    {
        Outgoing(command)
    }
}

} // verus!
