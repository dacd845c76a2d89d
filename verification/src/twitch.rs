//! Helpers for reading and building Twitch-flavoured messages: pure
//! functions over an already-parsed message's metadata tags.

use vstd::prelude::*;

use crate::proto::{CmdV, Command, Message, MsgV, Tag, TagV};

verus! {

/// `n` occurs contiguously somewhere in `s`.
pub open spec fn has_substring(s: Seq<char>, n: Seq<char>) -> bool {
    exists|i: int| 0 <= i <= s.len() - n.len() && #[trigger] s.subrange(i, i + n.len()) == n
}

/// Whether two strings hold the same characters.
fn str_equal(a: &str, b: &str) -> (r: bool)
    ensures
        r == (a@ == b@),
{
    let al = a.unicode_len();
    let bl = b.unicode_len();
    if al != bl {
        return false;
    }
    let mut i: usize = 0;
    while i < al
        invariant
            0 <= i <= al,
            al == a@.len() == b@.len(),
            forall|j: int| 0 <= j < i ==> a@[j] == b@[j],
        decreases al - i,
    {
        if a.get_char(i) != b.get_char(i) {
            return false;
        }
        i = i + 1;
    }
    assert(a@ =~= b@);
    true
}

/// Whether `n` occurs contiguously in `s`.
fn str_contains(s: &str, n: &str) -> (r: bool)
    ensures
        r == has_substring(s@, n@),
{
    let sl = s.unicode_len();
    let nl = n.unicode_len();
    if nl > sl {
        return false;
    }
    if nl == 0 {
        proof {
            assert(s@.subrange(0, 0 + n@.len() as int) =~= n@);
            assert(has_substring(s@, n@));
        }
        return true;
    }
    let mut i: usize = 0;
    while i <= sl - nl
        invariant
            0 < nl <= sl,
            sl == s@.len(),
            nl == n@.len(),
            0 <= i <= sl - nl + 1,
            forall|k: int| 0 <= k < i ==> #[trigger] s@.subrange(k, k + nl) != n@,
        decreases sl - nl - i + 1,
    {
        let mut j: usize = 0;
        while j < nl && s.get_char(i + j) == n.get_char(j)
            invariant
                0 < nl <= sl,
                sl == s@.len(),
                nl == n@.len(),
                i + nl <= sl,
                0 <= j <= nl,
                forall|t: int| 0 <= t < j ==> s@[i + t] == n@[t],
            decreases nl - j,
        {
            j = j + 1;
        }
        if j == nl {
            assert(s@.subrange(i as int, i + nl) =~= n@);
            assert(s@.subrange(i as int, i as int + n@.len()) == n@);
            return true;
        }
        assert(s@.subrange(i as int, i + nl)[j as int] != n@[j as int]);
        i = i + 1;
    }
    proof {
        if has_substring(s@, n@) {
            let k = choose|k: int|
                0 <= k <= s@.len() - n@.len() && #[trigger] s@.subrange(k, k + n@.len()) == n@;
            assert(s@.subrange(k, k + nl) == n@);
            assert(false);
        }
    }
    false
}

/// Index of the first occurrence of `c` in `s`, or a negative value when `c`
/// does not occur.
pub open spec fn find_char(s: Seq<char>, c: char) -> int
    decreases s.len(),
{
    if s.len() == 0 {
        -1
    } else if s[0] == c {
        0
    } else if find_char(s.drop_first(), c) < 0 {
        -1
    } else {
        find_char(s.drop_first(), c) + 1
    }
}

/// `find_char` names the first occurrence: the character is there and none
/// before it is.
pub proof fn lemma_find_char_at(s: Seq<char>, c: char, i: int)
    requires
        0 <= i < s.len(),
        s[i] == c,
        forall|j: int| 0 <= j < i ==> s[j] != c,
    ensures
        find_char(s, c) == i,
    decreases s.len(),
{
    if i > 0 {
        assert(forall|j: int| 0 <= j < i - 1 ==> s.drop_first()[j] == s[j + 1]);
        lemma_find_char_at(s.drop_first(), c, i - 1);
    }
}

/// When `c` occurs nowhere in `s`, `find_char` reports so.
pub proof fn lemma_find_char_absent(s: Seq<char>, c: char)
    requires
        forall|j: int| 0 <= j < s.len() ==> s[j] != c,
    ensures
        find_char(s, c) == -1,
    decreases s.len(),
{
    if s.len() > 0 {
        lemma_find_char_absent(s.drop_first(), c);
    }
}

/// `find_char` stays within the sequence when it finds anything at all.
pub proof fn lemma_find_char_range(s: Seq<char>, c: char)
    ensures
        find_char(s, c) == -1 || (0 <= find_char(s, c) < s.len() && s[find_char(s, c)] == c),
    decreases s.len(),
{
    if s.len() > 0 && s[0] != c {
        lemma_find_char_range(s.drop_first(), c);
    }
}

/// The value of the first tag with the given key: absent when no tag carries
/// the key, the tag's (optional) value otherwise.
pub open spec fn find_tag(tags: Seq<TagV>, key: Seq<char>) -> Option<Option<Seq<char>>>
    decreases tags.len(),
{
    if tags.len() == 0 {
        None
    } else if tags[0].key == key {
        Some(tags[0].value)
    } else {
        find_tag(tags.drop_first(), key)
    }
}

/// The value carried by the first tag of the message with the given key:
/// absent when the message has no tags, no tag carries the key, or the tag
/// carries no value.
pub open spec fn spec_tag_value(m: MsgV, key: Seq<char>) -> Option<Seq<char>> {
    match m.tags {
        Some(tags) => match find_tag(tags, key) {
            Some(Some(v)) => Some(v),
            _ => None,
        },
        None => None,
    }
}

impl Message {
    /// The value carried by this message's first tag with the given key, if
    /// any — see [`spec_tag_value`].
    pub fn tag_value<'a>(&'a self, key: &str) -> (r: Option<&'a str>)
        ensures
            r.deep_view() == spec_tag_value(self@, key@),
    {
        let tags = match &self.tags {
            Some(tags) => tags,
            None => {
                return None;
            },
        };
        let ghost all = tags.deep_view();
        assert(self@.tags == Some(all));
        assert(all.skip(0) =~= all);
        let mut i: usize = 0;
        while i < tags.len()
            invariant
                0 <= i <= tags.len(),
                all == tags.deep_view(),
                self@.tags == Some(all),
                find_tag(all.skip(i as int), key@) == find_tag(all, key@),
            decreases tags.len() - i,
        {
            proof {
                assert(all.skip(i as int)[0] == all[i as int]);
                assert(all.skip(i as int).drop_first() =~= all.skip(i + 1));
                assert(all[i as int] == tags@[i as int]@);
            }
            if str_equal(tags[i].0.as_str(), key) {
                assert(all[i as int].key == key@);
                assert(find_tag(all, key@) == Some(all[i as int].value));
                return match &tags[i].1 {
                    Some(v) => Some(v.as_str()),
                    None => None,
                };
            }
            i = i + 1;
        }
        assert(all.skip(tags.len() as int) =~= Seq::<TagV>::empty());
        None
    }
}

/// The tag marks its message as sent by a moderator: a `mod` tag with value
/// `1`, a `user-type` tag with value `mod`, or a `badges` tag whose value
/// mentions a moderator or broadcaster badge.
pub open spec fn marks_mod(t: TagV) -> bool {
    ||| t.key == "mod"@ && t.value == Some("1"@)
    ||| t.key == "user-type"@ && t.value == Some("mod"@)
    ||| (t.key == "badges"@ && match t.value {
        Some(v) => has_substring(v, "moderator"@) || has_substring(v, "broadcaster"@),
        None => false,
    })
}

/// The message carries a tag marking its sender as a moderator (or the
/// broadcaster).
pub open spec fn spec_is_send_by_mod(m: MsgV) -> bool {
    match m.tags {
        Some(tags) => exists|i: int| 0 <= i < tags.len() && #[trigger] marks_mod(tags[i]),
        None => false,
    }
}

/// Whether one tag marks the sender as a moderator — see [`marks_mod`].
fn tag_marks_mod(t: &Tag) -> (r: bool)
    ensures
        r == marks_mod(t@),
{
    let value = match &t.1 {
        Some(v) => v.as_str(),
        None => {
            return false;
        },
    };
    if str_equal(t.0.as_str(), "mod") && str_equal(value, "1") {
        return true;
    }
    if str_equal(t.0.as_str(), "user-type") && str_equal(value, "mod") {
        return true;
    }
    if str_equal(t.0.as_str(), "badges") && (str_contains(value, "moderator") || str_contains(
        value,
        "broadcaster",
    )) {
        return true;
    }
    false
}

/// Why a reply message could not be built.
#[derive(Clone, Copy, Debug, PartialEq, Eq, Structural)]
pub enum MessageError {
    /// The message replied to is not a chat message.
    InvalidCommand,
    /// The message replied to carries no id tag.
    MissingId,
}

/// Abstract value of a [`Badge`].
#[verifier::ext_equal]
pub ghost struct BadgeV {
    /// Badge name.
    pub badge: Seq<char>,
    /// Badge version.
    pub version: Seq<char>,
}

/// One badge of a sender: a name and a version, written `name/version` in
/// the badges tag.
#[derive(Clone, Debug, PartialEq, Eq)]
pub struct Badge {
    /// Badge name.
    pub badge: String,
    /// Badge version.
    pub version: String,
}

impl View for Badge {
    type V = BadgeV;

    open spec fn view(&self) -> BadgeV {
        BadgeV { badge: self.badge@, version: self.version@ }
    }
}

impl DeepView for Badge {
    type V = BadgeV;

    open spec fn deep_view(&self) -> BadgeV {
        self.view()
    }
}

/// The badge a `name/version` entry denotes: the name before the first
/// slash, the version all that follows it; entries without a slash denote
/// none.
pub open spec fn parse_badge(p: Seq<char>) -> Option<BadgeV> {
    if find_char(p, '/') < 0 {
        None
    } else {
        Some(badge_of(p))
    }
}

/// The badge denoted by an entry known to contain a slash.
pub open spec fn badge_of(p: Seq<char>) -> BadgeV {
    BadgeV { badge: p.take(find_char(p, '/')), version: p.skip(find_char(p, '/') + 1) }
}

impl Badge {
    /// Parse one `name/version` badge entry — see [`parse_badge`].
    pub fn parse(s: &str) -> (r: Option<Badge>)
        ensures
            r.deep_view() == parse_badge(s@),
    {
        let len = s.unicode_len();
        let mut i: usize = 0;
        while i < len
            invariant
                0 <= i <= len,
                len == s@.len(),
                forall|j: int| 0 <= j < i ==> s@[j] != '/',
            decreases len - i,
        {
            if s.get_char(i) == '/' {
                proof {
                    lemma_find_char_at(s@, '/', i as int);
                }
                let badge = s.substring_char(0, i).to_owned();
                let version = s.substring_char(i + 1, len).to_owned();
                return Some(Badge { badge, version });
            }
            i = i + 1;
        }
        proof {
            lemma_find_char_absent(s@, '/');
        }
        None
    }
}

impl core::str::FromStr for Badge {
    type Err = ();

    fn from_str(s: &str) -> Result<Badge, ()> {
        match Badge::parse(s) {
            Some(b) => Ok(b),
            None => Err(()),
        }
    }
}

/// The pieces of `s` between occurrences of `sep`: splitting never yields
/// an empty sequence — a separator-free string is one piece, and leading,
/// trailing and doubled separators yield empty pieces.
pub open spec fn split_on(s: Seq<char>, sep: char) -> Seq<Seq<char>>
    decreases s.len(),
    via split_on_decreases
{
    if find_char(s, sep) < 0 {
        seq![s]
    } else {
        seq![s.take(find_char(s, sep))] + split_on(s.skip(find_char(s, sep) + 1), sep)
    }
}

#[via_fn]
proof fn split_on_decreases(s: Seq<char>, sep: char) {
    lemma_find_char_range(s, sep);
}

/// Split a string on a separator character.
fn split_string(s: &str, sep: char) -> (pieces: Vec<String>)
    ensures
        pieces.deep_view() == split_on(s@, sep),
{
    let len = s.unicode_len();
    let mut pieces: Vec<String> = Vec::new();
    let mut start: usize = 0;
    let mut i: usize = 0;
    proof {
        assert(s@.skip(0) =~= s@);
        assert(pieces.deep_view() + split_on(s@.skip(0), sep) =~= split_on(s@, sep));
    }
    while i < len
        invariant
            0 <= start <= i <= len,
            len == s@.len(),
            forall|j: int| start <= j < i ==> s@[j] != sep,
            split_on(s@, sep) == pieces.deep_view() + split_on(s@.skip(start as int), sep),
        decreases len - i,
    {
        if s.get_char(i) == sep {
            proof {
                let rest = s@.skip(start as int);
                assert(forall|j: int| 0 <= j < i - start ==> rest[j] == s@[start + j]);
                lemma_find_char_at(rest, sep, i - start);
                assert(rest.take(i - start) =~= s@.subrange(start as int, i as int));
                assert(rest.skip(i - start + 1) =~= s@.skip(i + 1));
            }
            let ghost prev = pieces.deep_view();
            pieces.push(s.substring_char(start, i).to_owned());
            proof {
                assert(pieces.deep_view() =~= prev.push(s@.subrange(start as int, i as int)));
                assert(split_on(s@, sep) =~= pieces.deep_view() + split_on(s@.skip(i + 1), sep));
            }
            start = i + 1;
        }
        i = i + 1;
    }
    proof {
        let rest = s@.skip(start as int);
        assert(forall|j: int| 0 <= j < rest.len() ==> rest[j] == s@[start + j]);
        lemma_find_char_absent(rest, sep);
        assert(rest.take(rest.len() as int) =~= rest);
        assert(rest =~= s@.subrange(start as int, len as int));
    }
    let ghost prev = pieces.deep_view();
    pieces.push(s.substring_char(start, len).to_owned());
    proof {
        assert(pieces.deep_view() =~= prev.push(s@.skip(start as int)));
        assert(pieces.deep_view() =~= split_on(s@, sep));
    }
    pieces
}

/// The badges listed by a comma-separated badges tag value: all entries
/// parsed, or nothing if any entry is malformed.
pub open spec fn parse_badge_list(v: Seq<char>) -> Option<Seq<BadgeV>> {
    let pieces = split_on(v, ',');
    if forall|i: int| 0 <= i < pieces.len() ==> #[trigger] parse_badge(pieces[i]) is Some {
        Some(Seq::new(pieces.len(), |i: int| badge_of(pieces[i])))
    } else {
        None
    }
}

/// The badges of the message's sender: the parsed entries of its badges
/// tag, or nothing if the tag is absent, carries no value, or holds a
/// malformed entry.
pub open spec fn spec_badges(m: MsgV) -> Option<Seq<BadgeV>> {
    match spec_tag_value(m, "badges"@) {
        Some(v) => parse_badge_list(v),
        None => None,
    }
}

/// The message's tags, or the empty sequence when it carries none.
pub open spec fn tags_or_empty(m: MsgV) -> Seq<TagV> {
    match m.tags {
        Some(tags) => tags,
        None => Seq::empty(),
    }
}

/// The message with a reply-parent tag for the given message id appended.
pub open spec fn with_reply_parent(m: MsgV, id: Seq<char>) -> MsgV {
    MsgV {
        tags: Some(
            tags_or_empty(m).push(TagV { key: "reply-parent-msg-id"@, value: Some(id) }),
        ),
        ..m
    }
}

/// The reply owed for a message: a fresh chat message to the same target
/// carrying the given text and a reply-parent tag naming the original
/// message's id; building it fails when the original is not a chat message
/// or carries no id tag.
pub open spec fn spec_new_reply(m: MsgV, text: Seq<char>) -> Result<MsgV, MessageError> {
    match m.command {
        CmdV::Privmsg(channel, _) => match spec_tag_value(m, "id"@) {
            Some(id) => Ok(
                MsgV {
                    tags: Some(seq![TagV { key: "reply-parent-msg-id"@, value: Some(id) }]),
                    prefix: None,
                    command: CmdV::Privmsg(channel, text),
                },
            ),
            None => Err(MessageError::MissingId),
        },
        _ => Err(MessageError::InvalidCommand),
    }
}

impl Message {
    /// The sender is marked as a moderator (or the broadcaster) — see
    /// [`spec_is_send_by_mod`].
    pub fn is_send_by_mod(&self) -> (r: bool)
        ensures
            r == spec_is_send_by_mod(self@),
    {
        let tags = match &self.tags {
            Some(tags) => tags,
            None => {
                return false;
            },
        };
        let ghost all = tags.deep_view();
        assert(self@.tags == Some(all));
        let mut i: usize = 0;
        while i < tags.len()
            invariant
                0 <= i <= tags.len(),
                all == tags.deep_view(),
                self@.tags == Some(all),
                forall|j: int| 0 <= j < i ==> !(#[trigger] marks_mod(all[j])),
            decreases tags.len() - i,
        {
            assert(all[i as int] == tags@[i as int]@);
            if tag_marks_mod(&tags[i]) {
                proof {
                    match self@.tags {
                        Some(ts) => {
                            assert(ts == all);
                            assert(exists|j: int| 0 <= j < ts.len() && #[trigger] marks_mod(
                                ts[j],
                            )) by {
                                assert(0 <= i < ts.len() && marks_mod(ts[i as int]));
                            }
                        },
                        None => {
                            assert(false);
                        },
                    }
                }
                return true;
            }
            i = i + 1;
        }
        false
    }

    /// The value of the message id tag, if the message carries one.
    pub fn message_id<'a>(&'a self) -> (r: Option<&'a str>)
        ensures
            r.deep_view() == spec_tag_value(self@, "id"@),
    {
        self.tag_value("id")
    }

    /// The value of the user id tag, if the message carries one.
    pub fn user_id<'a>(&'a self) -> (r: Option<&'a str>)
        ensures
            r.deep_view() == spec_tag_value(self@, "user-id"@),
    {
        self.tag_value("user-id")
    }

    /// The value of the display name tag, if the message carries one.
    pub fn display_name<'a>(&'a self) -> (r: Option<&'a str>)
        ensures
            r.deep_view() == spec_tag_value(self@, "display-name"@),
    {
        self.tag_value("display-name")
    }

    /// The badges of the message's sender, parsed from its badges tag — see
    /// [`spec_badges`].
    pub fn badges(&self) -> (r: Option<Vec<Badge>>)
        ensures
            r.deep_view() == spec_badges(self@),
    {
        let value = match self.tag_value("badges") {
            Some(v) => v,
            None => {
                return None;
            },
        };
        let pieces = split_string(value, ',');
        let ghost pv = pieces.deep_view();
        let mut out: Vec<Badge> = Vec::new();
        let mut i: usize = 0;
        while i < pieces.len()
            invariant
                0 <= i <= pieces.len(),
                pv == pieces.deep_view(),
                pv == split_on(value@, ','),
                spec_tag_value(self@, "badges"@) == Some(value@),
                out.deep_view().len() == i,
                forall|j: int| 0 <= j < i ==> #[trigger] parse_badge(pv[j]) is Some,
                forall|j: int| 0 <= j < i ==> out.deep_view()[j] == badge_of(pv[j]),
            decreases pieces.len() - i,
        {
            assert(pv[i as int] == pieces@[i as int]@);
            let ghost prev = out.deep_view();
            match Badge::parse(pieces[i].as_str()) {
                Some(b) => {
                    let ghost bv = b@;
                    out.push(b);
                    proof {
                        assert(out.deep_view() =~= prev.push(bv));
                        assert(bv == badge_of(pv[i as int]));
                    }
                },
                None => {
                    assert(parse_badge(pv[i as int]) is None);
                    return None;
                },
            }
            i = i + 1;
        }
        proof {
            assert(Seq::new(pv.len(), |j: int| badge_of(pv[j])) =~= out.deep_view());
        }
        Some(out)
    }

    /// Append a reply-parent tag naming the given message id.
    pub fn set_reply_parent_id(&mut self, id: &str)
        ensures
            final(self)@ == with_reply_parent(old(self)@, id@),
    {
        let tag = Tag("reply-parent-msg-id".to_owned(), Some(id.to_owned()));
        match &mut self.tags {
            Some(tags) => {
                tags.push(tag);
            },
            None => {
                self.tags = Some(vec![tag]);
            },
        }
        assert(self@ =~~= with_reply_parent(old(self)@, id@));
    }

    /// Mark this message as a reply to the given message: append a
    /// reply-parent tag naming its id, or change nothing when it has none.
    pub fn set_reply_parent(&mut self, parent_message: &Message)
        ensures
            spec_tag_value(parent_message@, "id"@) matches Some(id) ==> final(self)@
                == with_reply_parent(old(self)@, id),
            spec_tag_value(parent_message@, "id"@) is None ==> final(self)@ == old(self)@,
    {
        match parent_message.message_id() {
            Some(id) => self.set_reply_parent_id(id),
            None => {},
        }
    }

    /// Build a reply to this message carrying the given text — see
    /// [`spec_new_reply`] for what is returned, and the errors when this
    /// message is not a chat message or carries no id tag.
    pub fn new_reply(&self, message: &str) -> (r: Result<Message, MessageError>)
        ensures
            spec_new_reply(self@, message@) matches Ok(mv) ==> r matches Ok(msg) && msg@ == mv,
            spec_new_reply(self@, message@) matches Err(e) ==> r matches Err(e2) && e2 == e,
    {
        let channel = match &self.command {
            Command::Privmsg(channel, _) => channel,
            _ => {
                return Err(MessageError::InvalidCommand);
            },
        };
        let id = match self.message_id() {
            Some(id) => id,
            None => {
                return Err(MessageError::MissingId);
            },
        };
        let tags = vec![Tag("reply-parent-msg-id".to_owned(), Some(id.to_owned()))];
        assert(tags.deep_view() =~= seq![TagV { key: "reply-parent-msg-id"@, value: Some(id@) }]);
        let reply = Message {
            tags: Some(tags),
            prefix: None,
            command: Command::Privmsg(channel.clone(), message.to_owned()),
        };
        proof {
            assert(spec_new_reply(self@, message@) matches Ok(mv) && reply@ =~~= mv);
        }
        Ok(reply)
    }
}

/// Extension methods for reading and building Twitch-flavoured messages.
/// The contracts live on [`Message`]'s inherent methods of the same names,
/// to which this trait's implementation forwards.
pub trait TwitchMessageExt: Sized {
    /// Error returned when a reply cannot be built.
    type Error;

    /// The sender is marked as a moderator (or the broadcaster).
    fn is_send_by_mod(&self) -> bool;

    /// The value of the message id tag, if present.
    fn message_id<'a>(&'a self) -> Option<&'a str>;

    /// The value of the user id tag, if present.
    fn user_id<'a>(&'a self) -> Option<&'a str>;

    /// The value of the display name tag, if present.
    fn display_name<'a>(&'a self) -> Option<&'a str>;

    /// The badges of the message's sender, parsed from its badges tag.
    fn badges(&self) -> Option<Vec<Badge>>;

    /// Append a reply-parent tag naming the given message id.
    fn set_reply_parent_id(&mut self, id: &str);

    /// Mark this message as a reply to the given message, if it has an id.
    fn set_reply_parent(&mut self, parent_message: &Self);

    /// Build a reply to this message carrying the given text.
    fn new_reply(&self, message: &str) -> Result<Self, Self::Error>;
}

impl TwitchMessageExt for Message {
    type Error = MessageError;

    fn is_send_by_mod(&self) -> bool {
        Message::is_send_by_mod(self)
    }

    fn message_id<'a>(&'a self) -> Option<&'a str> {
        Message::message_id(self)
    }

    fn user_id<'a>(&'a self) -> Option<&'a str> {
        Message::user_id(self)
    }

    fn display_name<'a>(&'a self) -> Option<&'a str> {
        Message::display_name(self)
    }

    fn badges(&self) -> Option<Vec<Badge>> {
        Message::badges(self)
    }

    fn set_reply_parent_id(&mut self, id: &str) {
        Message::set_reply_parent_id(self, id)
    }

    fn set_reply_parent(&mut self, parent_message: &Message) {
        Message::set_reply_parent(self, parent_message)
    }

    fn new_reply(&self, message: &str) -> Result<Message, MessageError> {
        Message::new_reply(self, message)
    }
}

} // verus!
