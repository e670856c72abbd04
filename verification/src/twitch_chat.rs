//! Reading the Twitch chat.
//!
//! The chat is read anonymously: Twitch lets a guest in without a token under a nick such as
//! `justinfan12345`. The messages become plain events that the panel can read aloud at once.
use vstd::prelude::*;
use crate::json;
use crate::json::{Fields, Json};
use crate::text;
use crate::text::Class;

verus! {

/// One message of the chat.
#[derive(Debug, Clone, PartialEq)]
pub struct ChatMessage {
    /// The name of the author as the audience sees it.
    pub author: String,
    pub text: String,
}

/// What a message says.
#[verifier::ext_equal]
pub struct MessageV {
    pub author: Seq<char>,
    pub text: Seq<char>,
}

impl View for ChatMessage {
    type V = MessageV;

    open spec fn view(&self) -> MessageV {
        MessageV { author: self.author@, text: self.text@ }
    }
}

impl ChatMessage {
    /// The line to read aloud: the author comes first.
    pub fn spoken(&self) -> (r: String)
        ensures
            r@ == self@.author + ": "@ + self@.text,
    {
        text::join3(self.author.as_str(), ": ", self.text.as_str())
    }

    /// What the panel is told of the message.
    pub fn event(&self) -> (r: Json)
        ensures
            r@ == json::JsonV::Object(
                map![
                    "type"@ => json::JsonV::Str("chat"@),
                    "author"@ => json::JsonV::Str(self@.author),
                    "text"@ => json::JsonV::Str(self@.text),
                    "spoken"@ => json::JsonV::Str(self@.author + ": "@ + self@.text),
                ],
            ),
    {
        Fields::new().put("type", Json::text("chat")).put(
            "author",
            Json::text(self.author.as_str()),
        ).put("text", Json::text(self.text.as_str())).put("spoken", Json::Str(self.spoken())).json()
    }
}

/// What a line of the protocol means.
#[derive(Debug, Clone, PartialEq)]
pub enum Incoming {
    /// A message in the chat.
    Message(ChatMessage),
    /// The server wants to know whether we are alive; not to answer is to be disconnected.
    Ping(String),
    /// Anything else: greetings, lists of members, service lines.
    Other,
}

/// What a line of the protocol means.
#[verifier::ext_equal]
pub enum IncomingV {
    Message(MessageV),
    Ping(Seq<char>),
    Other,
}

impl View for Incoming {
    type V = IncomingV;

    open spec fn view(&self) -> IncomingV {
        match *self {
            Incoming::Message(m) => IncomingV::Message(m@),
            Incoming::Ping(token) => IncomingV::Ping(token@),
            Incoming::Other => IncomingV::Other,
        }
    }
}

// ---------------------------------------------------------------------------------------------
// Tags
// ---------------------------------------------------------------------------------------------
/// The character that follows a backslash in a tag stands for this one.
pub open spec fn unescaped_char(c: char) -> char {
    if c == 's' {
        ' '
    } else if c == ':' {
        ';'
    } else if c == 'r' {
        '\r'
    } else if c == 'n' {
        '\n'
    } else {
        c
    }
}

/// The value of a tag. A backslash at the very end stands for nothing.
pub open spec fn unescaped(s: Seq<char>) -> Seq<char>
    decreases s.len(),
{
    if s.len() == 0 {
        Seq::empty()
    } else if s[0] != '\\' {
        seq![s[0]] + unescaped(s.skip(1))
    } else if s.len() == 1 {
        Seq::empty()
    } else {
        seq![unescaped_char(s[1])] + unescaped(s.skip(2))
    }
}

/// The value of a tag, with its escapes resolved.
pub fn unescape_tag(value: &str) -> (r: String)
    ensures
        r@ == unescaped(value@),
{
    let cs = text::chars_of(value);
    let mut out = String::new();
    let mut i: usize = 0;
    assert(cs@.skip(0) =~= cs@);
    while i < cs.len()
        invariant
            i <= cs.len(),
            out@ + unescaped(cs@.skip(i as int)) =~= unescaped(cs@),
        decreases cs.len() - i,
    {
        let ghost rest = cs@.skip(i as int);
        let c: char = cs[i];
        if c != '\\' {
            assert(rest.skip(1) =~= cs@.skip(i + 1));
            out.push(c);
            i = i + 1;
        } else if i + 1 == cs.len() {
            assert(cs@.skip(cs@.len() as int) =~= Seq::empty());
            i = i + 1;
        } else {
            assert(rest.skip(2) =~= cs@.skip(i + 2));
            let d: char = cs[i + 1];
            let plain: char = if d == 's' {
                ' '
            } else if d == ':' {
                ';'
            } else if d == 'r' {
                '\r'
            } else if d == 'n' {
                '\n'
            } else {
                d
            };
            out.push(plain);
            i = i + 2;
        }
    }
    out
}

/// What follows a prefix in the first of the pieces that starts with it.
pub open spec fn first_after_prefix(list: Seq<Seq<char>>, prefix: Seq<char>) -> Option<Seq<char>>
    decreases list.len(),
{
    if list.len() == 0 {
        None
    } else {
        match first_after_prefix(list.drop_last(), prefix) {
            Some(found) => Some(found),
            None => text::after_prefix(list.last(), prefix),
        }
    }
}

/// The display name among the tags of a message.
pub open spec fn tagged_name(tags: Seq<char>) -> Option<Seq<char>> {
    match first_after_prefix(text::pieces(tags, Class::Is(';')), "display-name="@) {
        Some(value) => Some(unescaped(value)),
        None => None,
    }
}

/// The display name among the tags of a message.
pub fn display_name_from_tags(tags: &str) -> (r: Option<String>)
    ensures
        text::opt_view(r) == tagged_name(tags@),
{
    let list = text::split(tags, &Class::Is(';'));
    let ghost all = text::views(list@);
    let mut found: Option<String> = None;
    let mut i: usize = 0;
    while i < list.len()
        invariant
            i <= list.len(),
            all == text::views(list@),
            text::opt_view(found) == first_after_prefix(all.take(i as int), "display-name="@),
        decreases list.len() - i,
    {
        proof {
            assert(all.take(i + 1).drop_last() =~= all.take(i as int));
        }
        if found.is_none() {
            found = text::strip_prefix(list[i].as_str(), "display-name=");
        }
        i = i + 1;
    }
    assert(all.take(i as int) =~= all);
    match found {
        Some(value) => Some(unescape_tag(value.as_str())),
        None => None,
    }
}

/// The nick in the prefix of a message: what stands before the exclamation mark, if there is one.
pub open spec fn nick_of(prefix: Seq<char>) -> Seq<char> {
    match text::cut_first(prefix, "!"@) {
        Some(parts) => parts.0,
        None => prefix,
    }
}

/// The nick in the prefix of a message.
pub fn nick_from_prefix(prefix: &str) -> (r: String)
    ensures
        r@ == nick_of(prefix@),
{
    match text::split_once(prefix, "!") {
        Some(parts) => parts.0,
        None => prefix.to_owned(),
    }
}

// ---------------------------------------------------------------------------------------------
// Lines
// ---------------------------------------------------------------------------------------------
/// The author of a message: the display name, if the tags hold one that is not empty, else the
/// nick. A nick loses case and every letter that is not Latin.
pub open spec fn author_of(tags: Option<Seq<char>>, prefix: Seq<char>) -> Seq<char> {
    match tags {
        Some(t) => match tagged_name(t) {
            Some(name) => if name.len() > 0 {
                name
            } else {
                nick_of(prefix)
            },
            None => nick_of(prefix),
        },
        None => nick_of(prefix),
    }
}

/// What a line means after its tags: `:prefix PRIVMSG #channel :text`.
pub open spec fn body_meaning(tags: Option<Seq<char>>, rest: Seq<char>) -> IncomingV {
    match text::after_prefix(rest, ":"@) {
        Some(after_colon) => match text::cut_first(after_colon, " "@) {
            Some(parts) => match text::after_prefix(parts.1, "PRIVMSG "@) {
                Some(args) => match text::cut_first(args, " :"@) {
                    Some(cut) => IncomingV::Message(
                        MessageV { author: author_of(tags, parts.0), text: cut.1 },
                    ),
                    None => IncomingV::Other,
                },
                None => IncomingV::Other,
            },
            None => IncomingV::Other,
        },
        None => IncomingV::Other,
    }
}

/// What a line of the protocol means: `@tags :prefix PRIVMSG #channel :text`, or `PING token`.
pub open spec fn meaning(raw: Seq<char>) -> IncomingV {
    let line = text::skip_back(raw, Class::Either('\r', '\n'));
    if line.len() == 0 {
        IncomingV::Other
    } else {
        match text::after_prefix(line, "PING "@) {
            Some(token) => IncomingV::Ping(token),
            None => match text::after_prefix(line, "@"@) {
                Some(tagged) => match text::cut_first(tagged, " "@) {
                    Some(parts) => body_meaning(Some(parts.0), parts.1),
                    None => IncomingV::Other,
                },
                None => body_meaning(None, line),
            },
        }
    }
}

fn parse_body(tags: Option<&str>, rest: &str) -> (r: Incoming)
    ensures
        r@ == body_meaning(text::opt_str(tags), rest@),
{
    let after_colon = match text::strip_prefix(rest, ":") {
        Some(s) => s,
        None => {
            return Incoming::Other;
        },
    };
    let parts = match text::split_once(after_colon.as_str(), " ") {
        Some(p) => p,
        None => {
            return Incoming::Other;
        },
    };
    let args = match text::strip_prefix(parts.1.as_str(), "PRIVMSG ") {
        Some(s) => s,
        None => {
            return Incoming::Other;
        },
    };
    let cut = match text::split_once(args.as_str(), " :") {
        Some(p) => p,
        None => {
            return Incoming::Other;
        },
    };
    let display = match tags {
        Some(t) => display_name_from_tags(t),
        None => None,
    };
    let nick = nick_from_prefix(parts.0.as_str());
    let author = match display {
        Some(name) => if name.as_str().is_empty() {
            nick
        } else {
            name
        },
        None => nick,
    };
    Incoming::Message(ChatMessage { author, text: cut.1 })
}

/// What a line of the protocol means.
pub fn parse_line(line: &str) -> (r: Incoming)
    ensures
        r@ == meaning(line@),
{
    let line = text::trim_back(line, &Class::Either('\r', '\n'));
    if line.as_str().is_empty() {
        return Incoming::Other;
    }
    if let Some(token) = text::strip_prefix(line.as_str(), "PING ") {
        return Incoming::Ping(token);
    }
    match text::strip_prefix(line.as_str(), "@") {
        Some(tagged) => match text::split_once(tagged.as_str(), " ") {
            Some(parts) => parse_body(Some(parts.0.as_str()), parts.1.as_str()),
            None => Incoming::Other,
        },
        None => parse_body(None, line.as_str()),
    }
}

// ---------------------------------------------------------------------------------------------
// The conversation with the server
// ---------------------------------------------------------------------------------------------
/// The nick of a guest.
pub open spec fn guest_nick(seed: u32) -> Seq<char> {
    "justinfan"@ + text::decimal((10_000 + seed % 80_000) as nat)
}

/// The nick of a guest. Twitch asks for this very prefix; the number is of no matter.
pub fn anonymous_nick(seed: u32) -> (r: String)
    ensures
        r@ == guest_nick(seed),
{
    let n: u32 = 10_000 + seed % 80_000;
    let digits = text::number(n as u128);
    text::join2("justinfan", digits.as_str())
}

/// The lower-case form of a text in Unicode.
pub uninterp spec fn unicode_lower(s: Seq<char>) -> Seq<char>;

/// `str::to_lowercase` gives the lower-case form of the text by the rules of Unicode; it depends on
/// the text alone.
#[verifier::external_body]
fn unicode_lowercase(s: &str) -> (r: String)
    ensures
        r@ == unicode_lower(s@),
{
    s.to_lowercase()
}

/// The lines by which a guest joins a channel whose name is in lower case: the password is a
/// formality, and without the tags no display names would come.
pub open spec fn greeting_lines(nick: Seq<char>, channel: Seq<char>) -> Seq<Seq<char>> {
    seq![
        "PASS SCHMOOPIIE"@,
        "NICK "@ + nick,
        "CAP REQ :twitch.tv/tags twitch.tv/commands"@,
        "JOIN #"@ + channel,
    ]
}

/// The lines by which a guest joins a channel whose name is in lower case.
pub fn greeting_to(nick: &str, channel: &str) -> (r: Vec<String>)
    ensures
        text::views(r@) == greeting_lines(nick@, channel@),
{
    let mut out: Vec<String> = Vec::new();
    out.push("PASS SCHMOOPIIE".to_owned());
    out.push(text::join2("NICK ", nick));
    out.push("CAP REQ :twitch.tv/tags twitch.tv/commands".to_owned());
    out.push(text::join2("JOIN #", channel));
    assert(text::views(out@) =~= greeting_lines(nick@, channel@));
    out
}

/// The lines by which a guest joins the channel of a login.
pub fn greeting(seed: u32, login: &str) -> (r: Vec<String>)
    ensures
        text::views(r@) == greeting_lines(guest_nick(seed), unicode_lower(login@)),
{
    let nick = anonymous_nick(seed);
    let channel = unicode_lowercase(login);
    greeting_to(nick.as_str(), channel.as_str())
}

/// `rand::random::<u32>` gives a random number. Nothing is known of it.
#[verifier::external_body]
fn random_seed() -> (r: u32) {
    rand::random::<u32>()
}

/// The lines by which a guest of a random number joins the channel of a login.
pub fn random_greeting(login: &str) -> (r: Vec<String>)
    ensures
        exists|seed: u32|
            text::views(r@) == greeting_lines(#[trigger] guest_nick(seed), unicode_lower(login@)),
{
    let seed = random_seed();
    greeting(seed, login)
}

/// What is to be done about a line.
#[derive(Debug, Clone, PartialEq)]
pub enum Reaction {
    /// Hand the message out as an event.
    Publish(ChatMessage),
    /// Send this line to the server.
    Send(String),
}

/// What is to be done about a line.
#[verifier::ext_equal]
pub enum ReactionV {
    Publish(MessageV),
    Send(Seq<char>),
}

impl View for Reaction {
    type V = ReactionV;

    open spec fn view(&self) -> ReactionV {
        match *self {
            Reaction::Publish(m) => ReactionV::Publish(m@),
            Reaction::Send(s) => ReactionV::Send(s@),
        }
    }
}

/// What is to be done about each line.
pub open spec fn reaction_views(list: Seq<Reaction>) -> Seq<ReactionV> {
    list.map_values(|r: Reaction| r@)
}

/// What is to be done about a line, if anything.
pub open spec fn reaction_to(line: Seq<char>) -> Seq<ReactionV> {
    match meaning(line) {
        IncomingV::Message(m) => seq![ReactionV::Publish(m)],
        IncomingV::Ping(token) => seq![ReactionV::Send("PONG "@ + token)],
        IncomingV::Other => Seq::empty(),
    }
}

/// What is to be done about lines, in order.
pub open spec fn reactions_to(lines: Seq<Seq<char>>) -> Seq<ReactionV>
    decreases lines.len(),
{
    if lines.len() == 0 {
        Seq::empty()
    } else {
        reactions_to(lines.drop_last()) + reaction_to(lines.last())
    }
}

/// What is to be done about a frame, which may hold several lines.
pub fn handle_frame(frame: &str) -> (r: Vec<Reaction>)
    ensures
        reaction_views(r@) == reactions_to(text::lines_of(frame@)),
{
    let list = text::lines(frame);
    let ghost all = text::views(list@);
    let mut out: Vec<Reaction> = Vec::new();
    let mut i: usize = 0;
    assert(reaction_views(out@) =~= Seq::empty());
    while i < list.len()
        invariant
            i <= list.len(),
            all == text::views(list@),
            reaction_views(out@) == reactions_to(all.take(i as int)),
        decreases list.len() - i,
    {
        proof {
            assert(all.take(i + 1).drop_last() =~= all.take(i as int));
            assert(all.take(i + 1).last() == list@[i as int]@);
        }
        let ghost before = out@;
        match parse_line(list[i].as_str()) {
            Incoming::Message(m) => {
                out.push(Reaction::Publish(m));
                assert(reaction_views(out@) =~= reaction_views(before) + reaction_to(
                    list@[i as int]@,
                ));
            },
            Incoming::Ping(token) => {
                out.push(Reaction::Send(text::join2("PONG ", token.as_str())));
                assert(reaction_views(out@) =~= reaction_views(before) + reaction_to(
                    list@[i as int]@,
                ));
            },
            Incoming::Other => {
                assert(reaction_views(out@) =~= reaction_views(before) + reaction_to(
                    list@[i as int]@,
                ));
            },
        }
        i = i + 1;
    }
    assert(all.take(i as int) =~= all);
    out
}

// ---------------------------------------------------------------------------------------------
// Laws
// ---------------------------------------------------------------------------------------------
/// The escape of a character in a tag.
pub open spec fn escaped_char(c: char) -> Seq<char> {
    if c == ';' {
        seq!['\\', ':']
    } else if c == ' ' {
        seq!['\\', 's']
    } else if c == '\\' {
        seq!['\\', '\\']
    } else if c == '\r' {
        seq!['\\', 'r']
    } else if c == '\n' {
        seq!['\\', 'n']
    } else {
        seq![c]
    }
}

/// A value written down as a tag.
pub open spec fn escaped(s: Seq<char>) -> Seq<char>
    decreases s.len(),
{
    if s.len() == 0 {
        Seq::empty()
    } else {
        escaped_char(s[0]) + escaped(s.skip(1))
    }
}

/// A value written down as a tag is read back as it was.
pub proof fn law_tag_escapes_are_undone(s: Seq<char>)
    ensures
        unescaped(escaped(s)) == s,
    decreases s.len(),
{
    if s.len() > 0 {
        let e = escaped(s);
        let tail = escaped(s.skip(1));
        law_tag_escapes_are_undone(s.skip(1));
        if escaped_char(s[0]).len() == 1 {
            assert(e.skip(1) =~= tail);
        } else {
            assert(e.skip(2) =~= tail);
        }
        assert(seq![s[0]] + s.skip(1) =~= s);
        assert(unescaped(e) =~= seq![s[0]] + unescaped(tail));
    }
}

/// A cut falls right behind a part in which the separator does not begin.
proof fn lemma_cut_at(a: Seq<char>, sep: Seq<char>, b: Seq<char>)
    requires
        sep.len() >= 1,
        forall|k: int| 0 <= k < a.len() ==> !text::occurs_at(a + sep, sep, k),
    ensures
        text::cut_first(a + sep + b, sep) == Some((a, b)),
{
    let s = a + sep + b;
    let n = a.len() as int;
    assert(s.subrange(n, n + sep.len()) =~= sep);
    assert(text::occurs_at(s, sep, n));
    assert forall|k: int| 0 <= k < n implies !text::occurs_at(s, sep, k) by {
        assert(s.subrange(k, k + sep.len()) =~= (a + sep).subrange(k, k + sep.len()));
        assert(!text::occurs_at(a + sep, sep, k));
    }
    assert(text::first_at(s, sep, n));
    text::lemma_cut_first(s, sep, n);
    assert(s.take(n) =~= a);
    assert(s.skip(n + sep.len()) =~= b);
}

/// A separator of one character does not begin in a part that does not hold it.
proof fn lemma_no_separator(a: Seq<char>, sep: Seq<char>)
    requires
        sep.len() == 1,
        !a.contains(sep[0]),
    ensures
        forall|k: int| 0 <= k < a.len() ==> !text::occurs_at(a + sep, sep, k),
{
    assert forall|k: int| 0 <= k < a.len() implies !text::occurs_at(a + sep, sep, k) by {
        if text::occurs_at(a + sep, sep, k) {
            assert((a + sep).subrange(k, k + 1)[0] == sep[0]);
            assert(a.contains(a[k]));
        }
    }
}

/// Line ends behind a text are trimmed.
proof fn lemma_ending_is_trimmed(line: Seq<char>, ending: Seq<char>)
    requires
        line.len() > 0,
        !Class::Either('\r', '\n').has(line.last()),
        forall|i: int| 0 <= i < ending.len() ==> Class::Either('\r', '\n').has(#[trigger] ending[i]),
    ensures
        text::skip_back(line + ending, Class::Either('\r', '\n')) == line,
    decreases ending.len(),
{
    let s = line + ending;
    if ending.len() > 0 {
        assert(s.last() == ending[ending.len() - 1]);
        assert(s.drop_last() =~= line + ending.drop_last());
        lemma_ending_is_trimmed(line, ending.drop_last());
    } else {
        assert(s =~= line);
    }
}

/// A line with a message, behind its tags.
pub open spec fn message_line(
    nick: Seq<char>,
    user: Seq<char>,
    channel: Seq<char>,
    words: Seq<char>,
) -> Seq<char> {
    ":"@ + (nick + "!"@ + user + " "@ + ("PRIVMSG "@ + (channel + " :"@ + words)))
}

proof fn lemma_message_body(
    tags: Option<Seq<char>>,
    nick: Seq<char>,
    user: Seq<char>,
    channel: Seq<char>,
    words: Seq<char>,
)
    requires
        !nick.contains('!'),
        !nick.contains(' '),
        !user.contains(' '),
        !text::holds_text(channel, " :"@),
    ensures
        body_meaning(tags, message_line(nick, user, channel, words)) == IncomingV::Message(
            MessageV { author: author_of(tags, nick + "!"@ + user), text: words },
        ),
        nick_of(nick + "!"@ + user) == nick,
{
    reveal_strlit(":");
    reveal_strlit("!");
    reveal_strlit(" ");
    reveal_strlit("PRIVMSG ");
    reveal_strlit(" :");
    let args = channel + " :"@ + words;
    let command = "PRIVMSG "@ + args;
    let prefix = nick + "!"@ + user;
    let after_colon = prefix + " "@ + command;
    let line = message_line(nick, user, channel, words);
    assert(line.subrange(0, 1) =~= ":"@);
    assert(line.skip(1) =~= after_colon);
    assert forall|i: int| 0 <= i < prefix.len() implies prefix[i] != ' ' by {
        if i < nick.len() {
            assert(nick.contains(nick[i]));
        } else if i > nick.len() {
            assert(user.contains(user[i - nick.len() - 1]));
        }
    }
    lemma_no_separator(prefix, " "@);
    lemma_cut_at(prefix, " "@, command);
    assert(command.subrange(0, 8) =~= "PRIVMSG "@);
    assert(command.skip(8) =~= args);
    assert forall|k: int| 0 <= k < channel.len() implies !text::occurs_at(
        channel + " :"@,
        " :"@,
        k,
    ) by {
        let both = channel + " :"@;
        if text::occurs_at(both, " :"@, k) {
            assert(both.subrange(k, k + 2)[0] == ' ' && both.subrange(k, k + 2)[1] == ':');
            assert(both[k + 1] == ':');
            assert(channel.subrange(k, k + 2) =~= " :"@);
            assert(text::occurs_at(channel, " :"@, k));
        }
    }
    lemma_cut_at(channel, " :"@, words);
    lemma_no_separator(nick, "!"@);
    lemma_cut_at(nick, "!"@, user);
}

/// A message keeps its author and every character of its text, further colons and spaces included,
/// whatever line ending follows. The author is the display name of the tags, or the nick where they
/// hold none.
pub proof fn law_message_keeps_author_and_text(
    tags: Option<Seq<char>>,
    nick: Seq<char>,
    user: Seq<char>,
    channel: Seq<char>,
    words: Seq<char>,
    ending: Seq<char>,
)
    requires
        tags matches Some(t) ==> !t.contains(' '),
        !nick.contains('!'),
        !nick.contains(' '),
        !user.contains(' '),
        !text::holds_text(channel, " :"@),
        words.len() > 0 ==> words.last() != '\r' && words.last() != '\n',
        forall|i: int|
            0 <= i < ending.len() ==> #[trigger] ending[i] == '\r' || ending[i] == '\n',
    ensures
        meaning(
            (match tags {
                Some(t) => "@"@ + (t + " "@ + message_line(nick, user, channel, words)),
                None => message_line(nick, user, channel, words),
            }) + ending,
        ) == IncomingV::Message(
            MessageV {
                author: match tags {
                    Some(t) => match tagged_name(t) {
                        Some(name) => if name.len() > 0 {
                            name
                        } else {
                            nick
                        },
                        None => nick,
                    },
                    None => nick,
                },
                text: words,
            },
        ),
{
    reveal_strlit(":");
    reveal_strlit(" ");
    reveal_strlit(" :");
    reveal_strlit("PING ");
    reveal_strlit("@");
    let body = message_line(nick, user, channel, words);
    let line = match tags {
        Some(t) => "@"@ + (t + " "@ + body),
        None => body,
    };
    assert(body[0] == ':');
    assert(body.last() == if words.len() > 0 {
        words.last()
    } else {
        ':'
    });
    assert(line.last() == body.last());
    lemma_ending_is_trimmed(line, ending);
    lemma_message_body(tags, nick, user, channel, words);
    assert(text::after_prefix(line, "PING "@) is None) by {
        if "PING "@.is_prefix_of(line) {
            assert("PING "@[0] == line.subrange(0, 5)[0]);
        }
    }
    match tags {
        Some(t) => {
            assert(line.subrange(0, 1) =~= "@"@);
            assert(line.skip(1) =~= t + " "@ + body);
            lemma_no_separator(t, " "@);
            lemma_cut_at(t, " "@, body);
        },
        None => {
            if "@"@.is_prefix_of(line) {
                assert("@"@[0] == line.subrange(0, 1)[0]);
            }
        },
    }
}

/// The display name is found wherever it stands among the tags: behind any tags that are not it, and
/// before any others.
pub proof fn law_the_display_name_is_found(
    before: Seq<Seq<char>>,
    name: Seq<char>,
    after: Seq<Seq<char>>,
)
    requires
        forall|i: int| 0 <= i < before.len() ==> !(#[trigger] before[i]).contains(';'),
        forall|i: int|
            0 <= i < before.len() ==> !"display-name="@.is_prefix_of(#[trigger] before[i]),
        forall|i: int| 0 <= i < after.len() ==> !(#[trigger] after[i]).contains(';'),
    ensures
        tagged_name(
            text::joined(before + seq!["display-name="@ + escaped(name)] + after, seq![';']),
        ) == Some(name),
{
    let own = "display-name="@ + escaped(name);
    let list = before + seq![own] + after;
    reveal_strlit("display-name=");
    lemma_escaped_has_no_semicolon(name);
    assert(!own.contains(';')) by {
        if own.contains(';') {
            let k = choose|k: int| 0 <= k < own.len() && own[k] == ';';
            if k >= 13 {
                assert(escaped(name)[k - 13] == ';');
                assert(escaped(name).contains(';'));
            }
        }
    }
    assert forall|i: int| 0 <= i < list.len() implies !(#[trigger] list[i]).contains(';') by {
        if i < before.len() {
            assert(list[i] == before[i]);
        } else if i > before.len() {
            assert(list[i] == after[i - before.len() - 1]);
        }
    }
    text::law_joining_is_undone_by_parting(list, ';');
    assert(own.subrange(0, 13) =~= "display-name="@);
    assert(own.skip(13) =~= escaped(name));
    assert forall|i: int| 0 <= i < before.len() implies !"display-name="@.is_prefix_of(
        #[trigger] list[i],
    ) by {
        assert(list[i] == before[i]);
    }
    assert(list[before.len() as int] == own);
    lemma_first_after_prefix(list, "display-name="@, before.len() as int);
    law_tag_escapes_are_undone(name);
}

proof fn lemma_first_after_prefix(list: Seq<Seq<char>>, prefix: Seq<char>, i: int)
    requires
        0 <= i < list.len(),
        prefix.is_prefix_of(list[i]),
        forall|j: int| 0 <= j < i ==> !prefix.is_prefix_of(#[trigger] list[j]),
    ensures
        first_after_prefix(list, prefix) == Some(list[i].skip(prefix.len() as int)),
    decreases list.len(),
{
    let front = list.drop_last();
    if i < front.len() {
        assert forall|j: int| 0 <= j < i implies !prefix.is_prefix_of(#[trigger] front[j]) by {
            assert(!prefix.is_prefix_of(list[j]));
        }
        lemma_first_after_prefix(front, prefix, i);
    } else {
        assert forall|j: int| 0 <= j < front.len() implies !prefix.is_prefix_of(
            #[trigger] front[j],
        ) by {
            assert(!prefix.is_prefix_of(list[j]));
        }
        lemma_none_after_prefix(front, prefix);
    }
}

proof fn lemma_none_after_prefix(list: Seq<Seq<char>>, prefix: Seq<char>)
    requires
        forall|j: int| 0 <= j < list.len() ==> !prefix.is_prefix_of(#[trigger] list[j]),
    ensures
        first_after_prefix(list, prefix) is None,
    decreases list.len(),
{
    if list.len() > 0 {
        let front = list.drop_last();
        assert forall|j: int| 0 <= j < front.len() implies !prefix.is_prefix_of(
            #[trigger] front[j],
        ) by {
            assert(!prefix.is_prefix_of(list[j]));
        }
        lemma_none_after_prefix(front, prefix);
        assert(!prefix.is_prefix_of(list[list.len() - 1]));
    }
}

proof fn lemma_escaped_has_no_semicolon(s: Seq<char>)
    ensures
        !escaped(s).contains(';'),
    decreases s.len(),
{
    if s.len() > 0 {
        lemma_escaped_has_no_semicolon(s.skip(1));
        let head = escaped_char(s[0]);
        let tail = escaped(s.skip(1));
        if escaped(s).contains(';') {
            let k = choose|k: int| 0 <= k < escaped(s).len() && escaped(s)[k] == ';';
            if k >= head.len() {
                assert(tail[k - head.len()] == ';');
                assert(tail.contains(';'));
            }
        }
    }
}

/// Tags without a display name have none.
pub proof fn law_no_display_name_is_made_up(tags: Seq<Seq<char>>)
    requires
        tags.len() > 0,
        forall|i: int| 0 <= i < tags.len() ==> !(#[trigger] tags[i]).contains(';'),
        forall|i: int| 0 <= i < tags.len() ==> !"display-name="@.is_prefix_of(#[trigger] tags[i]),
    ensures
        tagged_name(text::joined(tags, seq![';'])) is None,
{
    text::law_joining_is_undone_by_parting(tags, ';');
    lemma_none_after_prefix(tags, "display-name="@);
}

/// The escapes of a tag stand for the characters that the protocol gives them.
pub proof fn law_escapes_stand_for_their_characters(s: Seq<char>)
    ensures
        unescaped(seq!['\\', 's'] + s) == seq![' '] + unescaped(s),
        unescaped(seq!['\\', ':'] + s) == seq![';'] + unescaped(s),
        unescaped(seq!['\\', 'r'] + s) == seq!['\r'] + unescaped(s),
        unescaped(seq!['\\', 'n'] + s) == seq!['\n'] + unescaped(s),
        unescaped(seq!['\\', '\\'] + s) == seq!['\\'] + unescaped(s),
        unescaped(seq!['\\']).len() == 0,
{
    assert((seq!['\\', 's'] + s).skip(2) =~= s);
    assert((seq!['\\', ':'] + s).skip(2) =~= s);
    assert((seq!['\\', 'r'] + s).skip(2) =~= s);
    assert((seq!['\\', 'n'] + s).skip(2) =~= s);
    assert((seq!['\\', '\\'] + s).skip(2) =~= s);
}

/// A ping is answered with its own token, and a message is handed out; nothing is said or done about
/// any other line.
pub proof fn law_every_ping_is_answered(token: Seq<char>, line: Seq<char>)
    requires
        token.len() > 0,
        token.last() != '\r' && token.last() != '\n',
    ensures
        reaction_to("PING "@ + token) == seq![ReactionV::Send("PONG "@ + token)],
        meaning(line) is Other ==> reaction_to(line).len() == 0,
        meaning(line) matches IncomingV::Message(m) ==> reaction_to(line) == seq![
            ReactionV::Publish(m),
        ],
{
    reveal_strlit("PING ");
    let s = "PING "@ + token;
    assert(text::skip_back(s, Class::Either('\r', '\n')) == s);
    assert(s.subrange(0, 5) =~= "PING "@);
    assert(s.skip(5) =~= token);
}

/// No line of a frame is passed over: what is done about a frame is what is done about its lines, one
/// after the other.
pub proof fn law_every_line_is_handled(lines: Seq<Seq<char>>, line: Seq<char>)
    ensures
        reactions_to(lines.push(line)) == reactions_to(lines) + reaction_to(line),
        reactions_to(Seq::empty()).len() == 0,
{
    assert(lines.push(line).drop_last() =~= lines);
}

/// A guest joins under a nick that Twitch lets in without a password, asks for the tags, and joins the
/// channel, in this order.
pub proof fn law_a_guest_joins(seed: u32, nick: Seq<char>, channel: Seq<char>)
    ensures
        "justinfan"@.is_prefix_of(guest_nick(seed)),
        text::decimal_value(guest_nick(seed).skip(9)) matches Some(n) && 10_000 <= n < 90_000,
        greeting_lines(nick, channel).len() == 4,
        "PASS "@.is_prefix_of(greeting_lines(nick, channel)[0]),
        greeting_lines(nick, channel)[1] == "NICK "@ + nick,
        text::holds_text(greeting_lines(nick, channel)[2], "twitch.tv/tags"@),
        greeting_lines(nick, channel)[3] == "JOIN #"@ + channel,
{
    reveal_strlit("justinfan");
    let n = (10_000 + seed % 80_000) as nat;
    assert(guest_nick(seed).subrange(0, 9) =~= "justinfan"@);
    assert(guest_nick(seed).skip(9) =~= text::decimal(n));
    text::law_numerals_are_read_back(n);
    reveal_strlit("PASS SCHMOOPIIE");
    reveal_strlit("PASS ");
    assert("PASS SCHMOOPIIE"@.subrange(0, 5) =~= "PASS "@);
    reveal_strlit("CAP REQ :twitch.tv/tags twitch.tv/commands");
    reveal_strlit("twitch.tv/tags");
    text::lemma_holds_at("CAP REQ :twitch.tv/tags twitch.tv/commands"@, "twitch.tv/tags"@, 9);
}


/// The nick is what stands before the exclamation mark, or the whole prefix where there is none.
pub proof fn law_the_nick_stands_before_the_mark(nick: Seq<char>, user: Seq<char>)
    requires
        !nick.contains('!'),
    ensures
        nick_of(nick + "!"@ + user) == nick,
        nick_of(nick) == nick,
{
    reveal_strlit("!");
    lemma_no_separator(nick, "!"@);
    lemma_cut_at(nick, "!"@, user);
    if text::holds_text(nick, "!"@) {
        let i = choose|i: int| text::occurs_at(nick, "!"@, i);
        assert(nick.subrange(i, i + 1)[0] == '!');
        assert(nick[i] == '!');
    }
}

/// The guest shows the password that Twitch expects of guests and asks for the tags and the commands.
pub proof fn law_the_greeting_is_the_one_of_guests(nick: Seq<char>, channel: Seq<char>)
    ensures
        greeting_lines(nick, channel)[0] == "PASS SCHMOOPIIE"@,
        greeting_lines(nick, channel)[2] == "CAP REQ :twitch.tv/tags twitch.tv/commands"@,
{
}

} // verus!
