//! The UDP chatroom: the server's table of users and its answer to each
//! command, and the client's handling of what its user types and of what
//! the server sends back.
//!
//! Commands are text with fields separated by `|`: `JOIN|name`,
//! `QUIT|name`, `SEND|name|text` and `PRIV|target|text` from clients;
//! `SEND|text` and `ERROR|description` from the server.

use vstd::prelude::*;
use crate::net::SockAddr;
use vstd::utf8::{decode_utf8, valid_utf8};
use crate::text::{
    chars_equal, contains_char, decode_text, equals_literal, extend_chars, extend_with, from_chars,
    lemma_split_once_join, split_once, split_once_at, starts_with_literal, suffix_from, to_chars,
    trim, trim_chars, trim_line_end, trim_line_end_chars,
};

verus! {

// ---------------------------------------------------------------------------
// Server
// ---------------------------------------------------------------------------

/// A command as a client sends it, with the name of the user who sends it.
pub struct ChatMsg {
    pub msg: String,
    pub username: String,
}

/// A datagram that the server sends: its text and its destination.
pub struct Outgoing {
    pub text: String,
    pub to: SockAddr,
}

/// A datagram as plain values.
pub open spec fn out_view(o: Outgoing) -> (Seq<char>, SockAddr) {
    (o.text@, o.to)
}

/// No user name occurs twice in the table.
pub open spec fn names_distinct(users: Seq<(Seq<char>, SockAddr)>) -> bool {
    forall|i: int, j: int|
        0 <= i < users.len() && 0 <= j < users.len() && i != j ==> users[i].0 != users[j].0
}

/// Entry `i` of the table belongs to `name`.
pub open spec fn is_user_at(users: Seq<(Seq<char>, SockAddr)>, name: Seq<char>, i: int) -> bool {
    0 <= i < users.len() && users[i].0 == name
}

/// `name` is in the table.
pub open spec fn has_user(users: Seq<(Seq<char>, SockAddr)>, name: Seq<char>) -> bool {
    exists|i: int| is_user_at(users, name, i)
}

/// The address registered for `name`, if any.
pub open spec fn address_of(users: Seq<(Seq<char>, SockAddr)>, name: Seq<char>) -> Option<SockAddr> {
    if has_user(users, name) {
        Some(users[choose|i: int| is_user_at(users, name, i)].1)
    } else {
        None
    }
}

/// The table without the entry of `name`.
pub open spec fn without_user(users: Seq<(Seq<char>, SockAddr)>, name: Seq<char>) -> Seq<
    (Seq<char>, SockAddr),
> {
    if has_user(users, name) {
        users.remove(choose|i: int| is_user_at(users, name, i))
    } else {
        users
    }
}

/// `SEND|text` to every user in the table but `sender`, in table order.
pub open spec fn broadcast(users: Seq<(Seq<char>, SockAddr)>, sender: Seq<char>, text: Seq<char>) -> Seq<
    (Seq<char>, SockAddr),
>
    decreases users.len(),
{
    if users.len() == 0 {
        Seq::empty()
    } else {
        let rest = broadcast(users.drop_last(), sender, text);
        if users.last().0 != sender {
            rest.push(("SEND|"@ + text, users.last().1))
        } else {
            rest
        }
    }
}

/// The server's answer to command `msg` from user `user` at address `clt`:
/// the new table and the datagrams to send, in order.
pub open spec fn server_step(
    users: Seq<(Seq<char>, SockAddr)>,
    msg: Seq<char>,
    user: Seq<char>,
    clt: SockAddr,
) -> (Seq<(Seq<char>, SockAddr)>, Seq<(Seq<char>, SockAddr)>) {
    match split_once(msg, '|') {
        None => (users, seq![("ERROR|Invalid message: missing |"@, clt)]),
        Some((command, arguments)) => {
            if command == "JOIN"@ {
                if !has_user(users, user) {
                    let now = users.push((user, clt));
                    (now, broadcast(now, user, "User "@ + user + " joined the chatroom!"@))
                } else {
                    (users, seq![("ERROR|The username "@ + user + " already exists!"@, clt)])
                }
            } else if command == "QUIT"@ {
                if !has_user(users, user) {
                    (users, seq![("ERROR|Username "@ + user + " not in chatroom!"@, clt)])
                } else {
                    let now = without_user(users, user);
                    (now, broadcast(now, user, "User "@ + user + " left the chatroom!"@))
                }
            } else if command == "SEND"@ {
                match split_once(arguments, '|') {
                    Some((sender, text)) => (
                        users,
                        broadcast(users, user, "<"@ + sender + "> "@ + text),
                    ),
                    None => (users, seq![("ERROR|Invalid public message"@, clt)]),
                }
            } else if command == "PRIV"@ {
                match split_once(arguments, '|') {
                    Some((target, text)) => match address_of(users, target) {
                        None => (
                            users,
                            seq![("ERROR|Username "@ + target + " not in chatroom!"@, clt)],
                        ),
                        Some(to) => (
                            users,
                            seq![("SEND|[Private from "@ + user + "] "@ + text, to)],
                        ),
                    },
                    None => (users, seq![("ERROR|Invalid private message"@, clt)]),
                }
            } else {
                (users, seq![("ERROR|Unknown command"@, clt)])
            }
        },
    }
}

/// The text of a datagram as the server reads it: well-formed UTF-8,
/// without surrounding whitespace; nothing for other bytes.
pub fn decode_datagram(bytes: &[u8]) -> (r: Option<String>)
    ensures
        r is Some <==> valid_utf8(bytes@),
        r matches Some(s) ==> s@ == trim(decode_utf8(bytes@)),
{
    match decode_text(bytes) {
        Some(t) => {
            let v = to_chars(t.as_str());
            Some(from_chars(&trim_chars(&v)))
        },
        None => None,
    }
}

/// The chatroom server: the table of registered users and their addresses.
pub struct ChatServer {
    users: Vec<(Vec<char>, SockAddr)>,
}

impl View for ChatServer {
    type V = Seq<(Seq<char>, SockAddr)>;

    closed spec fn view(&self) -> Seq<(Seq<char>, SockAddr)> {
        self.users@.map_values(|e: (Vec<char>, SockAddr)| (e.0@, e.1))
    }
}

fn single(text: Vec<char>, to: SockAddr) -> (outs: Vec<Outgoing>)
    ensures
        outs@.map_values(|o: Outgoing| out_view(o)) == seq![(text@, to)],
{
    let mut outs: Vec<Outgoing> = Vec::new();
    outs.push(Outgoing { text: from_chars(&text), to });
    assert(outs@.map_values(|o: Outgoing| out_view(o)) =~= seq![(text@, to)]);
    outs
}

fn lit_name_lit(a: &str, name: &Vec<char>, b: &str) -> (v: Vec<char>)
    ensures
        v@ == a@ + name@ + b@,
{
    let mut v: Vec<char> = Vec::new();
    extend_with(&mut v, a);
    extend_chars(&mut v, name);
    extend_with(&mut v, b);
    assert(v@ =~= a@ + name@ + b@);
    v
}

impl ChatServer {
    /// The table is well formed: no name is registered twice.
    pub open spec fn wf(&self) -> bool {
        names_distinct(self@)
    }

    /// A server with no users.
    pub fn new() -> (s: ChatServer)
        ensures
            s@ == Seq::<(Seq<char>, SockAddr)>::empty(),
            s.wf(),
    {
        let s = ChatServer { users: Vec::new() };
        assert(s@ =~= Seq::<(Seq<char>, SockAddr)>::empty());
        s
    }

    /// Number of registered users.
    pub fn len(&self) -> (n: usize)
        ensures
            n == self@.len(),
    {
        self.users.len()
    }

    /// The address registered for `name`, if any.
    pub fn address(&self, name: &str) -> (r: Option<SockAddr>)
        requires
            self.wf(),
        ensures
            r == address_of(self@, name@),
    {
        let v = to_chars(name);
        match self.position(&v) {
            Some(i) => Some(self.users[i].1),
            None => None,
        }
    }

    fn position(&self, name: &Vec<char>) -> (r: Option<usize>)
        requires
            self.wf(),
        ensures
            r matches Some(i) ==> is_user_at(self@, name@, i as int) && address_of(self@, name@)
                == Some(self@[i as int].1) && without_user(self@, name@) == self@.remove(
                i as int,
            ),
            r is None ==> !has_user(self@, name@) && address_of(self@, name@) is None,
    {
        let mut i: usize = 0;
        while i < self.users.len()
            invariant
                self.wf(),
                i <= self.users.len(),
                forall|j: int| 0 <= j < i ==> self@[j].0 != name@,
            decreases self.users.len() - i,
        {
            assert(self@[i as int].0 == self.users@[i as int].0@);
            if chars_equal(&self.users[i].0, name) {
                proof {
                    assert(is_user_at(self@, name@, i as int));
                    let k = choose|k: int| is_user_at(self@, name@, k);
                    assert(k == i);
                }
                return Some(i);
            }
            i = i + 1;
        }
        None
    }

    fn broadcast_from(&self, sender: &Vec<char>, text: &Vec<char>) -> (outs: Vec<Outgoing>)
        ensures
            outs@.map_values(|o: Outgoing| out_view(o)) == broadcast(self@, sender@, text@),
    {
        let mut line: Vec<char> = Vec::new();
        extend_with(&mut line, "SEND|");
        extend_chars(&mut line, text);
        let mut outs: Vec<Outgoing> = Vec::new();
        let mut i: usize = 0;
        while i < self.users.len()
            invariant
                i <= self.users.len(),
                line@ == "SEND|"@ + text@,
                outs@.map_values(|o: Outgoing| out_view(o)) == broadcast(
                    self@.take(i as int),
                    sender@,
                    text@,
                ),
            decreases self.users.len() - i,
        {
            let ghost before = outs@.map_values(|o: Outgoing| out_view(o));
            assert(self@.take(i + 1).drop_last() =~= self@.take(i as int));
            assert(self@[i as int] == (self.users@[i as int].0@, self.users@[i as int].1));
            if !chars_equal(&self.users[i].0, sender) {
                outs.push(Outgoing { text: from_chars(&line), to: self.users[i].1 });
                assert(outs@.map_values(|o: Outgoing| out_view(o)) =~= before.push(
                    (line@, self@[i as int].1),
                ));
            }
            i = i + 1;
        }
        assert(self@.take(self.users.len() as int) =~= self@);
        outs
    }

    /// Handles one command; see [`server_step`].
    pub fn handle(&mut self, message: &ChatMsg, clt: SockAddr) -> (outs: Vec<Outgoing>)
        requires
            old(self).wf(),
        ensures
            final(self).wf(),
            (final(self)@, outs@.map_values(|o: Outgoing| out_view(o))) == server_step(
                old(self)@,
                message.msg@,
                message.username@,
                clt,
            ),
    {
        let raw = to_chars(message.msg.as_str());
        let user = to_chars(message.username.as_str());
        match split_once_at(&raw, '|') {
            None => single(to_chars("ERROR|Invalid message: missing |"), clt),
            Some((command, arguments)) => {
                if equals_literal(&command, "JOIN") {
                    match self.position(&user) {
                        None => {
                            let ghost old_view = self@;
                            self.users.push((user.clone(), clt));
                            proof {
                                assert(self@ =~= old_view.push((user@, clt)));
                                assert forall|i: int, j: int|
                                    0 <= i < self@.len() && 0 <= j < self@.len() && i != j
                                        implies self@[i].0 != self@[j].0 by {
                                    if i < old_view.len() && j < old_view.len() {
                                    } else if i < old_view.len() {
                                        assert(!is_user_at(old_view, user@, i));
                                    } else if j < old_view.len() {
                                        assert(!is_user_at(old_view, user@, j));
                                    }
                                }
                            }
                            let text = lit_name_lit("User ", &user, " joined the chatroom!");
                            self.broadcast_from(&user, &text)
                        },
                        Some(_) => single(
                            lit_name_lit("ERROR|The username ", &user, " already exists!"),
                            clt,
                        ),
                    }
                } else if equals_literal(&command, "QUIT") {
                    match self.position(&user) {
                        None => single(
                            lit_name_lit("ERROR|Username ", &user, " not in chatroom!"),
                            clt,
                        ),
                        Some(i) => {
                            let ghost old_view = self@;
                            self.users.remove(i);
                            proof {
                                assert(self@ =~= old_view.remove(i as int));
                                assert forall|a: int, b: int|
                                    0 <= a < self@.len() && 0 <= b < self@.len() && a != b
                                        implies self@[a].0 != self@[b].0 by {
                                    let a2 = if a < i {
                                        a
                                    } else {
                                        a + 1
                                    };
                                    let b2 = if b < i {
                                        b
                                    } else {
                                        b + 1
                                    };
                                    assert(self@[a] == old_view[a2]);
                                    assert(self@[b] == old_view[b2]);
                                }
                            }
                            let text = lit_name_lit("User ", &user, " left the chatroom!");
                            self.broadcast_from(&user, &text)
                        },
                    }
                } else if equals_literal(&command, "SEND") {
                    match split_once_at(&arguments, '|') {
                        Some((sender, text)) => {
                            let mut line: Vec<char> = Vec::new();
                            extend_with(&mut line, "<");
                            extend_chars(&mut line, &sender);
                            extend_with(&mut line, "> ");
                            extend_chars(&mut line, &text);
                            assert(line@ =~= "<"@ + sender@ + "> "@ + text@);
                            self.broadcast_from(&user, &line)
                        },
                        None => single(to_chars("ERROR|Invalid public message"), clt),
                    }
                } else if equals_literal(&command, "PRIV") {
                    match split_once_at(&arguments, '|') {
                        Some((target, text)) => match self.position(&target) {
                            None => single(
                                lit_name_lit("ERROR|Username ", &target, " not in chatroom!"),
                                clt,
                            ),
                            Some(k) => {
                                let mut line: Vec<char> = Vec::new();
                                extend_with(&mut line, "SEND|[Private from ");
                                extend_chars(&mut line, &user);
                                extend_with(&mut line, "] ");
                                extend_chars(&mut line, &text);
                                assert(line@ =~= "SEND|[Private from "@ + user@ + "] "@ + text@);
                                single(line, self.users[k].1)
                            },
                        },
                        None => single(to_chars("ERROR|Invalid private message"), clt),
                    }
                } else {
                    single(to_chars("ERROR|Unknown command"), clt)
                }
            },
        }
    }
}

// ---------------------------------------------------------------------------
// Client
// ---------------------------------------------------------------------------

/// The name the user typed, without surrounding whitespace, when it is
/// acceptable: not empty and free of `|`.
pub open spec fn username_spec(raw: Seq<char>) -> Option<Seq<char>> {
    let u = trim(raw);
    if u.len() == 0 || u.contains('|') {
        None
    } else {
        Some(u)
    }
}

/// Checks a user name typed at the prompt; see [`username_spec`].
pub fn validate_username(raw: &str) -> (r: Option<String>)
    ensures
        match (r, username_spec(raw@)) {
            (Some(u), Some(su)) => u@ == su,
            (None, None) => true,
            _ => false,
        },
{
    let v = to_chars(raw);
    let u = trim_chars(&v);
    if u.len() == 0 || contains_char(&u, '|') {
        None
    } else {
        Some(from_chars(&u))
    }
}

/// The command that announces `username` to the server.
pub fn join_message(username: &str) -> (m: ChatMsg)
    ensures
        m.msg@ == "JOIN|"@ + username@,
        m.username@ == username@,
{
    let mut v: Vec<char> = Vec::new();
    extend_with(&mut v, "JOIN|");
    extend_with(&mut v, username);
    ChatMsg { msg: from_chars(&v), username: from_chars(&to_chars(username)) }
}

/// What the client does with a line its user typed, as plain values.
pub enum Intent {
    /// Send this command and keep going.
    Send(Seq<char>),
    /// Send this command and stop.
    Quit(Seq<char>),
    /// Print how `/msg` is used.
    Usage,
    /// Do nothing.
    Nothing,
}

/// What the client does with `input` typed by `user`: `/quit` leaves,
/// `/msg target text` sends a private message, an empty line does nothing,
/// and any other line goes to everyone.
pub open spec fn intent_spec(input: Seq<char>, user: Seq<char>) -> Intent {
    let line = trim_line_end(input);
    if line == "/quit"@ {
        Intent::Quit("QUIT|"@ + user)
    } else if "/msg "@.len() <= line.len() && line.take("/msg "@.len() as int) == "/msg "@ {
        match split_once(line.skip("/msg "@.len() as int), ' ') {
            Some((target, text)) => if target.len() > 0 && text.len() > 0 {
                Intent::Send("PRIV|"@ + target + "|"@ + text)
            } else {
                Intent::Usage
            },
            None => Intent::Usage,
        }
    } else if line.len() == 0 {
        Intent::Nothing
    } else {
        Intent::Send("SEND|"@ + user + "|"@ + line)
    }
}

/// What the client does with a line its user typed.
pub enum ClientAction {
    /// Send this message and keep going.
    Send(ChatMsg),
    /// Send this message and stop.
    Quit(ChatMsg),
    /// Print how `/msg` is used.
    Usage,
    /// Do nothing.
    Nothing,
}

/// The action as plain values; the message always carries the user's name.
pub open spec fn action_view(a: ClientAction, user: Seq<char>) -> Option<Intent> {
    match a {
        ClientAction::Send(m) => if m.username@ == user {
            Some(Intent::Send(m.msg@))
        } else {
            None
        },
        ClientAction::Quit(m) => if m.username@ == user {
            Some(Intent::Quit(m.msg@))
        } else {
            None
        },
        ClientAction::Usage => Some(Intent::Usage),
        ClientAction::Nothing => Some(Intent::Nothing),
    }
}

fn message_from(msg: &Vec<char>, username: &Vec<char>) -> (m: ChatMsg)
    ensures
        m.msg@ == msg@,
        m.username@ == username@,
{
    ChatMsg { msg: from_chars(msg), username: from_chars(username) }
}

/// Turns a line typed by `username` into an action; see [`intent_spec`].
pub fn client_action(input: &str, username: &str) -> (a: ClientAction)
    ensures
        action_view(a, username@) == Some(intent_spec(input@, username@)),
{
    let raw = to_chars(input);
    let user = to_chars(username);
    let line = trim_line_end_chars(&raw);
    if equals_literal(&line, "/quit") {
        let mut m: Vec<char> = Vec::new();
        extend_with(&mut m, "QUIT|");
        extend_chars(&mut m, &user);
        ClientAction::Quit(message_from(&m, &user))
    } else if starts_with_literal(&line, "/msg ") {
        let prefix_len = "/msg ".unicode_len();
        let args = suffix_from(&line, prefix_len);
        match split_once_at(&args, ' ') {
            Some((target, text)) => {
                if target.len() > 0 && text.len() > 0 {
                    let mut m: Vec<char> = Vec::new();
                    extend_with(&mut m, "PRIV|");
                    extend_chars(&mut m, &target);
                    extend_with(&mut m, "|");
                    extend_chars(&mut m, &text);
                    assert(m@ =~= "PRIV|"@ + target@ + "|"@ + text@);
                    ClientAction::Send(message_from(&m, &user))
                } else {
                    ClientAction::Usage
                }
            },
            None => ClientAction::Usage,
        }
    } else if line.len() == 0 {
        ClientAction::Nothing
    } else {
        let mut m: Vec<char> = Vec::new();
        extend_with(&mut m, "SEND|");
        extend_chars(&mut m, &user);
        extend_with(&mut m, "|");
        extend_chars(&mut m, &line);
        assert(m@ =~= "SEND|"@ + user@ + "|"@ + line@);
        ClientAction::Send(message_from(&m, &user))
    }
}

/// What a datagram from the server means to the client, as plain values.
pub enum ReplySpec {
    Chat(Seq<char>),
    Error(Seq<char>),
    Unknown(Seq<char>, Seq<char>),
    Malformed,
}

/// How the client reads a datagram from the server: `SEND|text` is chat to
/// print, `ERROR|text` an error, another kind is unknown, and text without
/// `|` is malformed.
pub open spec fn reply_spec(received: Seq<char>) -> ReplySpec {
    match split_once(received, '|') {
        Some((kind, text)) => if kind == "SEND"@ {
            ReplySpec::Chat(text)
        } else if kind == "ERROR"@ {
            ReplySpec::Error(text)
        } else {
            ReplySpec::Unknown(kind, text)
        },
        None => ReplySpec::Malformed,
    }
}

/// What a datagram from the server means to the client.
pub enum ServerReply {
    Chat(String),
    Error(String),
    Unknown(String, String),
    Malformed,
}

/// The reply as plain values.
pub open spec fn reply_view(r: ServerReply) -> ReplySpec {
    match r {
        ServerReply::Chat(t) => ReplySpec::Chat(t@),
        ServerReply::Error(t) => ReplySpec::Error(t@),
        ServerReply::Unknown(k, t) => ReplySpec::Unknown(k@, t@),
        ServerReply::Malformed => ReplySpec::Malformed,
    }
}

/// Reads a datagram from the server; see [`reply_spec`].
pub fn classify_reply(received: &str) -> (r: ServerReply)
    ensures
        reply_view(r) == reply_spec(received@),
{
    let v = to_chars(received);
    match split_once_at(&v, '|') {
        Some((kind, text)) => {
            if equals_literal(&kind, "SEND") {
                ServerReply::Chat(from_chars(&text))
            } else if equals_literal(&kind, "ERROR") {
                ServerReply::Error(from_chars(&text))
            } else {
                ServerReply::Unknown(from_chars(&kind), from_chars(&text))
            }
        },
        None => ServerReply::Malformed,
    }
}

// ---------------------------------------------------------------------------
// Laws
// ---------------------------------------------------------------------------

proof fn lemma_address_at(users: Seq<(Seq<char>, SockAddr)>, name: Seq<char>, i: int)
    requires
        names_distinct(users),
        is_user_at(users, name, i),
    ensures
        has_user(users, name),
        address_of(users, name) == Some(users[i].1),
        without_user(users, name) == users.remove(i),
{
    let k = choose|k: int| is_user_at(users, name, k);
    assert(k == i);
}

/// `broadcast` reaches every user but the sender, and nobody else.
pub proof fn lemma_broadcast_members(
    users: Seq<(Seq<char>, SockAddr)>,
    sender: Seq<char>,
    text: Seq<char>,
)
    ensures
        forall|k: int|
            0 <= k < users.len() && #[trigger] users[k].0 != sender ==> broadcast(
                users,
                sender,
                text,
            ).contains(("SEND|"@ + text, users[k].1)),
        forall|o: (Seq<char>, SockAddr)| #[trigger]
            broadcast(users, sender, text).contains(o) ==> exists|k: int|
                0 <= k < users.len() && users[k].0 != sender && o == ("SEND|"@ + text, users[k].1),
    decreases users.len(),
{
    if users.len() > 0 {
        let init = users.drop_last();
        lemma_broadcast_members(init, sender, text);
        let rest = broadcast(init, sender, text);
        let b = broadcast(users, sender, text);
        assert forall|k: int|
            0 <= k < users.len() && #[trigger] users[k].0 != sender implies b.contains(
            ("SEND|"@ + text, users[k].1),
        ) by {
            if k < users.len() - 1 {
                assert(init[k] == users[k]);
                assert(rest.contains(("SEND|"@ + text, users[k].1)));
                let j = choose|j: int| 0 <= j < rest.len() && rest[j] == ("SEND|"@ + text, users[k].1);
                if users.last().0 != sender {
                    assert(b[j] == rest[j]);
                }
            } else {
                assert(b[b.len() - 1] == ("SEND|"@ + text, users[k].1));
            }
        }
        assert forall|o: (Seq<char>, SockAddr)| #[trigger] b.contains(o) implies exists|k: int|
            0 <= k < users.len() && users[k].0 != sender && o == ("SEND|"@ + text, users[k].1) by {
            let j = choose|j: int| 0 <= j < b.len() && b[j] == o;
            if j < rest.len() {
                assert(rest.contains(o));
                let k = choose|k: int|
                    0 <= k < init.len() && init[k].0 != sender && o == ("SEND|"@ + text, init[k].1);
                assert(users[k] == init[k]);
            } else {
                assert(users[users.len() - 1].0 != sender);
            }
        }
    }
}

proof fn lemma_command(lit: Seq<char>, rest: Seq<char>)
    requires
        !lit.contains('|'),
    ensures
        split_once(lit + seq!['|'] + rest, '|') == Some((lit, rest)),
{
    lemma_split_once_join(lit, '|', rest);
}

proof fn lemma_literals()
    ensures
        "JOIN|"@ == "JOIN"@ + seq!['|'],
        "QUIT|"@ == "QUIT"@ + seq!['|'],
        "SEND|"@ == "SEND"@ + seq!['|'],
        "PRIV|"@ == "PRIV"@ + seq!['|'],
        "|"@ == seq!['|'],
        !"JOIN"@.contains('|'),
        !"QUIT"@.contains('|'),
        !"SEND"@.contains('|'),
        !"PRIV"@.contains('|'),
        "JOIN"@ != "QUIT"@,
        "JOIN"@ != "SEND"@,
        "JOIN"@ != "PRIV"@,
        "QUIT"@ != "SEND"@,
        "QUIT"@ != "PRIV"@,
        "SEND"@ != "PRIV"@,
        "SEND"@ != "ERROR"@,
        !"/quit"@.contains('|'),
{
    reveal_strlit("JOIN|");
    reveal_strlit("QUIT|");
    reveal_strlit("SEND|");
    reveal_strlit("PRIV|");
    reveal_strlit("|");
    reveal_strlit("JOIN");
    reveal_strlit("QUIT");
    reveal_strlit("SEND");
    reveal_strlit("PRIV");
    reveal_strlit("ERROR");
    reveal_strlit("/quit");
    assert("JOIN|"@ =~= "JOIN"@ + seq!['|']);
    assert("QUIT|"@ =~= "QUIT"@ + seq!['|']);
    assert("SEND|"@ =~= "SEND"@ + seq!['|']);
    assert("PRIV|"@ =~= "PRIV"@ + seq!['|']);
    assert("|"@ =~= seq!['|']);
    assert("JOIN"@[1] != "QUIT"@[1]);
    assert("JOIN"@[0] != "SEND"@[0]);
    assert("JOIN"@[0] != "PRIV"@[0]);
    assert("QUIT"@[0] != "SEND"@[0]);
    assert("QUIT"@[0] != "PRIV"@[0]);
    assert("SEND"@[0] != "PRIV"@[0]);
    assert("SEND"@.len() != "ERROR"@.len());
}

/// A `JOIN` under a free name registers the sender at its address, keeps
/// every other registration and the table's names distinct, and announces
/// the newcomer to every user already there and to nobody else.
pub proof fn law_join_registers(
    users: Seq<(Seq<char>, SockAddr)>,
    name: Seq<char>,
    clt: SockAddr,
)
    requires
        names_distinct(users),
        !has_user(users, name),
    ensures
        ({
            let (now, outs) = server_step(users, "JOIN|"@ + name, name, clt);
            let note = "SEND|"@ + ("User "@ + name + " joined the chatroom!"@);
            &&& names_distinct(now)
            &&& address_of(now, name) == Some(clt)
            &&& forall|n: Seq<char>| n != name ==> address_of(now, n) == address_of(users, n)
            &&& forall|k: int| 0 <= k < users.len() ==> outs.contains((note, #[trigger] users[k].1))
            &&& forall|o: (Seq<char>, SockAddr)| #[trigger]
                outs.contains(o) ==> exists|k: int| 0 <= k < users.len() && o == (note, users[k].1)
        }),
{
    lemma_literals();
    lemma_command("JOIN"@, name);
    assert("JOIN|"@ + name == "JOIN"@ + seq!['|'] + name);
    let now = users.push((name, clt));
    let text = "User "@ + name + " joined the chatroom!"@;
    assert(server_step(users, "JOIN|"@ + name, name, clt) == (now, broadcast(now, name, text)));
    assert(now.drop_last() =~= users);
    assert(broadcast(now, name, text) == broadcast(users, name, text));
    assert(names_distinct(now)) by {
        assert forall|i: int, j: int|
            0 <= i < now.len() && 0 <= j < now.len() && i != j implies now[i].0 != now[j].0 by {
            if i < users.len() && j < users.len() {
            } else if i < users.len() {
                assert(!is_user_at(users, name, i));
            } else if j < users.len() {
                assert(!is_user_at(users, name, j));
            }
        }
    }
    lemma_address_at(now, name, users.len() as int);
    assert forall|n: Seq<char>| n != name implies address_of(now, n) == address_of(users, n) by {
        if has_user(now, n) {
            let i = choose|i: int| is_user_at(now, n, i);
            assert(i < users.len());
            assert(is_user_at(users, n, i));
            lemma_address_at(now, n, i);
            lemma_address_at(users, n, i);
        } else {
            if has_user(users, n) {
                let i = choose|i: int| is_user_at(users, n, i);
                assert(is_user_at(now, n, i));
            }
        }
    }
    lemma_broadcast_members(users, name, text);
    assert forall|k: int| 0 <= k < users.len() implies #[trigger] users[k].0 != name by {
        assert(!is_user_at(users, name, k));
    }
}

/// A `JOIN` under a name already taken changes nothing and answers the
/// sender alone.
pub proof fn law_join_taken(users: Seq<(Seq<char>, SockAddr)>, name: Seq<char>, clt: SockAddr)
    requires
        has_user(users, name),
    ensures
        server_step(users, "JOIN|"@ + name, name, clt) == (
            users,
            seq![("ERROR|The username "@ + name + " already exists!"@, clt)],
        ),
{
    lemma_literals();
    lemma_command("JOIN"@, name);
    assert("JOIN|"@ + name == "JOIN"@ + seq!['|'] + name);
}

/// A `QUIT` from a registered user removes that user alone, and tells every
/// remaining user and nobody else.
pub proof fn law_quit_removes(users: Seq<(Seq<char>, SockAddr)>, name: Seq<char>, clt: SockAddr)
    requires
        names_distinct(users),
        has_user(users, name),
    ensures
        ({
            let (now, outs) = server_step(users, "QUIT|"@ + name, name, clt);
            let note = "SEND|"@ + ("User "@ + name + " left the chatroom!"@);
            &&& names_distinct(now)
            &&& !has_user(now, name)
            &&& now.len() + 1 == users.len()
            &&& forall|n: Seq<char>| n != name ==> address_of(now, n) == address_of(users, n)
            &&& forall|k: int| 0 <= k < now.len() ==> outs.contains((note, #[trigger] now[k].1))
            &&& forall|o: (Seq<char>, SockAddr)| #[trigger]
                outs.contains(o) ==> exists|k: int| 0 <= k < now.len() && o == (note, now[k].1)
        }),
{
    lemma_literals();
    lemma_command("QUIT"@, name);
    assert("QUIT|"@ + name == "QUIT"@ + seq!['|'] + name);
    let i = choose|i: int| is_user_at(users, name, i);
    lemma_address_at(users, name, i);
    let now = users.remove(i);
    let text = "User "@ + name + " left the chatroom!"@;
    assert(server_step(users, "QUIT|"@ + name, name, clt) == (now, broadcast(now, name, text)));
    assert forall|a: int| 0 <= a < now.len() implies #[trigger] now[a] == users[if a < i {
        a
    } else {
        a + 1
    }] by {}
    assert(names_distinct(now)) by {
        assert forall|a: int, b: int|
            0 <= a < now.len() && 0 <= b < now.len() && a != b implies now[a].0 != now[b].0 by {
            let a2 = if a < i {
                a
            } else {
                a + 1
            };
            let b2 = if b < i {
                b
            } else {
                b + 1
            };
            assert(now[a] == users[a2]);
            assert(now[b] == users[b2]);
        }
    }
    assert(!has_user(now, name)) by {
        if has_user(now, name) {
            let a = choose|a: int| is_user_at(now, name, a);
            let a2 = if a < i {
                a
            } else {
                a + 1
            };
            assert(now[a] == users[a2]);
        }
    }
    assert forall|n: Seq<char>| n != name implies address_of(now, n) == address_of(users, n) by {
        if has_user(now, n) {
            let a = choose|a: int| is_user_at(now, n, a);
            let a2 = if a < i {
                a
            } else {
                a + 1
            };
            assert(now[a] == users[a2]);
            lemma_address_at(now, n, a);
            lemma_address_at(users, n, a2);
        } else if has_user(users, n) {
            let b = choose|b: int| is_user_at(users, n, b);
            assert(b != i);
            let b2 = if b < i {
                b
            } else {
                b - 1
            };
            assert(now[b2] == users[b]);
            assert(is_user_at(now, n, b2));
        }
    }
    lemma_broadcast_members(now, name, text);
    assert forall|k: int| 0 <= k < now.len() implies #[trigger] now[k].0 != name by {
        assert(!is_user_at(now, name, k));
    }
}

/// A public message reaches every user except its sender, and nobody else;
/// the table is unchanged.
pub proof fn law_public_message(
    users: Seq<(Seq<char>, SockAddr)>,
    user: Seq<char>,
    sender: Seq<char>,
    text: Seq<char>,
    clt: SockAddr,
)
    requires
        !sender.contains('|'),
    ensures
        ({
            let (now, outs) = server_step(users, "SEND|"@ + sender + "|"@ + text, user, clt);
            let line = "SEND|"@ + ("<"@ + sender + "> "@ + text);
            &&& now == users
            &&& forall|k: int|
                0 <= k < users.len() && #[trigger] users[k].0 != user ==> outs.contains(
                    (line, users[k].1),
                )
            &&& forall|o: (Seq<char>, SockAddr)| #[trigger]
                outs.contains(o) ==> exists|k: int|
                    0 <= k < users.len() && users[k].0 != user && o == (line, users[k].1)
        }),
{
    lemma_literals();
    let args = sender + seq!['|'] + text;
    assert("SEND|"@ + sender + "|"@ + text == "SEND"@ + seq!['|'] + args);
    lemma_command("SEND"@, args);
    lemma_split_once_join(sender, '|', text);
    lemma_broadcast_members(users, user, "<"@ + sender + "> "@ + text);
}

/// A private message to a registered user goes to that user's address
/// alone; to an unknown user it is answered with an error to the sender.
pub proof fn law_private_message(
    users: Seq<(Seq<char>, SockAddr)>,
    user: Seq<char>,
    target: Seq<char>,
    text: Seq<char>,
    clt: SockAddr,
)
    requires
        !target.contains('|'),
    ensures
        has_user(users, target) ==> server_step(users, "PRIV|"@ + target + "|"@ + text, user, clt)
            == (users, seq![("SEND|[Private from "@ + user + "] "@ + text, address_of(users, target)->Some_0)]),
        !has_user(users, target) ==> server_step(users, "PRIV|"@ + target + "|"@ + text, user, clt)
            == (users, seq![("ERROR|Username "@ + target + " not in chatroom!"@, clt)]),
{
    lemma_literals();
    let args = target + seq!['|'] + text;
    assert("PRIV|"@ + target + "|"@ + text == "PRIV"@ + seq!['|'] + args);
    lemma_command("PRIV"@, args);
    lemma_split_once_join(target, '|', text);
}

/// A command without `|`, or with a command word the server does not know,
/// changes nothing and is answered with an `ERROR|` datagram to its sender
/// alone.
pub proof fn law_rejects_malformed(
    users: Seq<(Seq<char>, SockAddr)>,
    msg: Seq<char>,
    user: Seq<char>,
    clt: SockAddr,
)
    requires
        split_once(msg, '|') matches Some((c, _)) ==> c != "JOIN"@ && c != "QUIT"@ && c
            != "SEND"@ && c != "PRIV"@,
    ensures
        ({
            let (now, outs) = server_step(users, msg, user, clt);
            &&& now == users
            &&& outs.len() == 1
            &&& outs[0].1 == clt
            &&& outs[0].0.take(6) == "ERROR|"@
        }),
{
    reveal_strlit("ERROR|");
    reveal_strlit("ERROR|Invalid message: missing |");
    reveal_strlit("ERROR|Unknown command");
}

/// A plain line typed by a user with an acceptable name is delivered by the
/// server to every other registered user, and each of their clients prints
/// it after the sender's name.
pub proof fn law_plain_text_delivery(
    users: Seq<(Seq<char>, SockAddr)>,
    raw_name: Seq<char>,
    input: Seq<char>,
    clt: SockAddr,
)
    requires
        username_spec(raw_name) is Some,
        trim_line_end(input).len() > 0,
        trim_line_end(input) != "/quit"@,
        !("/msg "@.len() <= trim_line_end(input).len() && trim_line_end(input).take(
            "/msg "@.len() as int,
        ) == "/msg "@),
    ensures
        ({
            let u = username_spec(raw_name)->Some_0;
            let line = trim_line_end(input);
            let shown = "<"@ + u + "> "@ + line;
            &&& intent_spec(input, u) == Intent::Send("SEND|"@ + u + "|"@ + line)
            &&& server_step(users, "SEND|"@ + u + "|"@ + line, u, clt) == (
                users,
                broadcast(users, u, shown),
            )
            &&& forall|k: int|
                0 <= k < users.len() && #[trigger] users[k].0 != u ==> broadcast(
                    users,
                    u,
                    shown,
                ).contains(("SEND|"@ + shown, users[k].1))
            &&& forall|o: (Seq<char>, SockAddr)| #[trigger]
                broadcast(users, u, shown).contains(o) ==> reply_spec(o.0) == ReplySpec::Chat(
                    shown,
                )
        }),
{
    lemma_literals();
    let u = username_spec(raw_name)->Some_0;
    let line = trim_line_end(input);
    let shown = "<"@ + u + "> "@ + line;
    let args = u + seq!['|'] + line;
    assert("SEND|"@ + u + "|"@ + line == "SEND"@ + seq!['|'] + args);
    lemma_command("SEND"@, args);
    lemma_split_once_join(u, '|', line);
    assert(server_step(users, "SEND|"@ + u + "|"@ + line, u, clt) == (
        users,
        broadcast(users, u, shown),
    ));
    assert(intent_spec(input, u) == Intent::Send("SEND|"@ + u + "|"@ + line));
    lemma_broadcast_members(users, u, shown);
    assert("SEND|"@ + shown == "SEND"@ + seq!['|'] + shown);
    lemma_command("SEND"@, shown);
}

/// A private message typed as `/msg target text` reaches the target's
/// address alone, where the client prints it as a private message from its
/// sender; a target that is not registered gets the sender an error.
pub proof fn law_private_delivery(
    users: Seq<(Seq<char>, SockAddr)>,
    user: Seq<char>,
    input: Seq<char>,
    target: Seq<char>,
    text: Seq<char>,
    clt: SockAddr,
)
    requires
        intent_spec(input, user) == Intent::Send("PRIV|"@ + target + "|"@ + text),
        !target.contains('|'),
    ensures
        has_user(users, target) ==> ({
            let (now, outs) = server_step(users, "PRIV|"@ + target + "|"@ + text, user, clt);
            &&& now == users
            &&& outs == seq![("SEND|"@ + ("[Private from "@ + user + "] "@ + text), address_of(users, target)->Some_0)]
            &&& reply_spec(outs[0].0) == ReplySpec::Chat("[Private from "@ + user + "] "@ + text)
        }),
        !has_user(users, target) ==> server_step(users, "PRIV|"@ + target + "|"@ + text, user, clt)
            == (users, seq![("ERROR|Username "@ + target + " not in chatroom!"@, clt)]),
{
    law_private_message(users, user, target, text, clt);
    lemma_literals();
    reveal_strlit("SEND|[Private from ");
    reveal_strlit("SEND|");
    let shown = "[Private from "@ + user + "] "@ + text;
    assert("SEND|[Private from "@ =~= "SEND|"@ + "[Private from "@) by {
        reveal_strlit("[Private from ");
    }
    assert("SEND|[Private from "@ + user + "] "@ + text == "SEND|"@ + shown);
    assert("SEND|"@ + shown == "SEND"@ + seq!['|'] + shown);
    lemma_command("SEND"@, shown);
}

/// Whatever command arrives, the server sends only to addresses already
/// registered or back to the sender, and its table keeps names distinct.
pub proof fn law_replies_stay_in_room(
    users: Seq<(Seq<char>, SockAddr)>,
    msg: Seq<char>,
    user: Seq<char>,
    clt: SockAddr,
)
    requires
        names_distinct(users),
    ensures
        names_distinct(server_step(users, msg, user, clt).0),
        forall|o: (Seq<char>, SockAddr)| #[trigger]
            server_step(users, msg, user, clt).1.contains(o) ==> o.1 == clt || exists|k: int|
                0 <= k < users.len() && users[k].1 == o.1,
{
    let (now, outs) = server_step(users, msg, user, clt);
    match split_once(msg, '|') {
        None => {},
        Some((command, arguments)) => {
            if command == "JOIN"@ {
                if !has_user(users, user) {
                    let grown = users.push((user, clt));
                    let text = "User "@ + user + " joined the chatroom!"@;
                    lemma_broadcast_members(grown, user, text);
                    assert forall|o: (Seq<char>, SockAddr)| #[trigger] outs.contains(o) implies o.1
                        == clt || exists|k: int| 0 <= k < users.len() && users[k].1 == o.1 by {
                        let k = choose|k: int|
                            0 <= k < grown.len() && grown[k].0 != user && o == (
                                "SEND|"@ + text,
                                grown[k].1,
                            );
                        if k < users.len() {
                            assert(grown[k] == users[k]);
                        }
                    }
                    assert(names_distinct(grown)) by {
                        assert forall|i: int, j: int|
                            0 <= i < grown.len() && 0 <= j < grown.len() && i != j implies grown[i].0
                            != grown[j].0 by {
                            if i < users.len() && j < users.len() {
                            } else if i < users.len() {
                                assert(!is_user_at(users, user, i));
                            } else if j < users.len() {
                                assert(!is_user_at(users, user, j));
                            }
                        }
                    }
                }
            } else if command == "QUIT"@ {
                if has_user(users, user) {
                    let i = choose|i: int| is_user_at(users, user, i);
                    lemma_address_at(users, user, i);
                    let shrunk = users.remove(i);
                    let text = "User "@ + user + " left the chatroom!"@;
                    lemma_broadcast_members(shrunk, user, text);
                    assert forall|a: int| 0 <= a < shrunk.len() implies #[trigger] shrunk[a]
                        == users[if a < i {
                        a
                    } else {
                        a + 1
                    }] by {}
                    assert forall|o: (Seq<char>, SockAddr)| #[trigger] outs.contains(o) implies o.1
                        == clt || exists|k: int| 0 <= k < users.len() && users[k].1 == o.1 by {
                        let k = choose|k: int|
                            0 <= k < shrunk.len() && shrunk[k].0 != user && o == (
                                "SEND|"@ + text,
                                shrunk[k].1,
                            );
                        let k2 = if k < i {
                            k
                        } else {
                            k + 1
                        };
                        assert(shrunk[k] == users[k2]);
                    }
                    assert(names_distinct(shrunk)) by {
                        assert forall|a: int, b: int|
                            0 <= a < shrunk.len() && 0 <= b < shrunk.len() && a != b implies shrunk[a].0
                            != shrunk[b].0 by {
                            let a2 = if a < i {
                                a
                            } else {
                                a + 1
                            };
                            let b2 = if b < i {
                                b
                            } else {
                                b + 1
                            };
                            assert(shrunk[a] == users[a2]);
                            assert(shrunk[b] == users[b2]);
                        }
                    }
                }
            } else if command == "SEND"@ {
                match split_once(arguments, '|') {
                    Some((sender, text)) => {
                        lemma_broadcast_members(users, user, "<"@ + sender + "> "@ + text);
                    },
                    None => {},
                }
            } else if command == "PRIV"@ {
                match split_once(arguments, '|') {
                    Some((target, text)) => {
                        if has_user(users, target) {
                            let i = choose|i: int| is_user_at(users, target, i);
                            lemma_address_at(users, target, i);
                            assert forall|o: (Seq<char>, SockAddr)| #[trigger]
                                outs.contains(o) implies o.1 == clt || exists|k: int|
                                0 <= k < users.len() && users[k].1 == o.1 by {
                                assert(outs.len() == 1);
                                assert(o == outs[0]);
                                assert(users[i].1 == o.1);
                            }
                        }
                    },
                    None => {},
                }
            }
        },
    }
}

} // verus!
