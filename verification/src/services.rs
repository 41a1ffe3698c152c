//! The decisions of the small services: verbosity, the choice of capture
//! source, the fortune exchange, the echo reply, name lookups and byte
//! order.

use vstd::prelude::*;
use crate::text::{extend_chars, extend_with, from_chars, to_chars, chars_equal};
use rand::seq::SliceRandom;

verus! {

// ---------------------------------------------------------------------------
// Logging and input
// ---------------------------------------------------------------------------

/// Whether a message of importance `level` is shown at verbosity `verbose`
/// (the number of `-v` flags).
pub fn verbose_enabled(verbose: u8, level: u8) -> (r: bool)
    ensures
        r == (verbose >= level),
{
    verbose >= level
}

/// Where packets are captured from.
pub enum InputSource {
    /// A network interface, by name.
    Interface(String),
    /// A capture file, by path.
    File(String),
}

/// The capture source named on the command line, where exactly one of an
/// interface and a file is given.
pub fn capture_source(interface: Option<String>, file: Option<String>) -> (s: InputSource)
    requires
        interface is Some != file is Some,
    ensures
        match s {
            InputSource::Interface(i) => interface is Some && i@ == interface->Some_0@,
            InputSource::File(f) => file is Some && f@ == file->Some_0@,
        },
{
    match interface {
        Some(i) => InputSource::Interface(i),
        None => match file {
            Some(f) => InputSource::File(f),
            None => InputSource::File(String::new()),
        },
    }
}

// ---------------------------------------------------------------------------
// Fortunes
// ---------------------------------------------------------------------------

/// A message of the fortune protocol.
pub enum Fortune {
    /// A request; its type is `REQ`.
    MessageType(String),
    /// A fortune sentence.
    Text(String),
}

/// The request a client sends.
pub fn fortune_request() -> (f: Fortune)
    ensures
        f matches Fortune::MessageType(t) && t@ == "REQ"@,
{
    Fortune::MessageType(from_chars(&to_chars("REQ")))
}

/// How the server judges a message from a client.
pub enum RequestCheck {
    /// A request for a fortune.
    Request,
    /// A message type other than `REQ`.
    UnknownType,
    /// A fortune sentence, which no client should send.
    UnexpectedText,
}

/// Judges a message from a client: only `MessageType("REQ")` asks for a
/// fortune.
pub fn check_request(msg: &Fortune) -> (r: RequestCheck)
    ensures
        match msg {
            Fortune::MessageType(t) => if t@ == "REQ"@ {
                r is Request
            } else {
                r is UnknownType
            },
            Fortune::Text(_) => r is UnexpectedText,
        },
{
    match msg {
        Fortune::MessageType(t) => {
            let v = to_chars(t.as_str());
            let req = to_chars("REQ");
            if chars_equal(&v, &req) {
                RequestCheck::Request
            } else {
                RequestCheck::UnknownType
            }
        },
        Fortune::Text(_) => RequestCheck::UnexpectedText,
    }
}

/// Picks one of `fortunes` at random.
///
/// Calls `rand::seq::SliceRandom::choose` with the thread-local generator;
/// its source returns `None` for an empty slice and otherwise one of the
/// elements. Which element comes back is left to chance and not stated.
#[verifier::external_body]
fn pick<'a>(fortunes: &'a Vec<String>) -> (r: Option<&'a String>)
    ensures
        r is None <==> fortunes@.len() == 0,
        r matches Some(f) ==> fortunes@.contains(*f),
{
    fortunes.as_slice().choose(&mut rand::thread_rng())
}

/// The server's answer to a request: one of the fortunes, chosen at
/// random; nothing when there are no fortunes.
pub fn fortune_reply(fortunes: &Vec<String>) -> (r: Option<Fortune>)
    ensures
        r is None <==> fortunes@.len() == 0,
        r matches Some(f) ==> (f matches Fortune::Text(t) && (exists|i: int|
            0 <= i < fortunes@.len() && fortunes@[i]@ == t@)),
{
    match pick(fortunes) {
        Some(f) => {
            let t = f.clone();
            Some(Fortune::Text(t))
        },
        None => None,
    }
}

/// The sentence in the server's answer; nothing when the server sent a
/// request instead.
pub fn fortune_text(reply: &Fortune) -> (r: Option<String>)
    ensures
        match reply {
            Fortune::Text(t) => (r matches Some(s) && s@ == t@),
            Fortune::MessageType(_) => r is None,
        },
{
    match reply {
        Fortune::Text(t) => Some(t.clone()),
        Fortune::MessageType(_) => None,
    }
}

// ---------------------------------------------------------------------------
// Echo
// ---------------------------------------------------------------------------

/// What `str::to_uppercase` returns for `s`.
pub uninterp spec fn uppercase(s: Seq<char>) -> Seq<char>;

/// Upper-cases `s`.
///
/// Calls `str::to_uppercase`, which maps each character by the Unicode
/// uppercase mapping, independent of locale; the contract names the result
/// [`uppercase`] and says nothing more of it.
#[verifier::external_body]
fn to_upper(s: &str) -> (r: String)
    ensures
        r@ == uppercase(s@),
{
    s.to_uppercase()
}

/// The echo servers' reply to a line: the line in upper case.
pub fn echo_response(line: &str) -> (r: String)
    ensures
        r@ == uppercase(line@),
{
    to_upper(line)
}

// ---------------------------------------------------------------------------
// Name lookups
// ---------------------------------------------------------------------------

/// The argument handed to the resolver for `host`: the name and port 0.
pub fn resolver_query(host: &str) -> (q: String)
    ensures
        q@ == host@ + ":0"@,
{
    let mut v = to_chars(host);
    extend_with(&mut v, ":0");
    from_chars(&v)
}

/// The lines of `lines` joined with line feeds between them.
pub open spec fn joined(lines: Seq<Seq<char>>) -> Seq<char>
    decreases lines.len(),
{
    if lines.len() == 0 {
        Seq::empty()
    } else if lines.len() == 1 {
        lines[0]
    } else {
        joined(lines.drop_last()) + seq!['\n'] + lines.last()
    }
}

/// The lookup server's reply: the resolved addresses, one per line; see
/// [`joined`].
pub fn join_lines(lines: &Vec<String>) -> (r: String)
    ensures
        r@ == joined(lines@.map_values(|s: String| s@)),
{
    let ghost views = lines@.map_values(|s: String| s@);
    let mut out: Vec<char> = Vec::new();
    let mut i: usize = 0;
    while i < lines.len()
        invariant
            i <= lines.len(),
            views == lines@.map_values(|s: String| s@),
            out@ == joined(views.take(i as int)),
        decreases lines.len() - i,
    {
        assert(views.take(i + 1).drop_last() =~= views.take(i as int));
        if i > 0 {
            out.push('\n');
        } else {
            assert(views.take(1) =~= seq![views[0]]);
        }
        let line = to_chars(lines[i].as_str());
        extend_chars(&mut out, &line);
        i = i + 1;
    }
    assert(views.take(lines.len() as int) =~= views);
    from_chars(&out)
}

/// Whether the lookup client shows an address: `-4` keeps IPv4 addresses
/// only, `-6` IPv6 addresses only.
pub fn address_wanted(ipv4_only: bool, ipv6_only: bool, is_ipv4: bool) -> (r: bool)
    ensures
        r == (!(ipv4_only && !is_ipv4) && !(ipv6_only && is_ipv4)),
{
    if ipv4_only && !is_ipv4 {
        return false;
    }
    if ipv6_only && is_ipv4 {
        return false;
    }
    true
}

/// The reply to a query with an empty domain name.
pub fn empty_domain_reply(domain: &str) -> (r: Option<String>)
    ensures
        domain@.len() == 0 ==> (r matches Some(s) && s@ == "Empty domain name"@),
        domain@.len() != 0 ==> r is None,
{
    if domain.unicode_len() == 0 {
        Some(from_chars(&to_chars("Empty domain name")))
    } else {
        None
    }
}

// ---------------------------------------------------------------------------
// Byte order
// ---------------------------------------------------------------------------

/// The bytes of `n`, most significant first.
pub open spec fn be_bytes(n: u16) -> Seq<u8> {
    seq![(n / 0x100) as u8, (n % 0x100) as u8]
}

/// The bytes of `n`, least significant first.
pub open spec fn le_bytes(n: u16) -> Seq<u8> {
    seq![(n % 0x100) as u8, (n / 0x100) as u8]
}

/// Reading the big-endian bytes of a number, most significant first, gives
/// the number back; so do the little-endian bytes read least significant
/// first.
pub proof fn law_byte_order(n: u16)
    ensures
        be_bytes(n)[0] as int * 0x100 + be_bytes(n)[1] as int == n,
        le_bytes(n)[1] as int * 0x100 + le_bytes(n)[0] as int == n,
{
}

/// The bytes of `n` in the machine's byte order.
///
/// Calls `u16::to_ne_bytes`; which of the two orders comes back depends on
/// the machine, so the contract states only that it is one of them.
#[verifier::external_body]
fn native_bytes(n: u16) -> (r: [u8; 2])
    ensures
        r@ == be_bytes(n) || r@ == le_bytes(n),
{
    n.to_ne_bytes()
}

/// The bytes of `n` in the machine's order and in network (big-endian)
/// order, as the serialisation demo prints them.
pub fn is_big_endian(num: u16) -> (r: ([u8; 2], [u8; 2]))
    ensures
        r.0@ == be_bytes(num) || r.0@ == le_bytes(num),
        r.1@ == be_bytes(num),
{
    let native = native_bytes(num);
    let big: [u8; 2] = [(num / 0x100) as u8, (num % 0x100) as u8];
    assert(big@ =~= be_bytes(num));
    (native, big)
}

} // verus!
