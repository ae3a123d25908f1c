use vstd::prelude::*;

verus! {

/// A frame as the transport hands it to a session.
#[derive(Debug, Clone, PartialEq, Eq)]
pub enum Inbound {
    Error,
    Ping(Vec<u8>),
    Pong(Vec<u8>),
    Text(String),
    Binary(Vec<u8>),
    Close,
    Other,
}

/// A frame or action that a session asks the transport to send or perform.
#[derive(Debug, Clone, PartialEq, Eq)]
pub enum Outbound {
    Ping(Vec<u8>),
    Pong(Vec<u8>),
    Text(String),
    Binary(Vec<u8>),
    Close,
}

/// The mathematical content of an inbound frame.
pub ghost enum Event {
    Error,
    Ping(Seq<u8>),
    Pong(Seq<u8>),
    Text(Seq<char>),
    Binary(Seq<u8>),
    Close,
    Other,
}

/// The mathematical content of an outbound frame.
pub ghost enum Frame {
    Ping(Seq<u8>),
    Pong(Seq<u8>),
    Text(Seq<char>),
    Binary(Seq<u8>),
    Close,
}

impl View for Inbound {
    type V = Event;

    open spec fn view(&self) -> Event {
        match self {
            Inbound::Error => Event::Error,
            Inbound::Ping(b) => Event::Ping(b@),
            Inbound::Pong(b) => Event::Pong(b@),
            Inbound::Text(t) => Event::Text(t@),
            Inbound::Binary(b) => Event::Binary(b@),
            Inbound::Close => Event::Close,
            Inbound::Other => Event::Other,
        }
    }
}

impl View for Outbound {
    type V = Frame;

    open spec fn view(&self) -> Frame {
        match self {
            Outbound::Ping(b) => Frame::Ping(b@),
            Outbound::Pong(b) => Frame::Pong(b@),
            Outbound::Text(t) => Frame::Text(t@),
            Outbound::Binary(b) => Frame::Binary(b@),
            Outbound::Close => Frame::Close,
        }
    }
}

/// The frames that an optional outbound frame stands for: none or one.
pub open spec fn frames_of(o: Option<Outbound>) -> Seq<Frame> {
    match o {
        Some(f) => seq![f@],
        None => seq![],
    }
}

/// The envelope in which every payload reaches the client.
#[derive(Debug, Clone, PartialEq, Eq)]
pub struct Payload<T> {
    pub payload: T,
}

/// `{"payload":` followed by the payload's JSON text and `}`.
pub open spec fn envelope(json: Seq<char>) -> Seq<char> {
    seq!['{', '"', 'p', 'a', 'y', 'l', 'o', 'a', 'd', '"', ':'] + json + seq!['}']
}

/// Builds the wire text of an envelope around a payload's JSON text.
pub fn envelope_text(json: &str) -> (r: String)
    ensures
        r@ == envelope(json@),
{
    let mut r = String::from_str("{\"payload\":");
    r.append(json);
    r.append("}");
    proof {
        reveal_strlit("{\"payload\":");
        reveal_strlit("}");
    }
    assert(r@ =~= envelope(json@));
    r
}

/// A character that JSON writes as itself inside a string: no quote, no
/// backslash, no control character.
pub open spec fn json_plain_char(c: char) -> bool {
    c != '"' && c != '\\' && (c as u32) >= 0x20
}

/// A string that JSON quotes without escaping anything.
pub open spec fn json_plain(s: Seq<char>) -> bool {
    forall|i: int| 0 <= i < s.len() ==> json_plain_char(#[trigger] s[i])
}

/// The JSON text of a plain string: the string between two double quotes.
pub open spec fn json_quoted(s: Seq<char>) -> Seq<char> {
    seq!['"'] + s + seq!['"']
}

/// Relies on serde_json::to_string on a `str`: it writes a double quote, the
/// characters, escaping only quotes, backslashes and control characters, and
/// a closing double quote; its only error comes from the writer, which for
/// the `Vec` it writes into never fails.
#[verifier::external_body]
pub(crate) fn json_string(s: &str) -> (r: Option<String>)
    ensures
        json_plain(s@) ==> r is Some && r->0@ == json_quoted(s@),
{
    serde_json::to_string(s).ok()
}

/// The decimal digit for `d < 10`.
pub open spec fn digit(d: nat) -> char {
    if d == 0 { '0' } else if d == 1 { '1' } else if d == 2 { '2' } else if d == 3 { '3' }
    else if d == 4 { '4' } else if d == 5 { '5' } else if d == 6 { '6' } else if d == 7 { '7' }
    else if d == 8 { '8' } else { '9' }
}

/// The decimal notation of `n`, without leading zeros.
pub open spec fn decimal(n: nat) -> Seq<char>
    decreases n,
{
    if n < 10 {
        seq![digit(n)]
    } else {
        decimal(n / 10).push(digit(n % 10))
    }
}

/// Decimal notation needs no escaping in a JSON string.
pub proof fn lemma_decimal_plain(n: nat)
    ensures
        json_plain(decimal(n)),
    decreases n,
{
    if n >= 10 {
        lemma_decimal_plain(n / 10);
    }
}

/// Relies on `u32`'s `Display` (through `ToString`): the decimal notation.
#[verifier::external_body]
pub(crate) fn decimal_text(n: u32) -> (r: String)
    ensures
        r@ == decimal(n as nat),
{
    n.to_string()
}

} // verus!
