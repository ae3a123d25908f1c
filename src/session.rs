use vstd::prelude::*;

use crate::wire::{
    decimal, decimal_text, envelope, envelope_text, frames_of, json_quoted, json_string,
    lemma_decimal_plain, Event, Frame, Inbound, Outbound, Payload,
};

verus! {

/// Time between two heartbeat ticks, in milliseconds.
pub const HEARTBEAT_INTERVAL_MS: u64 = 5000;

/// Silence tolerated before a client counts as gone, in milliseconds.
pub const CLIENT_TIMEOUT_MS: u64 = 10000;

/// What a session is, mathematically.
pub ghost struct SessionState {
    /// When a liveness signal was last seen, in milliseconds.
    pub last_alive: u64,
    /// The identifier sent to the client at connect time.
    pub id: u32,
    /// Whether the connection is still open; closing is final.
    pub open: bool,
}

/// Whether a tick at `now` finds the client silent for longer than the timeout.
pub open spec fn timed_out(last_alive: u64, now: u64) -> bool {
    now > last_alive && now - last_alive > CLIENT_TIMEOUT_MS
}

/// A heartbeat tick at `now`: the next state and the frames sent.
pub open spec fn tick_step(s: SessionState, now: u64) -> (SessionState, Seq<Frame>) {
    if !s.open {
        (s, seq![])
    } else if timed_out(s.last_alive, now) {
        (SessionState { open: false, ..s }, seq![Frame::Close])
    } else {
        (s, seq![Frame::Ping(seq![])])
    }
}

/// The state after a liveness signal observed at `now`.
pub open spec fn alive_at(s: SessionState, now: u64) -> SessionState {
    SessionState { last_alive: if now > s.last_alive { now } else { s.last_alive }, ..s }
}

/// An inbound frame received at `now`: the next state and the frames sent.
pub open spec fn receive_step(s: SessionState, e: Event, now: u64) -> (SessionState, Seq<Frame>) {
    if !s.open {
        (s, seq![])
    } else {
        match e {
            Event::Error => (SessionState { open: false, ..s }, seq![Frame::Close]),
            Event::Ping(b) => (alive_at(s, now), seq![Frame::Pong(b)]),
            Event::Pong(_) => (alive_at(s, now), seq![]),
            Event::Text(t) => (s, seq![Frame::Text(t)]),
            Event::Binary(b) => (s, seq![Frame::Binary(b)]),
            Event::Close => (s, seq![]),
            Event::Other => (s, seq![]),
        }
    }
}

/// The frames that delivering a payload with JSON text `json` sends.
pub open spec fn deliver_step(s: SessionState, json: Seq<char>) -> Seq<Frame> {
    if s.open {
        seq![Frame::Text(envelope(json))]
    } else {
        seq![]
    }
}

/// The JSON texts that a new session sends, in order: its identifier as a
/// decimal string, then the cached state when there is one.
pub open spec fn replay_texts(id: u32, cached: Option<Seq<char>>) -> Seq<Seq<char>> {
    match cached {
        Some(c) => seq![json_quoted(decimal(id as nat)), c],
        None => seq![json_quoted(decimal(id as nat))],
    }
}

/// The text of an optional string.
pub open spec fn text_of(o: Option<String>) -> Option<Seq<char>> {
    match o {
        Some(c) => Some(c@),
        None => None,
    }
}

/// One connected client.
pub struct Websocket {
    heart_beat: u64,
    hash: u32,
    open: bool,
}

impl View for Websocket {
    type V = SessionState;

    closed spec fn view(&self) -> SessionState {
        SessionState { last_alive: self.heart_beat, id: self.hash, open: self.open }
    }
}

impl Websocket {
    /// An open session with identifier `hash`, alive as of `now`.
    pub fn new(hash: u32, now: u64) -> (r: Websocket)
        ensures
            r@ == (SessionState { last_alive: now, id: hash, open: true }),
    {
        Websocket { heart_beat: now, hash, open: true }
    }

    /// The session's identifier.
    pub fn id(&self) -> (r: u32)
        ensures
            r == self@.id,
    {
        self.hash
    }

    /// Whether the session is still open.
    pub fn is_open(&self) -> (r: bool)
        ensures
            r == self@.open,
    {
        self.open
    }

    /// A heartbeat tick at `now`: closes a silent session, else probes it.
    pub fn heart_beat(&mut self, now: u64) -> (r: Option<Outbound>)
        ensures
            (final(self)@, frames_of(r)) == tick_step(old(self)@, now),
    {
        if !self.open {
            return None;
        }
        if now > self.heart_beat && now - self.heart_beat > CLIENT_TIMEOUT_MS {
            self.open = false;
            return Some(Outbound::Close);
        }
        Some(Outbound::Ping(Vec::new()))
    }

    /// Handles one inbound frame received at `now`.
    pub fn handle(&mut self, msg: Inbound, now: u64) -> (r: Option<Outbound>)
        ensures
            (final(self)@, frames_of(r)) == receive_step(old(self)@, msg@, now),
    {
        if !self.open {
            return None;
        }
        match msg {
            Inbound::Error => {
                self.open = false;
                Some(Outbound::Close)
            },
            Inbound::Ping(b) => {
                self.mark_alive(now);
                Some(Outbound::Pong(b))
            },
            Inbound::Pong(_) => {
                self.mark_alive(now);
                None
            },
            Inbound::Text(t) => Some(Outbound::Text(t)),
            Inbound::Binary(b) => Some(Outbound::Binary(b)),
            Inbound::Close => None,
            Inbound::Other => None,
        }
    }

    fn mark_alive(&mut self, now: u64)
        ensures
            final(self)@ == alive_at(old(self)@, now),
    {
        if now > self.heart_beat {
            self.heart_beat = now;
        }
    }

    /// Sends a payload, given as its JSON text, to the client.
    pub fn deliver(&self, msg: &Payload<String>) -> (r: Option<Outbound>)
        ensures
            frames_of(r) == deliver_step(self@, msg.payload@),
    {
        if self.open {
            Some(Outbound::Text(envelope_text(msg.payload.as_str())))
        } else {
            None
        }
    }

    /// The payloads that bring a new client up to date, in order: the
    /// session's identifier, then the snapshot `cached` of the shared state,
    /// given as its JSON text, when there is one.
    pub fn replay(&self, cached: Option<String>) -> (r: Vec<Payload<String>>)
        ensures
            r.len() == replay_texts(self@.id, text_of(cached)).len(),
            forall|i: int| 0 <= i < r.len() ==>
                #[trigger] r[i].payload@ == replay_texts(self@.id, text_of(cached))[i],
    {
        let mut r: Vec<Payload<String>> = Vec::new();
        let id_text = decimal_text(self.hash);
        proof {
            lemma_decimal_plain(self.hash as nat);
        }
        match json_string(id_text.as_str()) {
            Some(t) => r.push(Payload { payload: t }),
            None => {},
        }
        match cached {
            Some(c) => r.push(Payload { payload: c }),
            None => {},
        }
        r
    }
}

} // verus!
