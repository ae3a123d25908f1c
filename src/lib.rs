//! A verified per-connection WebSocket session: heartbeat, frame dispatch,
//! state replay on connect and out-of-band payload delivery.
//!
//! The session decides; whoever runs it performs. Each method takes the time
//! in milliseconds on a monotonic clock and returns the frame to send, if any.

mod laws;
mod session;
mod wire;

pub use laws::{
    is_signal, last_signal, lemma_closed_is_silent, lemma_deliver_once, lemma_echo,
    lemma_replay_order, lemma_signal_resets_clock, lemma_signals_keep_alive,
    lemma_silence_closes, replay_steps, run, step, Step,
};
pub use session::{
    alive_at, deliver_step, receive_step, replay_texts, text_of, tick_step, timed_out,
    SessionState, Websocket, CLIENT_TIMEOUT_MS, HEARTBEAT_INTERVAL_MS,
};
pub use wire::{
    decimal, digit, envelope, envelope_text, frames_of, json_plain, json_plain_char,
    json_quoted, lemma_decimal_plain, Event, Frame, Inbound, Outbound, Payload,
};
