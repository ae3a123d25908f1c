use vstd::prelude::*;

use crate::session::{deliver_step, receive_step, replay_texts, tick_step, timed_out, SessionState};
use crate::wire::{decimal, envelope, json_quoted, Event, Frame};

verus! {

/// One thing that happens to a session.
pub ghost enum Step {
    /// A heartbeat tick at the given time.
    Tick(u64),
    /// An inbound frame received at the given time.
    Receive(Event, u64),
    /// A payload delivered from outside, given as its JSON text.
    Deliver(Seq<char>),
}

/// The next state and the frames sent for one step.
pub open spec fn step(s: SessionState, st: Step) -> (SessionState, Seq<Frame>) {
    match st {
        Step::Tick(now) => tick_step(s, now),
        Step::Receive(e, now) => receive_step(s, e, now),
        Step::Deliver(json) => (s, deliver_step(s, json)),
    }
}

/// The state after a sequence of steps, and all frames sent on the way.
pub open spec fn run(s: SessionState, steps: Seq<Step>) -> (SessionState, Seq<Frame>)
    decreases steps.len(),
{
    if steps.len() == 0 {
        (s, seq![])
    } else {
        let (s1, f1) = run(s, steps.drop_last());
        let (s2, f2) = step(s1, steps.last());
        (s2, f1 + f2)
    }
}

/// Whether a step is a liveness signal: an inbound probe or probe reply.
pub open spec fn is_signal(st: Step) -> bool {
    match st {
        Step::Receive(Event::Ping(_), _) => true,
        Step::Receive(Event::Pong(_), _) => true,
        _ => false,
    }
}

/// The latest time among `start` and the liveness signals in `steps`.
pub open spec fn last_signal(start: u64, steps: Seq<Step>) -> u64
    decreases steps.len(),
{
    if steps.len() == 0 {
        start
    } else {
        let prev = last_signal(start, steps.drop_last());
        match steps.last() {
            Step::Receive(Event::Ping(_), t) => if t > prev { t } else { prev },
            Step::Receive(Event::Pong(_), t) => if t > prev { t } else { prev },
            _ => prev,
        }
    }
}

/// Steps without a liveness signal leave the liveness clock alone.
proof fn lemma_quiet_run(s: SessionState, steps: Seq<Step>)
    requires
        forall|i: int| 0 <= i < steps.len() ==> !is_signal(#[trigger] steps[i]),
    ensures
        run(s, steps).0.last_alive == s.last_alive,
    decreases steps.len(),
{
    if steps.len() > 0 {
        let pre = steps.drop_last();
        assert forall|i: int| 0 <= i < pre.len() implies !is_signal(#[trigger] pre[i]) by {
            assert(pre[i] == steps[i]);
        }
        lemma_quiet_run(s, pre);
        assert(!is_signal(steps[steps.len() - 1]));
    }
}

/// A closed session stays closed and sends nothing, whatever happens to it.
pub proof fn lemma_closed_is_silent(s: SessionState, steps: Seq<Step>)
    requires
        !s.open,
    ensures
        run(s, steps) == (s, Seq::<Frame>::empty()),
    decreases steps.len(),
{
    if steps.len() > 0 {
        lemma_closed_is_silent(s, steps.drop_last());
        assert(Seq::<Frame>::empty() + Seq::<Frame>::empty() =~= Seq::<Frame>::empty());
    }
}

/// When no probe or probe reply arrives and a tick comes more than the
/// timeout after the last liveness signal, that tick leaves the session
/// closed, and from then on it sends nothing more, probes included.
pub proof fn lemma_silence_closes(s: SessionState, quiet: Seq<Step>, t: u64, later: Seq<Step>)
    requires
        forall|i: int| 0 <= i < quiet.len() ==> !is_signal(#[trigger] quiet[i]),
        timed_out(s.last_alive, t),
    ensures
        !run(s, quiet.push(Step::Tick(t))).0.open,
        run(run(s, quiet.push(Step::Tick(t))).0, later) == (
            run(s, quiet.push(Step::Tick(t))).0,
            Seq::<Frame>::empty(),
        ),
{
    lemma_quiet_run(s, quiet);
    let steps = quiet.push(Step::Tick(t));
    assert(steps.drop_last() =~= quiet);
    lemma_closed_is_silent(run(s, steps).0, later);
}

/// A probe or probe reply arriving at `now`, no earlier than the last one,
/// sets the liveness clock of an open session to `now`.
pub proof fn lemma_signal_resets_clock(s: SessionState, e: Event, now: u64)
    requires
        s.open,
        e is Ping || e is Pong,
        now >= s.last_alive,
    ensures
        receive_step(s, e, now).0 == (SessionState { last_alive: now, ..s }),
{
}

/// An open session stays open through any steps without a transport error,
/// as long as every tick comes within the timeout of the latest liveness
/// signal before it; its liveness clock is then that latest signal.
pub proof fn lemma_signals_keep_alive(s: SessionState, steps: Seq<Step>)
    requires
        s.open,
        forall|i: int| 0 <= i < steps.len() ==> !(#[trigger] steps[i] matches Step::Receive(Event::Error, _)),
        forall|i: int| 0 <= i < steps.len() && #[trigger] steps[i] is Tick
            ==> !timed_out(last_signal(s.last_alive, steps.take(i)), steps[i]->Tick_0),
    ensures
        run(s, steps).0.open,
        run(s, steps).0.last_alive == last_signal(s.last_alive, steps),
        run(s, steps).0.id == s.id,
    decreases steps.len(),
{
    if steps.len() > 0 {
        let n = steps.len() - 1;
        let pre = steps.drop_last();
        assert forall|i: int| 0 <= i < pre.len() implies !(#[trigger] pre[i] matches Step::Receive(Event::Error, _)) by {
            assert(pre[i] == steps[i]);
        }
        assert forall|i: int| 0 <= i < pre.len() && #[trigger] pre[i] is Tick
            implies !timed_out(last_signal(s.last_alive, pre.take(i)), pre[i]->Tick_0) by {
            assert(pre[i] == steps[i]);
            assert(pre.take(i) =~= steps.take(i));
        }
        lemma_signals_keep_alive(s, pre);
        assert(steps.take(n) =~= pre);
        assert(!(steps[n] matches Step::Receive(Event::Error, _)));
    }
}

/// An open session echoes a text or binary frame back exactly once and
/// unchanged, and stays as it was.
pub proof fn lemma_echo(s: SessionState, text: Seq<char>, bytes: Seq<u8>, now: u64)
    requires
        s.open,
    ensures
        receive_step(s, Event::Text(text), now) == (s, seq![Frame::Text(text)]),
        receive_step(s, Event::Binary(bytes), now) == (s, seq![Frame::Binary(bytes)]),
{
}

/// Delivering to an open session sends exactly one text frame, the payload's
/// envelope; delivering to a closed one sends nothing; neither changes it.
pub proof fn lemma_deliver_once(s: SessionState, json: Seq<char>)
    ensures
        s.open ==> run(s, seq![Step::Deliver(json)]) == (s, seq![Frame::Text(envelope(json))]),
        !s.open ==> run(s, seq![Step::Deliver(json)]) == (s, Seq::<Frame>::empty()),
{
    let steps = seq![Step::Deliver(json)];
    assert(steps.drop_last() =~= Seq::<Step>::empty());
    assert(steps.last() == Step::Deliver(json));
    assert(run(s, steps.drop_last()) == (s, Seq::<Frame>::empty()));
    assert(Seq::<Frame>::empty() + seq![Frame::Text(envelope(json))] =~= seq![Frame::Text(envelope(json))]);
    assert(Seq::<Frame>::empty() + Seq::<Frame>::empty() =~= Seq::<Frame>::empty());
}

/// The deliveries that replaying to a new session makes, in order.
pub open spec fn replay_steps(id: u32, cached: Option<Seq<char>>) -> Seq<Step> {
    replay_texts(id, cached).map_values(|json: Seq<char>| Step::Deliver(json))
}

/// Replaying to an open session sends its identifier first, exactly once,
/// then the cached state exactly once when there is one, and nothing else;
/// the session itself is left as it was.
pub proof fn lemma_replay_order(s: SessionState, cached: Option<Seq<char>>)
    requires
        s.open,
    ensures
        run(s, replay_steps(s.id, cached)).0 == s,
        cached is None ==> run(s, replay_steps(s.id, cached)).1
            == seq![Frame::Text(envelope(json_quoted(decimal(s.id as nat))))],
        cached is Some ==> run(s, replay_steps(s.id, cached)).1 == seq![
            Frame::Text(envelope(json_quoted(decimal(s.id as nat)))),
            Frame::Text(envelope(cached->0)),
        ],
{
    let steps = replay_steps(s.id, cached);
    let first = Frame::Text(envelope(json_quoted(decimal(s.id as nat))));
    assert(steps[0] == Step::Deliver(json_quoted(decimal(s.id as nat))));
    let one = steps.take(1);
    assert(one.drop_last() =~= Seq::<Step>::empty());
    assert(run(s, one.drop_last()) == (s, Seq::<Frame>::empty()));
    assert(run(s, one).1 =~= seq![first]);
    if cached is None {
        assert(steps =~= one);
    } else {
        assert(steps.drop_last() =~= one);
        assert(run(s, steps).1 =~= seq![first, Frame::Text(envelope(cached->0))]);
    }
}

} // verus!
