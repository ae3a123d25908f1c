use casta::{envelope_text, Inbound, Outbound, Payload, Websocket, CLIENT_TIMEOUT_MS, HEARTBEAT_INTERVAL_MS};

fn text(s: &str) -> Outbound {
    Outbound::Text(s.to_string())
}

fn payload(s: &str) -> Payload<String> {
    Payload { payload: s.to_string() }
}

#[test]
fn constants_keep_two_ticks_per_timeout() {
    assert_eq!(HEARTBEAT_INTERVAL_MS, 5000);
    assert_eq!(CLIENT_TIMEOUT_MS, 10000);
}

#[test]
fn connect_without_cache_sends_identifier_only() {
    let ws = Websocket::new(42, 0);
    let replayed = ws.replay(None);
    assert_eq!(replayed.len(), 1);
    assert_eq!(replayed[0].payload, "\"42\"");
    let frames: Vec<Option<Outbound>> = replayed.iter().map(|p| ws.deliver(p)).collect();
    assert_eq!(frames, vec![Some(text("{\"payload\":\"42\"}"))]);
}

#[test]
fn connect_with_cache_then_delivery_keeps_order() {
    let ws = Websocket::new(7, 0);
    let replayed = ws.replay(Some("{\"site\":\"V\"}".to_string()));
    let mut seen: Vec<Outbound> = Vec::new();
    for p in replayed.iter() {
        seen.push(ws.deliver(p).unwrap());
    }
    seen.push(ws.deliver(&payload("[1,2]")).unwrap());
    assert_eq!(
        seen,
        vec![
            text("{\"payload\":\"7\"}"),
            text("{\"payload\":{\"site\":\"V\"}}"),
            text("{\"payload\":[1,2]}"),
        ]
    );
}

#[test]
fn identifier_is_decimal_json_string() {
    assert_eq!(Websocket::new(0, 0).replay(None)[0].payload, "\"0\"");
    assert_eq!(Websocket::new(u32::MAX, 0).replay(None)[0].payload, "\"4294967295\"");
}

#[test]
fn silent_client_closes_after_second_tick() {
    let mut ws = Websocket::new(1, 0);
    assert_eq!(ws.heart_beat(5_001), Some(Outbound::Ping(Vec::new())));
    assert!(ws.is_open());
    assert_eq!(ws.heart_beat(10_001), Some(Outbound::Close));
    assert!(!ws.is_open());
    assert_eq!(ws.heart_beat(15_001), None);
    assert_eq!(ws.heart_beat(20_001), None);
}

#[test]
fn silence_of_exactly_the_timeout_is_tolerated() {
    let mut ws = Websocket::new(1, 1000);
    assert_eq!(ws.heart_beat(11_000), Some(Outbound::Ping(Vec::new())));
    assert!(ws.is_open());
}

#[test]
fn probe_replies_keep_session_alive() {
    let mut ws = Websocket::new(1, 0);
    let mut now: u64 = 0;
    for _ in 0..100 {
        now += HEARTBEAT_INTERVAL_MS;
        assert_eq!(ws.heart_beat(now), Some(Outbound::Ping(Vec::new())));
        assert_eq!(ws.handle(Inbound::Pong(Vec::new()), now + 10), None);
    }
    assert!(ws.is_open());
    assert_eq!(ws.heart_beat(now + 10 + CLIENT_TIMEOUT_MS + 1), Some(Outbound::Close));
}

#[test]
fn client_ping_is_answered_and_counts_as_alive() {
    let mut ws = Websocket::new(1, 0);
    assert_eq!(ws.handle(Inbound::Ping(vec![1, 2]), 9_000), Some(Outbound::Pong(vec![1, 2])));
    assert_eq!(ws.heart_beat(15_000), Some(Outbound::Ping(Vec::new())));
    assert_eq!(ws.heart_beat(19_001), Some(Outbound::Close));
}

#[test]
fn data_frames_do_not_count_as_alive() {
    let mut ws = Websocket::new(1, 0);
    assert_eq!(ws.handle(Inbound::Text("hi".to_string()), 9_000), Some(text("hi")));
    assert_eq!(ws.heart_beat(10_001), Some(Outbound::Close));
}

#[test]
fn text_and_binary_are_echoed() {
    let mut ws = Websocket::new(1, 0);
    assert_eq!(ws.handle(Inbound::Text("héllo \"x\"".to_string()), 1), Some(text("héllo \"x\"")));
    assert_eq!(ws.handle(Inbound::Binary(vec![0, 255, 7]), 2), Some(Outbound::Binary(vec![0, 255, 7])));
    assert_eq!(ws.handle(Inbound::Text(String::new()), 3), Some(text("")));
    assert!(ws.is_open());
}

#[test]
fn close_and_other_frames_do_nothing() {
    let mut ws = Websocket::new(1, 0);
    assert_eq!(ws.handle(Inbound::Close, 1), None);
    assert_eq!(ws.handle(Inbound::Other, 2), None);
    assert!(ws.is_open());
}

#[test]
fn transport_error_closes_session() {
    let mut ws = Websocket::new(1, 0);
    assert_eq!(ws.handle(Inbound::Error, 1), Some(Outbound::Close));
    assert!(!ws.is_open());
    assert_eq!(ws.handle(Inbound::Text("late".to_string()), 2), None);
    assert_eq!(ws.handle(Inbound::Ping(Vec::new()), 3), None);
    assert_eq!(ws.heart_beat(4), None);
}

#[test]
fn delivery_to_closed_session_is_swallowed() {
    let mut ws = Websocket::new(3, 0);
    assert_eq!(ws.deliver(&payload("true")), Some(text("{\"payload\":true}")));
    ws.handle(Inbound::Error, 1);
    assert_eq!(ws.deliver(&payload("true")), None);
    let replayed = ws.replay(Some("1".to_string()));
    assert!(replayed.iter().all(|p| ws.deliver(p).is_none()));
}

#[test]
fn identifier_is_kept() {
    let ws = Websocket::new(99, 0);
    assert_eq!(ws.id(), 99);
}

#[test]
fn envelope_wraps_json_text_verbatim() {
    assert_eq!(envelope_text("\"a\\\"b\""), "{\"payload\":\"a\\\"b\"}");
    assert_eq!(envelope_text("null"), "{\"payload\":null}");
    assert_eq!(envelope_text(""), "{\"payload\":}");
}
