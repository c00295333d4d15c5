use flate2::write::DeflateEncoder;
use flate2::Compression;
use gorillas::game::{Event, GameConfig};
use gorillas::game_net::{from_delta, GameNet, NetState};
use gorillas::geom::Vector;
use gorillas::ws::{GameEvents, SocketError, WireClientEvent, WireState, WireStatePacket};
use std::io::Write;

fn deflate(bytes: &[u8]) -> Vec<u8> {
    let mut e = DeflateEncoder::new(Vec::new(), Compression::default());
    e.write_all(bytes).unwrap();
    e.finish().unwrap()
}

fn packet(acked: Option<u32>, seq: u32, bytes: &[u8]) -> WireStatePacket {
    WireStatePacket { seq: (acked, seq), data: deflate(bytes) }
}

#[test]
fn from_delta_adds_bytes_modulo_256() {
    assert_eq!(from_delta(&[1, 2, 3], &[10, 20, 30]), vec![11, 22, 33]);
    assert_eq!(from_delta(&[10, 255], &[250, 1]), vec![4, 0]);
}

#[test]
fn from_delta_pads_the_shorter_with_zeros() {
    assert_eq!(from_delta(&[1, 2, 3], &[250, 10]), vec![251, 12, 3]);
    assert_eq!(from_delta(&[1], &[5, 6, 7]), vec![6, 6, 7]);
    assert_eq!(from_delta(&[], &[5, 6]), vec![5, 6]);
    assert_eq!(from_delta(&[5, 6], &[]), vec![5, 6]);
    assert_eq!(from_delta(&[], &[]), Vec::<u8>::new());
}

#[test]
fn decode_inflates_the_packet() {
    let mut net = NetState::new();
    let text = b"round 1: left 0 right 0, wind (0.3, 0.1)".to_vec();
    let p = packet(None, 7, &text);
    assert_ne!(p.data, text);
    let (state, ack) = net.decode(&p).expect("a deflate stream");
    assert_eq!(state, text);
    assert_eq!(ack, Some(7));
    assert_eq!(net.delta_last, Some((7, Some(text))));
    assert_eq!(net.delta_base, None);
}

#[test]
fn decode_rejects_what_is_no_deflate_stream() {
    let mut net = NetState::new();
    let p = WireStatePacket { seq: (None, 1), data: vec![0xff, 0xff, 0xff, 0xff] };
    assert!(net.decode(&p).is_none());
    assert_eq!(net.delta_last, None);
    assert_eq!(net.delta_base, None);
}

#[test]
fn first_snapshot_becomes_the_base_once_acknowledged() {
    let mut net = NetState::new();
    net.decode(&packet(None, 1, &[10, 20, 30])).unwrap();
    // A second packet while the first is under way is decoded but not acknowledged.
    let (state, ack) = net.decode(&packet(None, 2, &[11, 21, 31])).unwrap();
    assert_eq!(state, vec![11, 21, 31]);
    assert_eq!(ack, None);
    assert_eq!(net.delta_last, Some((1, Some(vec![10, 20, 30]))));
    // Acknowledgement of another number changes nothing.
    assert!(!net.on_ack(Some(2)));
    assert!(!net.on_ack(None));
    assert_eq!(net.delta_base, None);
    assert!(net.on_ack(Some(1)));
    assert_eq!(net.delta_base, Some((1, vec![10, 20, 30])));
    assert_eq!(net.delta_last, None);
    assert!(!net.on_ack(Some(1)));
}

#[test]
fn later_packets_are_deltas_against_the_base() {
    let mut net = NetState::new();
    net.decode(&packet(None, 1, &[10, 20, 30])).unwrap();
    assert!(net.on_ack(Some(1)));
    let (state, ack) = net.decode(&packet(Some(1), 5, &[1, 0, 255, 9])).unwrap();
    assert_eq!(state, vec![11, 20, 29, 9]);
    assert_eq!(ack, Some(5));
    assert_eq!(net.delta_last, Some((5, Some(vec![1, 0, 255, 9]))));
    // Once acknowledged, the delta is folded into the base.
    assert!(net.on_ack(Some(5)));
    assert_eq!(net.delta_base, Some((5, vec![11, 20, 29, 9])));
    assert_eq!(net.delta_last, None);
    let (state, _) = net.decode(&packet(Some(5), 6, &[0, 0, 1])).unwrap();
    assert_eq!(state, vec![11, 20, 30, 9]);
}

#[test]
fn acknowledged_snapshot_without_data_clears_the_wait() {
    let mut net = NetState { delta_base: None, delta_last: Some((3, None)) };
    assert!(net.on_ack(Some(3)));
    assert_eq!(net.delta_base, None);
    assert_eq!(net.delta_last, None);
    let mut held = NetState { delta_base: Some((1, vec![1])), delta_last: Some((3, None)) };
    assert!(!held.on_ack(Some(3)));
    assert_eq!(held.delta_last, Some((3, None)));
}

#[test]
fn accept_takes_bytes_already_inflated() {
    let mut net = NetState { delta_base: Some((1, vec![1, 1])), delta_last: None };
    let (state, ack) = net.accept(vec![2, 3, 4], 9);
    assert_eq!(state, vec![3, 4, 4]);
    assert_eq!(ack, Some(9));
    assert_eq!(net.delta_last, Some((9, Some(vec![2, 3, 4]))));
}

#[test]
fn net_game_redraws_the_score_after_a_new_round() {
    let mut g = GameNet::new(GameConfig { bot_left: false, bot_right: true });
    assert!(g.render_score && !g.pending);
    assert_eq!(g.config, GameConfig { bot_left: false, bot_right: true });
    g.render_score = false;
    g.update(false);
    assert!(!g.render_score && !g.pending);
    g.update(true);
    assert!(!g.render_score && g.pending);
    g.update(true);
    assert!(!g.render_score && g.pending);
    g.update(false);
    assert!(g.render_score && !g.pending);
}

#[test]
fn net_game_sends_input_on() {
    let at = Vector::new(3, 4);
    assert_eq!(GameNet::event(&Event::MouseMoved(at), false, false), None);
    assert_eq!(GameNet::event(&Event::MouseMoved(at), true, true), Some(GameEvents::MousePos(at)));
    assert_eq!(GameNet::event(&Event::LeftPressed, true, false), Some(GameEvents::MousePressed));
    assert_eq!(GameNet::event(&Event::LeftPressed, true, true), None);
    assert_eq!(GameNet::event(&Event::LeftReleased, true, false), Some(GameEvents::MouseReleased));
    assert_eq!(GameNet::event(&Event::LeftReleased, true, true), None);
    assert_eq!(GameNet::event(&Event::SpacePressed, true, false), None);
}

#[test]
fn wire_types_hold_their_fields() {
    assert_eq!(WireClientEvent::Ack(5), WireClientEvent::Ack(5));
    assert_ne!(WireClientEvent::Ack(5), WireClientEvent::Ack(6));
    assert_eq!(SocketError::Create, SocketError::Create);
    let w = WireState { s: String::from("state") };
    assert_eq!(w.s, "state");
}
