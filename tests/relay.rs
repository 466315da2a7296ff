use broadcast_relay::connection::TcpConnection;
use broadcast_relay::message::frame_message;
use broadcast_relay::reactor::{
    accept_step, dispatch, read_step, AcceptStatus, AcceptStep, Dispatch, ReadEnd, ReadStatus,
    Reactor, Readiness,
};
use broadcast_relay::registry::{ConnectionRegistry, SERVER};

fn conn(sock: u32, addr: &str) -> TcpConnection<u32> {
    TcpConnection::new(sock, addr.to_string())
}

fn sorted(mut v: Vec<usize>) -> Vec<usize> {
    v.sort();
    v
}

#[test]
fn connection_keeps_socket_and_address() {
    let c = conn(7, "10.0.0.1:4000");
    assert_eq!(c.sock, 7);
    assert_eq!(c.addr, "10.0.0.1:4000");
}

#[test]
fn error_or_hangup_wins_over_everything() {
    let err = Readiness { error: true, hup: false };
    let hup = Readiness { error: false, hup: true };
    let both = Readiness { error: true, hup: true };
    let none = Readiness { error: false, hup: false };
    assert!(dispatch(SERVER, err) == Dispatch::Disconnect);
    assert!(dispatch(3, hup) == Dispatch::Disconnect);
    assert!(dispatch(3, both) == Dispatch::Disconnect);
    assert!(dispatch(SERVER, none) == Dispatch::Accept);
    assert!(dispatch(3, none) == Dispatch::Read);
}

#[test]
fn registry_hands_out_increasing_ids_from_one() {
    let mut reg: ConnectionRegistry<u32> = ConnectionRegistry::new();
    assert_eq!(reg.len(), 0);
    assert_eq!(reg.register(10).ok(), Some(1));
    assert_eq!(reg.register(20).ok(), Some(2));
    assert_eq!(reg.register(30).ok(), Some(3));
    assert_eq!(reg.len(), 3);
    assert!(!reg.contains(SERVER));
    assert_eq!(reg.get(2), Some(&20));
}

#[test]
fn registry_remove_evicts_exactly_one() {
    let mut reg: ConnectionRegistry<u32> = ConnectionRegistry::new();
    for s in [10, 20, 30, 40] {
        assert!(reg.register(s).is_ok());
    }
    assert_eq!(reg.remove(2), Some(20));
    assert_eq!(reg.remove(2), None);
    assert_eq!(reg.len(), 3);
    assert_eq!(reg.get(1), Some(&10));
    assert_eq!(reg.get(3), Some(&30));
    assert_eq!(reg.get(4), Some(&40));
    assert_eq!(reg.remove(4), Some(40));
    assert_eq!(reg.get(3), Some(&30));
    assert_eq!(sorted(reg.ids_except(0)), vec![1, 3]);
}

#[test]
fn ids_are_not_reused_after_removal() {
    let mut reg: ConnectionRegistry<u32> = ConnectionRegistry::new();
    assert_eq!(reg.register(1).ok(), Some(1));
    assert_eq!(reg.register(2).ok(), Some(2));
    assert_eq!(reg.remove(2), Some(2));
    assert_eq!(reg.register(3).ok(), Some(3));
    assert_eq!(sorted(reg.ids_except(1)), vec![3]);
}

#[test]
fn ids_except_on_empty_registry() {
    let reg: ConnectionRegistry<u32> = ConnectionRegistry::new();
    assert!(reg.ids_except(1).is_empty());
}

#[test]
fn attributed_frame_prefixes_sender_address() {
    let p = frame_message("127.0.0.1:5000", b"hi", false);
    assert_eq!(p, Some(b"127.0.0.1:5000: hi".to_vec()));
}

#[test]
fn attributed_frame_keeps_multibyte_text() {
    let p = frame_message("a", "h\u{e9}".as_bytes(), false);
    assert_eq!(p, Some("a: h\u{e9}".as_bytes().to_vec()));
}

#[test]
fn attributed_frame_drops_bytes_that_are_not_text() {
    assert_eq!(frame_message("127.0.0.1:5000", &[0xff, 0x68], false), None);
    assert_eq!(frame_message("a", &[0xc3], false), None);
}

#[test]
fn anonymous_frame_is_verbatim_even_for_binary() {
    assert_eq!(frame_message("127.0.0.1:5000", b"hi", true), Some(b"hi".to_vec()));
    assert_eq!(frame_message("x", &[0xff, 0x00, 0xc3], true), Some(vec![0xff, 0x00, 0xc3]));
}

fn relay_with(anonymous: bool, addrs: &[&str]) -> (Reactor<u32>, Vec<usize>) {
    let mut r: Reactor<u32> = Reactor::new(anonymous);
    let mut ids = Vec::new();
    for (i, a) in addrs.iter().enumerate() {
        match r.accept(conn(i as u32, a)) {
            Ok(id) => ids.push(id),
            Err(_) => panic!("identifiers exhausted"),
        }
    }
    (r, ids)
}

#[test]
fn n_accepts_give_n_distinct_live_ids() {
    let addrs = ["a:1", "b:2", "c:3", "d:4", "e:5", "f:6", "g:7"];
    let (r, ids) = relay_with(false, &addrs);
    assert_eq!(r.len(), 7);
    let mut d = ids.clone();
    d.sort();
    d.dedup();
    assert_eq!(d.len(), 7);
    assert!(!ids.contains(&SERVER));
    for id in ids {
        assert!(r.connection(id).is_some());
    }
}

#[test]
fn message_reaches_each_other_client_once() {
    let (r, ids) = relay_with(false, &["10.0.0.1:1", "10.0.0.2:2", "10.0.0.3:3"]);
    let plan = r.on_read(ids[0], b"hello", ReadEnd::WouldBlock);
    assert!(!plan.close);
    assert!(!plan.malformed);
    let b = plan.broadcast.expect("a broadcast");
    assert_eq!(b.payload, b"10.0.0.1:1: hello".to_vec());
    assert_eq!(sorted(b.targets), vec![ids[1], ids[2]]);
}

#[test]
fn empty_drain_broadcasts_nothing() {
    let (r, ids) = relay_with(false, &["a:1", "b:2"]);
    let plan = r.on_read(ids[0], b"", ReadEnd::WouldBlock);
    assert!(plan.broadcast.is_none());
    assert!(!plan.close);
    assert!(!plan.malformed);
}

#[test]
fn orderly_shutdown_closes_the_sender() {
    let (r, ids) = relay_with(false, &["a:1", "b:2"]);
    let plan = r.on_read(ids[1], b"", ReadEnd::Closed);
    assert!(plan.broadcast.is_none());
    assert!(plan.close);
}

#[test]
fn last_words_are_relayed_before_closing() {
    let (r, ids) = relay_with(false, &["a:1", "b:2"]);
    let plan = r.on_read(ids[1], b"bye", ReadEnd::Failed);
    assert!(plan.close);
    let b = plan.broadcast.expect("a broadcast");
    assert_eq!(b.payload, b"b:2: bye".to_vec());
    assert_eq!(b.targets, vec![ids[0]]);
}

#[test]
fn malformed_message_is_dropped_and_sender_kept() {
    let (r, ids) = relay_with(false, &["a:1", "b:2"]);
    let plan = r.on_read(ids[0], &[0xff], ReadEnd::WouldBlock);
    assert!(plan.broadcast.is_none());
    assert!(plan.malformed);
    assert!(!plan.close);
}

#[test]
fn event_for_unknown_token_calls_for_nothing() {
    let (r, _) = relay_with(false, &["a:1"]);
    let plan = r.on_read(42, b"x", ReadEnd::Closed);
    assert!(plan.broadcast.is_none());
    assert!(!plan.close);
    assert!(!plan.malformed);
}

#[test]
fn lone_client_broadcasts_to_no_one() {
    let (r, ids) = relay_with(false, &["a:1"]);
    let b = r.on_read(ids[0], b"x", ReadEnd::WouldBlock).broadcast.expect("a broadcast");
    assert!(b.targets.is_empty());
}

#[test]
fn disconnect_removes_only_that_client() {
    let (mut r, ids) = relay_with(false, &["a:1", "b:2", "c:3"]);
    let gone = r.disconnect(ids[0]).expect("registered");
    assert_eq!(gone.addr, "a:1");
    assert_eq!(r.len(), 2);
    assert!(r.connection(ids[0]).is_none());
    assert!(r.disconnect(ids[0]).is_none());
    let b = r.on_read(ids[1], b"ping", ReadEnd::WouldBlock).broadcast.expect("a broadcast");
    assert_eq!(b.payload, b"b:2: ping".to_vec());
    assert_eq!(b.targets, vec![ids[2]]);
    let b = r.on_read(ids[2], b"pong", ReadEnd::WouldBlock).broadcast.expect("a broadcast");
    assert_eq!(b.targets, vec![ids[1]]);
}

#[test]
fn failed_write_peer_is_removed_and_others_kept() {
    let (mut r, ids) = relay_with(false, &["a:1", "b:2", "c:3"]);
    let b = r.on_read(ids[0], b"m", ReadEnd::WouldBlock).broadcast.expect("a broadcast");
    assert!(b.targets.contains(&ids[2]));
    // the write to the second client fails
    assert!(r.disconnect(ids[1]).is_some());
    assert_eq!(r.len(), 2);
    assert!(r.connection(ids[1]).is_none());
    assert_eq!(r.connection(ids[2]).map(|c| c.sock), Some(2));
}

#[test]
fn anonymous_mode_relays_exact_bytes() {
    let (r, ids) = relay_with(true, &["a:1", "b:2"]);
    let data = [0u8, 1, 2, 0xff, b'z'];
    let b = r.on_read(ids[0], &data, ReadEnd::WouldBlock).broadcast.expect("a broadcast");
    assert_eq!(b.payload, data.to_vec());
    assert_eq!(b.targets, vec![ids[1]]);
}

#[test]
fn three_clients_hi_then_bye() {
    let a = "127.0.0.1:40001";
    let (mut r, ids) = relay_with(false, &[a, "127.0.0.1:40002", "127.0.0.1:40003"]);
    let b = r.on_read(ids[0], b"hi", ReadEnd::WouldBlock).broadcast.expect("a broadcast");
    assert_eq!(b.payload, b"127.0.0.1:40001: hi".to_vec());
    assert_eq!(sorted(b.targets.clone()), vec![ids[1], ids[2]]);
    assert!(!b.targets.contains(&ids[0]));
    assert!(r.disconnect(ids[1]).is_some());
    let b = r.on_read(ids[0], b"bye", ReadEnd::WouldBlock).broadcast.expect("a broadcast");
    assert_eq!(b.payload, b"127.0.0.1:40001: bye".to_vec());
    assert_eq!(b.targets, vec![ids[2]]);
}

#[test]
fn drain_stops_only_at_an_end() {
    assert_eq!(read_step(ReadStatus::Data), None);
    assert_eq!(read_step(ReadStatus::Interrupted), None);
    assert_eq!(read_step(ReadStatus::Eof), Some(ReadEnd::Closed));
    assert_eq!(read_step(ReadStatus::WouldBlock), Some(ReadEnd::WouldBlock));
    assert_eq!(read_step(ReadStatus::Error), Some(ReadEnd::Failed));
}

#[test]
fn accepting_continues_until_would_block() {
    assert!(accept_step(AcceptStatus::Accepted) == AcceptStep::Register);
    assert!(accept_step(AcceptStatus::Interrupted) == AcceptStep::Retry);
    assert!(accept_step(AcceptStatus::WouldBlock) == AcceptStep::Stop);
    assert!(accept_step(AcceptStatus::Error) == AcceptStep::ReportAndStop);
}
