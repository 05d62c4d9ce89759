use canvadot::canvas::{blank_cells, get_canvas_spec};
use canvadot::handler::{Phase, SessionAction, SessionEvent, SessionHandler};
use canvadot::session::{CanvaDotSession, SessionRegistry, WsSession};
use canvadot::user::User;

const HOUR: i128 = 3_600_000_000_000;
const NOW: i128 = 1_000 * HOUR;

fn account(id: i32, name: &str, credits: i32, next_free_credit: i128) -> User {
    User::new(id, String::new(), String::from(name), String::new(), credits, next_free_credit, true)
}

/// Connects a handler, registering it under the inbox index `inbox`.
fn connect(reg: &mut SessionRegistry<usize>, user: User, inbox: usize) -> (SessionHandler, u128) {
    let mut h = SessionHandler::new(user.clone());
    match h.step(SessionEvent::Snapshot(Ok(get_canvas_spec(vec![1, 2]))), NOW) {
        SessionAction::Init(text) => {
            assert!(text.ends_with(",1920,1080,1 2"));
        }
        _ => panic!("expected a greeting"),
    }
    let s = CanvaDotSession::new(inbox, user);
    let id = s.id_number();
    assert!(reg.add(s));
    (h, id)
}

fn deliver(reg: &SessionRegistry<usize>, inboxes: &mut Vec<Vec<String>>, text: &str) {
    for i in 0..reg.len() {
        inboxes[*reg.get(i).session()].push(String::from(text));
    }
}

#[test]
fn paint_reaches_other_session_and_store() {
    let mut reg: SessionRegistry<usize> = SessionRegistry::new();
    let mut inboxes: Vec<Vec<String>> = vec![Vec::new(), Vec::new()];
    let mut store = get_canvas_spec(blank_cells());
    let (mut a, _) = connect(&mut reg, account(42, "alice", 0, 0), 0);
    let (_b, _) = connect(&mut reg, account(43, "bob", 0, 0), 1);

    let save = a.step(SessionEvent::Text(String::from("1;5,10,v,1,2,3")), NOW);
    let update = match save {
        SessionAction::SaveCredit(u) => u,
        _ => panic!("expected a credit to record"),
    };
    assert!(matches!(a.phase(), Phase::AwaitingCredit(_, _, u) if u == update));
    let write = match a.step(SessionEvent::CreditSaved(true), NOW) {
        SessionAction::Write(w) => w,
        _ => panic!("expected a cell write"),
    };
    store.apply(&write).unwrap();
    match a.step(SessionEvent::CellWritten(Ok(())), NOW) {
        SessionAction::Broadcast(text) => deliver(&reg, &mut inboxes, &text),
        _ => panic!("expected a broadcast"),
    }
    assert_eq!(inboxes[1], vec![String::from("3;alice,5,10,v,1,2,3")]);
    let offset = (10 * 1920 + 5) * 7;
    assert_eq!(&store.cells[offset..offset + 7], &[1, 2, 3, 42, 0, 0, 0]);
    assert!(matches!(a.phase(), Phase::Active));
    assert_eq!(a.user().next_free_credit(), NOW + 12 * HOUR);
}

#[test]
fn refused_paint_replies_to_sender_only() {
    let mut h = SessionHandler::new(account(1, "carol", 0, NOW + HOUR));
    h.step(SessionEvent::Snapshot(Ok(get_canvas_spec(vec![]))), NOW);
    match h.step(SessionEvent::Text(String::from("1;5,10,v,1,2,3")), NOW) {
        SessionAction::Reply(t) => assert_eq!(t, "5;Cannot consume a token at this moment."),
        _ => panic!("expected a reply"),
    }
    assert!(matches!(h.phase(), Phase::Active));
    assert_eq!(h.user().credits(), 0);
}

#[test]
fn malformed_frame_and_cursor() {
    let mut h = SessionHandler::new(account(1, "dave", 0, 0));
    h.step(SessionEvent::Snapshot(Ok(get_canvas_spec(vec![]))), NOW);
    match h.step(SessionEvent::Text(String::from("1;5,10")), NOW) {
        SessionAction::Reply(t) => assert_eq!(t, "5;Invalid parameter length"),
        _ => panic!("expected a reply"),
    }
    match h.step(SessionEvent::Text(String::from("2;3,4")), NOW) {
        SessionAction::Broadcast(t) => assert_eq!(t, "4;dave,3,4"),
        _ => panic!("expected a broadcast"),
    }
    assert!(matches!(h.step(SessionEvent::Ping, NOW), SessionAction::Pong));
}

#[test]
fn failures_along_a_paint() {
    let mut h = SessionHandler::new(account(1, "erin", 1, NOW + HOUR));
    h.step(SessionEvent::Snapshot(Ok(get_canvas_spec(vec![]))), NOW);
    assert!(matches!(
        h.step(SessionEvent::Text(String::from("1;5,10,v,1,2,3")), NOW),
        SessionAction::SaveCredit(_)
    ));
    match h.step(SessionEvent::CreditSaved(false), NOW) {
        SessionAction::Reply(t) => assert_eq!(t, "5;Cannot consume a token at this moment."),
        _ => panic!("expected a reply"),
    }
    assert_eq!(h.user().credits(), 1);
    h.step(SessionEvent::Text(String::from("1;5000,10,v,1,2,3")), NOW);
    match h.step(SessionEvent::CreditSaved(true), NOW) {
        SessionAction::Reply(t) => assert_eq!(t, "5;Coordinates out of bounds."),
        _ => panic!("expected a reply"),
    }
    assert_eq!(h.user().credits(), 0);
    let mut g = SessionHandler::new(account(2, "fay", 0, 0));
    g.step(SessionEvent::Snapshot(Ok(get_canvas_spec(vec![]))), NOW);
    g.step(SessionEvent::Text(String::from("1;1,1,v,1,2,3")), NOW);
    g.step(SessionEvent::CreditSaved(true), NOW);
    match g.step(SessionEvent::CellWritten(Err(String::from("disk full"))), NOW) {
        SessionAction::Reply(t) => assert_eq!(t, "5;disk full"),
        _ => panic!("expected a reply"),
    }
}

#[test]
fn handshake_failure_and_close() {
    let mut h = SessionHandler::new(account(1, "gil", 0, 0));
    match h.step(SessionEvent::Snapshot(Err(String::from("no canvas"))), NOW) {
        SessionAction::Abort(t) => assert_eq!(t, "no canvas"),
        _ => panic!("expected an abort"),
    }
    assert!(matches!(h.phase(), Phase::Closed));
    assert!(matches!(h.step(SessionEvent::Ping, NOW), SessionAction::Ignore));
    let mut k = SessionHandler::new(account(1, "hal", 0, 0));
    k.step(SessionEvent::Snapshot(Ok(get_canvas_spec(vec![]))), NOW);
    assert!(matches!(k.step(SessionEvent::SendFailed, NOW), SessionAction::Deregister));
    assert!(matches!(k.step(SessionEvent::Closed, NOW), SessionAction::Ignore));
}

#[test]
fn registry_add_remove() {
    let mut reg: SessionRegistry<usize> = SessionRegistry::new();
    let a = CanvaDotSession::new(0usize, account(1, "a", 0, 0));
    let b = CanvaDotSession::new(1usize, account(2, "b", 0, 0));
    let ida = a.id_number();
    let idb = b.id_number();
    assert!(a != b);
    let text = a.id();
    assert_eq!(text.len(), 36);
    assert_eq!(text, format!("{:032x}", ida).chars().enumerate().fold(String::new(), |mut s, (i, c)| {
        if i == 8 || i == 12 || i == 16 || i == 20 {
            s.push('-');
        }
        s.push(c);
        s
    }));
    assert!(reg.add(a));
    assert!(reg.add(b));
    assert!(reg.contains(ida));
    assert!(reg.remove(ida));
    assert!(!reg.remove(ida));
    assert_eq!(reg.len(), 1);
    assert_eq!(reg.get(0).id_number(), idb);
    assert_eq!(reg.get(0).user().name(), "b");
}

#[test]
fn older_session_form() {
    let mut a = WsSession::new(7usize, account(3, "ivy", 2, 0));
    let b = WsSession::new(8usize, account(4, "jo", 0, 0));
    assert!(a != b);
    assert_eq!(*a.session(), 7);
    assert_eq!(a.user().name(), "ivy");
    a.user_mut().consume_credit_at(-HOUR).unwrap();
    assert_eq!(a.user().credits(), 1);
    assert_eq!(a.user().id(), 3);
}

#[test]
fn replica_keeps_every_field() {
    let u = User::new(9, String::from("k@l.m"), String::from("kim"), String::from("h"), 4, 77, false);
    let r = u.replica();
    assert_eq!(
        (r.id(), r.email(), r.username(), r.password(), r.credits(), r.next_free_credit(), r.activated()),
        (9, "k@l.m", "kim", "h", 4, 77, false)
    );
}

#[test]
fn registry_drops_unreachable_sessions() {
    let mut reg: SessionRegistry<usize> = SessionRegistry::new();
    let mut ids = Vec::new();
    for i in 0..3usize {
        let s = CanvaDotSession::new(i, account(i as i32, "x", 0, 0));
        ids.push(s.id_number());
        assert!(reg.add(s));
    }
    reg.remove_all(&vec![ids[0], ids[2], ids[0].wrapping_add(1)]);
    assert_eq!(reg.len(), 1);
    assert_eq!(reg.get(0).id_number(), ids[1]);
    assert_eq!(*reg.get(0).session(), 1);
}
