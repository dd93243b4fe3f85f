use hyro::ledger::{Form, FormLedger};
use hyro::session::{decode_indices, Action, Session, SessionEvent, SessionState};

fn form(pairs: &[(&str, &str)]) -> Form {
    Form {
        fields: pairs
            .iter()
            .map(|(k, v)| (k.to_string(), v.to_string()))
            .collect(),
    }
}

fn text(a: &Action) -> Option<&str> {
    match a {
        Action::SendText(t) => Some(t.as_str()),
        _ => None,
    }
}

fn announce(s: &mut Session, ledger: &mut FormLedger, path: &str) -> Vec<Action> {
    let a1 = s.step(ledger, SessionEvent::Published(path.to_string()));
    let a2 = s.step(ledger, SessionEvent::Sent);
    vec![a1, a2]
}

#[test]
fn end_to_end_reload_reconciles_next_post() {
    let mut ledger = FormLedger::new();
    ledger.classify("client1", "/todo", form(&[("a", "first")]));
    ledger.classify("client1", "/todo", form(&[("a", "second")]));
    let mut s = Session::new("client1".to_string(), ".html.jinja2".to_string());
    let a1 = s.step(&mut ledger, SessionEvent::Published("/todo.html.jinja2".to_string()));
    assert_eq!(text(&a1), Some("you up?"));
    let a2 = s.step(&mut ledger, SessionEvent::Sent);
    assert_eq!(text(&a2), Some("/todo"));
    let a3 = s.step(&mut ledger, SessionEvent::Text("go".to_string()));
    assert!(matches!(a3, Action::Nothing));
    assert!(matches!(s.state, SessionState::AwaitingIndices { .. }));
    let a4 = s.step(&mut ledger, SessionEvent::Binary(vec![1, 0, 0, 0]));
    assert!(matches!(a4, Action::Nothing));
    assert!(matches!(s.state, SessionState::Idle));
    assert_eq!(ledger.history("client1", "/todo").unwrap().pending_ids(), vec![1]);
    let r = ledger.classify("client1", "/todo", form(&[("a", "x")]));
    assert_eq!(r.fields, form(&[("a", "second")]).fields);
}

#[test]
fn full_reload_reply_closes_and_leaves_pending() {
    let mut ledger = FormLedger::new();
    ledger.set_pending("c", "/todo", &vec![4, 2]);
    let mut s = Session::new("c".to_string(), ".html.jinja2".to_string());
    announce(&mut s, &mut ledger, "todo.html.jinja2");
    let a = s.step(&mut ledger, SessionEvent::Text("r".to_string()));
    assert!(matches!(a, Action::Close));
    assert!(s.is_closed());
    assert_eq!(ledger.history("c", "/todo").unwrap().pending_ids(), vec![4, 2]);
    let after = s.step(&mut ledger, SessionEvent::Binary(vec![0, 0, 0, 0]));
    assert!(matches!(after, Action::Nothing));
    assert_eq!(ledger.history("c", "/todo").unwrap().pending_ids(), vec![4, 2]);
}

#[test]
fn send_failure_ends_only_that_session() {
    let mut ledger = FormLedger::new();
    let mut x = Session::new("x".to_string(), ".html.jinja2".to_string());
    let mut y = Session::new("y".to_string(), ".html.jinja2".to_string());
    x.step(&mut ledger, SessionEvent::Published("todo.html.jinja2".to_string()));
    y.step(&mut ledger, SessionEvent::Published("todo.html.jinja2".to_string()));
    x.step(&mut ledger, SessionEvent::SendFailed);
    assert!(x.is_closed());
    assert!(!y.is_closed());
    let r = ledger.classify("y", "/todo", form(&[("a", "y")]));
    assert_eq!(r.fields, form(&[("a", "y")]).fields);
    let a = y.step(&mut ledger, SessionEvent::Sent);
    assert_eq!(text(&a), Some("/todo"));
}

#[test]
fn stylesheet_change_sends_marker_and_returns_to_idle() {
    let mut ledger = FormLedger::new();
    let mut s = Session::new("c".to_string(), ".html.jinja2".to_string());
    let actions = announce(&mut s, &mut ledger, "main.css");
    match &actions[1] {
        Action::SendBinary(b) => assert_eq!(b, &vec![0u8]),
        other => panic!("unexpected {:?}", other),
    }
    assert!(matches!(s.state, SessionState::Idle));
}

#[test]
fn index_change_announces_root() {
    let mut ledger = FormLedger::new();
    let mut s = Session::new("c".to_string(), ".html.jinja2".to_string());
    let actions = announce(&mut s, &mut ledger, "index.html.jinja2");
    assert_eq!(text(&actions[1]), Some("/"));
}

#[test]
fn malformed_indices_are_dropped_and_session_stays() {
    let mut ledger = FormLedger::new();
    ledger.set_pending("c", "/todo", &vec![9]);
    let mut s = Session::new("c".to_string(), ".html.jinja2".to_string());
    announce(&mut s, &mut ledger, "todo.html.jinja2");
    s.step(&mut ledger, SessionEvent::NoReply);
    s.step(&mut ledger, SessionEvent::Binary(vec![1, 0, 0]));
    assert!(matches!(s.state, SessionState::Idle));
    assert_eq!(ledger.history("c", "/todo").unwrap().pending_ids(), vec![9]);
}

#[test]
fn channel_closed_closes_session() {
    let mut ledger = FormLedger::new();
    let mut s = Session::new("c".to_string(), ".html.jinja2".to_string());
    let a = s.step(&mut ledger, SessionEvent::ChannelClosed);
    assert!(matches!(a, Action::Close));
    assert!(s.is_closed());
}

#[test]
fn unexpected_event_changes_nothing() {
    let mut ledger = FormLedger::new();
    let mut s = Session::new("c".to_string(), ".html.jinja2".to_string());
    let a = s.step(&mut ledger, SessionEvent::Text("hello".to_string()));
    assert!(matches!(a, Action::Nothing));
    assert!(matches!(s.state, SessionState::Idle));
}

#[test]
fn decode_indices_little_endian() {
    assert_eq!(decode_indices(&[]), Some(vec![]));
    assert_eq!(decode_indices(&[1, 0, 0, 0, 0, 1, 0, 0]), Some(vec![1, 256]));
    assert_eq!(decode_indices(&[255, 255, 255, 255]), Some(vec![u32::MAX]));
    assert_eq!(decode_indices(&[0x78, 0x56, 0x34, 0x12]), Some(vec![0x12345678]));
    assert_eq!(decode_indices(&[1, 2, 3, 4, 5]), None);
}
