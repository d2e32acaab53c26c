use chatroom::connection::{Action, Connection, Frame, Phase};
use chatroom::registry::Registry;
use chatroom::ChatMessage;

fn published(actions: &[Action]) -> ChatMessage {
    assert_eq!(actions.len(), 1);
    match &actions[0] {
        Action::Publish(m) => m.clone(),
        _ => panic!("expected a publish"),
    }
}

fn sent(actions: &[Action]) -> Vec<String> {
    let mut out = Vec::new();
    for a in actions {
        if let Action::Send(t) = a {
            out.push(t.clone());
        }
    }
    out
}

fn join(registry: &mut Registry, name: &str) -> (Connection, Vec<Action>) {
    let mut c = Connection::new();
    let actions = c.on_frame(registry, Frame::Text(name.to_string()));
    (c, actions)
}

#[test]
fn handshake_registers_and_announces() {
    let mut registry = Registry::new();
    let (a, actions) = join(&mut registry, "alice");
    assert_eq!(a.phase(), Phase::Active);
    assert_eq!(a.username(), "alice");
    assert_eq!(registry.len(), 1);
    assert!(registry.contains("alice"));
    let notice = published(&actions);
    assert_eq!(notice.get_username(), "Host");
    assert_eq!(notice.get_content(), "alice has joined the chat!");
}

#[test]
fn handshake_trims_the_name() {
    let mut registry = Registry::new();
    let (a, actions) = join(&mut registry, "  alice\n");
    assert_eq!(a.username(), "alice");
    assert!(registry.contains("alice"));
    assert_eq!(published(&actions).get_content(), "alice has joined the chat!");
}

#[test]
fn duplicate_handshake_is_rejected_and_closed() {
    let mut registry = Registry::new();
    let (a, _) = join(&mut registry, "alice");
    let (b, actions) = join(&mut registry, "alice");
    assert_eq!(b.phase(), Phase::Closed);
    assert_eq!(actions.len(), 2);
    assert!(matches!(actions[1], Action::Close));
    let texts = sent(&actions);
    assert_eq!(texts.len(), 1);
    let notice = ChatMessage::decode(&texts[0]).unwrap();
    assert_eq!(notice.get_username(), "Host");
    assert!(notice.get_content().contains("already taken"));
    assert_eq!(
        notice.get_content(),
        "Username 'alice' is already taken. Please choose a different one."
    );
    assert_eq!(registry.len(), 1);
    assert!(registry.contains("alice"));
    assert_eq!(a.phase(), Phase::Active);
}

#[test]
fn rejected_connection_gives_nothing_back_on_close() {
    let mut registry = Registry::new();
    let (_a, _) = join(&mut registry, "alice");
    let (mut b, _) = join(&mut registry, " alice ");
    assert_eq!(b.phase(), Phase::Closed);
    let actions = b.on_frame(&mut registry, Frame::Ended);
    assert!(actions.is_empty());
    assert!(registry.contains("alice"));
}

#[test]
fn handshake_without_text_ends_without_registering_or_sending() {
    for frame in [Frame::Close, Frame::Other, Frame::Failed, Frame::Ended] {
        let mut registry = Registry::new();
        let mut c = Connection::new();
        let actions = c.on_frame(&mut registry, frame);
        assert_eq!(c.phase(), Phase::Closed);
        assert!(actions.is_empty());
        assert_eq!(registry.len(), 0);
    }
}

#[test]
fn message_reaches_others_but_not_its_author() {
    let mut registry = Registry::new();
    let (mut a, _) = join(&mut registry, "alice");
    let (c, _) = join(&mut registry, "carol");
    let actions = a.on_frame(&mut registry, Frame::Text("hello".to_string()));
    let envelope = published(&actions);
    assert_eq!(envelope.get_username(), "alice");
    assert_eq!(envelope.get_content(), "hello");

    let to_carol = c.on_broadcast(&envelope);
    let texts = sent(&to_carol);
    assert_eq!(texts.len(), 1);
    let received = ChatMessage::decode(&texts[0]).unwrap();
    assert_eq!(received.render(), "alice: hello");

    assert!(a.on_broadcast(&envelope).is_empty());
}

#[test]
fn join_notice_reaches_others() {
    let mut registry = Registry::new();
    let (a, _) = join(&mut registry, "alice");
    let (_c, actions) = join(&mut registry, "carol");
    let notice = published(&actions);
    let texts = sent(&a.on_broadcast(&notice));
    assert_eq!(texts, vec![r#"{"username":"Host","content":"carol has joined the chat!"}"#]);
}

#[test]
fn connection_before_handshake_forwards_nothing() {
    let c = Connection::new();
    assert_eq!(c.phase(), Phase::AwaitingHandshake);
    assert!(c.on_broadcast(&ChatMessage::new("bob", "hi")).is_empty());
}

#[test]
fn non_text_frame_is_ignored_when_active() {
    let mut registry = Registry::new();
    let (mut a, _) = join(&mut registry, "alice");
    let actions = a.on_frame(&mut registry, Frame::Other);
    assert!(actions.is_empty());
    assert_eq!(a.phase(), Phase::Active);
    assert!(registry.contains("alice"));
}

#[test]
fn leaving_frees_the_name() {
    let mut registry = Registry::new();
    let (mut a, _) = join(&mut registry, "alice");
    let (_c, _) = join(&mut registry, "carol");
    let actions = a.on_frame(&mut registry, Frame::Close);
    assert!(actions.is_empty());
    assert_eq!(a.phase(), Phase::Closed);
    assert!(!registry.contains("alice"));
    assert!(registry.contains("carol"));
    let (again, _) = join(&mut registry, "alice");
    assert_eq!(again.phase(), Phase::Active);
}

#[test]
fn transport_failure_or_end_frees_the_name() {
    for frame in [Frame::Failed, Frame::Ended] {
        let mut registry = Registry::new();
        let (mut a, _) = join(&mut registry, "alice");
        let actions = a.on_frame(&mut registry, frame);
        assert!(actions.is_empty());
        assert_eq!(a.phase(), Phase::Closed);
        assert_eq!(registry.len(), 0);
    }
}

#[test]
fn send_failure_frees_the_name() {
    let mut registry = Registry::new();
    let (mut a, _) = join(&mut registry, "alice");
    let actions = a.on_send_failed(&mut registry);
    assert!(actions.is_empty());
    assert_eq!(a.phase(), Phase::Closed);
    assert!(!registry.contains("alice"));
    assert!(a.on_send_failed(&mut registry).is_empty());
}
