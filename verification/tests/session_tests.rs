use chat_relay::hub::Hub;
use chat_relay::message::ChatMessage;
use chat_relay::registry::Registry;
use chat_relay::session::{NamingStep, Session};

#[test]
fn well_formed_payload_claims_its_from_field() {
    let mut reg = Registry::new();
    let mut s = Session::new();
    let msg = ChatMessage {
        content: String::from("hi"),
        from: String::from("dana"),
        time: String::from("t1"),
    };
    let step = s.on_naming_message(&mut reg, msg);
    assert!(matches!(step, NamingStep::Accepted));
    assert!(reg.contains_name("dana"));
    assert!(s.joined());

    let mut other = Session::new();
    let again = ChatMessage {
        content: String::from("mine"),
        from: String::from("dana"),
        time: String::from("t2"),
    };
    match other.on_naming_message(&mut reg, again) {
        NamingStep::Retry(echo) => assert_eq!(echo, "mine"),
        _ => panic!("a taken name must be refused"),
    }
}

#[test]
fn first_message_registers_and_join_notice_reaches_everyone() {
    let mut reg = Registry::new();
    let mut hub = Hub::new(100);
    let mut watcher = hub.subscribe();
    let mut alice = Session::new();
    let step = alice.on_naming_text(&mut reg, r#"{"content":"hi","from":"alice","time":"t1"}"#);
    assert!(matches!(step, NamingStep::Accepted));
    assert!(alice.joined());
    assert!(reg.contains_name("alice"));
    let (mut own, notice) = alice.join_hub(&mut hub);
    assert_eq!(notice, "alice joined.");
    assert_eq!(hub.recv(&mut watcher).as_deref(), Some("alice joined."));
    assert_eq!(hub.recv(&mut own).as_deref(), Some("alice joined."));
}

#[test]
fn duplicate_name_is_echoed_back_and_first_holder_untouched() {
    let mut reg = Registry::new();
    let mut hub = Hub::new(100);
    let mut first = Session::new();
    let step = first.on_naming_text(&mut reg, r#"{"content":"hi","from":"alice","time":"t1"}"#);
    assert!(matches!(step, NamingStep::Accepted));
    let (mut own, _) = first.join_hub(&mut hub);

    let mut second = Session::new();
    let step = second.on_naming_text(&mut reg, r#"{"content":"hi","from":"alice","time":"t2"}"#);
    match step {
        NamingStep::Retry(echo) => assert_eq!(echo, "hi"),
        _ => panic!("a taken name must keep the session in the naming phase"),
    }
    assert!(!second.joined());
    assert!(reg.contains_name("alice"));
    assert!(first.joined());
    // the first alice's stream saw nothing of it beyond her own join notice
    assert_eq!(hub.recv(&mut own).as_deref(), Some("alice joined."));
    assert!(hub.recv(&mut own).is_none());
}

#[test]
fn named_client_text_reaches_every_subscriber() {
    let mut reg = Registry::new();
    let mut hub = Hub::new(100);
    let mut bob = Session::new();
    let step = bob.on_naming_text(&mut reg, r#"{"content":"hi","from":"bob","time":"t1"}"#);
    assert!(matches!(step, NamingStep::Accepted));
    let (mut own, _) = bob.join_hub(&mut hub);
    let mut watcher = hub.subscribe();
    let line = bob.chat(&mut hub, "hello");
    assert_eq!(line, "bob: hello");
    assert_eq!(hub.recv(&mut watcher).as_deref(), Some("bob: hello"));
    // self-echo: the sender's own outbound loop receives the line too
    let own_view = hub.drain(&mut own);
    assert_eq!(own_view, vec!["bob joined.", "bob: hello"]);
}

#[test]
fn malformed_payload_is_rejected_without_a_join_notice() {
    let mut reg = Registry::new();
    let mut hub = Hub::new(100);
    let mut watcher = hub.subscribe();
    let mut s = Session::new();
    let step = s.on_naming_text(&mut reg, r#"{"content":"hi","from":}"#);
    match step {
        NamingStep::Rejected(reply) => assert_eq!(reply, "Wrong format data."),
        _ => panic!("a malformed payload must terminate the session"),
    }
    assert!(!s.joined());
    assert!(hub.recv(&mut watcher).is_none());
    assert!(!reg.contains_name("hi"));
}

#[test]
fn abrupt_disconnect_broadcasts_leave_and_frees_the_name() {
    let mut reg = Registry::new();
    let mut hub = Hub::new(100);
    let mut bob = Session::new();
    let step = bob.on_naming_text(&mut reg, r#"{"content":"hi","from":"bob","time":"t1"}"#);
    assert!(matches!(step, NamingStep::Accepted));
    let (own, _) = bob.join_hub(&mut hub);
    let mut watcher = hub.subscribe();

    let notice = bob.teardown(&mut reg, &mut hub, own);
    assert_eq!(notice, "bob left.");
    assert_eq!(hub.recv(&mut watcher).as_deref(), Some("bob left."));
    assert!(!reg.contains_name("bob"));

    let mut newcomer = Session::new();
    let step = newcomer.on_naming_text(&mut reg, r#"{"content":"hi","from":"bob","time":"t9"}"#);
    assert!(matches!(step, NamingStep::Accepted));
}

#[test]
fn closing_before_naming_terminates_without_joining() {
    let mut s = Session::new();
    assert!(!s.joined());
    s.on_naming_closed();
    assert!(!s.joined());
}
