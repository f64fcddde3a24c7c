use chat_relay::message::{chat_line, joined_notice, left_notice, wrong_format_reply};
use chat_relay::registry::Registry;
use chat_relay::session::{NamingStep, Session};

#[test]
fn broadcast_line_formats_are_exact() {
    assert_eq!(joined_notice("alice"), "alice joined.");
    assert_eq!(chat_line("bob", "hello"), "bob: hello");
    assert_eq!(left_notice("bob"), "bob left.");
    assert_eq!(wrong_format_reply(), "Wrong format data.");
    assert_eq!(joined_notice(""), " joined.");
    assert_eq!(chat_line("bob", ""), "bob: ");
}

fn naming_attempt(text: &str) -> (NamingStep, Registry) {
    let mut reg = Registry::new();
    let mut s = Session::new();
    let step = s.on_naming_text(&mut reg, text);
    (step, reg)
}

#[test]
fn invalid_json_is_rejected() {
    let (step, _) = naming_attempt("not json at all");
    assert!(matches!(step, NamingStep::Rejected(_)));
}

#[test]
fn missing_field_is_rejected() {
    let (step, _) = naming_attempt(r#"{"content":"hi","from":"carol"}"#);
    assert!(matches!(step, NamingStep::Rejected(_)));
}

#[test]
fn mistyped_field_is_rejected() {
    let (step, _) = naming_attempt(r#"{"content":"hi","from":"carol","time":3}"#);
    assert!(matches!(step, NamingStep::Rejected(_)));
}

#[test]
fn non_object_payload_is_rejected() {
    let (step, _) = naming_attempt(r#"["content","from","time"]"#);
    assert!(matches!(step, NamingStep::Rejected(_)));
}

#[test]
fn unknown_fields_are_ignored() {
    let (step, reg) = naming_attempt(r#"{"content":"hi","from":"carol","time":"t1","extra":0}"#);
    assert!(matches!(step, NamingStep::Accepted));
    assert!(reg.contains_name("carol"));
}

#[test]
fn empty_name_is_echoed_back_and_claims_nothing() {
    let (step, reg) = naming_attempt(r#"{"content":"hi","from":"","time":"t1"}"#);
    match step {
        NamingStep::Retry(echo) => assert_eq!(echo, "hi"),
        _ => panic!("an empty display name must not be claimable"),
    }
    assert!(!reg.contains_name(""));
}

#[test]
fn the_from_field_is_what_gets_claimed() {
    let (step, reg) = naming_attempt(r#"{"content":"payload","from":"carol","time":"t1"}"#);
    assert!(matches!(step, NamingStep::Accepted));
    assert!(reg.contains_name("carol"));
    assert!(!reg.contains_name("payload"));
    assert!(!reg.contains_name(r#"{"content":"payload","from":"carol","time":"t1"}"#));
}
