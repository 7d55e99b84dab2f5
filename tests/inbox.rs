use surrealist_host::resources::{keep_parsed, parse_resources, ResourceInbox};

fn strings(v: &[&str]) -> Vec<String> {
    v.iter().map(|s| s.to_string()).collect()
}

#[test]
fn launch_args_keep_parsable_urls_in_order() {
    let args = strings(&["host", "surrealist://open/x", "garbage", "https://example.com/"]);
    let mut inbox = ResourceInbox::new();
    inbox.store_resources(&args);
    assert_eq!(
        inbox.opened_resources(),
        strings(&["surrealist://open/x", "https://example.com/"])
    );
}

#[test]
fn program_name_is_never_parsed() {
    assert_eq!(parse_resources(&strings(&["https://example.com/"])), Vec::<String>::new());
    assert_eq!(parse_resources(&Vec::new()), Vec::<String>::new());
}

#[test]
fn parsed_urls_are_normalised() {
    assert_eq!(
        parse_resources(&strings(&["host", "HTTPS://Example.COM"])),
        strings(&["https://example.com/"])
    );
}

#[test]
fn relative_text_is_dropped() {
    assert_eq!(
        parse_resources(&strings(&["host", "garbage", "/tmp/file", ""])),
        Vec::<String>::new()
    );
}

#[test]
fn keep_parsed_drops_failures_in_order() {
    let parsed = vec![
        None,
        Some("b://1".to_string()),
        None,
        Some("a://2".to_string()),
    ];
    assert_eq!(keep_parsed(&parsed), strings(&["b://1", "a://2"]));
    assert_eq!(keep_parsed(&Vec::new()), Vec::<String>::new());
}

#[test]
fn intercept_replaces_inbox_and_signals() {
    let mut inbox = ResourceInbox::new();
    inbox.store_resources(&strings(&["host", "surrealist://old"]));
    let signal = inbox.intake_intercepted(&strings(&["host", "surrealist://y"]));
    assert!(signal);
    assert_eq!(inbox.opened_resources(), strings(&["surrealist://y"]));
}

#[test]
fn intercept_without_urls_keeps_inbox_and_still_signals() {
    let mut inbox = ResourceInbox::new();
    inbox.store_resources(&strings(&["host", "surrealist://old"]));
    let signal = inbox.intake_intercepted(&strings(&["host", "garbage"]));
    assert!(signal);
    assert_eq!(inbox.opened_resources(), strings(&["surrealist://old"]));
}

#[test]
fn intercept_of_bare_program_name_does_not_signal() {
    let mut inbox = ResourceInbox::new();
    let signal = inbox.intake_intercepted(&strings(&["host"]));
    assert!(!signal);
    assert_eq!(inbox.opened_resources(), Vec::<String>::new());
}

#[test]
fn opened_event_replaces_inbox_and_signals() {
    let mut inbox = ResourceInbox::new();
    inbox.store_resources(&strings(&["host", "surrealist://old"]));
    let signal = inbox.intake_opened(strings(&["surrealist://u1", "surrealist://u2"]));
    assert!(signal);
    assert_eq!(
        inbox.opened_resources(),
        strings(&["surrealist://u1", "surrealist://u2"])
    );
}

#[test]
fn opened_event_with_no_urls_empties_inbox() {
    let mut inbox = ResourceInbox::new();
    inbox.store_resources(&strings(&["host", "surrealist://old"]));
    assert!(inbox.intake_opened(Vec::new()));
    assert_eq!(inbox.opened_resources(), Vec::<String>::new());
}

#[test]
fn reading_does_not_clear_inbox() {
    let mut inbox = ResourceInbox::new();
    inbox.store_resources(&strings(&["host", "surrealist://a"]));
    assert_eq!(inbox.opened_resources(), strings(&["surrealist://a"]));
    assert_eq!(inbox.opened_resources(), strings(&["surrealist://a"]));
}

#[test]
fn empty_replace_keeps_contents() {
    let mut inbox = ResourceInbox::new();
    inbox.replace(strings(&["surrealist://a"]));
    inbox.replace(Vec::new());
    assert_eq!(inbox.opened_resources(), strings(&["surrealist://a"]));
}
