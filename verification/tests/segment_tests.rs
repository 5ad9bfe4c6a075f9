use qwik_ids::segment::Segment;

#[test]
fn classification_table() {
    let anon = Segment::new("$");
    assert_eq!(anon, Segment::AnonymousCaptured);
    assert!(anon.is_qwik());
    assert_eq!(anon.to_text(), "");

    let named_captured = Segment::new("onClick$");
    assert_eq!(named_captured, Segment::NamedCaptured("onClick".to_string()));
    assert!(named_captured.is_qwik());
    assert_eq!(named_captured.to_text(), "onClick");

    let named = Segment::new("button");
    assert_eq!(named, Segment::Named("button".to_string()));
    assert!(!named.is_qwik());
    assert_eq!(named.to_text(), "button");
}

#[test]
fn classification_is_deterministic() {
    assert_eq!(Segment::new("onClick$"), Segment::new("onClick$"));
    assert_eq!(Segment::new(""), Segment::Named("".to_string()));
    assert_eq!(Segment::new("$$"), Segment::NamedCaptured("$".to_string()));
}

#[test]
fn binding_names_keep_the_marker_for_anonymous() {
    assert_eq!(Segment::new("$").binding_name(), "$");
    assert_eq!(Segment::new("onClick$").binding_name(), "onClick");
    assert_eq!(Segment::new("button").binding_name(), "button");
}
