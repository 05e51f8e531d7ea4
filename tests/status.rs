use morpha::status::{Status, CLEAR_REPEAT};

#[test]
fn new_status_is_silent() {
    let s = Status::new();
    assert!(s.silent);
    assert_eq!(s.visible("--- Run Queued"), "");
    assert_eq!(s.clear_line(), "");
}

#[test]
fn default_status_speaks() {
    let s = Status::default();
    assert!(!s.silent);
    assert_eq!(s.visible("> "), "> ");
}

#[test]
fn clear_line_text() {
    let s = Status { silent: false };
    let c = s.clear_line();
    assert_eq!(c, "\u{8}\r".repeat(100));
    assert_eq!(CLEAR_REPEAT, 100);
}
