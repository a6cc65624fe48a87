use shellpane::input::InputBuffer;

#[test]
fn a_new_buffer_is_empty() {
    let buffer = InputBuffer::new();
    assert!(buffer.is_empty());
    assert_eq!(buffer.as_str(), "");
}

#[test]
fn push_appends_at_the_end() {
    let mut buffer = InputBuffer::new();
    assert!(buffer.push('a'));
    assert!(buffer.push(' '));
    assert!(buffer.push('ß'));
    assert_eq!(buffer.as_str(), "a ß");
    assert!(!buffer.is_empty());
}

#[test]
fn push_leaves_a_control_character_out() {
    let mut buffer = InputBuffer::new();
    assert!(buffer.push('a'));
    assert!(!buffer.push('\n'));
    assert!(!buffer.push('\u{0}'));
    assert!(!buffer.push('\u{1b}'));
    assert!(!buffer.push('\u{85}'));
    assert_eq!(buffer.as_str(), "a");
}

#[test]
fn backspace_returns_the_last_character() {
    let mut buffer = InputBuffer::new();
    buffer.push('a');
    buffer.push('b');
    assert_eq!(buffer.backspace(), Some('b'));
    assert_eq!(buffer.as_str(), "a");
    assert_eq!(buffer.backspace(), Some('a'));
    assert_eq!(buffer.as_str(), "");
}

#[test]
fn backspace_on_an_empty_buffer_returns_nothing() {
    let mut buffer = InputBuffer::new();
    assert_eq!(buffer.backspace(), None);
    assert_eq!(buffer.backspace(), None);
    assert!(buffer.is_empty());
    buffer.push('z');
    assert_eq!(buffer.backspace(), Some('z'));
    assert_eq!(buffer.backspace(), None);
    assert!(buffer.is_empty());
}
