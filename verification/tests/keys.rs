use minimux::keys::{encode_char, key_event_to_bytes, KeyCode, KeyEvent, KeyEventKind, MOD_ALT, MOD_CONTROL, MOD_SHIFT};

fn key(code: KeyCode, modifiers: u8) -> KeyEvent {
    KeyEvent { code, modifiers, kind: KeyEventKind::Press }
}

#[test]
fn plain_characters_are_utf8() {
    assert_eq!(key_event_to_bytes(&key(KeyCode::Char('a'), 0)), Some(b"a".to_vec()));
    assert_eq!(key_event_to_bytes(&key(KeyCode::Char('A'), MOD_SHIFT)), Some(b"A".to_vec()));
    assert_eq!(key_event_to_bytes(&key(KeyCode::Char('é'), 0)), Some("é".as_bytes().to_vec()));
    assert_eq!(key_event_to_bytes(&key(KeyCode::Char('你'), 0)), Some("你".as_bytes().to_vec()));
    assert_eq!(key_event_to_bytes(&key(KeyCode::Char('🚀'), 0)), Some("🚀".as_bytes().to_vec()));
}

#[test]
fn encode_char_matches_std() {
    for c in ['\0', 'a', '\u{7f}', '\u{80}', 'ß', '\u{7ff}', '\u{800}', '€', '\u{ffff}', '\u{10000}', '\u{10ffff}'] {
        let mut buf = [0u8; 4];
        assert_eq!(encode_char(c), c.encode_utf8(&mut buf).as_bytes().to_vec(), "char {:?}", c);
    }
}

#[test]
fn control_characters() {
    assert_eq!(key_event_to_bytes(&key(KeyCode::Char('a'), MOD_CONTROL)), Some(vec![1]));
    assert_eq!(key_event_to_bytes(&key(KeyCode::Char('c'), MOD_CONTROL)), Some(vec![3]));
    assert_eq!(key_event_to_bytes(&key(KeyCode::Char('z'), MOD_CONTROL)), Some(vec![26]));
    assert_eq!(key_event_to_bytes(&key(KeyCode::Char('d'), MOD_CONTROL | MOD_ALT)), Some(vec![4]));
    // Wrapping arithmetic: '@' (0x40) - 'a' + 1 wraps to 0xe0.
    assert_eq!(key_event_to_bytes(&key(KeyCode::Char('@'), MOD_CONTROL)), Some(vec![0xe0]));
}

#[test]
fn special_keys() {
    assert_eq!(key_event_to_bytes(&key(KeyCode::Enter, 0)), Some(b"\r".to_vec()));
    assert_eq!(key_event_to_bytes(&key(KeyCode::Backspace, 0)), Some(vec![0x7f]));
    assert_eq!(key_event_to_bytes(&key(KeyCode::Tab, 0)), Some(b"\t".to_vec()));
    assert_eq!(key_event_to_bytes(&key(KeyCode::Esc, 0)), Some(vec![0x1b]));
    assert_eq!(key_event_to_bytes(&key(KeyCode::Up, 0)), Some(b"\x1b[A".to_vec()));
    assert_eq!(key_event_to_bytes(&key(KeyCode::Down, 0)), Some(b"\x1b[B".to_vec()));
    assert_eq!(key_event_to_bytes(&key(KeyCode::Right, 0)), Some(b"\x1b[C".to_vec()));
    assert_eq!(key_event_to_bytes(&key(KeyCode::Left, 0)), Some(b"\x1b[D".to_vec()));
    assert_eq!(key_event_to_bytes(&key(KeyCode::Home, 0)), Some(b"\x1b[H".to_vec()));
    assert_eq!(key_event_to_bytes(&key(KeyCode::End, 0)), Some(b"\x1b[F".to_vec()));
    assert_eq!(key_event_to_bytes(&key(KeyCode::PageUp, 0)), Some(b"\x1b[5~".to_vec()));
    assert_eq!(key_event_to_bytes(&key(KeyCode::PageDown, 0)), Some(b"\x1b[6~".to_vec()));
    assert_eq!(key_event_to_bytes(&key(KeyCode::Delete, 0)), Some(b"\x1b[3~".to_vec()));
    assert_eq!(key_event_to_bytes(&key(KeyCode::Insert, 0)), Some(b"\x1b[2~".to_vec()));
    assert_eq!(key_event_to_bytes(&key(KeyCode::Other, 0)), None);
}

#[test]
fn function_keys() {
    let expected: [&[u8]; 12] = [
        b"\x1bOP", b"\x1bOQ", b"\x1bOR", b"\x1bOS", b"\x1b[15~", b"\x1b[17~", b"\x1b[18~",
        b"\x1b[19~", b"\x1b[20~", b"\x1b[21~", b"\x1b[23~", b"\x1b[24~",
    ];
    for (i, want) in expected.iter().enumerate() {
        let n = (i + 1) as u8;
        assert_eq!(key_event_to_bytes(&key(KeyCode::F(n), 0)), Some(want.to_vec()), "F{}", n);
    }
    assert_eq!(key_event_to_bytes(&key(KeyCode::F(0), 0)), None);
    assert_eq!(key_event_to_bytes(&key(KeyCode::F(13), 0)), None);
}
