use vstd::prelude::*;
use vstd::utf8::*;

verus! {

broadcast use vstd::utf8::char_is_scalar;

/// Modifier bits of a key event, as the terminal library reports them.
pub const MOD_SHIFT: u8 = 0b0000_0001;
pub const MOD_CONTROL: u8 = 0b0000_0010;
pub const MOD_ALT: u8 = 0b0000_0100;

/// A key, as the terminal reports it.
#[derive(Debug, Clone, Copy, PartialEq, Eq, Structural)]
pub enum KeyCode {
    Char(char),
    Enter,
    Backspace,
    Tab,
    Esc,
    Up,
    Down,
    Right,
    Left,
    Home,
    End,
    PageUp,
    PageDown,
    Delete,
    Insert,
    /// Function key `F(n)`.
    F(u8),
    /// Any other key, which sends nothing.
    Other,
}

/// Whether the key went down, repeated, or came up.
#[derive(Debug, Clone, Copy, PartialEq, Eq, Structural)]
pub enum KeyEventKind {
    Press,
    Repeat,
    Release,
}

/// A keyboard event: the key, the modifier bits held, and its kind.
#[derive(Debug, Clone, Copy, PartialEq, Eq, Structural)]
pub struct KeyEvent {
    pub code: KeyCode,
    pub modifiers: u8,
    pub kind: KeyEventKind,
}

/// Whether the Control modifier is among the held modifiers.
pub open spec fn has_control(modifiers: u8) -> bool {
    modifiers & MOD_CONTROL != 0
}

/// The byte Control plus a character sends: the character's low byte
/// shifted so that `a` maps to 1, wrapping modulo 256.
pub open spec fn control_byte(c: char) -> u8 {
    (((c as u32) % 256 + 160) % 256) as u8
}

/// The escape sequence of function key `n`, for `n` in `1..=12`.
pub open spec fn function_key_bytes(n: u8) -> Option<Seq<u8>> {
    if n == 1 {
        Some(seq![0x1bu8, 0x4f, 0x50])  // ESC O P
    } else if n == 2 {
        Some(seq![0x1bu8, 0x4f, 0x51])  // ESC O Q
    } else if n == 3 {
        Some(seq![0x1bu8, 0x4f, 0x52])  // ESC O R
    } else if n == 4 {
        Some(seq![0x1bu8, 0x4f, 0x53])  // ESC O S
    } else if n == 5 {
        Some(seq![0x1bu8, 0x5b, 0x31, 0x35, 0x7e])  // ESC [ 1 5 ~
    } else if n == 6 {
        Some(seq![0x1bu8, 0x5b, 0x31, 0x37, 0x7e])  // ESC [ 1 7 ~
    } else if n == 7 {
        Some(seq![0x1bu8, 0x5b, 0x31, 0x38, 0x7e])  // ESC [ 1 8 ~
    } else if n == 8 {
        Some(seq![0x1bu8, 0x5b, 0x31, 0x39, 0x7e])  // ESC [ 1 9 ~
    } else if n == 9 {
        Some(seq![0x1bu8, 0x5b, 0x32, 0x30, 0x7e])  // ESC [ 2 0 ~
    } else if n == 10 {
        Some(seq![0x1bu8, 0x5b, 0x32, 0x31, 0x7e])  // ESC [ 2 1 ~
    } else if n == 11 {
        Some(seq![0x1bu8, 0x5b, 0x32, 0x33, 0x7e])  // ESC [ 2 3 ~
    } else if n == 12 {
        Some(seq![0x1bu8, 0x5b, 0x32, 0x34, 0x7e])  // ESC [ 2 4 ~
    } else {
        None
    }
}

/// The bytes a key event sends to the PTY, or `None` for keys that send
/// nothing.
pub open spec fn key_bytes(event: KeyEvent) -> Option<Seq<u8>> {
    match event.code {
        KeyCode::Char(c) => if has_control(event.modifiers) {
            Some(seq![control_byte(c)])
        } else {
            Some(encode_scalar(c as u32))
        },
        KeyCode::Enter => Some(seq![0x0du8]),
        KeyCode::Backspace => Some(seq![0x7fu8]),
        KeyCode::Tab => Some(seq![0x09u8]),
        KeyCode::Esc => Some(seq![0x1bu8]),
        KeyCode::Up => Some(seq![0x1bu8, 0x5b, 0x41]),  // ESC [ A
        KeyCode::Down => Some(seq![0x1bu8, 0x5b, 0x42]),  // ESC [ B
        KeyCode::Right => Some(seq![0x1bu8, 0x5b, 0x43]),  // ESC [ C
        KeyCode::Left => Some(seq![0x1bu8, 0x5b, 0x44]),  // ESC [ D
        KeyCode::Home => Some(seq![0x1bu8, 0x5b, 0x48]),  // ESC [ H
        KeyCode::End => Some(seq![0x1bu8, 0x5b, 0x46]),  // ESC [ F
        KeyCode::PageUp => Some(seq![0x1bu8, 0x5b, 0x35, 0x7e]),  // ESC [ 5 ~
        KeyCode::PageDown => Some(seq![0x1bu8, 0x5b, 0x36, 0x7e]),  // ESC [ 6 ~
        KeyCode::Delete => Some(seq![0x1bu8, 0x5b, 0x33, 0x7e]),  // ESC [ 3 ~
        KeyCode::Insert => Some(seq![0x1bu8, 0x5b, 0x32, 0x7e]),  // ESC [ 2 ~
        KeyCode::F(n) => function_key_bytes(n),
        KeyCode::Other => None,
    }
}

/// Control plus a lowercase letter sends that letter's ASCII control code:
/// `a` gives 1, `b` gives 2, up to `z`, which gives 26.
pub proof fn lemma_control_letters(c: char)
    requires
        'a' <= c <= 'z',
    ensures
        control_byte(c) == (c as u32) - 96,
        1 <= control_byte(c) <= 26,
{
}

/// A character key without Control sends the character's UTF-8 encoding,
/// which decodes back to exactly that character, whatever Shift or Alt is
/// held and whatever the key's kind; with Control and a lowercase letter it
/// sends that letter's control code.
pub proof fn lemma_character_bytes(c: char, modifiers: u8, kind: KeyEventKind)
    ensures
        modifiers & MOD_CONTROL == 0 ==> key_bytes(
            KeyEvent { code: KeyCode::Char(c), modifiers, kind },
        ) == Some(encode_utf8(seq![c])),
        modifiers & MOD_CONTROL == 0 ==> decode_utf8(encode_utf8(seq![c])) == seq![c],
        modifiers & MOD_CONTROL != 0 && 'a' <= c <= 'z' ==> key_bytes(
            KeyEvent { code: KeyCode::Char(c), modifiers, kind },
        ) == Some(seq![((c as u32) - 96) as u8]),
{
    assert(seq![c].drop_first() =~= Seq::<char>::empty());
    assert(seq![c][0] == c);
    assert(encode_utf8(Seq::<char>::empty()) == Seq::<u8>::empty());
    assert(encode_utf8(seq![c]) =~= encode_scalar(c as u32));
    encode_utf8_valid_utf8(seq![c]);
    encode_utf8_decode_utf8(seq![c]);
}

/// The UTF-8 encoding of a character.
pub fn encode_char(c: char) -> (out: Vec<u8>)
    ensures
        out@ == encode_scalar(c as u32),
{
    let u = c as u32;
    if u <= 0x7f {
        vec![(u & 0x7F) as u8]
    } else if u <= 0x7ff {
        vec![0xC0 | ((u >> 6) & 0x1F) as u8, 0x80 | (u & 0x3F) as u8]
    } else if u <= 0xffff {
        vec![
            0xE0 | ((u >> 12) & 0x0F) as u8,
            0x80 | ((u >> 6) & 0x3F) as u8,
            0x80 | (u & 0x3F) as u8,
        ]
    } else {
        vec![
            0xF0 | ((u >> 18) & 0x7) as u8,
            0x80 | ((u >> 12) & 0x3F) as u8,
            0x80 | ((u >> 6) & 0x3F) as u8,
            0x80 | (u & 0x3F) as u8,
        ]
    }
}

fn function_key(n: u8) -> (out: Option<Vec<u8>>)
    ensures
        match (out, function_key_bytes(n)) {
            (Some(v), Some(s)) => v@ == s,
            (None, None) => true,
            _ => false,
        },
{
    if n == 1 {
        Some(vec![0x1b, 0x4f, 0x50])
    } else if n == 2 {
        Some(vec![0x1b, 0x4f, 0x51])
    } else if n == 3 {
        Some(vec![0x1b, 0x4f, 0x52])
    } else if n == 4 {
        Some(vec![0x1b, 0x4f, 0x53])
    } else if n == 5 {
        Some(vec![0x1b, 0x5b, 0x31, 0x35, 0x7e])
    } else if n == 6 {
        Some(vec![0x1b, 0x5b, 0x31, 0x37, 0x7e])
    } else if n == 7 {
        Some(vec![0x1b, 0x5b, 0x31, 0x38, 0x7e])
    } else if n == 8 {
        Some(vec![0x1b, 0x5b, 0x31, 0x39, 0x7e])
    } else if n == 9 {
        Some(vec![0x1b, 0x5b, 0x32, 0x30, 0x7e])
    } else if n == 10 {
        Some(vec![0x1b, 0x5b, 0x32, 0x31, 0x7e])
    } else if n == 11 {
        Some(vec![0x1b, 0x5b, 0x32, 0x33, 0x7e])
    } else if n == 12 {
        Some(vec![0x1b, 0x5b, 0x32, 0x34, 0x7e])
    } else {
        None
    }
}

/// Convert a key event to the bytes that should be sent to the PTY.
pub fn key_event_to_bytes(event: &KeyEvent) -> (out: Option<Vec<u8>>)
    ensures
        match (out, key_bytes(*event)) {
            (Some(v), Some(s)) => v@ == s,
            (None, None) => true,
            _ => false,
        },
{
    let ctrl = event.modifiers & MOD_CONTROL != 0;
    match event.code {
        KeyCode::Char(c) => {
            if ctrl {
                let low = (c as u32 % 256) as u8;
                let byte = low.wrapping_sub(97).wrapping_add(1);
                Some(vec![byte])
            } else {
                Some(encode_char(c))
            }
        },
        KeyCode::Enter => Some(vec![0x0d]),
        KeyCode::Backspace => Some(vec![0x7f]),
        KeyCode::Tab => Some(vec![0x09]),
        KeyCode::Esc => Some(vec![0x1b]),
        KeyCode::Up => Some(vec![0x1b, 0x5b, 0x41]),
        KeyCode::Down => Some(vec![0x1b, 0x5b, 0x42]),
        KeyCode::Right => Some(vec![0x1b, 0x5b, 0x43]),
        KeyCode::Left => Some(vec![0x1b, 0x5b, 0x44]),
        KeyCode::Home => Some(vec![0x1b, 0x5b, 0x48]),
        KeyCode::End => Some(vec![0x1b, 0x5b, 0x46]),
        KeyCode::PageUp => Some(vec![0x1b, 0x5b, 0x35, 0x7e]),
        KeyCode::PageDown => Some(vec![0x1b, 0x5b, 0x36, 0x7e]),
        KeyCode::Delete => Some(vec![0x1b, 0x5b, 0x33, 0x7e]),
        KeyCode::Insert => Some(vec![0x1b, 0x5b, 0x32, 0x7e]),
        KeyCode::F(n) => function_key(n),
        KeyCode::Other => None,
    }
}

} // verus!
