//! Keyboard and mouse input as the state machine sees it, and the
//! encoding of keys as the bytes a terminal expects.
use vstd::prelude::*;
use crate::text::push_char;

verus! {

broadcast use vstd::string::group_string_axioms;

/// A key press.
#[derive(Debug, Clone, Copy, PartialEq, Eq, Structural)]
pub enum Key {
    Char(char),
    Enter,
    Tab,
    Backspace,
    Delete,
    Up,
    Down,
    Left,
    Right,
    Home,
    End,
    PageUp,
    PageDown,
    Esc,
    F(u8),
    Other,
}

/// The kind of a mouse event.
#[derive(Debug, Clone, Copy, PartialEq, Eq, Structural)]
pub enum MouseKind {
    LeftDown,
    ScrollUp,
    ScrollDown,
    Other,
}

/// ASCII lower-casing of a single character (other characters unchanged).
pub open spec fn ascii_lower(c: char) -> char {
    if 'A' <= c && c <= 'Z' {
        ((c as u32) + 32) as char
    } else {
        c
    }
}

/// The bytes a terminal expects for a key, or `None` for keys that are not
/// forwarded. With Control held, a letter becomes its control code (1..=26).
pub open spec fn spec_key_bytes(key: Key, ctrl: bool) -> Option<Seq<u8>> {
    match key {
        Key::Char(c) => if ctrl && 'a' <= ascii_lower(c) && ascii_lower(c) <= 'z' {
            Some(seq![((ascii_lower(c) as u32) - ('a' as u32) + 1) as u8])
        } else {
            Some(vstd::utf8::encode_utf8(seq![c]))
        },
        Key::Enter => Some(seq![13u8]),
        Key::Tab => Some(seq![9u8]),
        Key::Backspace => Some(seq![0x7fu8]),
        Key::Delete => Some(seq![0x1bu8, 0x5bu8, 0x33u8, 0x7eu8]),
        Key::Up => Some(seq![0x1bu8, 0x5bu8, 0x41u8]),
        Key::Down => Some(seq![0x1bu8, 0x5bu8, 0x42u8]),
        Key::Right => Some(seq![0x1bu8, 0x5bu8, 0x43u8]),
        Key::Left => Some(seq![0x1bu8, 0x5bu8, 0x44u8]),
        Key::Home => Some(seq![0x1bu8, 0x5bu8, 0x48u8]),
        Key::End => Some(seq![0x1bu8, 0x5bu8, 0x46u8]),
        _ => None,
    }
}

/// The UTF-8 encoding of one character.
pub fn char_utf8(c: char) -> (v: Vec<u8>)
    ensures
        v@ == vstd::utf8::encode_utf8(seq![c]),
{
    let mut s = String::new();
    push_char(&mut s, c);
    assert(s@ == seq![c]);
    vstd::slice::slice_to_vec(s.as_str().as_bytes())
}

fn lower_ascii(c: char) -> (r: char)
    ensures
        r == ascii_lower(c),
{
    if 'A' <= c && c <= 'Z' {
        let u = ((c as u32) + 32) as u8;
        u as char
    } else {
        c
    }
}

/// The bytes a terminal expects for a key.
pub fn key_bytes(key: Key, ctrl: bool) -> (r: Option<Vec<u8>>)
    ensures
        match r {
            Some(v) => spec_key_bytes(key, ctrl) == Some(v@),
            None => spec_key_bytes(key, ctrl) is None,
        },
{
    match key {
        Key::Char(c) => {
            if ctrl {
                let lc = lower_ascii(c);
                if 'a' <= lc && lc <= 'z' {
                    let b = ((lc as u32) - ('a' as u32) + 1) as u8;
                    return Some(vec![b]);
                }
            }
            Some(char_utf8(c))
        },
        Key::Enter => Some(vec![13u8]),
        Key::Tab => Some(vec![9u8]),
        Key::Backspace => Some(vec![0x7fu8]),
        Key::Delete => Some(vec![0x1bu8, 0x5bu8, 0x33u8, 0x7eu8]),
        Key::Up => Some(vec![0x1bu8, 0x5bu8, 0x41u8]),
        Key::Down => Some(vec![0x1bu8, 0x5bu8, 0x42u8]),
        Key::Right => Some(vec![0x1bu8, 0x5bu8, 0x43u8]),
        Key::Left => Some(vec![0x1bu8, 0x5bu8, 0x44u8]),
        Key::Home => Some(vec![0x1bu8, 0x5bu8, 0x48u8]),
        Key::End => Some(vec![0x1bu8, 0x5bu8, 0x46u8]),
        _ => None,
    }
}

/// Law: with Control held, a letter is sent as a single control byte
/// between 1 and 26.
pub proof fn law_ctrl_letter_is_control_code(c: char)
    requires
        'a' <= ascii_lower(c) <= 'z',
    ensures
        spec_key_bytes(Key::Char(c), true) matches Some(b) && b.len() == 1 && 1 <= b[0] <= 26,
{
}

/// Keys that are not characters.
pub open spec fn named_key(k: Key) -> bool {
    !(k is Char)
}

/// Law: the cursor and editing keys are sent as the sequences a terminal
/// expects, whether or not Control is held: ESC `[` and then `A` for Up,
/// `B` for Down, `C` for Right, `D` for Left, `H` for Home, `F` for End,
/// and `3~` for Delete; Enter is a carriage return, Tab a tab and Backspace
/// DEL. Esc, the function keys and the paging keys are not sent. Two
/// different non-character keys are never sent as the same bytes.
pub proof fn law_named_key_bytes(k: Key, j: Key, ctrl: bool, ctrl2: bool)
    ensures
        k == Key::Up ==> spec_key_bytes(k, ctrl) == Some(seq![0x1bu8, 0x5bu8, 0x41u8]),
        k == Key::Down ==> spec_key_bytes(k, ctrl) == Some(seq![0x1bu8, 0x5bu8, 0x42u8]),
        k == Key::Right ==> spec_key_bytes(k, ctrl) == Some(seq![0x1bu8, 0x5bu8, 0x43u8]),
        k == Key::Left ==> spec_key_bytes(k, ctrl) == Some(seq![0x1bu8, 0x5bu8, 0x44u8]),
        k == Key::Home ==> spec_key_bytes(k, ctrl) == Some(seq![0x1bu8, 0x5bu8, 0x48u8]),
        k == Key::End ==> spec_key_bytes(k, ctrl) == Some(seq![0x1bu8, 0x5bu8, 0x46u8]),
        k == Key::Delete ==> spec_key_bytes(k, ctrl) == Some(seq![0x1bu8, 0x5bu8, 0x33u8, 0x7eu8]),
        k == Key::Enter ==> spec_key_bytes(k, ctrl) == Some(seq![0x0du8]),
        k == Key::Tab ==> spec_key_bytes(k, ctrl) == Some(seq![0x09u8]),
        k == Key::Backspace ==> spec_key_bytes(k, ctrl) == Some(seq![0x7fu8]),
        (k == Key::Esc || k is F || k == Key::PageUp || k == Key::PageDown || k == Key::Other)
            ==> spec_key_bytes(k, ctrl) is None,
        named_key(k) && named_key(j) && k != j && spec_key_bytes(k, ctrl) is Some
            ==> spec_key_bytes(k, ctrl) != spec_key_bytes(j, ctrl2),
{
    if named_key(k) && named_key(j) && k != j && spec_key_bytes(k, ctrl) is Some
        && spec_key_bytes(j, ctrl2) is Some {
        let a = spec_key_bytes(k, ctrl)->0;
        let b = spec_key_bytes(j, ctrl2)->0;
        if a == b {
            assert(a.len() == b.len());
            assert(a[0] == b[0]);
            assert(a.last() == b.last());
        }
    }
}

/// Law: with Control held, a letter of either case is sent as its position
/// in the alphabet (Ctrl-A is 1, Ctrl-C is 3); without Control, and for
/// other characters, the character is sent as its UTF-8 bytes.
pub proof fn law_char_key_bytes(c: char, ctrl: bool)
    ensures
        ctrl && 'a' <= c <= 'z' ==> spec_key_bytes(Key::Char(c), ctrl) == Some(
            seq![((c as u32) - 96) as u8],
        ),
        ctrl && 'A' <= c <= 'Z' ==> spec_key_bytes(Key::Char(c), ctrl) == Some(
            seq![((c as u32) - 64) as u8],
        ),
        !(ctrl && (('a' <= c <= 'z') || ('A' <= c <= 'Z'))) ==> spec_key_bytes(Key::Char(c), ctrl)
            == Some(vstd::utf8::encode_utf8(seq![c])),
{
    if 'A' <= c <= 'Z' {
        assert(ascii_lower(c) as u32 == (c as u32) + 32);
    }
}

} // verus!
