//! The bytes a key press sends to a process's terminal.
use vstd::prelude::*;
use vstd::string::StringSliceAdditionalSpecFns;

verus! {

/// The keys with a name that the terminal knows how to send.
#[derive(Debug, Clone, Copy, PartialEq, Eq, Structural)]
pub enum NamedKey {
    Enter,
    Backspace,
    Tab,
    Escape,
    ArrowUp,
    ArrowDown,
    ArrowRight,
    ArrowLeft,
    Home,
    End,
    PageUp,
    PageDown,
    Delete,
    Space,
    /// Any other named key.
    Other,
}

/// A key press.
pub enum Key {
    /// A key that types text.
    Character(String),
    Named(NamedKey),
    Unidentified,
}

pub enum KeyView {
    Character(Seq<char>),
    Named(NamedKey),
    Unidentified,
}

impl View for Key {
    type V = KeyView;

    open spec fn view(&self) -> KeyView {
        match self {
            Key::Character(s) => KeyView::Character(s@),
            Key::Named(k) => KeyView::Named(*k),
            Key::Unidentified => KeyView::Unidentified,
        }
    }
}

/// The escape sequence of a named key.
pub open spec fn named_key_bytes(k: NamedKey) -> Option<Seq<u8>> {
    match k {
        NamedKey::Enter => Some(seq![13u8]),
        NamedKey::Backspace => Some(seq![0x7fu8]),
        NamedKey::Tab => Some(seq![9u8]),
        NamedKey::Escape => Some(seq![0x1bu8]),
        NamedKey::ArrowUp => Some(seq![0x1bu8, 91u8, 65u8]),
        NamedKey::ArrowDown => Some(seq![0x1bu8, 91u8, 66u8]),
        NamedKey::ArrowRight => Some(seq![0x1bu8, 91u8, 67u8]),
        NamedKey::ArrowLeft => Some(seq![0x1bu8, 91u8, 68u8]),
        NamedKey::Home => Some(seq![0x1bu8, 91u8, 72u8]),
        NamedKey::End => Some(seq![0x1bu8, 91u8, 70u8]),
        NamedKey::PageUp => Some(seq![0x1bu8, 91u8, 53u8, 126u8]),
        NamedKey::PageDown => Some(seq![0x1bu8, 91u8, 54u8, 126u8]),
        NamedKey::Delete => Some(seq![0x1bu8, 91u8, 51u8, 126u8]),
        NamedKey::Space => Some(seq![32u8]),
        NamedKey::Other => None,
    }
}

/// `c` with an ASCII capital letter made small (`char::to_ascii_lowercase`).
pub open spec fn ascii_lower(c: char) -> u32 {
    if 'A' <= c && c <= 'Z' {
        (c as u32 + 32) as u32
    } else {
        c as u32
    }
}

/// The low byte of the lower-cased character, as `as u8` keeps it.
pub open spec fn control_byte(c: char) -> u8 {
    (ascii_lower(c) % 256) as u8
}

/// The bytes a key press sends: with Control held, a character whose low
/// byte (lower-cased) is a small ASCII letter sends that letter's control
/// code; any other text is sent as its UTF-8 bytes; named keys send their
/// escape sequences.
pub open spec fn key_bytes_spec(key: KeyView, control: bool) -> Option<Seq<u8>> {
    match key {
        KeyView::Character(s) => if s.len() == 0 {
            None
        } else if control && 97 <= control_byte(s[0]) <= 122 {
            Some(seq![(control_byte(s[0]) - 96) as u8])
        } else {
            Some(vstd::utf8::encode_utf8(s))
        },
        KeyView::Named(k) => named_key_bytes(k),
        KeyView::Unidentified => None,
    }
}

fn named_bytes(k: NamedKey) -> (r: Option<Vec<u8>>)
    ensures
        match r {
            Some(v) => named_key_bytes(k) == Some(v@),
            None => named_key_bytes(k) is None,
        },
{
    let v: Vec<u8> = match k {
        NamedKey::Enter => vec![13u8],
        NamedKey::Backspace => vec![0x7fu8],
        NamedKey::Tab => vec![9u8],
        NamedKey::Escape => vec![0x1bu8],
        NamedKey::ArrowUp => vec![0x1bu8, 91u8, 65u8],
        NamedKey::ArrowDown => vec![0x1bu8, 91u8, 66u8],
        NamedKey::ArrowRight => vec![0x1bu8, 91u8, 67u8],
        NamedKey::ArrowLeft => vec![0x1bu8, 91u8, 68u8],
        NamedKey::Home => vec![0x1bu8, 91u8, 72u8],
        NamedKey::End => vec![0x1bu8, 91u8, 70u8],
        NamedKey::PageUp => vec![0x1bu8, 91u8, 53u8, 126u8],
        NamedKey::PageDown => vec![0x1bu8, 91u8, 54u8, 126u8],
        NamedKey::Delete => vec![0x1bu8, 91u8, 51u8, 126u8],
        NamedKey::Space => vec![32u8],
        NamedKey::Other => {
            return None;
        },
    };
    proof {
        assert(named_key_bytes(k) == Some(v@));
    }
    Some(v)
}

/// The bytes a key press sends to the terminal, if any.
pub fn key_to_bytes(key: &Key, control: bool) -> (r: Option<Vec<u8>>)
    ensures
        match r {
            Some(v) => key_bytes_spec(key@, control) == Some(v@),
            None => key_bytes_spec(key@, control) is None,
        },
{
    match key {
        Key::Character(s) => {
            let t = s.as_str();
            if t.unicode_len() == 0 {
                return None;
            }
            let ch = t.get_char(0);
            let lower: u32 = if 'A' <= ch && ch <= 'Z' {
                ch as u32 + 32
            } else {
                ch as u32
            };
            let code: u8 = (lower % 256) as u8;
            if control && 97 <= code && code <= 122 {
                return Some(vec![code - 96]);
            }
            let bytes = t.as_bytes();
            let mut v: Vec<u8> = Vec::new();
            let mut i: usize = 0;
            while i < bytes.len()
                invariant
                    i <= bytes@.len(),
                    bytes@ == t.spec_bytes(),
                    v@ == bytes@.take(i as int),
                decreases bytes@.len() - i,
            {
                v.push(bytes[i]);
                proof {
                    assert(bytes@.take(i + 1) == bytes@.take(i as int).push(bytes@[i as int]));
                }
                i = i + 1;
            }
            proof {
                assert(bytes@.take(bytes@.len() as int) == bytes@);
            }
            Some(v)
        },
        Key::Named(k) => named_bytes(*k),
        Key::Unidentified => None,
    }
}

/// The cursor keys send the VT cursor sequences, `ESC [` and the key's own
/// final letter: Up `A`, Down `B`, Right `C`, Left `D`, with or without
/// Control; Home and End send `ESC [ H` and `ESC [ F`.
pub proof fn law_cursor_keys_send_their_own_final(control: bool)
    ensures
        key_bytes_spec(KeyView::Named(NamedKey::ArrowUp), control) == Some(
            seq![0x1bu8, '[' as u8, 'A' as u8],
        ),
        key_bytes_spec(KeyView::Named(NamedKey::ArrowDown), control) == Some(
            seq![0x1bu8, '[' as u8, 'B' as u8],
        ),
        key_bytes_spec(KeyView::Named(NamedKey::ArrowRight), control) == Some(
            seq![0x1bu8, '[' as u8, 'C' as u8],
        ),
        key_bytes_spec(KeyView::Named(NamedKey::ArrowLeft), control) == Some(
            seq![0x1bu8, '[' as u8, 'D' as u8],
        ),
        key_bytes_spec(KeyView::Named(NamedKey::Home), control) == Some(
            seq![0x1bu8, '[' as u8, 'H' as u8],
        ),
        key_bytes_spec(KeyView::Named(NamedKey::End), control) == Some(
            seq![0x1bu8, '[' as u8, 'F' as u8],
        ),
{
}

/// The editing keys send their terminal codes: Enter a carriage return,
/// Backspace DEL, Tab a tab, Escape ESC, Space a space, and Page Up, Page
/// Down and Delete the VT sequences `ESC [ 5 ~`, `ESC [ 6 ~` and `ESC [ 3 ~`;
/// a key without a code sends nothing.
pub proof fn law_editing_keys_send_their_codes(control: bool)
    ensures
        key_bytes_spec(KeyView::Named(NamedKey::Enter), control) == Some(seq!['\r' as u8]),
        key_bytes_spec(KeyView::Named(NamedKey::Backspace), control) == Some(seq![0x7fu8]),
        key_bytes_spec(KeyView::Named(NamedKey::Tab), control) == Some(seq!['\t' as u8]),
        key_bytes_spec(KeyView::Named(NamedKey::Escape), control) == Some(seq![0x1bu8]),
        key_bytes_spec(KeyView::Named(NamedKey::Space), control) == Some(seq![' ' as u8]),
        key_bytes_spec(KeyView::Named(NamedKey::PageUp), control) == Some(
            seq![0x1bu8, '[' as u8, '5' as u8, '~' as u8],
        ),
        key_bytes_spec(KeyView::Named(NamedKey::PageDown), control) == Some(
            seq![0x1bu8, '[' as u8, '6' as u8, '~' as u8],
        ),
        key_bytes_spec(KeyView::Named(NamedKey::Delete), control) == Some(
            seq![0x1bu8, '[' as u8, '3' as u8, '~' as u8],
        ),
        key_bytes_spec(KeyView::Named(NamedKey::Other), control) is None,
{
}

} // verus!
