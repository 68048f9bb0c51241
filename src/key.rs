use vstd::prelude::*;

verus! {

/// A key press, as the terminal sends it.
#[derive(PartialEq, Eq, Clone, Copy, Debug, Structural)]
pub enum Key {
    Character(u8),
    ArrowLeft,
    ArrowRight,
    ArrowUp,
    ArrowDown,
    Delete,
    Home,
    End,
    PageUp,
    PageDown,
}

/// The key of `ESC [ <digit> ~`.
pub open spec fn tilde_key(d: u8) -> Key {
    if d == 49 || d == 55 {
        Key::Home
    } else if d == 51 {
        Key::Delete
    } else if d == 52 || d == 56 {
        Key::End
    } else if d == 53 {
        Key::PageUp
    } else if d == 54 {
        Key::PageDown
    } else {
        Key::Character(27)
    }
}

/// The key of `ESC [ <letter>`.
pub open spec fn bracket_key(b: u8) -> Key {
    if b == 65 {
        Key::ArrowUp
    } else if b == 66 {
        Key::ArrowDown
    } else if b == 67 {
        Key::ArrowRight
    } else if b == 68 {
        Key::ArrowLeft
    } else if b == 72 {
        Key::Home
    } else if b == 70 {
        Key::End
    } else {
        Key::Character(27)
    }
}

/// The key of `ESC O <letter>`.
pub open spec fn o_key(b: u8) -> Key {
    if b == 72 {
        Key::Home
    } else if b == 70 {
        Key::End
    } else {
        Key::Character(27)
    }
}

/// The key that the bytes waiting on the terminal start with, and how many
/// of them it takes: a plain byte, or an escape sequence. After an escape the
/// next two bytes are taken as they come (fewer if fewer wait); a sequence
/// that is not known is the escape key itself.
pub open spec fn decode_key(s: Seq<u8>) -> Option<(Key, nat)> {
    if s.len() == 0 {
        None
    } else if s[0] != 27 {
        Some((Key::Character(s[0]), 1))
    } else if s.len() >= 3 && s[1] == 91 {
        if 48 <= s[2] <= 57 {
            if s.len() >= 4 {
                if s[3] == 126 {
                    Some((tilde_key(s[2]), 4))
                } else {
                    Some((Key::Character(27), 4))
                }
            } else {
                Some((Key::Character(27), 3))
            }
        } else {
            Some((bracket_key(s[2]), 3))
        }
    } else if s.len() >= 3 && s[1] == 79 {
        Some((o_key(s[2]), 3))
    } else if s.len() >= 3 {
        Some((Key::Character(27), 3))
    } else {
        Some((Key::Character(27), s.len()))
    }
}

fn tilde_key_of(d: u8) -> (r: Key)
    ensures
        r == tilde_key(d),
{
    match d {
        49 | 55 => Key::Home,
        51 => Key::Delete,
        52 | 56 => Key::End,
        53 => Key::PageUp,
        54 => Key::PageDown,
        _ => Key::Character(27),
    }
}

fn bracket_key_of(b: u8) -> (r: Key)
    ensures
        r == bracket_key(b),
{
    match b {
        65 => Key::ArrowUp,
        66 => Key::ArrowDown,
        67 => Key::ArrowRight,
        68 => Key::ArrowLeft,
        72 => Key::Home,
        70 => Key::End,
        _ => Key::Character(27),
    }
}

fn o_key_of(b: u8) -> (r: Key)
    ensures
        r == o_key(b),
{
    match b {
        72 => Key::Home,
        70 => Key::End,
        _ => Key::Character(27),
    }
}

impl Key {
    pub fn char(c: u8) -> (r: Key)
        ensures
            r == Key::Character(c),
    {
        Key::Character(c)
    }

    /// The key of control and `c`: its low five bits.
    pub fn ctrl(c: u8) -> (r: Key)
        ensures
            r == Key::Character(c & 0x1f),
    {
        Key::Character(c & 0x1f)
    }

    pub fn backspace() -> (r: Key)
        ensures
            r == Key::Character(127),
    {
        Key::Character(127)
    }

    pub fn escape() -> (r: Key)
        ensures
            r == Key::Character(27),
    {
        Key::Character(27)
    }

    /// The key that `input`, the bytes waiting on standard input, starts
    /// with, and how many bytes it takes; `None` when nothing waits.
    pub fn try_read_from_stdin(input: &[u8]) -> (r: Option<(Key, usize)>)
        ensures
            match r {
                Some((k, n)) => decode_key(input@) == Some((k, n as nat)),
                None => decode_key(input@) is None,
            },
    {
        let n = input.len();
        if n == 0 {
            return None;
        }
        if input[0] != 27 {
            return Some((Key::Character(input[0]), 1));
        }
        if n >= 3 && input[1] == 91 {
            if 48 <= input[2] && input[2] <= 57 {
                if n >= 4 {
                    if input[3] == 126 {
                        Some((tilde_key_of(input[2]), 4))
                    } else {
                        Some((Key::Character(27), 4))
                    }
                } else {
                    Some((Key::Character(27), 3))
                }
            } else {
                Some((bracket_key_of(input[2]), 3))
            }
        } else if n >= 3 && input[1] == 79 {
            Some((o_key_of(input[2]), 3))
        } else if n >= 3 {
            Some((Key::Character(27), 3))
        } else {
            Some((Key::Character(27), n))
        }
    }
}

} // verus!
