//! Decoding raw terminal bytes into logical editing commands.
//!
//! The decoder is a pure function of the bytes that arrived: one byte that is
//! not the escape byte is the character itself; an escape byte followed by a
//! bracketed sequence names a special key; any unrecognized or truncated
//! sequence degrades to the plain escape character.

use vstd::prelude::*;

verus! {

/// The escape byte that starts a multi-byte key sequence.
pub const ESCAPE: u8 = 0x1b;

/// A logical editing command produced by the key decoder.
#[derive(Clone, Copy, Debug, PartialEq, Eq, Structural)]
pub enum EditorKey {
    ArrowLeft,
    ArrowRight,
    ArrowUp,
    ArrowDown,
    DelKey,
    HomeKey,
    EndKey,
    PageUp,
    PageDown,
    Char(u8),
}

/// The key that ends the editor loop: Ctrl-Q.
pub open spec fn quit_key() -> EditorKey {
    EditorKey::Char(17)
}

/// Meaning of `ESC [ <digit> ~`.
pub open spec fn tilde_key(d: u8) -> EditorKey {
    if d == 49 || d == 55 {
        EditorKey::HomeKey
    } else if d == 51 {
        EditorKey::DelKey
    } else if d == 52 || d == 56 {
        EditorKey::EndKey
    } else if d == 53 {
        EditorKey::PageUp
    } else if d == 54 {
        EditorKey::PageDown
    } else {
        EditorKey::Char(ESCAPE)
    }
}

/// Meaning of `ESC [ <letter>`.
pub open spec fn bracket_key(l: u8) -> EditorKey {
    if l == 65 {
        EditorKey::ArrowUp
    } else if l == 66 {
        EditorKey::ArrowDown
    } else if l == 67 {
        EditorKey::ArrowRight
    } else if l == 68 {
        EditorKey::ArrowLeft
    } else if l == 72 {
        EditorKey::HomeKey
    } else if l == 70 {
        EditorKey::EndKey
    } else {
        EditorKey::Char(ESCAPE)
    }
}

/// Meaning of `ESC O <letter>`.
pub open spec fn o_key(l: u8) -> EditorKey {
    if l == 72 {
        EditorKey::HomeKey
    } else if l == 70 {
        EditorKey::EndKey
    } else {
        EditorKey::Char(ESCAPE)
    }
}

/// Meaning of the follow-up bytes that arrived after an escape byte.
/// A sequence that is too short or unrecognized means a bare escape key.
pub open spec fn decode_escape_spec(seq: Seq<u8>) -> EditorKey {
    if seq.len() < 2 {
        EditorKey::Char(ESCAPE)
    } else if seq[0] == 91 {
        if 48 <= seq[1] && seq[1] <= 57 {
            if seq.len() >= 3 && seq[2] == 126 {
                tilde_key(seq[1])
            } else {
                EditorKey::Char(ESCAPE)
            }
        } else {
            bracket_key(seq[1])
        }
    } else if seq[0] == 79 {
        o_key(seq[1])
    } else {
        EditorKey::Char(ESCAPE)
    }
}

/// Meaning of a whole key's bytes: a non-escape lead byte is itself; an
/// escape lead byte is decoded from what follows it.
pub open spec fn decode_key_spec(bytes: Seq<u8>) -> EditorKey {
    if bytes[0] != ESCAPE {
        EditorKey::Char(bytes[0])
    } else {
        decode_escape_spec(bytes.skip(1))
    }
}

/// Whether an escape sequence that begins with these two follow-up bytes
/// needs a third byte (the closing `~` of `ESC [ <digit> ~`) before it can
/// be decoded.
pub fn escape_needs_third(s0: u8, s1: u8) -> (r: bool)
    ensures
        r == (s0 == 91 && 48 <= s1 && s1 <= 57),
{
    s0 == 91 && 48 <= s1 && s1 <= 57
}

/// Decode the bytes of one key press. `bytes` holds the lead byte and, after
/// an escape byte, whatever follow-up bytes the terminal delivered in time
/// (up to three).
pub fn decode_key(bytes: &Vec<u8>) -> (key: EditorKey)
    requires
        bytes@.len() >= 1,
    ensures
        key == decode_key_spec(bytes@),
{
    let first = bytes[0];
    if first != ESCAPE {
        return EditorKey::Char(first);
    }
    let ghost seq = bytes@.skip(1);
    if bytes.len() < 3 {
        assert(seq.len() < 2);
        return EditorKey::Char(ESCAPE);
    }
    let s0 = bytes[1];
    let s1 = bytes[2];
    assert(seq[0] == bytes@[1] && seq[1] == bytes@[2]);
    if s0 == 91 {
        if 48 <= s1 && s1 <= 57 {
            if bytes.len() >= 4 && bytes[3] == 126 {
                assert(seq[2] == bytes@[3]);
                if s1 == 49 || s1 == 55 {
                    EditorKey::HomeKey
                } else if s1 == 51 {
                    EditorKey::DelKey
                } else if s1 == 52 || s1 == 56 {
                    EditorKey::EndKey
                } else if s1 == 53 {
                    EditorKey::PageUp
                } else if s1 == 54 {
                    EditorKey::PageDown
                } else {
                    EditorKey::Char(ESCAPE)
                }
            } else {
                assert(seq.len() >= 3 ==> seq[2] == bytes@[3]);
                EditorKey::Char(ESCAPE)
            }
        } else {
            if s1 == 65 {
                EditorKey::ArrowUp
            } else if s1 == 66 {
                EditorKey::ArrowDown
            } else if s1 == 67 {
                EditorKey::ArrowRight
            } else if s1 == 68 {
                EditorKey::ArrowLeft
            } else if s1 == 72 {
                EditorKey::HomeKey
            } else if s1 == 70 {
                EditorKey::EndKey
            } else {
                EditorKey::Char(ESCAPE)
            }
        }
    } else if s0 == 79 {
        if s1 == 72 {
            EditorKey::HomeKey
        } else if s1 == 70 {
            EditorKey::EndKey
        } else {
            EditorKey::Char(ESCAPE)
        }
    } else {
        EditorKey::Char(ESCAPE)
    }
}

/// The control-key form of a character: its low five bits, as a terminal
/// sends it when the key is pressed together with Ctrl.
pub fn ctrl_key(k: u8) -> (r: u8)
    ensures
        r == (k & 0x1f),
{
    k & 0x1f
}

} // verus!
