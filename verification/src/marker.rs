//! The marker grammar: which text payloads open or close a block.

use vstd::prelude::*;
use vstd::string::*;
use vstd::utf8::*;

verus! {

/// Number of characters of the open prefix, `{:.`.
pub const OPEN_PREFIX_LEN: usize = 3;

/// Number of characters of the close prefix, `{:/.`.
pub const CLOSE_PREFIX_LEN: usize = 4;

/// Number of characters of the shortest marker, `{:/.}`: the close prefix and
/// the terminator. No shorter payload is looked at any further.
pub const MIN_MARKER_LEN: usize = CLOSE_PREFIX_LEN + 1;

/// The characters every open marker starts with.
pub open spec fn open_prefix() -> Seq<char> {
    seq!['{', ':', '.']
}

/// The characters every close marker starts with.
pub open spec fn close_prefix() -> Seq<char> {
    seq!['{', ':', '/', '.']
}

/// The character every marker ends with.
pub open spec fn terminator() -> char {
    '}'
}

/// `s` starts with the open prefix and ends with the terminator.
pub open spec fn has_open_shape(s: Seq<char>) -> bool {
    open_prefix().is_prefix_of(s) && s.last() == terminator()
}

/// `s` starts with the close prefix and ends with the terminator.
pub open spec fn has_close_shape(s: Seq<char>) -> bool {
    close_prefix().is_prefix_of(s) && s.last() == terminator()
}

/// What lies strictly between a prefix of `prefix_len` characters and the
/// last character of `s`.
pub open spec fn interior(s: Seq<char>, prefix_len: nat) -> Seq<char> {
    s.subrange(prefix_len as int, s.len() - 1)
}

/// What a text payload is, as a mathematical value.
pub enum MarkerView {
    /// Opens a block with the given class name.
    Open(Seq<char>),
    /// Closes the innermost block; the class name is carried but never compared.
    Close(Seq<char>),
    /// Ordinary text.
    Plain,
}

/// The classification of a payload: payloads shorter than
/// [`MIN_MARKER_LEN`] are plain whatever their shape, longer ones are
/// classified by prefix and terminator alone, the interior being taken
/// verbatim as the class name.
pub open spec fn classify_spec(s: Seq<char>) -> MarkerView {
    if s.len() < MIN_MARKER_LEN {
        MarkerView::Plain
    } else if has_open_shape(s) {
        MarkerView::Open(interior(s, OPEN_PREFIX_LEN as nat))
    } else if has_close_shape(s) {
        MarkerView::Close(interior(s, CLOSE_PREFIX_LEN as nat))
    } else {
        MarkerView::Plain
    }
}

/// `s` is an open marker.
pub open spec fn is_open_marker(s: Seq<char>) -> bool {
    classify_spec(s) is Open
}

/// `s` is a close marker.
pub open spec fn is_close_marker(s: Seq<char>) -> bool {
    classify_spec(s) is Close
}

/// What a text payload is.
#[derive(Debug, Clone, PartialEq, Eq)]
pub enum Marker {
    /// Opens a block with the given class name.
    Open(String),
    /// Closes the innermost block; the class name is carried but never compared.
    Close(String),
    /// Ordinary text.
    Plain,
}

impl View for Marker {
    type V = MarkerView;

    open spec fn view(&self) -> MarkerView {
        match self {
            Marker::Open(name) => MarkerView::Open(name@),
            Marker::Close(name) => MarkerView::Close(name@),
            Marker::Plain => MarkerView::Plain,
        }
    }
}

/// A string has at least as many bytes as characters.
proof fn lemma_encoding_not_shorter(chars: Seq<char>)
    ensures
        chars.len() <= encode_utf8(chars).len(),
    decreases chars.len(),
{
    if chars.len() > 0 {
        lemma_encoding_not_shorter(chars.drop_first());
    }
}

/// Classifies a text payload.
pub fn classify(text: &str) -> (marker: Marker)
    ensures
        marker@ == classify_spec(text@),
{
    if text.as_bytes().len() < MIN_MARKER_LEN {
        proof {
            lemma_encoding_not_shorter(text@);
        }
        return Marker::Plain;
    }
    let n: usize = text.unicode_len();
    if n < MIN_MARKER_LEN {
        return Marker::Plain;
    }
    if text.get_char(n - 1) != '}' || text.get_char(0) != '{' || text.get_char(1) != ':' {
        return Marker::Plain;
    }
    let third: char = text.get_char(2);
    if third == '.' {
        let name = text.substring_char(OPEN_PREFIX_LEN, n - 1);
        Marker::Open(name.to_owned())
    } else if third == '/' && text.get_char(3) == '.' {
        let name = text.substring_char(CLOSE_PREFIX_LEN, n - 1);
        Marker::Close(name.to_owned())
    } else {
        Marker::Plain
    }
}

} // verus!
