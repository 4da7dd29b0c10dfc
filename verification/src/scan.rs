//! A reading of generated text, byte by byte, that keeps track of string
//! literals and of the brackets that are open. It says what it means for the
//! brackets of a text to be balanced.

use vstd::prelude::*;
use crate::model::{BACKSLASH, CLOSE_BRACE, CLOSE_BRACKET, OPEN_BRACE, OPEN_BRACKET, QUOTE};

verus! {

/// The state of a reading.
pub ghost struct Scan {
    /// The brackets and braces that are open, the innermost last.
    pub open: Seq<u8>,
    /// Whether the reading is inside a string literal.
    pub in_string: bool,
    /// Whether the last byte was a backslash that escapes the next one.
    pub escaped: bool,
    /// Whether a bracket was closed that was not the innermost open one.
    pub failed: bool,
}

/// The state before anything is read.
pub open spec fn start() -> Scan {
    Scan { open: Seq::empty(), in_string: false, escaped: false, failed: false }
}

/// A state between tokens: outside any string, nothing failed.
pub open spec fn outside(st: Scan) -> bool {
    !st.failed && !st.in_string && !st.escaped
}

/// A state inside a string literal, not after an escaping backslash.
pub open spec fn inside(st: Scan) -> bool {
    !st.failed && st.in_string && !st.escaped
}

/// The state after one more byte.
pub open spec fn scan_byte(st: Scan, b: u8) -> Scan {
    if st.failed {
        st
    } else if st.in_string {
        if st.escaped {
            Scan { escaped: false, ..st }
        } else if b == BACKSLASH {
            Scan { escaped: true, ..st }
        } else if b == QUOTE {
            Scan { in_string: false, ..st }
        } else {
            st
        }
    } else if b == QUOTE {
        Scan { in_string: true, ..st }
    } else if b == OPEN_BRACKET || b == OPEN_BRACE {
        Scan { open: st.open.push(b), ..st }
    } else if b == CLOSE_BRACKET {
        if st.open.len() > 0 && st.open.last() == OPEN_BRACKET {
            Scan { open: st.open.drop_last(), ..st }
        } else {
            Scan { failed: true, ..st }
        }
    } else if b == CLOSE_BRACE {
        if st.open.len() > 0 && st.open.last() == OPEN_BRACE {
            Scan { open: st.open.drop_last(), ..st }
        } else {
            Scan { failed: true, ..st }
        }
    } else {
        st
    }
}

/// The state after the bytes of `text`.
pub open spec fn scan(st: Scan, text: Seq<u8>) -> Scan
    decreases text.len(),
{
    if text.len() == 0 {
        st
    } else {
        scan(scan_byte(st, text[0]), text.drop_first())
    }
}

/// Whether a reading that is between tokens is in the same state after
/// `text`: every string literal of `text` is closed, every bracket closes the
/// innermost open one, and none is left open.
pub open spec fn closed(text: Seq<u8>) -> bool {
    forall|st: Scan| outside(st) ==> #[trigger] scan(st, text) == st
}

/// Whether the brackets of `text` are balanced: read from the start, every
/// closing bracket closes the innermost open one, and at the end no bracket
/// and no string literal is open.
pub open spec fn balanced(text: Seq<u8>) -> bool {
    scan(start(), text) == start()
}

/// Whether a byte changes no state but one after a backslash: it is no
/// quote, backslash, bracket or brace.
pub open spec fn plain(b: u8) -> bool {
    b != QUOTE && b != BACKSLASH && b != OPEN_BRACKET && b != CLOSE_BRACKET && b != OPEN_BRACE
        && b != CLOSE_BRACE
}

/// Whether a byte leaves a reading inside a string where it is: it is no
/// quote and no backslash.
pub open spec fn quiet(b: u8) -> bool {
    b != QUOTE && b != BACKSLASH
}

/// Reading one byte is one step.
pub proof fn scan_one(st: Scan, b: u8)
    ensures
        scan(st, seq![b]) == scan_byte(st, b),
{
    let text = seq![b];
    assert(text.drop_first() =~= Seq::<u8>::empty());
    assert(scan(scan_byte(st, b), text.drop_first()) == scan_byte(st, b));
}

/// Reading two texts in a row is reading their concatenation.
pub proof fn scan_concat(st: Scan, a: Seq<u8>, b: Seq<u8>)
    ensures
        scan(st, a + b) == scan(scan(st, a), b),
    decreases a.len(),
{
    if a.len() == 0 {
        assert(a + b =~= b);
    } else {
        assert((a + b).drop_first() =~= a.drop_first() + b);
        scan_concat(scan_byte(st, a[0]), a.drop_first(), b);
    }
}

/// Plain bytes leave a reading where it is, inside a string and outside.
pub proof fn scan_plain(st: Scan, text: Seq<u8>)
    requires
        !st.escaped,
        forall|i: int| 0 <= i < text.len() ==> plain(#[trigger] text[i]),
    ensures
        scan(st, text) == st,
    decreases text.len(),
{
    if text.len() > 0 {
        assert(plain(text[0]));
        assert forall|i: int| 0 <= i < text.drop_first().len() implies plain(
            #[trigger] text.drop_first()[i],
        ) by {
            assert(text.drop_first()[i] == text[i + 1]);
        }
        scan_plain(st, text.drop_first());
    }
}

/// Bytes that are neither quote nor backslash leave a reading inside a
/// string where it is.
pub proof fn scan_quiet(st: Scan, text: Seq<u8>)
    requires
        inside(st),
        forall|i: int| 0 <= i < text.len() ==> quiet(#[trigger] text[i]),
    ensures
        scan(st, text) == st,
    decreases text.len(),
{
    if text.len() > 0 {
        assert(quiet(text[0]));
        assert forall|i: int| 0 <= i < text.drop_first().len() implies quiet(
            #[trigger] text.drop_first()[i],
        ) by {
            assert(text.drop_first()[i] == text[i + 1]);
        }
        scan_quiet(st, text.drop_first());
    }
}

/// A text that is closed has balanced brackets.
pub proof fn closed_is_balanced(text: Seq<u8>)
    requires
        closed(text),
    ensures
        balanced(text),
{
    assert(outside(start()));
}

/// Two closed texts in a row are closed.
pub proof fn closed_concat(a: Seq<u8>, b: Seq<u8>)
    requires
        closed(a),
        closed(b),
    ensures
        closed(a + b),
{
    assert forall|st: Scan| outside(st) implies #[trigger] scan(st, a + b) == st by {
        scan_concat(st, a, b);
    }
}

/// A text of plain bytes is closed.
pub proof fn plain_is_closed(text: Seq<u8>)
    requires
        forall|i: int| 0 <= i < text.len() ==> plain(#[trigger] text[i]),
    ensures
        closed(text),
{
    assert forall|st: Scan| outside(st) implies #[trigger] scan(st, text) == st by {
        scan_plain(st, text);
    }
}

/// A closed text between a bracket and the bracket that matches it is
/// closed; so it is between braces.
pub proof fn closed_in_brackets(opening: u8, body: Seq<u8>, closing: u8)
    requires
        closed(body),
        (opening == OPEN_BRACKET && closing == CLOSE_BRACKET) || (opening == OPEN_BRACE && closing
            == CLOSE_BRACE),
    ensures
        closed(seq![opening] + body + seq![closing]),
{
    assert forall|st: Scan| outside(st) implies #[trigger] scan(
        st,
        seq![opening] + body + seq![closing],
    ) == st by {
        let s1 = scan_byte(st, opening);
        scan_one(st, opening);
        scan_concat(st, seq![opening], body);
        assert(outside(s1));
        assert(scan(s1, body) == s1);
        scan_concat(st, seq![opening] + body, seq![closing]);
        scan_one(s1, closing);
        assert(s1.open.drop_last() =~= st.open);
    }
}

/// A text that a reading inside a string passes unchanged is closed once it
/// stands between quotes.
pub proof fn closed_in_quotes(body: Seq<u8>)
    requires
        forall|st: Scan| inside(st) ==> #[trigger] scan(st, body) == st,
    ensures
        closed(seq![QUOTE] + body + seq![QUOTE]),
{
    assert forall|st: Scan| outside(st) implies #[trigger] scan(
        st,
        seq![QUOTE] + body + seq![QUOTE],
    ) == st by {
        let s1 = scan_byte(st, QUOTE);
        scan_one(st, QUOTE);
        scan_concat(st, seq![QUOTE], body);
        assert(inside(s1));
        assert(scan(s1, body) == s1);
        scan_concat(st, seq![QUOTE] + body, seq![QUOTE]);
        scan_one(s1, QUOTE);
    }
}

} // verus!
