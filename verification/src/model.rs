//! What each grammar symbol produces, as a function of the source of numbers,
//! the limits and the depth counter at which the symbol is entered.
//!
//! The grammar:
//!
//! ```text
//! json    : value
//! value   : STRING | NUMBER | object | array | 'true' | 'false' | 'null'
//! object  : '{' pair (',' pair)* '}' | '{' '}'
//! pair    : STRING ':' value
//! array   : '[' value (',' value)* ']' | '[' ']'
//! STRING  : '"' (ESC | SAFECODEPOINT)* '"'
//! ESC     : '\' (["\/bfnrt] | UNICODE)
//! UNICODE : 'u' HEX HEX HEX HEX
//! NUMBER  : '-'? INT ('.' [0-9]+)? EXP?
//! INT     : '0' | [1-9] [0-9]*
//! EXP     : [Ee] [+-]? INT
//! ```

use vstd::prelude::*;
use crate::source::Source;
use crate::{MAX_DEPTH, MAX_REPEAT};

verus! {

/// The bounds of a generation.
#[derive(Clone, Copy, Debug)]
pub struct Limits {
    /// The depth from which on a value is a number.
    pub max_depth: u64,
    /// The exclusive upper bound of every repetition count.
    pub max_repeat: usize,
}

impl Limits {
    /// Both bounds are at least one.
    pub open spec fn wf(&self) -> bool {
        self.max_depth >= 1 && self.max_repeat >= 1
    }

    /// The limits that the crate's constants give.
    pub open spec fn standard_spec() -> Limits {
        Limits { max_depth: MAX_DEPTH, max_repeat: MAX_REPEAT }
    }

    /// The limits that the crate's constants give.
    #[verifier::when_used_as_spec(standard_spec)]
    pub fn standard() -> (res: Limits)
        ensures
            res == Limits::standard_spec(),
            res.wf(),
    {
        Limits { max_depth: MAX_DEPTH, max_repeat: MAX_REPEAT }
    }

    /// The limits with the given bounds, if both are at least one.
    pub fn new(max_depth: u64, max_repeat: usize) -> (res: Option<Limits>)
        ensures
            res.is_some() <==> max_depth >= 1 && max_repeat >= 1,
            res matches Some(l) ==> l.max_depth == max_depth && l.max_repeat == max_repeat
                && l.wf(),
    {
        if max_depth >= 1 && max_repeat >= 1 {
            Some(Limits { max_depth, max_repeat })
        } else {
            None
        }
    }
}

/// What one symbol produces.
pub ghost struct Piece<S> {
    /// The bytes appended to the output.
    pub out: Seq<u8>,
    /// The source after the symbol's draws.
    pub src: S,
    /// How many symbols were entered, the symbol itself included.
    pub calls: nat,
}

/// The depth counter after `calls` more symbols were entered. The counter
/// never passes the largest value of its type: there it stays, which keeps
/// it at or above every cap.
pub open spec fn after(depth: u64, calls: nat) -> u64 {
    if depth + calls <= u64::MAX {
        (depth + calls) as u64
    } else {
        u64::MAX
    }
}

/// How far `depth` is below the cap.
pub open spec fn levels(limits: Limits, depth: u64) -> nat {
    if depth < limits.max_depth {
        (limits.max_depth - depth) as nat
    } else {
        0
    }
}

pub const QUOTE: u8 = 0x22;

pub const BACKSLASH: u8 = 0x5c;

pub const COMMA: u8 = 0x2c;

pub const COLON: u8 = 0x3a;

pub const MINUS: u8 = 0x2d;

pub const PLUS: u8 = 0x2b;

pub const DOT: u8 = 0x2e;

pub const ZERO: u8 = 0x30;

pub const ONE: u8 = 0x31;

pub const LOWER_E: u8 = 0x65;

pub const UPPER_E: u8 = 0x45;

pub const LOWER_U: u8 = 0x75;

pub const OPEN_BRACKET: u8 = 0x5b;

pub const CLOSE_BRACKET: u8 = 0x5d;

pub const OPEN_BRACE: u8 = 0x7b;

pub const CLOSE_BRACE: u8 = 0x7d;

/// The number of candidates that a code point is sampled from: the scalar
/// values below `0x10ffff`.
pub const CANDIDATES: usize = 0x10ffff;

/// How many candidates are drawn for one code point before the fallback is
/// taken. A source may reject forever (one that draws zero does), so the
/// sampling is cut off: of a source that draws evenly, fewer than one
/// candidate in 500 is rejected, and 64 in a row are not met in practice.
pub const ATTEMPTS: usize = 64;

/// The code point taken when every candidate was rejected: a space.
pub const FALLBACK: u32 = 0x20;

/// The bytes of `true`.
pub open spec fn true_text() -> Seq<u8> {
    seq![0x74u8, 0x72u8, 0x75u8, 0x65u8]
}

/// The bytes of `false`.
pub open spec fn false_text() -> Seq<u8> {
    seq![0x66u8, 0x61u8, 0x6cu8, 0x73u8, 0x65u8]
}

/// The bytes of `null`.
pub open spec fn null_text() -> Seq<u8> {
    seq![0x6eu8, 0x75u8, 0x6cu8, 0x6cu8]
}

/// The decimal digit chosen by a draw.
pub open spec fn digit_of(draw: usize) -> u8 {
    (ZERO + draw % 10) as u8
}

/// The nonzero decimal digit chosen by a draw.
pub open spec fn leading_digit_of(draw: usize) -> u8 {
    (ONE + draw % 9) as u8
}

/// The `i`-th of the 22 hexadecimal digits `0-9`, `a-f`, `A-F`.
pub open spec fn hex_digit(i: usize) -> u8 {
    if i < 10 {
        (0x30 + i) as u8
    } else if i < 16 {
        (0x61 + (i - 10)) as u8
    } else {
        (0x41 + (i - 16)) as u8
    }
}

/// The `i`-th of the 8 letters that may follow a backslash: `"\/bfnrt`.
pub open spec fn short_escape(i: usize) -> u8 {
    if i == 0 {
        0x22
    } else if i == 1 {
        0x5c
    } else if i == 2 {
        0x2f
    } else if i == 3 {
        0x62
    } else if i == 4 {
        0x66
    } else if i == 5 {
        0x6e
    } else if i == 6 {
        0x72
    } else {
        0x74
    }
}

/// The candidate code point chosen by a draw.
pub open spec fn candidate_of(draw: usize) -> u32 {
    (draw % CANDIDATES) as u32
}

/// Whether a candidate is kept: a scalar value that is no control character
/// below `0x20`, no quote and no backslash.
pub open spec fn acceptable(c: u32) -> bool {
    &&& c >= 0x20
    &&& c != 0x22
    &&& c != 0x5c
    &&& c < 0x110000
    &&& !(0xd800 <= c <= 0xdfff)
}

/// `n` decimal digits, one draw each.
pub open spec fn digits<S: Source>(src: S, n: nat) -> Piece<S>
    decreases n,
{
    if n == 0 {
        Piece { out: Seq::empty(), src, calls: 0 }
    } else {
        let rest = digits(src.advanced(), (n - 1) as nat);
        Piece { out: seq![digit_of(src.drawn())] + rest.out, src: rest.src, calls: 0 }
    }
}

/// `INT`: a draw chooses between `0` and a nonzero digit followed by fewer
/// than `max_repeat` digits.
pub open spec fn int_gen<S: Source>(src: S, limits: Limits) -> Piece<S> {
    let s1 = src.advanced();
    if src.drawn() % 2 == 0 {
        Piece { out: seq![ZERO], src: s1, calls: 1 }
    } else {
        let s2 = s1.advanced();
        let n = (s2.drawn() % limits.max_repeat) as nat;
        let more = digits(s2.advanced(), n);
        Piece { out: seq![leading_digit_of(s1.drawn())] + more.out, src: more.src, calls: 1 }
    }
}

/// The letter and the optional sign that open an exponent.
pub open spec fn exp_head<S: Source>(src: S) -> Piece<S> {
    let letter = if src.drawn() % 2 == 0 {
        LOWER_E
    } else {
        UPPER_E
    };
    let s1 = src.advanced();
    let s2 = s1.advanced();
    if s1.drawn() % 2 == 1 {
        let sign = if s2.drawn() % 2 == 0 {
            PLUS
        } else {
            MINUS
        };
        Piece { out: seq![letter, sign], src: s2.advanced(), calls: 0 }
    } else {
        Piece { out: seq![letter], src: s2, calls: 0 }
    }
}

/// `EXP`: `e` or `E`, an optional sign, and an `INT`.
pub open spec fn exp_gen<S: Source>(src: S, limits: Limits) -> Piece<S> {
    let head = exp_head(src);
    let whole = int_gen(head.src, limits);
    Piece { out: head.out + whole.out, src: whole.src, calls: 1 + whole.calls }
}

/// The optional fraction of a number: a dot, a digit, and fewer than
/// `max_repeat` further digits.
pub open spec fn fraction<S: Source>(src: S, limits: Limits) -> Piece<S> {
    let s1 = src.advanced();
    if src.drawn() % 2 == 1 {
        let s2 = s1.advanced();
        let n = (s2.drawn() % limits.max_repeat) as nat;
        let more = digits(s2.advanced(), n);
        Piece { out: seq![DOT, digit_of(s1.drawn())] + more.out, src: more.src, calls: 0 }
    } else {
        Piece { out: Seq::empty(), src: s1, calls: 0 }
    }
}

/// `NUMBER`: an optional minus, an `INT`, an optional fraction and an
/// optional `EXP`.
pub open spec fn number_gen<S: Source>(src: S, limits: Limits) -> Piece<S> {
    let sign: Seq<u8> = if src.drawn() % 2 == 1 {
        seq![MINUS]
    } else {
        Seq::empty()
    };
    let whole = int_gen(src.advanced(), limits);
    let frac = fraction(whole.src, limits);
    let s1 = frac.src.advanced();
    if frac.src.drawn() % 2 == 1 {
        let exp = exp_gen(s1, limits);
        Piece {
            out: sign + whole.out + frac.out + exp.out,
            src: exp.src,
            calls: 1 + whole.calls + exp.calls,
        }
    } else {
        Piece { out: sign + whole.out + frac.out, src: s1, calls: 1 + whole.calls }
    }
}

/// `HEX`: one of the 22 hexadecimal digits.
pub open spec fn hex_gen<S: Source>(src: S) -> Piece<S> {
    Piece { out: seq![hex_digit(src.drawn() % 22)], src: src.advanced(), calls: 1 }
}

/// `UNICODE`: `u` and four `HEX`.
pub open spec fn unicode_gen<S: Source>(src: S) -> Piece<S> {
    let h1 = hex_gen(src);
    let h2 = hex_gen(h1.src);
    let h3 = hex_gen(h2.src);
    let h4 = hex_gen(h3.src);
    Piece { out: seq![LOWER_U] + h1.out + h2.out + h3.out + h4.out, src: h4.src, calls: 5 }
}

/// The code point that sampling settles on, and the source after it: the
/// first acceptable candidate among the next `attempts` draws, or the
/// fallback after `attempts` rejected ones.
pub open spec fn sample<S: Source>(src: S, attempts: nat) -> (u32, S)
    decreases attempts,
{
    if attempts == 0 {
        (FALLBACK, src)
    } else if acceptable(candidate_of(src.drawn())) {
        (candidate_of(src.drawn()), src.advanced())
    } else {
        sample(src.advanced(), (attempts - 1) as nat)
    }
}

/// `SAFECODEPOINT`: the UTF-8 encoding of a sampled code point.
pub open spec fn safe_code_point_gen<S: Source>(src: S) -> Piece<S> {
    let picked = sample(src, ATTEMPTS as nat);
    Piece { out: vstd::utf8::encode_scalar(picked.0), src: picked.1, calls: 1 }
}

/// `ESC`: a backslash, then `UNICODE` or one of the 8 short letters.
pub open spec fn escape_gen<S: Source>(src: S) -> Piece<S> {
    let s1 = src.advanced();
    if src.drawn() % 2 == 0 {
        let u = unicode_gen(s1);
        Piece { out: seq![BACKSLASH] + u.out, src: u.src, calls: 1 + u.calls }
    } else {
        Piece {
            out: seq![BACKSLASH, short_escape(s1.drawn() % 8)],
            src: s1.advanced(),
            calls: 1,
        }
    }
}

/// One unit of a string: a draw chooses between `ESC` and `SAFECODEPOINT`.
pub open spec fn unit_gen<S: Source>(src: S) -> Piece<S> {
    if src.drawn() % 2 == 0 {
        escape_gen(src.advanced())
    } else {
        safe_code_point_gen(src.advanced())
    }
}

/// `n` units of a string.
pub open spec fn units<S: Source>(src: S, n: nat) -> Piece<S>
    decreases n,
{
    if n == 0 {
        Piece { out: Seq::empty(), src, calls: 0 }
    } else {
        let first = unit_gen(src);
        let rest = units(first.src, (n - 1) as nat);
        Piece { out: first.out + rest.out, src: rest.src, calls: first.calls + rest.calls }
    }
}

/// `STRING`: a quote, fewer than `max_repeat` units, and a quote. Past the
/// cap the string is empty.
pub open spec fn string_gen<S: Source>(src: S, limits: Limits, depth: u64) -> Piece<S> {
    if after(depth, 1) <= limits.max_depth {
        let n = (src.drawn() % limits.max_repeat) as nat;
        let body = units(src.advanced(), n);
        Piece { out: seq![QUOTE] + body.out + seq![QUOTE], src: body.src, calls: 1 + body.calls }
    } else {
        Piece { out: seq![QUOTE, QUOTE], src, calls: 1 }
    }
}

/// `value`: at the cap a number; below it a draw chooses among 101 buckets:
/// 15 for a string, 15 for a number, 30 for an object, 38 for an array, and
/// one each for `true`, `false` and `null`.
pub open spec fn value_gen<S: Source>(src: S, limits: Limits, depth: u64) -> Piece<S>
    decreases levels(limits, depth), 0nat, 0nat,
{
    let d1 = after(depth, 1);
    if d1 >= limits.max_depth {
        let n = number_gen(src, limits);
        Piece { out: n.out, src: n.src, calls: 1 + n.calls }
    } else {
        let bucket = src.drawn() % 101;
        let s1 = src.advanced();
        if bucket < 15 {
            let s = string_gen(s1, limits, d1);
            Piece { out: s.out, src: s.src, calls: 1 + s.calls }
        } else if bucket < 30 {
            let n = number_gen(s1, limits);
            Piece { out: n.out, src: n.src, calls: 1 + n.calls }
        } else if bucket < 60 {
            let o = object_gen(s1, limits, d1);
            Piece { out: o.out, src: o.src, calls: 1 + o.calls }
        } else if bucket < 98 {
            let a = array_gen(s1, limits, d1);
            Piece { out: a.out, src: a.src, calls: 1 + a.calls }
        } else if bucket == 98 {
            Piece { out: true_text(), src: s1, calls: 1 }
        } else if bucket == 99 {
            Piece { out: false_text(), src: s1, calls: 1 }
        } else {
            Piece { out: null_text(), src: s1, calls: 1 }
        }
    }
}

/// `pair`: a string, a colon and a value.
pub open spec fn pair_gen<S: Source>(src: S, limits: Limits, depth: u64) -> Piece<S>
    decreases levels(limits, depth), 1nat, 0nat,
{
    let d1 = after(depth, 1);
    let key = string_gen(src, limits, d1);
    let value = value_gen(key.src, limits, after(d1, key.calls));
    Piece {
        out: key.out + seq![COLON] + value.out,
        src: value.src,
        calls: 1 + key.calls + value.calls,
    }
}

/// `n` further values of an array, each after a comma.
pub open spec fn items<S: Source>(src: S, limits: Limits, depth: u64, n: nat) -> Piece<S>
    decreases levels(limits, depth), 2nat, n,
{
    if n == 0 {
        Piece { out: Seq::empty(), src, calls: 0 }
    } else {
        let first = value_gen(src, limits, depth);
        let rest = items(first.src, limits, after(depth, first.calls), (n - 1) as nat);
        Piece {
            out: seq![COMMA] + first.out + rest.out,
            src: rest.src,
            calls: first.calls + rest.calls,
        }
    }
}

/// `array`: one draw in ten gives `[]`; otherwise a value and, unless the
/// counter has passed the cap, fewer than `max_repeat` further values.
pub open spec fn array_gen<S: Source>(src: S, limits: Limits, depth: u64) -> Piece<S>
    decreases levels(limits, depth), 3nat, 0nat,
{
    let d1 = after(depth, 1);
    let s1 = src.advanced();
    if src.drawn() % 10 == 0 {
        Piece { out: seq![OPEN_BRACKET, CLOSE_BRACKET], src: s1, calls: 1 }
    } else {
        let first = value_gen(s1, limits, d1);
        let d2 = after(d1, first.calls);
        if d2 <= limits.max_depth {
            let n = (first.src.drawn() % limits.max_repeat) as nat;
            let rest = items(first.src.advanced(), limits, d2, n);
            Piece {
                out: seq![OPEN_BRACKET] + first.out + rest.out + seq![CLOSE_BRACKET],
                src: rest.src,
                calls: 1 + first.calls + rest.calls,
            }
        } else {
            Piece {
                out: seq![OPEN_BRACKET] + first.out + seq![CLOSE_BRACKET],
                src: first.src,
                calls: 1 + first.calls,
            }
        }
    }
}

/// `n` further pairs of an object, each after a comma.
pub open spec fn members<S: Source>(src: S, limits: Limits, depth: u64, n: nat) -> Piece<S>
    decreases levels(limits, depth), 2nat, n,
{
    if n == 0 {
        Piece { out: Seq::empty(), src, calls: 0 }
    } else {
        let first = pair_gen(src, limits, depth);
        let rest = members(first.src, limits, after(depth, first.calls), (n - 1) as nat);
        Piece {
            out: seq![COMMA] + first.out + rest.out,
            src: rest.src,
            calls: first.calls + rest.calls,
        }
    }
}

/// `object`: one draw in ten gives `{}`; otherwise a pair and, unless the
/// counter has passed the cap, fewer than `max_repeat` further pairs.
pub open spec fn object_gen<S: Source>(src: S, limits: Limits, depth: u64) -> Piece<S>
    decreases levels(limits, depth), 3nat, 0nat,
{
    let d1 = after(depth, 1);
    let s1 = src.advanced();
    if src.drawn() % 10 == 0 {
        Piece { out: seq![OPEN_BRACE, CLOSE_BRACE], src: s1, calls: 1 }
    } else {
        let first = pair_gen(s1, limits, d1);
        let d2 = after(d1, first.calls);
        if d2 <= limits.max_depth {
            let n = (first.src.drawn() % limits.max_repeat) as nat;
            let rest = members(first.src.advanced(), limits, d2, n);
            Piece {
                out: seq![OPEN_BRACE] + first.out + rest.out + seq![CLOSE_BRACE],
                src: rest.src,
                calls: 1 + first.calls + rest.calls,
            }
        } else {
            Piece {
                out: seq![OPEN_BRACE] + first.out + seq![CLOSE_BRACE],
                src: first.src,
                calls: 1 + first.calls,
            }
        }
    }
}

/// `json`: a value.
pub open spec fn json_gen<S: Source>(src: S, limits: Limits, depth: u64) -> Piece<S> {
    let value = value_gen(src, limits, after(depth, 1));
    Piece { out: value.out, src: value.src, calls: 1 + value.calls }
}

} // verus!
