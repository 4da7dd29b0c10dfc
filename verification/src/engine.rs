//! The generator: one function per grammar symbol. Each enters its symbol
//! once on the depth counter, draws from the source, and appends what the
//! model says to the output buffer.

use vstd::prelude::*;
use vstd::utf8::{encode_scalar, is_scalar};
use crate::model::{
    after, array_gen, digits, escape_gen, exp_gen, exp_head, false_text, fraction, hex_digit,
    hex_gen, int_gen, items, json_gen, levels, members, null_text, number_gen, object_gen,
    pair_gen, safe_code_point_gen, sample, short_escape, string_gen, true_text, unicode_gen,
    unit_gen, units, value_gen, Limits, ATTEMPTS, BACKSLASH, CANDIDATES, CLOSE_BRACE,
    CLOSE_BRACKET, COLON, COMMA, DOT, FALLBACK, LOWER_E, LOWER_U, MINUS, ONE, OPEN_BRACE,
    OPEN_BRACKET, PLUS, QUOTE, UPPER_E, ZERO,
};
use crate::source::Source;

verus! {

/// Counts one more symbol on the depth counter.
pub fn enter(depth: &mut u64)
    ensures
        *final(depth) == after(*old(depth), 1),
{
    if *depth < u64::MAX {
        *depth = *depth + 1;
    }
}

/// Appends `n` decimal digits.
fn push_digits<S: Source>(src: &mut S, n: usize, buf: &mut Vec<u8>)
    ensures
        final(buf)@ == old(buf)@ + digits(*old(src), n as nat).out,
        *final(src) == digits(*old(src), n as nat).src,
{
    let ghost all = digits(*src, n as nat);
    let ghost before = buf@;
    let mut i: usize = 0;
    while i < n
        invariant
            i <= n,
            before + all.out == buf@ + digits(*src, (n - i) as nat).out,
            all.src == digits(*src, (n - i) as nat).src,
        decreases n - i,
    {
        let ghost prev = buf@;
        let ghost rest = digits(src.advanced(), (n - i - 1) as nat);
        let draw = src.draw();
        let digit: u8 = ZERO + (draw % 10) as u8;
        buf.push(digit);
        i += 1;
        assert(prev.push(digit) + rest.out =~= prev + (seq![digit] + rest.out));
    }
    assert(buf@ + Seq::<u8>::empty() =~= buf@);
}

/// `INT`: `0`, or a nonzero digit and fewer than `max_repeat` digits.
pub fn emit_int<S: Source>(src: &mut S, limits: Limits, depth: &mut u64, buf: &mut Vec<u8>)
    requires
        limits.wf(),
    ensures
        final(buf)@ == old(buf)@ + int_gen(*old(src), limits).out,
        *final(src) == int_gen(*old(src), limits).src,
        *final(depth) == after(*old(depth), int_gen(*old(src), limits).calls),
{
    enter(depth);
    if src.draw() % 2 == 0 {
        buf.push(ZERO);
        assert(buf@ =~= old(buf)@ + seq![ZERO]);
    } else {
        let lead: u8 = ONE + (src.draw() % 9) as u8;
        buf.push(lead);
        let n = src.draw() % limits.max_repeat;
        let ghost mid = *src;
        push_digits(src, n, buf);
        assert(buf@ =~= old(buf)@ + (seq![lead] + digits(mid, n as nat).out));
    }
}

/// `EXP`: `e` or `E`, an optional sign, and an `INT`.
pub fn emit_exp<S: Source>(src: &mut S, limits: Limits, depth: &mut u64, buf: &mut Vec<u8>)
    requires
        limits.wf(),
    ensures
        final(buf)@ == old(buf)@ + exp_gen(*old(src), limits).out,
        *final(src) == exp_gen(*old(src), limits).src,
        *final(depth) == after(*old(depth), exp_gen(*old(src), limits).calls),
{
    enter(depth);
    let ghost head = exp_head(*src);
    if src.draw() % 2 == 0 {
        buf.push(LOWER_E);
    } else {
        buf.push(UPPER_E);
    }
    if src.draw() % 2 == 1 {
        if src.draw() % 2 == 0 {
            buf.push(PLUS);
        } else {
            buf.push(MINUS);
        }
    }
    assert(buf@ =~= old(buf)@ + head.out);
    emit_int(src, limits, depth, buf);
    assert(buf@ =~= old(buf)@ + (head.out + int_gen(head.src, limits).out));
}

/// Appends the optional fraction of a number.
fn push_fraction<S: Source>(src: &mut S, limits: Limits, buf: &mut Vec<u8>)
    requires
        limits.wf(),
    ensures
        final(buf)@ == old(buf)@ + fraction(*old(src), limits).out,
        *final(src) == fraction(*old(src), limits).src,
{
    if src.draw() % 2 == 1 {
        buf.push(DOT);
        let digit: u8 = ZERO + (src.draw() % 10) as u8;
        buf.push(digit);
        let n = src.draw() % limits.max_repeat;
        let ghost mid = *src;
        push_digits(src, n, buf);
        assert(buf@ =~= old(buf)@ + (seq![DOT, digit] + digits(mid, n as nat).out));
    } else {
        assert(buf@ =~= old(buf)@ + Seq::<u8>::empty());
    }
}

/// `NUMBER`: an optional minus, an `INT`, an optional fraction and an
/// optional `EXP`.
pub fn emit_number<S: Source>(src: &mut S, limits: Limits, depth: &mut u64, buf: &mut Vec<u8>)
    requires
        limits.wf(),
    ensures
        final(buf)@ == old(buf)@ + number_gen(*old(src), limits).out,
        *final(src) == number_gen(*old(src), limits).src,
        *final(depth) == after(*old(depth), number_gen(*old(src), limits).calls),
{
    enter(depth);
    let ghost sign: Seq<u8> = if src.drawn() % 2 == 1 {
        seq![MINUS]
    } else {
        Seq::empty()
    };
    if src.draw() % 2 == 1 {
        buf.push(MINUS);
    }
    assert(buf@ =~= old(buf)@ + sign);
    let ghost whole = int_gen(*src, limits);
    emit_int(src, limits, depth, buf);
    let ghost frac = fraction(*src, limits);
    push_fraction(src, limits, buf);
    assert(buf@ =~= old(buf)@ + (sign + whole.out + frac.out));
    if src.draw() % 2 == 1 {
        let ghost tail = exp_gen(*src, limits);
        emit_exp(src, limits, depth, buf);
        assert(buf@ =~= old(buf)@ + (sign + whole.out + frac.out + tail.out));
    }
}

/// `HEX`: one of the 22 hexadecimal digits.
pub fn emit_hex<S: Source>(src: &mut S, depth: &mut u64, buf: &mut Vec<u8>)
    ensures
        final(buf)@ == old(buf)@ + hex_gen(*old(src)).out,
        *final(src) == hex_gen(*old(src)).src,
        *final(depth) == after(*old(depth), hex_gen(*old(src)).calls),
{
    enter(depth);
    let i = src.draw() % 22;
    let digit: u8 = if i < 10 {
        0x30 + i as u8
    } else if i < 16 {
        0x61 + (i - 10) as u8
    } else {
        0x41 + (i - 16) as u8
    };
    buf.push(digit);
    assert(buf@ =~= old(buf)@ + seq![hex_digit(i)]);
}

/// `UNICODE`: `u` and four `HEX`.
pub fn emit_unicode<S: Source>(src: &mut S, depth: &mut u64, buf: &mut Vec<u8>)
    ensures
        final(buf)@ == old(buf)@ + unicode_gen(*old(src)).out,
        *final(src) == unicode_gen(*old(src)).src,
        *final(depth) == after(*old(depth), unicode_gen(*old(src)).calls),
{
    enter(depth);
    buf.push(LOWER_U);
    emit_hex(src, depth, buf);
    emit_hex(src, depth, buf);
    emit_hex(src, depth, buf);
    emit_hex(src, depth, buf);
    assert(buf@ =~= old(buf)@ + unicode_gen(*old(src)).out);
}

/// Appends the UTF-8 encoding of a scalar value.
pub fn push_scalar(c: u32, buf: &mut Vec<u8>)
    requires
        is_scalar(c),
    ensures
        final(buf)@ == old(buf)@ + encode_scalar(c),
{
    if c <= 0x7f {
        buf.push((c & 0x7f) as u8);
        assert(buf@ =~= old(buf)@ + encode_scalar(c));
    } else if c <= 0x7ff {
        buf.push(0xc0 | ((c >> 6) & 0x1f) as u8);
        buf.push(0x80 | (c & 0x3f) as u8);
        assert(buf@ =~= old(buf)@ + encode_scalar(c));
    } else if c <= 0xffff {
        buf.push(0xe0 | ((c >> 12) & 0x0f) as u8);
        buf.push(0x80 | ((c >> 6) & 0x3f) as u8);
        buf.push(0x80 | (c & 0x3f) as u8);
        assert(buf@ =~= old(buf)@ + encode_scalar(c));
    } else {
        buf.push(0xf0 | ((c >> 18) & 0x7) as u8);
        buf.push(0x80 | ((c >> 12) & 0x3f) as u8);
        buf.push(0x80 | ((c >> 6) & 0x3f) as u8);
        buf.push(0x80 | (c & 0x3f) as u8);
        assert(buf@ =~= old(buf)@ + encode_scalar(c));
    }
}

/// `SAFECODEPOINT`: draws candidates until one is acceptable, at most
/// `ATTEMPTS` of them, and appends the encoding of the code point found.
pub fn emit_safe_code_point<S: Source>(src: &mut S, depth: &mut u64, buf: &mut Vec<u8>)
    ensures
        final(buf)@ == old(buf)@ + safe_code_point_gen(*old(src)).out,
        *final(src) == safe_code_point_gen(*old(src)).src,
        *final(depth) == after(*old(depth), safe_code_point_gen(*old(src)).calls),
{
    enter(depth);
    let ghost goal = sample(*src, ATTEMPTS as nat);
    let mut picked: u32 = FALLBACK;
    let mut found = false;
    let mut tries: usize = 0;
    while !found && tries < ATTEMPTS
        invariant
            tries <= ATTEMPTS,
            !found ==> picked == FALLBACK && sample(*src, (ATTEMPTS - tries) as nat) == goal,
            found ==> (picked, *src) == goal,
            is_scalar(picked),
        decreases ATTEMPTS - tries + (if found { 0int } else { 1int }),
    {
        let c = (src.draw() % CANDIDATES) as u32;
        tries += 1;
        if c >= 0x20 && c != 0x22 && c != 0x5c && !(0xd800 <= c && c <= 0xdfff) {
            picked = c;
            found = true;
        }
    }
    push_scalar(picked, buf);
}

/// `ESC`: a backslash, then `UNICODE` or one of the 8 short letters.
pub fn emit_escape<S: Source>(src: &mut S, depth: &mut u64, buf: &mut Vec<u8>)
    ensures
        final(buf)@ == old(buf)@ + escape_gen(*old(src)).out,
        *final(src) == escape_gen(*old(src)).src,
        *final(depth) == after(*old(depth), escape_gen(*old(src)).calls),
{
    enter(depth);
    buf.push(BACKSLASH);
    if src.draw() % 2 == 0 {
        let ghost tail = unicode_gen(*src);
        emit_unicode(src, depth, buf);
        assert(buf@ =~= old(buf)@ + (seq![BACKSLASH] + tail.out));
    } else {
        let i = src.draw() % 8;
        let letter: u8 = if i == 0 {
            0x22
        } else if i == 1 {
            0x5c
        } else if i == 2 {
            0x2f
        } else if i == 3 {
            0x62
        } else if i == 4 {
            0x66
        } else if i == 5 {
            0x6e
        } else if i == 6 {
            0x72
        } else {
            0x74
        };
        buf.push(letter);
        assert(buf@ =~= old(buf)@ + seq![BACKSLASH, short_escape(i)]);
    }
}

/// Appends `n` units of a string, each an `ESC` or a `SAFECODEPOINT`.
fn push_units<S: Source>(src: &mut S, n: usize, depth: &mut u64, buf: &mut Vec<u8>)
    ensures
        final(buf)@ == old(buf)@ + units(*old(src), n as nat).out,
        *final(src) == units(*old(src), n as nat).src,
        *final(depth) == after(*old(depth), units(*old(src), n as nat).calls),
{
    let ghost all = units(*src, n as nat);
    let ghost before = buf@;
    let mut i: usize = 0;
    while i < n
        invariant
            i <= n,
            before + all.out == buf@ + units(*src, (n - i) as nat).out,
            all.src == units(*src, (n - i) as nat).src,
            after(*old(depth), all.calls) == after(*depth, units(*src, (n - i) as nat).calls),
        decreases n - i,
    {
        let ghost prev = buf@;
        let ghost first = unit_gen(*src);
        let ghost rest = units(first.src, (n - i - 1) as nat);
        if src.draw() % 2 == 0 {
            emit_escape(src, depth, buf);
        } else {
            emit_safe_code_point(src, depth, buf);
        }
        i += 1;
        assert(prev + first.out + rest.out =~= prev + (first.out + rest.out));
    }
    assert(buf@ + Seq::<u8>::empty() =~= buf@);
}

/// `STRING`: a quote, fewer than `max_repeat` units unless the counter has
/// passed the cap, and a quote.
pub fn emit_string<S: Source>(src: &mut S, limits: Limits, depth: &mut u64, buf: &mut Vec<u8>)
    requires
        limits.wf(),
    ensures
        final(buf)@ == old(buf)@ + string_gen(*old(src), limits, *old(depth)).out,
        *final(src) == string_gen(*old(src), limits, *old(depth)).src,
        *final(depth) == after(*old(depth), string_gen(*old(src), limits, *old(depth)).calls),
{
    enter(depth);
    buf.push(QUOTE);
    if *depth <= limits.max_depth {
        let n = src.draw() % limits.max_repeat;
        let ghost body = units(*src, n as nat);
        push_units(src, n, depth, buf);
        buf.push(QUOTE);
        assert(buf@ =~= old(buf)@ + (seq![QUOTE] + body.out + seq![QUOTE]));
    } else {
        buf.push(QUOTE);
        assert(buf@ =~= old(buf)@ + seq![QUOTE, QUOTE]);
    }
}

/// `value`: at the cap a number; below it one of the seven alternatives,
/// chosen by a draw among 101 buckets.
pub fn emit_value<S: Source>(src: &mut S, limits: Limits, depth: &mut u64, buf: &mut Vec<u8>)
    requires
        limits.wf(),
    ensures
        final(buf)@ == old(buf)@ + value_gen(*old(src), limits, *old(depth)).out,
        *final(src) == value_gen(*old(src), limits, *old(depth)).src,
        *final(depth) == after(*old(depth), value_gen(*old(src), limits, *old(depth)).calls),
    decreases levels(limits, *old(depth)), 0nat, 0nat,
{
    enter(depth);
    if *depth >= limits.max_depth {
        emit_number(src, limits, depth, buf);
        return ;
    }
    let bucket = src.draw() % 101;
    if bucket < 15 {
        emit_string(src, limits, depth, buf);
    } else if bucket < 30 {
        emit_number(src, limits, depth, buf);
    } else if bucket < 60 {
        emit_object(src, limits, depth, buf);
    } else if bucket < 98 {
        emit_array(src, limits, depth, buf);
    } else if bucket == 98 {
        buf.push(0x74);
        buf.push(0x72);
        buf.push(0x75);
        buf.push(0x65);
        assert(buf@ =~= old(buf)@ + true_text());
    } else if bucket == 99 {
        buf.push(0x66);
        buf.push(0x61);
        buf.push(0x6c);
        buf.push(0x73);
        buf.push(0x65);
        assert(buf@ =~= old(buf)@ + false_text());
    } else {
        buf.push(0x6e);
        buf.push(0x75);
        buf.push(0x6c);
        buf.push(0x6c);
        assert(buf@ =~= old(buf)@ + null_text());
    }
}

/// `pair`: a string, a colon and a value.
pub fn emit_pair<S: Source>(src: &mut S, limits: Limits, depth: &mut u64, buf: &mut Vec<u8>)
    requires
        limits.wf(),
    ensures
        final(buf)@ == old(buf)@ + pair_gen(*old(src), limits, *old(depth)).out,
        *final(src) == pair_gen(*old(src), limits, *old(depth)).src,
        *final(depth) == after(*old(depth), pair_gen(*old(src), limits, *old(depth)).calls),
    decreases levels(limits, *old(depth)), 1nat, 0nat,
{
    enter(depth);
    let ghost key = string_gen(*src, limits, *depth);
    emit_string(src, limits, depth, buf);
    buf.push(COLON);
    let ghost value = value_gen(*src, limits, *depth);
    emit_value(src, limits, depth, buf);
    assert(buf@ =~= old(buf)@ + (key.out + seq![COLON] + value.out));
}

/// Appends `n` further values of an array, each after a comma.
fn push_items<S: Source>(src: &mut S, limits: Limits, n: usize, depth: &mut u64, buf: &mut Vec<u8>)
    requires
        limits.wf(),
    ensures
        final(buf)@ == old(buf)@ + items(*old(src), limits, *old(depth), n as nat).out,
        *final(src) == items(*old(src), limits, *old(depth), n as nat).src,
        *final(depth) == after(
            *old(depth),
            items(*old(src), limits, *old(depth), n as nat).calls,
        ),
    decreases levels(limits, *old(depth)), 2nat, n,
{
    let ghost all = items(*src, limits, *depth, n as nat);
    let ghost before = buf@;
    let mut i: usize = 0;
    while i < n
        invariant
            limits.wf(),
            i <= n,
            *depth >= *old(depth),
            before + all.out == buf@ + items(*src, limits, *depth, (n - i) as nat).out,
            all.src == items(*src, limits, *depth, (n - i) as nat).src,
            after(*old(depth), all.calls) == after(
                *depth,
                items(*src, limits, *depth, (n - i) as nat).calls,
            ),
        decreases n - i,
    {
        let ghost prev = buf@;
        let ghost first = value_gen(*src, limits, *depth);
        let ghost rest = items(first.src, limits, after(*depth, first.calls), (n - i - 1) as nat);
        buf.push(COMMA);
        emit_value(src, limits, depth, buf);
        i += 1;
        assert(prev.push(COMMA) + first.out + rest.out =~= prev + (seq![COMMA] + first.out
            + rest.out));
    }
    assert(buf@ + Seq::<u8>::empty() =~= buf@);
}

/// `array`: `[]`, or a value and, unless the counter has passed the cap,
/// fewer than `max_repeat` further values, in brackets.
pub fn emit_array<S: Source>(src: &mut S, limits: Limits, depth: &mut u64, buf: &mut Vec<u8>)
    requires
        limits.wf(),
    ensures
        final(buf)@ == old(buf)@ + array_gen(*old(src), limits, *old(depth)).out,
        *final(src) == array_gen(*old(src), limits, *old(depth)).src,
        *final(depth) == after(*old(depth), array_gen(*old(src), limits, *old(depth)).calls),
    decreases levels(limits, *old(depth)), 3nat, 0nat,
{
    enter(depth);
    buf.push(OPEN_BRACKET);
    if src.draw() % 10 == 0 {
        buf.push(CLOSE_BRACKET);
        assert(buf@ =~= old(buf)@ + seq![OPEN_BRACKET, CLOSE_BRACKET]);
    } else {
        let ghost first = value_gen(*src, limits, *depth);
        emit_value(src, limits, depth, buf);
        if *depth <= limits.max_depth {
            let n = src.draw() % limits.max_repeat;
            let ghost rest = items(*src, limits, *depth, n as nat);
            push_items(src, limits, n, depth, buf);
            buf.push(CLOSE_BRACKET);
            assert(buf@ =~= old(buf)@ + (seq![OPEN_BRACKET] + first.out + rest.out
                + seq![CLOSE_BRACKET]));
        } else {
            buf.push(CLOSE_BRACKET);
            assert(buf@ =~= old(buf)@ + (seq![OPEN_BRACKET] + first.out + seq![CLOSE_BRACKET]));
        }
    }
}

/// Appends `n` further pairs of an object, each after a comma.
fn push_members<S: Source>(
    src: &mut S,
    limits: Limits,
    n: usize,
    depth: &mut u64,
    buf: &mut Vec<u8>,
)
    requires
        limits.wf(),
    ensures
        final(buf)@ == old(buf)@ + members(*old(src), limits, *old(depth), n as nat).out,
        *final(src) == members(*old(src), limits, *old(depth), n as nat).src,
        *final(depth) == after(
            *old(depth),
            members(*old(src), limits, *old(depth), n as nat).calls,
        ),
    decreases levels(limits, *old(depth)), 2nat, n,
{
    let ghost all = members(*src, limits, *depth, n as nat);
    let ghost before = buf@;
    let mut i: usize = 0;
    while i < n
        invariant
            limits.wf(),
            i <= n,
            *depth >= *old(depth),
            before + all.out == buf@ + members(*src, limits, *depth, (n - i) as nat).out,
            all.src == members(*src, limits, *depth, (n - i) as nat).src,
            after(*old(depth), all.calls) == after(
                *depth,
                members(*src, limits, *depth, (n - i) as nat).calls,
            ),
        decreases n - i,
    {
        let ghost prev = buf@;
        let ghost first = pair_gen(*src, limits, *depth);
        let ghost rest = members(
            first.src,
            limits,
            after(*depth, first.calls),
            (n - i - 1) as nat,
        );
        buf.push(COMMA);
        emit_pair(src, limits, depth, buf);
        i += 1;
        assert(prev.push(COMMA) + first.out + rest.out =~= prev + (seq![COMMA] + first.out
            + rest.out));
    }
    assert(buf@ + Seq::<u8>::empty() =~= buf@);
}

/// `object`: `{}`, or a pair and, unless the counter has passed the cap,
/// fewer than `max_repeat` further pairs, in braces.
pub fn emit_object<S: Source>(src: &mut S, limits: Limits, depth: &mut u64, buf: &mut Vec<u8>)
    requires
        limits.wf(),
    ensures
        final(buf)@ == old(buf)@ + object_gen(*old(src), limits, *old(depth)).out,
        *final(src) == object_gen(*old(src), limits, *old(depth)).src,
        *final(depth) == after(*old(depth), object_gen(*old(src), limits, *old(depth)).calls),
    decreases levels(limits, *old(depth)), 3nat, 0nat,
{
    enter(depth);
    buf.push(OPEN_BRACE);
    if src.draw() % 10 == 0 {
        buf.push(CLOSE_BRACE);
        assert(buf@ =~= old(buf)@ + seq![OPEN_BRACE, CLOSE_BRACE]);
    } else {
        let ghost first = pair_gen(*src, limits, *depth);
        emit_pair(src, limits, depth, buf);
        if *depth <= limits.max_depth {
            let n = src.draw() % limits.max_repeat;
            let ghost rest = members(*src, limits, *depth, n as nat);
            push_members(src, limits, n, depth, buf);
            buf.push(CLOSE_BRACE);
            assert(buf@ =~= old(buf)@ + (seq![OPEN_BRACE] + first.out + rest.out
                + seq![CLOSE_BRACE]));
        } else {
            buf.push(CLOSE_BRACE);
            assert(buf@ =~= old(buf)@ + (seq![OPEN_BRACE] + first.out + seq![CLOSE_BRACE]));
        }
    }
}

/// `json`: a value.
pub fn emit_json<S: Source>(src: &mut S, limits: Limits, depth: &mut u64, buf: &mut Vec<u8>)
    requires
        limits.wf(),
    ensures
        final(buf)@ == old(buf)@ + json_gen(*old(src), limits, *old(depth)).out,
        *final(src) == json_gen(*old(src), limits, *old(depth)).src,
        *final(depth) == after(*old(depth), json_gen(*old(src), limits, *old(depth)).calls),
{
    enter(depth);
    emit_value(src, limits, depth, buf);
}

} // verus!
