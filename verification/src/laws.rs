//! What holds of everything the grammar produces, whatever the source of
//! numbers, the limits and the depth.

use vstd::prelude::*;
use vstd::utf8::{
    decode_utf8, encode_scalar, encode_utf8, encode_utf8_decode_utf8, encode_utf8_valid_utf8,
    is_leading_byte_width_1, is_scalar, partial_valid_utf8, partial_valid_utf8_extend_ascii_block,
    valid_utf8, valid_utf8_concat,
};
use crate::model::{
    acceptable, after, array_gen, candidate_of, digits, escape_gen, exp_gen, exp_head, fraction,
    hex_gen, int_gen, items, json_gen, levels, members, number_gen, object_gen, pair_gen,
    safe_code_point_gen, sample, string_gen, unicode_gen, unit_gen, units, value_gen, Limits,
    ATTEMPTS, BACKSLASH, CLOSE_BRACE, CLOSE_BRACKET, COLON, COMMA, DOT, LOWER_E, LOWER_U, MINUS,
    OPEN_BRACE, OPEN_BRACKET, PLUS, QUOTE, UPPER_E, ZERO,
};
use crate::scan::{
    balanced, closed, closed_concat, closed_in_brackets, closed_in_quotes, closed_is_balanced,
    inside, plain, plain_is_closed, quiet, scan, scan_byte, scan_concat, scan_one, scan_plain,
    scan_quiet, Scan,
};
use crate::source::Source;

verus! {

/// A decimal digit.
pub open spec fn is_digit(b: u8) -> bool {
    0x30 <= b <= 0x39
}

/// A hexadecimal digit, in either case.
pub open spec fn is_hex_digit(b: u8) -> bool {
    is_digit(b) || 0x61 <= b <= 0x66 || 0x41 <= b <= 0x46
}

/// A byte that a number may hold: a digit, a sign, a dot or an exponent
/// letter.
pub open spec fn is_number_byte(b: u8) -> bool {
    is_digit(b) || b == MINUS || b == PLUS || b == DOT || b == LOWER_E || b == UPPER_E
}

/// Whether every byte of `text` is a digit.
pub open spec fn all_digits(text: Seq<u8>) -> bool {
    forall|i: int| 0 <= i < text.len() ==> is_digit(#[trigger] text[i])
}

/// Whether every byte of `text` may stand in a number.
pub open spec fn number_bytes(text: Seq<u8>) -> bool {
    forall|i: int| 0 <= i < text.len() ==> is_number_byte(#[trigger] text[i])
}

/// Whether `text` is an integer of the grammar: one digit or more, and a
/// leading zero only where the zero is all of it.
pub open spec fn is_int(text: Seq<u8>) -> bool {
    &&& text.len() >= 1
    &&& all_digits(text)
    &&& (text[0] == ZERO ==> text.len() == 1)
}

/// Whether `text` is closed as the reading of brackets and strings sees it,
/// and valid UTF-8.
pub open spec fn sound(text: Seq<u8>) -> bool {
    closed(text) && valid_utf8(text)
}

/// A text of bytes below `0x80` is valid UTF-8.
pub proof fn ascii_is_utf8(text: Seq<u8>)
    requires
        forall|i: int| 0 <= i < text.len() ==> #[trigger] text[i] <= 0x7f,
    ensures
        valid_utf8(text),
{
    assert(text.subrange(0, 0) =~= Seq::<u8>::empty());
    assert(partial_valid_utf8(text, 0));
    assert forall|i: int| 0 <= 0 <= i < text.len() <= text.len() implies #[trigger]
        is_leading_byte_width_1(text[i]) by {
        assert(text[i] <= 0x7f);
    }
    partial_valid_utf8_extend_ascii_block(text, 0, text.len() as int);
    assert(text.subrange(0, text.len() as int) =~= text);
}

/// A text of plain bytes below `0x80` is sound.
pub proof fn plain_ascii_is_sound(text: Seq<u8>)
    requires
        forall|i: int| 0 <= i < text.len() ==> plain(#[trigger] text[i]) && text[i] <= 0x7f,
    ensures
        sound(text),
{
    plain_is_closed(text);
    ascii_is_utf8(text);
}

/// Two sound texts in a row are sound.
pub proof fn sound_concat(a: Seq<u8>, b: Seq<u8>)
    requires
        sound(a),
        sound(b),
    ensures
        sound(a + b),
{
    closed_concat(a, b);
    valid_utf8_concat(a, b);
}

/// `n` digits are `n` bytes, each a digit.
pub proof fn digits_are_digits<S: Source>(src: S, n: nat)
    ensures
        digits(src, n).out.len() == n,
        all_digits(digits(src, n).out),
    decreases n,
{
    if n > 0 {
        digits_are_digits(src.advanced(), (n - 1) as nat);
    }
}

/// An integer of the generator is an integer of the grammar: it starts
/// with `0` only where it is `0`. Within the limits it has at most
/// `max_repeat` digits.
pub proof fn int_is_int<S: Source>(src: S, limits: Limits)
    ensures
        is_int(int_gen(src, limits).out),
        limits.wf() ==> int_gen(src, limits).out.len() <= limits.max_repeat,
        int_gen(src, limits).calls == 1,
{
    let s2 = src.advanced().advanced();
    let n = (s2.drawn() % limits.max_repeat) as nat;
    digits_are_digits(s2.advanced(), n);
}

/// An exponent holds only bytes of a number, and enters two symbols.
pub proof fn exp_holds_number_bytes<S: Source>(src: S, limits: Limits)
    ensures
        number_bytes(exp_gen(src, limits).out),
        exp_gen(src, limits).calls == 2,
{
    int_is_int(exp_head(src).src, limits);
}

/// A number holds only bytes of a number: digits, signs, a dot and exponent
/// letters. It enters at most four symbols.
pub proof fn number_holds_number_bytes<S: Source>(src: S, limits: Limits)
    ensures
        number_bytes(number_gen(src, limits).out),
        1 <= number_gen(src, limits).calls <= 4,
{
    let whole = int_gen(src.advanced(), limits);
    int_is_int(src.advanced(), limits);
    let frac = fraction(whole.src, limits);
    let f2 = whole.src.advanced().advanced();
    digits_are_digits(f2.advanced(), (f2.drawn() % limits.max_repeat) as nat);
    assert(number_bytes(frac.out));
    exp_holds_number_bytes(frac.src.advanced(), limits);
}

/// A text of number bytes is sound.
pub proof fn number_bytes_are_sound(text: Seq<u8>)
    requires
        number_bytes(text),
    ensures
        sound(text),
{
    assert forall|i: int| 0 <= i < text.len() implies plain(#[trigger] text[i]) && text[i]
        <= 0x7f by {
        assert(is_number_byte(text[i]));
    }
    plain_ascii_is_sound(text);
}

/// An integer is sound.
pub proof fn int_is_sound<S: Source>(src: S, limits: Limits)
    ensures
        sound(int_gen(src, limits).out),
{
    int_is_int(src, limits);
    number_bytes_are_sound(int_gen(src, limits).out);
}

/// An exponent is sound.
pub proof fn exp_is_sound<S: Source>(src: S, limits: Limits)
    ensures
        sound(exp_gen(src, limits).out),
{
    exp_holds_number_bytes(src, limits);
    number_bytes_are_sound(exp_gen(src, limits).out);
}

/// A hexadecimal digit is sound.
pub proof fn hex_is_sound<S: Source>(src: S)
    ensures
        sound(hex_gen(src).out),
{
    let text = hex_gen(src).out;
    assert forall|i: int| 0 <= i < text.len() implies plain(#[trigger] text[i]) && text[i]
        <= 0x7f by {}
    plain_ascii_is_sound(text);
}

/// A Unicode escape without its backslash is sound.
pub proof fn unicode_is_sound<S: Source>(src: S)
    ensures
        sound(unicode_gen(src).out),
{
    let text = unicode_gen(src).out;
    unicode_is_four_hex(src);
    assert forall|i: int| 0 <= i < text.len() implies plain(#[trigger] text[i]) && text[i]
        <= 0x7f by {
        if i >= 1 {
            assert(is_hex_digit(text[i]));
        }
    }
    plain_ascii_is_sound(text);
}

/// A hexadecimal digit of the generator is one of `0-9`, `a-f`, `A-F`.
pub proof fn hex_is_hex<S: Source>(src: S)
    ensures
        hex_gen(src).out.len() == 1,
        is_hex_digit(hex_gen(src).out[0]),
{
}

/// A Unicode escape is `u` and four hexadecimal digits.
pub proof fn unicode_is_four_hex<S: Source>(src: S)
    ensures
        unicode_gen(src).out.len() == 5,
        unicode_gen(src).out[0] == LOWER_U,
        forall|i: int| 1 <= i < 5 ==> is_hex_digit(#[trigger] unicode_gen(src).out[i]),
{
}

/// Sampling settles on an acceptable code point: a scalar value that is no
/// control character, no quote and no backslash.
pub proof fn sample_is_acceptable<S: Source>(src: S, attempts: nat)
    ensures
        acceptable(sample(src, attempts).0),
    decreases attempts,
{
    if attempts > 0 && !acceptable(candidate_of(src.drawn())) {
        sample_is_acceptable(src.advanced(), (attempts - 1) as nat);
    }
}

/// No byte of the encoding of an acceptable code point is a quote or a
/// backslash.
pub proof fn encoding_is_quiet(c: u32)
    requires
        acceptable(c),
    ensures
        forall|i: int| 0 <= i < encode_scalar(c).len() ==> quiet(#[trigger] encode_scalar(c)[i]),
{
    assert(c <= 0x7f ==> (c & 0x7f) as u8 == c) by (bit_vector);
    assert((0xc0 | ((c >> 6) & 0x1f) as u8) >= 0x80) by (bit_vector);
    assert((0xe0 | ((c >> 12) & 0x0f) as u8) >= 0x80) by (bit_vector);
    assert((0xf0 | ((c >> 18) & 0x7) as u8) >= 0x80) by (bit_vector);
    assert((0x80 | (c & 0x3f) as u8) >= 0x80) by (bit_vector);
    assert((0x80 | ((c >> 6) & 0x3f) as u8) >= 0x80) by (bit_vector);
    assert((0x80 | ((c >> 12) & 0x3f) as u8) >= 0x80) by (bit_vector);
}

/// The encoding of a scalar value is valid UTF-8 that decodes to that one
/// value.
pub proof fn encoding_decodes(c: u32)
    requires
        is_scalar(c),
    ensures
        valid_utf8(encode_scalar(c)),
        decode_utf8(encode_scalar(c)) == seq![c as char],
{
    let chars = seq![c as char];
    assert(chars.drop_first() =~= Seq::<char>::empty());
    assert(encode_utf8(chars.drop_first()) =~= Seq::<u8>::empty());
    assert(encode_utf8(chars) =~= encode_scalar(c));
    encode_utf8_valid_utf8(chars);
    encode_utf8_decode_utf8(chars);
}

/// A safe code point is the UTF-8 encoding of exactly one character, which
/// is no control character below `0x20`, no quote and no backslash.
pub proof fn safe_code_point_is_safe<S: Source>(src: S)
    ensures
        valid_utf8(safe_code_point_gen(src).out),
        decode_utf8(safe_code_point_gen(src).out).len() == 1,
        acceptable(decode_utf8(safe_code_point_gen(src).out)[0] as u32),
        decode_utf8(safe_code_point_gen(src).out)[0] as u32 >= 0x20,
        decode_utf8(safe_code_point_gen(src).out)[0] != '"',
        decode_utf8(safe_code_point_gen(src).out)[0] != '\\',
{
    let c = sample(src, ATTEMPTS as nat).0;
    sample_is_acceptable(src, ATTEMPTS as nat);
    encoding_decodes(c);
}

/// Whether `text` may stand between the quotes of a string: a reading
/// inside a string is in the same state after it, and it is valid UTF-8.
pub open spec fn string_body(text: Seq<u8>) -> bool {
    &&& forall|st: Scan| inside(st) ==> #[trigger] scan(st, text) == st
    &&& valid_utf8(text)
}

/// Two string bodies in a row are a string body.
pub proof fn string_body_concat(a: Seq<u8>, b: Seq<u8>)
    requires
        string_body(a),
        string_body(b),
    ensures
        string_body(a + b),
{
    assert forall|st: Scan| inside(st) implies #[trigger] scan(st, a + b) == st by {
        scan_concat(st, a, b);
    }
    valid_utf8_concat(a, b);
}

/// A backslash, any byte below `0x80` and plain bytes below `0x80` are a
/// string body.
proof fn escaped_is_string_body(b: u8, rest: Seq<u8>)
    requires
        b <= 0x7f,
        forall|i: int| 0 <= i < rest.len() ==> plain(#[trigger] rest[i]) && rest[i] <= 0x7f,
    ensures
        string_body(seq![BACKSLASH, b] + rest),
{
    let text = seq![BACKSLASH, b] + rest;
    assert forall|st: Scan| inside(st) implies #[trigger] scan(st, text) == st by {
        let s1 = scan_byte(st, BACKSLASH);
        assert(text =~= seq![BACKSLASH] + (seq![b] + rest));
        scan_concat(st, seq![BACKSLASH], seq![b] + rest);
        scan_one(st, BACKSLASH);
        scan_concat(s1, seq![b], rest);
        scan_one(s1, b);
        assert(scan_byte(s1, b) == st);
        scan_plain(st, rest);
    }
    ascii_is_utf8(text);
}

/// An escape is a string body: a backslash and a letter, or a backslash,
/// `u` and four hexadecimal digits.
pub proof fn escape_is_string_body<S: Source>(src: S)
    ensures
        string_body(escape_gen(src).out),
        escape_gen(src).out[0] == BACKSLASH,
        escape_gen(src).out.len() == 2 || escape_gen(src).out.len() == 6,
        1 <= escape_gen(src).calls <= 6,
{
    let s1 = src.advanced();
    if src.drawn() % 2 == 0 {
        let u = unicode_gen(s1);
        unicode_is_four_hex(s1);
        let rest = u.out.subrange(1, 5);
        assert(escape_gen(src).out =~= seq![BACKSLASH, LOWER_U] + rest);
        assert forall|i: int| 0 <= i < rest.len() implies plain(#[trigger] rest[i]) && rest[i]
            <= 0x7f by {
            assert(rest[i] == u.out[i + 1]);
            assert(is_hex_digit(u.out[i + 1]));
        }
        escaped_is_string_body(LOWER_U, rest);
    } else {
        let letter = escape_gen(src).out[1];
        assert(escape_gen(src).out =~= seq![BACKSLASH, letter] + Seq::<u8>::empty());
        escaped_is_string_body(letter, Seq::<u8>::empty());
    }
}

/// A safe code point is a string body.
pub proof fn safe_code_point_is_string_body<S: Source>(src: S)
    ensures
        string_body(safe_code_point_gen(src).out),
        safe_code_point_gen(src).calls == 1,
{
    let c = sample(src, ATTEMPTS as nat).0;
    let text = safe_code_point_gen(src).out;
    sample_is_acceptable(src, ATTEMPTS as nat);
    encoding_is_quiet(c);
    encoding_decodes(c);
    assert forall|st: Scan| inside(st) implies #[trigger] scan(st, text) == st by {
        scan_quiet(st, text);
    }
}

/// Any number of units is a string body, and enters at most six symbols
/// for each unit.
pub proof fn units_are_string_body<S: Source>(src: S, n: nat)
    ensures
        string_body(units(src, n).out),
        units(src, n).calls <= 6 * n,
    decreases n,
{
    if n == 0 {
        assert(string_body(Seq::<u8>::empty()));
    } else {
        let first = unit_gen(src);
        if src.drawn() % 2 == 0 {
            escape_is_string_body(src.advanced());
        } else {
            safe_code_point_is_string_body(src.advanced());
        }
        units_are_string_body(first.src, (n - 1) as nat);
        string_body_concat(first.out, units(first.src, (n - 1) as nat).out);
    }
}

/// A string is sound: it opens and closes with a quote, and what stands
/// between them closes no string and is valid UTF-8.
pub proof fn string_is_sound<S: Source>(src: S, limits: Limits, depth: u64)
    ensures
        sound(string_gen(src, limits, depth).out),
        string_gen(src, limits, depth).out.len() >= 2,
        string_gen(src, limits, depth).out.first() == QUOTE,
        string_gen(src, limits, depth).out.last() == QUOTE,
{
    let text = string_gen(src, limits, depth).out;
    if after(depth, 1) <= limits.max_depth {
        let n = (src.drawn() % limits.max_repeat) as nat;
        let body = units(src.advanced(), n);
        units_are_string_body(src.advanced(), n);
        closed_in_quotes(body.out);
        ascii_is_utf8(seq![QUOTE]);
        valid_utf8_concat(seq![QUOTE], body.out);
        valid_utf8_concat(seq![QUOTE] + body.out, seq![QUOTE]);
    } else {
        assert(string_body(Seq::<u8>::empty()));
        closed_in_quotes(Seq::<u8>::empty());
        assert(text =~= seq![QUOTE] + Seq::<u8>::empty() + seq![QUOTE]);
        ascii_is_utf8(text);
    }
}

/// A number is sound.
pub proof fn number_is_sound<S: Source>(src: S, limits: Limits)
    ensures
        sound(number_gen(src, limits).out),
{
    number_holds_number_bytes(src, limits);
    number_bytes_are_sound(number_gen(src, limits).out);
}

/// A sound text between a bracket and the bracket that matches it, or
/// between braces, is sound.
proof fn sound_in_brackets(opening: u8, body: Seq<u8>, closing: u8)
    requires
        sound(body),
        (opening == OPEN_BRACKET && closing == CLOSE_BRACKET) || (opening == OPEN_BRACE && closing
            == CLOSE_BRACE),
    ensures
        sound(seq![opening] + body + seq![closing]),
{
    closed_in_brackets(opening, body, closing);
    ascii_is_utf8(seq![opening]);
    ascii_is_utf8(seq![closing]);
    valid_utf8_concat(seq![opening], body);
    valid_utf8_concat(seq![opening] + body, seq![closing]);
}

/// A comma or a colon before a sound text leaves it sound.
proof fn sound_after_separator(separator: u8, text: Seq<u8>)
    requires
        sound(text),
        separator == COMMA || separator == COLON,
    ensures
        sound(seq![separator] + text),
{
    let lead = seq![separator];
    assert forall|i: int| 0 <= i < lead.len() implies plain(#[trigger] lead[i]) && lead[i]
        <= 0x7f by {}
    plain_ascii_is_sound(lead);
    sound_concat(lead, text);
}

/// A value is sound: its strings are closed, its brackets are balanced, and
/// it is valid UTF-8.
pub proof fn value_is_sound<S: Source>(src: S, limits: Limits, depth: u64)
    requires
        limits.wf(),
    ensures
        sound(value_gen(src, limits, depth).out),
    decreases levels(limits, depth), 0nat, 0nat,
{
    let d1 = after(depth, 1);
    if d1 >= limits.max_depth {
        number_is_sound(src, limits);
    } else {
        let bucket = src.drawn() % 101;
        let s1 = src.advanced();
        if bucket < 15 {
            string_is_sound(s1, limits, d1);
        } else if bucket < 30 {
            number_is_sound(s1, limits);
        } else if bucket < 60 {
            object_is_sound(s1, limits, d1);
        } else if bucket < 98 {
            array_is_sound(s1, limits, d1);
        } else {
            let text = value_gen(src, limits, depth).out;
            assert forall|i: int| 0 <= i < text.len() implies plain(#[trigger] text[i]) && text[i]
                <= 0x7f by {}
            plain_ascii_is_sound(text);
        }
    }
}

/// A pair is sound.
pub proof fn pair_is_sound<S: Source>(src: S, limits: Limits, depth: u64)
    requires
        limits.wf(),
    ensures
        sound(pair_gen(src, limits, depth).out),
    decreases levels(limits, depth), 1nat, 0nat,
{
    let d1 = after(depth, 1);
    let key = string_gen(src, limits, d1);
    let value = value_gen(key.src, limits, after(d1, key.calls));
    string_is_sound(src, limits, d1);
    value_is_sound(key.src, limits, after(d1, key.calls));
    sound_after_separator(COLON, value.out);
    sound_concat(key.out, seq![COLON] + value.out);
    assert(pair_gen(src, limits, depth).out =~= key.out + (seq![COLON] + value.out));
}

/// Further values of an array, each after a comma, are sound.
pub proof fn items_are_sound<S: Source>(src: S, limits: Limits, depth: u64, n: nat)
    requires
        limits.wf(),
    ensures
        sound(items(src, limits, depth, n).out),
    decreases levels(limits, depth), 2nat, n,
{
    if n == 0 {
        plain_ascii_is_sound(Seq::<u8>::empty());
    } else {
        let first = value_gen(src, limits, depth);
        let rest = items(first.src, limits, after(depth, first.calls), (n - 1) as nat);
        value_is_sound(src, limits, depth);
        items_are_sound(first.src, limits, after(depth, first.calls), (n - 1) as nat);
        sound_after_separator(COMMA, first.out);
        sound_concat(seq![COMMA] + first.out, rest.out);
    }
}

/// An array is sound.
pub proof fn array_is_sound<S: Source>(src: S, limits: Limits, depth: u64)
    requires
        limits.wf(),
    ensures
        sound(array_gen(src, limits, depth).out),
        array_gen(src, limits, depth).out.first() == OPEN_BRACKET,
        array_gen(src, limits, depth).out.last() == CLOSE_BRACKET,
    decreases levels(limits, depth), 3nat, 0nat,
{
    let d1 = after(depth, 1);
    let s1 = src.advanced();
    let text = array_gen(src, limits, depth).out;
    if src.drawn() % 10 == 0 {
        plain_ascii_is_sound(Seq::<u8>::empty());
        sound_in_brackets(OPEN_BRACKET, Seq::<u8>::empty(), CLOSE_BRACKET);
        assert(text =~= seq![OPEN_BRACKET] + Seq::<u8>::empty() + seq![CLOSE_BRACKET]);
    } else {
        let first = value_gen(s1, limits, d1);
        let d2 = after(d1, first.calls);
        value_is_sound(s1, limits, d1);
        if d2 <= limits.max_depth {
            let n = (first.src.drawn() % limits.max_repeat) as nat;
            let rest = items(first.src.advanced(), limits, d2, n);
            items_are_sound(first.src.advanced(), limits, d2, n);
            sound_concat(first.out, rest.out);
            sound_in_brackets(OPEN_BRACKET, first.out + rest.out, CLOSE_BRACKET);
            assert(seq![OPEN_BRACKET] + first.out + rest.out =~= seq![OPEN_BRACKET] + (first.out + rest.out));
        } else {
            sound_in_brackets(OPEN_BRACKET, first.out, CLOSE_BRACKET);
        }
    }
}

/// Further pairs of an object, each after a comma, are sound.
pub proof fn members_are_sound<S: Source>(src: S, limits: Limits, depth: u64, n: nat)
    requires
        limits.wf(),
    ensures
        sound(members(src, limits, depth, n).out),
    decreases levels(limits, depth), 2nat, n,
{
    if n == 0 {
        plain_ascii_is_sound(Seq::<u8>::empty());
    } else {
        let first = pair_gen(src, limits, depth);
        let rest = members(first.src, limits, after(depth, first.calls), (n - 1) as nat);
        pair_is_sound(src, limits, depth);
        members_are_sound(first.src, limits, after(depth, first.calls), (n - 1) as nat);
        sound_after_separator(COMMA, first.out);
        sound_concat(seq![COMMA] + first.out, rest.out);
    }
}

/// An object is sound.
pub proof fn object_is_sound<S: Source>(src: S, limits: Limits, depth: u64)
    requires
        limits.wf(),
    ensures
        sound(object_gen(src, limits, depth).out),
        object_gen(src, limits, depth).out.first() == OPEN_BRACE,
        object_gen(src, limits, depth).out.last() == CLOSE_BRACE,
    decreases levels(limits, depth), 3nat, 0nat,
{
    let d1 = after(depth, 1);
    let s1 = src.advanced();
    let text = object_gen(src, limits, depth).out;
    if src.drawn() % 10 == 0 {
        plain_ascii_is_sound(Seq::<u8>::empty());
        sound_in_brackets(OPEN_BRACE, Seq::<u8>::empty(), CLOSE_BRACE);
        assert(text =~= seq![OPEN_BRACE] + Seq::<u8>::empty() + seq![CLOSE_BRACE]);
    } else {
        let first = pair_gen(s1, limits, d1);
        let d2 = after(d1, first.calls);
        pair_is_sound(s1, limits, d1);
        if d2 <= limits.max_depth {
            let n = (first.src.drawn() % limits.max_repeat) as nat;
            let rest = members(first.src.advanced(), limits, d2, n);
            members_are_sound(first.src.advanced(), limits, d2, n);
            sound_concat(first.out, rest.out);
            sound_in_brackets(OPEN_BRACE, first.out + rest.out, CLOSE_BRACE);
            assert(seq![OPEN_BRACE] + first.out + rest.out =~= seq![OPEN_BRACE] + (first.out + rest.out));
        } else {
            sound_in_brackets(OPEN_BRACE, first.out, CLOSE_BRACE);
        }
    }
}

/// The brackets of an array are balanced: read from its first byte, every
/// closing bracket or brace closes the innermost open one, none is left
/// open, and no string literal is left open. The array begins with `[` and
/// ends with `]`.
pub proof fn array_is_balanced<S: Source>(src: S, limits: Limits, depth: u64)
    requires
        limits.wf(),
    ensures
        balanced(array_gen(src, limits, depth).out),
        array_gen(src, limits, depth).out.first() == OPEN_BRACKET,
        array_gen(src, limits, depth).out.last() == CLOSE_BRACKET,
{
    array_is_sound(src, limits, depth);
    closed_is_balanced(array_gen(src, limits, depth).out);
}

/// The brackets of an object are balanced, in the same sense. The object
/// begins with `{` and ends with `}`.
pub proof fn object_is_balanced<S: Source>(src: S, limits: Limits, depth: u64)
    requires
        limits.wf(),
    ensures
        balanced(object_gen(src, limits, depth).out),
        object_gen(src, limits, depth).out.first() == OPEN_BRACE,
        object_gen(src, limits, depth).out.last() == CLOSE_BRACE,
{
    object_is_sound(src, limits, depth);
    closed_is_balanced(object_gen(src, limits, depth).out);
}

/// A whole text is sound, and so its brackets are balanced.
pub proof fn json_is_sound<S: Source>(src: S, limits: Limits, depth: u64)
    requires
        limits.wf(),
    ensures
        sound(json_gen(src, limits, depth).out),
        balanced(json_gen(src, limits, depth).out),
{
    value_is_sound(src, limits, after(depth, 1));
    closed_is_balanced(json_gen(src, limits, depth).out);
}

/// A value entered when the counter is one below the cap or higher is a
/// number: it holds only digits, signs, a dot and exponent letters, so no
/// string, object or array, and it enters at most five symbols.
pub proof fn value_at_cap_is_number<S: Source>(src: S, limits: Limits, depth: u64)
    requires
        after(depth, 1) >= limits.max_depth,
    ensures
        value_gen(src, limits, depth).out == number_gen(src, limits).out,
        value_gen(src, limits, depth).src == number_gen(src, limits).src,
        number_bytes(value_gen(src, limits, depth).out),
        value_gen(src, limits, depth).calls <= 5,
{
    number_holds_number_bytes(src, limits);
}

} // verus!
