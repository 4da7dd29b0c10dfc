//! The grammar's symbols as values: each holds the text generated for it.
//! The numbers come from a xorshift generator on a 64-bit seed.

use vstd::prelude::*;
use vstd::utf8::decode_utf8;
use crate::engine::{
    emit_array, emit_escape, emit_exp, emit_hex, emit_int, emit_json, emit_number, emit_object,
    emit_pair, emit_safe_code_point, emit_string, emit_unicode, emit_value,
};
use crate::laws::{
    array_is_sound, escape_is_string_body, exp_is_sound, hex_is_sound, int_is_sound,
    json_is_sound, number_is_sound, object_is_sound, pair_is_sound,
    safe_code_point_is_string_body, string_is_sound, unicode_is_sound, value_is_sound,
};
use crate::model::{
    after, array_gen, escape_gen, exp_gen, hex_gen, int_gen, json_gen, number_gen, object_gen,
    pair_gen, safe_code_point_gen, string_gen, unicode_gen, value_gen, Limits,
};
use crate::source::Source;
use crate::text::into_text;

verus! {

/// The state of the xorshift generator.
#[derive(Clone, Copy, Debug)]
pub struct Xorshift {
    /// The last number generated, or the seed.
    pub seed: u64,
}

/// The number that follows `v`: three shifts, each folded into the value.
pub open spec fn xorshift(v: u64) -> u64 {
    let a = v ^ (v << 13);
    let b = a ^ (a >> 17);
    b ^ (b << 43)
}

/// Replaces the seed by the number that follows it, and returns that
/// number.
pub fn rand(state: &mut Xorshift) -> (r: usize)
    ensures
        final(state).seed == xorshift(old(state).seed),
        r == xorshift(old(state).seed) as usize,
{
    let mut val: u64 = state.seed;
    val ^= val << 13;
    val ^= val >> 17;
    val ^= val << 43;
    state.seed = val;
    val as usize
}

impl Source for Xorshift {
    open spec fn drawn(&self) -> usize {
        xorshift(self.seed) as usize
    }

    open spec fn advanced(&self) -> Xorshift {
        Xorshift { seed: xorshift(self.seed) }
    }

    fn draw(&mut self) -> (r: usize) {
        rand(self)
    }
}

/// An exponent: `e` or `E`, an optional sign and an integer, as in `e0`, `E+0`, `E-5558`.
///
/// ```text
/// [Ee] [+-]? INT
/// ```
#[derive(Debug)]
pub struct Exp {
    /// The text generated.
    pub value: String,
}

impl Exp {
    /// Generates the symbol's text from `seed`, and counts the symbols
    /// entered on `count`.
    pub fn generate(seed: &mut Xorshift, count: &mut u64) -> (res: Exp)
        ensures
            res.value@ == decode_utf8(exp_gen(*old(seed), Limits::standard()).out),
            *final(seed) == exp_gen(*old(seed), Limits::standard()).src,
            *final(count) == after(*old(count), exp_gen(*old(seed), Limits::standard()).calls),
    {
        let ghost start = *seed;
        let ghost entered = *count;
        let mut buf: Vec<u8> = Vec::new();
        emit_exp(seed, Limits::standard(), count, &mut buf);
        proof {
            exp_is_sound(start, Limits::standard());
            assert(buf@ =~= exp_gen(start, Limits::standard()).out);
        }
        Exp { value: into_text(buf) }
    }

    /// The text of the exponent.
    pub fn to_string(&self) -> (res: String)
        ensures
            res@ == self.value@,
    {
        self.value.clone()
    }
}

/// An integer: `0`, or a nonzero digit and further digits, as in `0`, `4632`.
///
/// ```text
/// '0' | [1-9] [0-9]*
/// ```
#[derive(Debug)]
pub struct Int {
    /// The text generated.
    pub value: String,
}

impl Int {
    /// Generates the symbol's text from `seed`, and counts the symbols
    /// entered on `count`.
    pub fn generate(seed: &mut Xorshift, count: &mut u64) -> (res: Int)
        ensures
            res.value@ == decode_utf8(int_gen(*old(seed), Limits::standard()).out),
            *final(seed) == int_gen(*old(seed), Limits::standard()).src,
            *final(count) == after(*old(count), int_gen(*old(seed), Limits::standard()).calls),
    {
        let ghost start = *seed;
        let ghost entered = *count;
        let mut buf: Vec<u8> = Vec::new();
        emit_int(seed, Limits::standard(), count, &mut buf);
        proof {
            int_is_sound(start, Limits::standard());
            assert(buf@ =~= int_gen(start, Limits::standard()).out);
        }
        Int { value: into_text(buf) }
    }
}

/// A number, as in `157.038063E0`, `-0.8094341`.
///
/// ```text
/// '-'? INT ('.' [0-9]+)? EXP?
/// ```
#[derive(Debug)]
pub struct Number {
    /// The text generated.
    pub value: String,
}

impl Number {
    /// Generates the symbol's text from `seed`, and counts the symbols
    /// entered on `count`.
    pub fn generate(seed: &mut Xorshift, count: &mut u64) -> (res: Number)
        ensures
            res.value@ == decode_utf8(number_gen(*old(seed), Limits::standard()).out),
            *final(seed) == number_gen(*old(seed), Limits::standard()).src,
            *final(count) == after(*old(count), number_gen(*old(seed), Limits::standard()).calls),
    {
        let ghost start = *seed;
        let ghost entered = *count;
        let mut buf: Vec<u8> = Vec::new();
        emit_number(seed, Limits::standard(), count, &mut buf);
        proof {
            number_is_sound(start, Limits::standard());
            assert(buf@ =~= number_gen(start, Limits::standard()).out);
        }
        Number { value: into_text(buf) }
    }
}

/// A hexadecimal digit.
///
/// ```text
/// [0-9a-fA-F]
/// ```
#[derive(Debug)]
pub struct Hex {
    /// The text generated.
    pub value: String,
}

impl Hex {
    /// Generates the symbol's text from `seed`, and counts the symbols
    /// entered on `count`.
    pub fn generate(seed: &mut Xorshift, count: &mut u64) -> (res: Hex)
        ensures
            res.value@ == decode_utf8(hex_gen(*old(seed)).out),
            *final(seed) == hex_gen(*old(seed)).src,
            *final(count) == after(*old(count), hex_gen(*old(seed)).calls),
    {
        let ghost start = *seed;
        let ghost entered = *count;
        let mut buf: Vec<u8> = Vec::new();
        emit_hex(seed, count, &mut buf);
        proof {
            hex_is_sound(start);
            assert(buf@ =~= hex_gen(start).out);
        }
        Hex { value: into_text(buf) }
    }
}

/// The tail of a Unicode escape, as in `u56fc`.
///
/// ```text
/// 'u' HEX HEX HEX HEX
/// ```
#[derive(Debug)]
pub struct Unicode {
    /// The text generated.
    pub value: String,
}

impl Unicode {
    /// Generates the symbol's text from `seed`, and counts the symbols
    /// entered on `count`.
    pub fn generate(seed: &mut Xorshift, count: &mut u64) -> (res: Unicode)
        ensures
            res.value@ == decode_utf8(unicode_gen(*old(seed)).out),
            *final(seed) == unicode_gen(*old(seed)).src,
            *final(count) == after(*old(count), unicode_gen(*old(seed)).calls),
    {
        let ghost start = *seed;
        let ghost entered = *count;
        let mut buf: Vec<u8> = Vec::new();
        emit_unicode(seed, count, &mut buf);
        proof {
            unicode_is_sound(start);
            assert(buf@ =~= unicode_gen(start).out);
        }
        Unicode { value: into_text(buf) }
    }
}

/// A character that may stand in a string as it is.
///
/// ```text
/// ~ ["\\\u0000-\u001F]
/// ```
#[derive(Debug)]
pub struct SafeCodePoint {
    /// The text generated.
    pub value: String,
}

impl SafeCodePoint {
    /// Generates the symbol's text from `seed`, and counts the symbols
    /// entered on `count`.
    pub fn generate(seed: &mut Xorshift, count: &mut u64) -> (res: SafeCodePoint)
        ensures
            res.value@ == decode_utf8(safe_code_point_gen(*old(seed)).out),
            *final(seed) == safe_code_point_gen(*old(seed)).src,
            *final(count) == after(*old(count), safe_code_point_gen(*old(seed)).calls),
    {
        let ghost start = *seed;
        let ghost entered = *count;
        let mut buf: Vec<u8> = Vec::new();
        emit_safe_code_point(seed, count, &mut buf);
        proof {
            safe_code_point_is_string_body(start);
            assert(buf@ =~= safe_code_point_gen(start).out);
        }
        SafeCodePoint { value: into_text(buf) }
    }
}

/// An escape, as in `\n`, `\u6470`.
///
/// ```text
/// '\\' (["\\/bfnrt] | UNICODE)
/// ```
#[derive(Debug)]
pub struct Escape {
    /// The text generated.
    pub value: String,
}

impl Escape {
    /// Generates the symbol's text from `seed`, and counts the symbols
    /// entered on `count`.
    pub fn generate(seed: &mut Xorshift, count: &mut u64) -> (res: Escape)
        ensures
            res.value@ == decode_utf8(escape_gen(*old(seed)).out),
            *final(seed) == escape_gen(*old(seed)).src,
            *final(count) == after(*old(count), escape_gen(*old(seed)).calls),
    {
        let ghost start = *seed;
        let ghost entered = *count;
        let mut buf: Vec<u8> = Vec::new();
        emit_escape(seed, count, &mut buf);
        proof {
            escape_is_string_body(start);
            assert(buf@ =~= escape_gen(start).out);
        }
        Escape { value: into_text(buf) }
    }
}

/// A string in quotes.
///
/// ```text
/// '"' (ESC | SAFECODEPOINT)* '"'
/// ```
#[derive(Debug)]
pub struct JsonString {
    /// The text generated.
    pub value: String,
}

impl JsonString {
    /// Generates the symbol's text from `seed`, and counts the symbols
    /// entered on `count`.
    pub fn generate(seed: &mut Xorshift, count: &mut u64) -> (res: JsonString)
        ensures
            res.value@ == decode_utf8(string_gen(*old(seed), Limits::standard(), *old(count)).out),
            *final(seed) == string_gen(*old(seed), Limits::standard(), *old(count)).src,
            *final(count) == after(*old(count), string_gen(*old(seed), Limits::standard(), *old(count)).calls),
    {
        let ghost start = *seed;
        let ghost entered = *count;
        let mut buf: Vec<u8> = Vec::new();
        emit_string(seed, Limits::standard(), count, &mut buf);
        proof {
            string_is_sound(start, Limits::standard(), entered);
            assert(buf@ =~= string_gen(start, Limits::standard(), entered).out);
        }
        JsonString { value: into_text(buf) }
    }
}

/// A value.
///
/// ```text
/// STRING | NUMBER | obj | array | 'true' | 'false' | 'null'
/// ```
#[derive(Debug)]
pub struct JsonValue {
    /// The text generated.
    pub value: String,
}

impl JsonValue {
    /// Generates the symbol's text from `seed`, and counts the symbols
    /// entered on `count`.
    pub fn generate(seed: &mut Xorshift, count: &mut u64) -> (res: JsonValue)
        ensures
            res.value@ == decode_utf8(value_gen(*old(seed), Limits::standard(), *old(count)).out),
            *final(seed) == value_gen(*old(seed), Limits::standard(), *old(count)).src,
            *final(count) == after(*old(count), value_gen(*old(seed), Limits::standard(), *old(count)).calls),
    {
        let ghost start = *seed;
        let ghost entered = *count;
        let mut buf: Vec<u8> = Vec::new();
        emit_value(seed, Limits::standard(), count, &mut buf);
        proof {
            value_is_sound(start, Limits::standard(), entered);
            assert(buf@ =~= value_gen(start, Limits::standard(), entered).out);
        }
        JsonValue { value: into_text(buf) }
    }
}

/// A pair of an object: a string, a colon and a value.
///
/// ```text
/// STRING ':' value
/// ```
#[derive(Debug)]
pub struct JsonPair {
    /// The text generated.
    pub value: String,
}

impl JsonPair {
    /// Generates the symbol's text from `seed`, and counts the symbols
    /// entered on `count`.
    pub fn generate(seed: &mut Xorshift, count: &mut u64) -> (res: JsonPair)
        ensures
            res.value@ == decode_utf8(pair_gen(*old(seed), Limits::standard(), *old(count)).out),
            *final(seed) == pair_gen(*old(seed), Limits::standard(), *old(count)).src,
            *final(count) == after(*old(count), pair_gen(*old(seed), Limits::standard(), *old(count)).calls),
    {
        let ghost start = *seed;
        let ghost entered = *count;
        let mut buf: Vec<u8> = Vec::new();
        emit_pair(seed, Limits::standard(), count, &mut buf);
        proof {
            pair_is_sound(start, Limits::standard(), entered);
            assert(buf@ =~= pair_gen(start, Limits::standard(), entered).out);
        }
        JsonPair { value: into_text(buf) }
    }
}

/// An array.
///
/// ```text
/// '[' value (',' value)* ']' | '[' ']'
/// ```
#[derive(Debug)]
pub struct JsonArray {
    /// The text generated.
    pub value: String,
}

impl JsonArray {
    /// Generates the symbol's text from `seed`, and counts the symbols
    /// entered on `count`.
    pub fn generate(seed: &mut Xorshift, count: &mut u64) -> (res: JsonArray)
        ensures
            res.value@ == decode_utf8(array_gen(*old(seed), Limits::standard(), *old(count)).out),
            *final(seed) == array_gen(*old(seed), Limits::standard(), *old(count)).src,
            *final(count) == after(*old(count), array_gen(*old(seed), Limits::standard(), *old(count)).calls),
    {
        let ghost start = *seed;
        let ghost entered = *count;
        let mut buf: Vec<u8> = Vec::new();
        emit_array(seed, Limits::standard(), count, &mut buf);
        proof {
            array_is_sound(start, Limits::standard(), entered);
            assert(buf@ =~= array_gen(start, Limits::standard(), entered).out);
        }
        JsonArray { value: into_text(buf) }
    }
}

/// An object.
///
/// ```text
/// '{' pair (',' pair)* '}' | '{' '}'
/// ```
#[derive(Debug)]
pub struct JsonObject {
    /// The text generated.
    pub value: String,
}

impl JsonObject {
    /// Generates the symbol's text from `seed`, and counts the symbols
    /// entered on `count`.
    pub fn generate(seed: &mut Xorshift, count: &mut u64) -> (res: JsonObject)
        ensures
            res.value@ == decode_utf8(object_gen(*old(seed), Limits::standard(), *old(count)).out),
            *final(seed) == object_gen(*old(seed), Limits::standard(), *old(count)).src,
            *final(count) == after(*old(count), object_gen(*old(seed), Limits::standard(), *old(count)).calls),
    {
        let ghost start = *seed;
        let ghost entered = *count;
        let mut buf: Vec<u8> = Vec::new();
        emit_object(seed, Limits::standard(), count, &mut buf);
        proof {
            object_is_sound(start, Limits::standard(), entered);
            assert(buf@ =~= object_gen(start, Limits::standard(), entered).out);
        }
        JsonObject { value: into_text(buf) }
    }
}

/// A whole text: a value.
///
/// ```text
/// value
/// ```
#[derive(Debug)]
pub struct Json {
    /// The text generated.
    pub value: String,
}

impl Json {
    /// Generates the symbol's text from `seed`, and counts the symbols
    /// entered on `count`.
    pub fn generate(seed: &mut Xorshift, count: &mut u64) -> (res: Json)
        ensures
            res.value@ == decode_utf8(json_gen(*old(seed), Limits::standard(), *old(count)).out),
            *final(seed) == json_gen(*old(seed), Limits::standard(), *old(count)).src,
            *final(count) == after(*old(count), json_gen(*old(seed), Limits::standard(), *old(count)).calls),
    {
        let ghost start = *seed;
        let ghost entered = *count;
        let mut buf: Vec<u8> = Vec::new();
        emit_json(seed, Limits::standard(), count, &mut buf);
        proof {
            json_is_sound(start, Limits::standard(), entered);
            assert(buf@ =~= json_gen(start, Limits::standard(), entered).out);
        }
        Json { value: into_text(buf) }
    }
}

} // verus!
