//! The grammar's symbols as unit types: each returns its text as a
//! `String`.

use vstd::prelude::*;
use vstd::utf8::decode_utf8;
use crate::engine::{
    emit_array, emit_escape, emit_exp, emit_hex, emit_int, emit_json, emit_number, emit_object,
    emit_pair, emit_safe_code_point, emit_string, emit_unicode, emit_value,
};
use crate::laws::{
    array_is_sound, escape_is_string_body, exp_is_sound, hex_is_sound, int_is_sound,
    json_is_sound, number_is_sound, object_is_sound, pair_is_sound,
    safe_code_point_is_string_body, string_is_sound, unicode_is_sound, value_is_sound,
};
use crate::model::{
    after, array_gen, escape_gen, exp_gen, hex_gen, int_gen, json_gen, number_gen, object_gen,
    pair_gen, safe_code_point_gen, string_gen, unicode_gen, value_gen, Limits,
};
use crate::rng::Rng;
use crate::text::into_text;

verus! {

/// An exponent: `e` or `E`, an optional sign and an integer, as in `e0`, `E+0`, `E-5558`.
///
/// ```text
/// [Ee] [+-]? INT
/// ```
#[derive(Debug)]
pub struct Exp;

impl Exp {
    /// Generates the symbol's text from `rng`, and counts the symbols
    /// entered on `recursion`.
    pub fn generate(rng: &mut Rng, recursion: &mut u64) -> (res: String)
        ensures
            res@ == decode_utf8(exp_gen(*old(rng), Limits::standard()).out),
            *final(rng) == exp_gen(*old(rng), Limits::standard()).src,
            *final(recursion) == after(*old(recursion), exp_gen(*old(rng), Limits::standard()).calls),
    {
        let ghost start = *rng;
        let ghost entered = *recursion;
        let mut buf: Vec<u8> = Vec::new();
        emit_exp(rng, Limits::standard(), recursion, &mut buf);
        proof {
            exp_is_sound(start, Limits::standard());
            assert(buf@ =~= exp_gen(start, Limits::standard()).out);
        }
        into_text(buf)
    }
}

/// An integer: `0`, or a nonzero digit and further digits, as in `0`, `4632`.
///
/// ```text
/// '0' | [1-9] [0-9]*
/// ```
#[derive(Debug)]
pub struct Int;

impl Int {
    /// Generates the symbol's text from `rng`, and counts the symbols
    /// entered on `recursion`.
    pub fn generate(rng: &mut Rng, recursion: &mut u64) -> (res: String)
        ensures
            res@ == decode_utf8(int_gen(*old(rng), Limits::standard()).out),
            *final(rng) == int_gen(*old(rng), Limits::standard()).src,
            *final(recursion) == after(*old(recursion), int_gen(*old(rng), Limits::standard()).calls),
    {
        let ghost start = *rng;
        let ghost entered = *recursion;
        let mut buf: Vec<u8> = Vec::new();
        emit_int(rng, Limits::standard(), recursion, &mut buf);
        proof {
            int_is_sound(start, Limits::standard());
            assert(buf@ =~= int_gen(start, Limits::standard()).out);
        }
        into_text(buf)
    }
}

/// A number, as in `157.038063E0`, `-0.8094341`.
///
/// ```text
/// '-'? INT ('.' [0-9]+)? EXP?
/// ```
#[derive(Debug)]
pub struct Number;

impl Number {
    /// Generates the symbol's text from `rng`, and counts the symbols
    /// entered on `recursion`.
    pub fn generate(rng: &mut Rng, recursion: &mut u64) -> (res: String)
        ensures
            res@ == decode_utf8(number_gen(*old(rng), Limits::standard()).out),
            *final(rng) == number_gen(*old(rng), Limits::standard()).src,
            *final(recursion) == after(*old(recursion), number_gen(*old(rng), Limits::standard()).calls),
    {
        let ghost start = *rng;
        let ghost entered = *recursion;
        let mut buf: Vec<u8> = Vec::new();
        emit_number(rng, Limits::standard(), recursion, &mut buf);
        proof {
            number_is_sound(start, Limits::standard());
            assert(buf@ =~= number_gen(start, Limits::standard()).out);
        }
        into_text(buf)
    }
}

/// A hexadecimal digit.
///
/// ```text
/// [0-9a-fA-F]
/// ```
#[derive(Debug)]
pub struct Hex;

impl Hex {
    /// Generates the symbol's text from `rng`, and counts the symbols
    /// entered on `recursion`.
    pub fn generate(rng: &mut Rng, recursion: &mut u64) -> (res: String)
        ensures
            res@ == decode_utf8(hex_gen(*old(rng)).out),
            *final(rng) == hex_gen(*old(rng)).src,
            *final(recursion) == after(*old(recursion), hex_gen(*old(rng)).calls),
    {
        let ghost start = *rng;
        let ghost entered = *recursion;
        let mut buf: Vec<u8> = Vec::new();
        emit_hex(rng, recursion, &mut buf);
        proof {
            hex_is_sound(start);
            assert(buf@ =~= hex_gen(start).out);
        }
        into_text(buf)
    }
}

/// The tail of a Unicode escape, as in `u56fc`.
///
/// ```text
/// 'u' HEX HEX HEX HEX
/// ```
#[derive(Debug)]
pub struct Unicode;

impl Unicode {
    /// Generates the symbol's text from `rng`, and counts the symbols
    /// entered on `recursion`.
    pub fn generate(rng: &mut Rng, recursion: &mut u64) -> (res: String)
        ensures
            res@ == decode_utf8(unicode_gen(*old(rng)).out),
            *final(rng) == unicode_gen(*old(rng)).src,
            *final(recursion) == after(*old(recursion), unicode_gen(*old(rng)).calls),
    {
        let ghost start = *rng;
        let ghost entered = *recursion;
        let mut buf: Vec<u8> = Vec::new();
        emit_unicode(rng, recursion, &mut buf);
        proof {
            unicode_is_sound(start);
            assert(buf@ =~= unicode_gen(start).out);
        }
        into_text(buf)
    }
}

/// A character that may stand in a string as it is.
///
/// ```text
/// ~ ["\\\u0000-\u001F]
/// ```
#[derive(Debug)]
pub struct SafeCodePoint;

impl SafeCodePoint {
    /// Generates the symbol's text from `rng`, and counts the symbols
    /// entered on `recursion`.
    pub fn generate(rng: &mut Rng, recursion: &mut u64) -> (res: String)
        ensures
            res@ == decode_utf8(safe_code_point_gen(*old(rng)).out),
            *final(rng) == safe_code_point_gen(*old(rng)).src,
            *final(recursion) == after(*old(recursion), safe_code_point_gen(*old(rng)).calls),
    {
        let ghost start = *rng;
        let ghost entered = *recursion;
        let mut buf: Vec<u8> = Vec::new();
        emit_safe_code_point(rng, recursion, &mut buf);
        proof {
            safe_code_point_is_string_body(start);
            assert(buf@ =~= safe_code_point_gen(start).out);
        }
        into_text(buf)
    }
}

/// An escape, as in `\n`, `\u6470`.
///
/// ```text
/// '\\' (["\\/bfnrt] | UNICODE)
/// ```
#[derive(Debug)]
pub struct Escape;

impl Escape {
    /// Generates the symbol's text from `rng`, and counts the symbols
    /// entered on `recursion`.
    pub fn generate(rng: &mut Rng, recursion: &mut u64) -> (res: String)
        ensures
            res@ == decode_utf8(escape_gen(*old(rng)).out),
            *final(rng) == escape_gen(*old(rng)).src,
            *final(recursion) == after(*old(recursion), escape_gen(*old(rng)).calls),
    {
        let ghost start = *rng;
        let ghost entered = *recursion;
        let mut buf: Vec<u8> = Vec::new();
        emit_escape(rng, recursion, &mut buf);
        proof {
            escape_is_string_body(start);
            assert(buf@ =~= escape_gen(start).out);
        }
        into_text(buf)
    }
}

/// A string in quotes.
///
/// ```text
/// '"' (ESC | SAFECODEPOINT)* '"'
/// ```
#[derive(Debug)]
pub struct JsonString;

impl JsonString {
    /// Generates the symbol's text from `rng`, and counts the symbols
    /// entered on `recursion`.
    pub fn generate(rng: &mut Rng, recursion: &mut u64) -> (res: String)
        ensures
            res@ == decode_utf8(string_gen(*old(rng), Limits::standard(), *old(recursion)).out),
            *final(rng) == string_gen(*old(rng), Limits::standard(), *old(recursion)).src,
            *final(recursion) == after(*old(recursion), string_gen(*old(rng), Limits::standard(), *old(recursion)).calls),
    {
        let ghost start = *rng;
        let ghost entered = *recursion;
        let mut buf: Vec<u8> = Vec::new();
        emit_string(rng, Limits::standard(), recursion, &mut buf);
        proof {
            string_is_sound(start, Limits::standard(), entered);
            assert(buf@ =~= string_gen(start, Limits::standard(), entered).out);
        }
        into_text(buf)
    }
}

/// A value.
///
/// ```text
/// STRING | NUMBER | obj | array | 'true' | 'false' | 'null'
/// ```
#[derive(Debug)]
pub struct JsonValue;

impl JsonValue {
    /// Generates the symbol's text from `rng`, and counts the symbols
    /// entered on `recursion`.
    pub fn generate(rng: &mut Rng, recursion: &mut u64) -> (res: String)
        ensures
            res@ == decode_utf8(value_gen(*old(rng), Limits::standard(), *old(recursion)).out),
            *final(rng) == value_gen(*old(rng), Limits::standard(), *old(recursion)).src,
            *final(recursion) == after(*old(recursion), value_gen(*old(rng), Limits::standard(), *old(recursion)).calls),
    {
        let ghost start = *rng;
        let ghost entered = *recursion;
        let mut buf: Vec<u8> = Vec::new();
        emit_value(rng, Limits::standard(), recursion, &mut buf);
        proof {
            value_is_sound(start, Limits::standard(), entered);
            assert(buf@ =~= value_gen(start, Limits::standard(), entered).out);
        }
        into_text(buf)
    }
}

/// A pair of an object: a string, a colon and a value.
///
/// ```text
/// STRING ':' value
/// ```
#[derive(Debug)]
pub struct JsonPair;

impl JsonPair {
    /// Generates the symbol's text from `rng`, and counts the symbols
    /// entered on `recursion`.
    pub fn generate(rng: &mut Rng, recursion: &mut u64) -> (res: String)
        ensures
            res@ == decode_utf8(pair_gen(*old(rng), Limits::standard(), *old(recursion)).out),
            *final(rng) == pair_gen(*old(rng), Limits::standard(), *old(recursion)).src,
            *final(recursion) == after(*old(recursion), pair_gen(*old(rng), Limits::standard(), *old(recursion)).calls),
    {
        let ghost start = *rng;
        let ghost entered = *recursion;
        let mut buf: Vec<u8> = Vec::new();
        emit_pair(rng, Limits::standard(), recursion, &mut buf);
        proof {
            pair_is_sound(start, Limits::standard(), entered);
            assert(buf@ =~= pair_gen(start, Limits::standard(), entered).out);
        }
        into_text(buf)
    }
}

/// An array.
///
/// ```text
/// '[' value (',' value)* ']' | '[' ']'
/// ```
#[derive(Debug)]
pub struct JsonArray;

impl JsonArray {
    /// Generates the symbol's text from `rng`, and counts the symbols
    /// entered on `recursion`.
    pub fn generate(rng: &mut Rng, recursion: &mut u64) -> (res: String)
        ensures
            res@ == decode_utf8(array_gen(*old(rng), Limits::standard(), *old(recursion)).out),
            *final(rng) == array_gen(*old(rng), Limits::standard(), *old(recursion)).src,
            *final(recursion) == after(*old(recursion), array_gen(*old(rng), Limits::standard(), *old(recursion)).calls),
    {
        let ghost start = *rng;
        let ghost entered = *recursion;
        let mut buf: Vec<u8> = Vec::new();
        emit_array(rng, Limits::standard(), recursion, &mut buf);
        proof {
            array_is_sound(start, Limits::standard(), entered);
            assert(buf@ =~= array_gen(start, Limits::standard(), entered).out);
        }
        into_text(buf)
    }
}

/// An object.
///
/// ```text
/// '{' pair (',' pair)* '}' | '{' '}'
/// ```
#[derive(Debug)]
pub struct JsonObject;

impl JsonObject {
    /// Generates the symbol's text from `rng`, and counts the symbols
    /// entered on `recursion`.
    pub fn generate(rng: &mut Rng, recursion: &mut u64) -> (res: String)
        ensures
            res@ == decode_utf8(object_gen(*old(rng), Limits::standard(), *old(recursion)).out),
            *final(rng) == object_gen(*old(rng), Limits::standard(), *old(recursion)).src,
            *final(recursion) == after(*old(recursion), object_gen(*old(rng), Limits::standard(), *old(recursion)).calls),
    {
        let ghost start = *rng;
        let ghost entered = *recursion;
        let mut buf: Vec<u8> = Vec::new();
        emit_object(rng, Limits::standard(), recursion, &mut buf);
        proof {
            object_is_sound(start, Limits::standard(), entered);
            assert(buf@ =~= object_gen(start, Limits::standard(), entered).out);
        }
        into_text(buf)
    }
}

/// A whole text: a value.
///
/// ```text
/// value
/// ```
#[derive(Debug)]
pub struct Json;

impl Json {
    /// Generates the symbol's text from `rng`, and counts the symbols
    /// entered on `recursion`.
    pub fn generate(rng: &mut Rng, recursion: &mut u64) -> (res: String)
        ensures
            res@ == decode_utf8(json_gen(*old(rng), Limits::standard(), *old(recursion)).out),
            *final(rng) == json_gen(*old(rng), Limits::standard(), *old(recursion)).src,
            *final(recursion) == after(*old(recursion), json_gen(*old(rng), Limits::standard(), *old(recursion)).calls),
    {
        let ghost start = *rng;
        let ghost entered = *recursion;
        let mut buf: Vec<u8> = Vec::new();
        emit_json(rng, Limits::standard(), recursion, &mut buf);
        proof {
            json_is_sound(start, Limits::standard(), entered);
            assert(buf@ =~= json_gen(start, Limits::standard(), entered).out);
        }
        into_text(buf)
    }
}

} // verus!
