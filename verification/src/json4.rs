//! The grammar's symbols as types that hold nothing: each appends its text
//! to a byte buffer through `Generate`.

use vstd::prelude::*;
use crate::engine::{
    emit_array, emit_escape, emit_exp, emit_hex, emit_int, emit_json, emit_number, emit_object,
    emit_pair, emit_safe_code_point, emit_string, emit_unicode, emit_value,
};
use crate::model::{
    array_gen, escape_gen, exp_gen, hex_gen, int_gen, json_gen, number_gen, object_gen, pair_gen,
    safe_code_point_gen, string_gen, unicode_gen, value_gen, Limits, Piece,
};
use crate::rng::Rng;
use crate::Generate;

verus! {

/// An exponent: `e` or `E`, an optional sign and an integer, as in `e0`, `E+0`, `E-5558`.
///
/// ```text
/// [Ee] [+-]? INT
/// ```
#[derive(Debug)]
pub enum Exp {
    /// The symbol's name as a value. It holds nothing: the symbol is
    /// used through `generate`.
    Symbol,
}

impl Generate for Exp {
    open spec fn produces(rng: Rng, depth: u64) -> Piece<Rng> {
        exp_gen(rng, Limits::standard())
    }

    fn generate(rng: &mut Rng, recursion: &mut u64, buf: &mut Vec<u8>) {
        emit_exp(rng, Limits::standard(), recursion, buf);
    }
}

/// An integer: `0`, or a nonzero digit and further digits, as in `0`, `4632`.
///
/// ```text
/// '0' | [1-9] [0-9]*
/// ```
#[derive(Debug)]
pub enum Int {
    /// The symbol's name as a value. It holds nothing: the symbol is
    /// used through `generate`.
    Symbol,
}

impl Generate for Int {
    open spec fn produces(rng: Rng, depth: u64) -> Piece<Rng> {
        int_gen(rng, Limits::standard())
    }

    fn generate(rng: &mut Rng, recursion: &mut u64, buf: &mut Vec<u8>) {
        emit_int(rng, Limits::standard(), recursion, buf);
    }
}

/// A number, as in `157.038063E0`, `-0.8094341`.
///
/// ```text
/// '-'? INT ('.' [0-9]+)? EXP?
/// ```
#[derive(Debug)]
pub enum Number {
    /// The symbol's name as a value. It holds nothing: the symbol is
    /// used through `generate`.
    Symbol,
}

impl Generate for Number {
    open spec fn produces(rng: Rng, depth: u64) -> Piece<Rng> {
        number_gen(rng, Limits::standard())
    }

    fn generate(rng: &mut Rng, recursion: &mut u64, buf: &mut Vec<u8>) {
        emit_number(rng, Limits::standard(), recursion, buf);
    }
}

/// A hexadecimal digit.
///
/// ```text
/// [0-9a-fA-F]
/// ```
#[derive(Debug)]
pub enum Hex {
    /// The symbol's name as a value. It holds nothing: the symbol is
    /// used through `generate`.
    Symbol,
}

impl Generate for Hex {
    open spec fn produces(rng: Rng, depth: u64) -> Piece<Rng> {
        hex_gen(rng)
    }

    fn generate(rng: &mut Rng, recursion: &mut u64, buf: &mut Vec<u8>) {
        emit_hex(rng, recursion, buf);
    }
}

/// The tail of a Unicode escape, as in `u56fc`.
///
/// ```text
/// 'u' HEX HEX HEX HEX
/// ```
#[derive(Debug)]
pub enum Unicode {
    /// The symbol's name as a value. It holds nothing: the symbol is
    /// used through `generate`.
    Symbol,
}

impl Generate for Unicode {
    open spec fn produces(rng: Rng, depth: u64) -> Piece<Rng> {
        unicode_gen(rng)
    }

    fn generate(rng: &mut Rng, recursion: &mut u64, buf: &mut Vec<u8>) {
        emit_unicode(rng, recursion, buf);
    }
}

/// A character that may stand in a string as it is.
///
/// ```text
/// ~ ["\\\u0000-\u001F]
/// ```
#[derive(Debug)]
pub enum SafeCodePoint {
    /// The symbol's name as a value. It holds nothing: the symbol is
    /// used through `generate`.
    Symbol,
}

impl Generate for SafeCodePoint {
    open spec fn produces(rng: Rng, depth: u64) -> Piece<Rng> {
        safe_code_point_gen(rng)
    }

    fn generate(rng: &mut Rng, recursion: &mut u64, buf: &mut Vec<u8>) {
        emit_safe_code_point(rng, recursion, buf);
    }
}

/// An escape, as in `\n`, `\u6470`.
///
/// ```text
/// '\\' (["\\/bfnrt] | UNICODE)
/// ```
#[derive(Debug)]
pub enum Escape {
    /// The symbol's name as a value. It holds nothing: the symbol is
    /// used through `generate`.
    Symbol,
}

impl Generate for Escape {
    open spec fn produces(rng: Rng, depth: u64) -> Piece<Rng> {
        escape_gen(rng)
    }

    fn generate(rng: &mut Rng, recursion: &mut u64, buf: &mut Vec<u8>) {
        emit_escape(rng, recursion, buf);
    }
}

/// A string in quotes.
///
/// ```text
/// '"' (ESC | SAFECODEPOINT)* '"'
/// ```
#[derive(Debug)]
pub enum JsonString {
    /// The symbol's name as a value. It holds nothing: the symbol is
    /// used through `generate`.
    Symbol,
}

impl Generate for JsonString {
    open spec fn produces(rng: Rng, depth: u64) -> Piece<Rng> {
        string_gen(rng, Limits::standard(), depth)
    }

    fn generate(rng: &mut Rng, recursion: &mut u64, buf: &mut Vec<u8>) {
        emit_string(rng, Limits::standard(), recursion, buf);
    }
}

/// A value.
///
/// ```text
/// STRING | NUMBER | obj | array | 'true' | 'false' | 'null'
/// ```
#[derive(Debug)]
pub enum JsonValue {
    /// The symbol's name as a value. It holds nothing: the symbol is
    /// used through `generate`.
    Symbol,
}

impl Generate for JsonValue {
    open spec fn produces(rng: Rng, depth: u64) -> Piece<Rng> {
        value_gen(rng, Limits::standard(), depth)
    }

    fn generate(rng: &mut Rng, recursion: &mut u64, buf: &mut Vec<u8>) {
        emit_value(rng, Limits::standard(), recursion, buf);
    }
}

/// A pair of an object: a string, a colon and a value.
///
/// ```text
/// STRING ':' value
/// ```
#[derive(Debug)]
pub enum JsonPair {
    /// The symbol's name as a value. It holds nothing: the symbol is
    /// used through `generate`.
    Symbol,
}

impl Generate for JsonPair {
    open spec fn produces(rng: Rng, depth: u64) -> Piece<Rng> {
        pair_gen(rng, Limits::standard(), depth)
    }

    fn generate(rng: &mut Rng, recursion: &mut u64, buf: &mut Vec<u8>) {
        emit_pair(rng, Limits::standard(), recursion, buf);
    }
}

/// An array.
///
/// ```text
/// '[' value (',' value)* ']' | '[' ']'
/// ```
#[derive(Debug)]
pub enum JsonArray {
    /// The symbol's name as a value. It holds nothing: the symbol is
    /// used through `generate`.
    Symbol,
}

impl Generate for JsonArray {
    open spec fn produces(rng: Rng, depth: u64) -> Piece<Rng> {
        array_gen(rng, Limits::standard(), depth)
    }

    fn generate(rng: &mut Rng, recursion: &mut u64, buf: &mut Vec<u8>) {
        emit_array(rng, Limits::standard(), recursion, buf);
    }
}

/// An object.
///
/// ```text
/// '{' pair (',' pair)* '}' | '{' '}'
/// ```
#[derive(Debug)]
pub enum JsonObject {
    /// The symbol's name as a value. It holds nothing: the symbol is
    /// used through `generate`.
    Symbol,
}

impl Generate for JsonObject {
    open spec fn produces(rng: Rng, depth: u64) -> Piece<Rng> {
        object_gen(rng, Limits::standard(), depth)
    }

    fn generate(rng: &mut Rng, recursion: &mut u64, buf: &mut Vec<u8>) {
        emit_object(rng, Limits::standard(), recursion, buf);
    }
}

/// A whole text: a value.
///
/// ```text
/// value
/// ```
#[derive(Debug)]
pub enum Json {
    /// The symbol's name as a value. It holds nothing: the symbol is
    /// used through `generate`.
    Symbol,
}

impl Generate for Json {
    open spec fn produces(rng: Rng, depth: u64) -> Piece<Rng> {
        json_gen(rng, Limits::standard(), depth)
    }

    fn generate(rng: &mut Rng, recursion: &mut u64, buf: &mut Vec<u8>) {
        emit_json(rng, Limits::standard(), recursion, buf);
    }
}

} // verus!
