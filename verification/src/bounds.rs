//! How many symbols one generation enters, at most. The depth counter grows
//! by one for each, so this bounds how far it can rise: by a number that is
//! linear in the levels left below the cap, whatever the source draws.

use vstd::prelude::*;
use crate::laws::{number_holds_number_bytes, units_are_string_body};
use crate::model::{
    after, array_gen, items, json_gen, levels, members, object_gen, pair_gen, string_gen,
    value_gen, Limits,
};
use crate::source::Source;

verus! {

/// The most symbols that a string enters: itself, and six for each of its
/// units.
pub open spec fn string_most(limits: Limits) -> nat {
    (6 * limits.max_repeat) as nat
}

/// The most symbols that a value enters when it holds no object and no
/// array.
pub open spec fn value_base(limits: Limits) -> nat {
    string_most(limits) + 1
}

/// The most symbols that a pair enters when its value holds no object and
/// no array.
pub open spec fn pair_base(limits: Limits) -> nat {
    1 + string_most(limits) + value_base(limits)
}

/// The most symbols that an array enters when none of its values holds an
/// object or an array.
pub open spec fn array_base(limits: Limits) -> nat {
    1 + (limits.max_repeat as nat) * value_base(limits)
}

/// The most symbols that an object enters when none of its values holds an
/// object or an array.
pub open spec fn object_base(limits: Limits) -> nat {
    1 + (limits.max_repeat as nat) * pair_base(limits)
}

/// How many more symbols may be entered for each level left below the cap.
pub open spec fn slope(limits: Limits) -> nat {
    object_base(limits)
}

/// The most symbols that a value entered at `depth` enters.
pub open spec fn value_most(limits: Limits, depth: u64) -> nat {
    slope(limits) * levels(limits, depth) + value_base(limits)
}

/// The most symbols that a whole text entered at `depth` enters.
pub open spec fn json_most(limits: Limits, depth: u64) -> nat {
    1 + value_most(limits, after(depth, 1))
}

proof fn mul_next(a: nat, b: nat)
    by (nonlinear_arith)
    ensures
        (a + 1) * b == a * b + b,
        b * (a + 1) == b * a + b,
        0 * b == 0,
        b * 0 == 0,
{
}

proof fn mul_spent(m: nat, l: nat, c: nat)
    by (nonlinear_arith)
    requires
        m >= 1,
        c <= l,
    ensures
        c + m * ((l - c) as nat) <= m * l,
        m * ((l - c) as nat) <= m * l,
{
}

proof fn bases_in_order(limits: Limits)
    requires
        limits.wf(),
    ensures
        5 <= value_base(limits) <= pair_base(limits),
        array_base(limits) <= object_base(limits),
        value_base(limits) <= array_base(limits),
        pair_base(limits) <= object_base(limits),
        slope(limits) >= 1,
{
    let r = limits.max_repeat as nat;
    let v = value_base(limits);
    let p = pair_base(limits);
    assert(r * v <= r * p) by (nonlinear_arith)
        requires
            v <= p,
    ;
    assert(v <= r * v) by (nonlinear_arith)
        requires
            r >= 1,
    ;
    assert(p <= r * p) by (nonlinear_arith)
        requires
            r >= 1,
    ;
}

/// The levels left after `calls` more symbols: as many fewer, and none
/// once the cap is reached.
pub proof fn levels_after(limits: Limits, depth: u64, calls: nat)
    ensures
        levels(limits, after(depth, calls)) == if calls >= levels(limits, depth) {
            0
        } else {
            levels(limits, depth) - calls
        },
{
}

/// A string enters at least itself and at most `string_most` symbols.
pub proof fn string_calls_are_bounded<S: Source>(src: S, limits: Limits, depth: u64)
    requires
        limits.wf(),
    ensures
        1 <= string_gen(src, limits, depth).calls <= string_most(limits),
{
    if after(depth, 1) <= limits.max_depth {
        let n = (src.drawn() % limits.max_repeat) as nat;
        units_are_string_body(src.advanced(), n);
    }
}

/// A value enters at most `value_most` symbols.
pub proof fn value_calls_are_bounded<S: Source>(src: S, limits: Limits, depth: u64)
    requires
        limits.wf(),
    ensures
        1 <= value_gen(src, limits, depth).calls <= value_most(limits, depth),
    decreases levels(limits, depth), 0nat, 0nat,
{
    let d1 = after(depth, 1);
    let m = slope(limits);
    let l = levels(limits, depth);
    bases_in_order(limits);
    mul_next(m, l);
    if d1 >= limits.max_depth {
        number_holds_number_bytes(src, limits);
    } else {
        let bucket = src.drawn() % 101;
        let s1 = src.advanced();
        assert(levels(limits, d1) == l - 1);
        mul_next((l - 1) as nat, m);
        if bucket < 15 {
            string_calls_are_bounded(s1, limits, d1);
        } else if bucket < 30 {
            number_holds_number_bytes(s1, limits);
        } else if bucket < 60 {
            object_calls_are_bounded(s1, limits, d1);
        } else if bucket < 98 {
            array_calls_are_bounded(s1, limits, d1);
        }
    }
}

/// A pair enters at most `pair_base` symbols more than the slope allows for
/// the levels left.
pub proof fn pair_calls_are_bounded<S: Source>(src: S, limits: Limits, depth: u64)
    requires
        limits.wf(),
    ensures
        1 <= pair_gen(src, limits, depth).calls <= slope(limits) * levels(limits, depth)
            + pair_base(limits),
    decreases levels(limits, depth), 1nat, 0nat,
{
    let d1 = after(depth, 1);
    let key = string_gen(src, limits, d1);
    let d2 = after(d1, key.calls);
    let m = slope(limits);
    bases_in_order(limits);
    string_calls_are_bounded(src, limits, d1);
    value_calls_are_bounded(key.src, limits, d2);
    assert(levels(limits, d2) <= levels(limits, depth));
    mul_spent(m, levels(limits, depth), (levels(limits, depth) - levels(limits, d2)) as nat);
}

/// `n` further values of an array enter at most `value_base` symbols each,
/// more than the slope allows for the levels left.
pub proof fn items_calls_are_bounded<S: Source>(src: S, limits: Limits, depth: u64, n: nat)
    requires
        limits.wf(),
    ensures
        items(src, limits, depth, n).calls <= slope(limits) * levels(limits, depth) + n
            * value_base(limits),
    decreases levels(limits, depth), 2nat, n,
{
    let m = slope(limits);
    let l = levels(limits, depth);
    let v = value_base(limits);
    bases_in_order(limits);
    if n == 0 {
        mul_next(0, v);
    } else {
        let first = value_gen(src, limits, depth);
        let d2 = after(depth, first.calls);
        value_calls_are_bounded(src, limits, depth);
        items_calls_are_bounded(first.src, limits, d2, (n - 1) as nat);
        levels_after(limits, depth, first.calls);
        mul_next((n - 1) as nat, v);
        if first.calls >= l {
            mul_next(m, 0);
        } else {
            mul_spent(m, l, first.calls);
        }
    }
}

/// An array enters at most `array_base` symbols more than the slope allows
/// for the levels left.
pub proof fn array_calls_are_bounded<S: Source>(src: S, limits: Limits, depth: u64)
    requires
        limits.wf(),
    ensures
        1 <= array_gen(src, limits, depth).calls <= slope(limits) * levels(limits, depth)
            + array_base(limits),
    decreases levels(limits, depth), 3nat, 0nat,
{
    let d1 = after(depth, 1);
    let s1 = src.advanced();
    let m = slope(limits);
    let l = levels(limits, depth);
    let v = value_base(limits);
    let r = limits.max_repeat as nat;
    bases_in_order(limits);
    if src.drawn() % 10 != 0 {
        let first = value_gen(s1, limits, d1);
        let d2 = after(d1, first.calls);
        let l1 = levels(limits, d1);
        value_calls_are_bounded(s1, limits, d1);
        levels_after(limits, d1, first.calls);
        mul_spent(m, l, (l - l1) as nat);
        mul_next((r - 1) as nat, v);
        if d2 <= limits.max_depth {
            let n = (first.src.drawn() % limits.max_repeat) as nat;
            items_calls_are_bounded(first.src.advanced(), limits, d2, n);
            assert(n * v <= (r - 1) * v) by (nonlinear_arith)
                requires
                    n <= r - 1,
            ;
            if first.calls >= l1 {
                mul_next(m, 0);
            } else {
                mul_spent(m, l1, first.calls);
            }
        }
    }
}

/// `n` further pairs of an object enter at most `pair_base` symbols each,
/// more than the slope allows for the levels left.
pub proof fn members_calls_are_bounded<S: Source>(src: S, limits: Limits, depth: u64, n: nat)
    requires
        limits.wf(),
    ensures
        members(src, limits, depth, n).calls <= slope(limits) * levels(limits, depth) + n
            * pair_base(limits),
    decreases levels(limits, depth), 2nat, n,
{
    let m = slope(limits);
    let l = levels(limits, depth);
    let p = pair_base(limits);
    bases_in_order(limits);
    if n == 0 {
        mul_next(0, p);
    } else {
        let first = pair_gen(src, limits, depth);
        let d2 = after(depth, first.calls);
        pair_calls_are_bounded(src, limits, depth);
        members_calls_are_bounded(first.src, limits, d2, (n - 1) as nat);
        levels_after(limits, depth, first.calls);
        mul_next((n - 1) as nat, p);
        if first.calls >= l {
            mul_next(m, 0);
        } else {
            mul_spent(m, l, first.calls);
        }
    }
}

/// An object enters at most `object_base` symbols more than the slope
/// allows for the levels left.
pub proof fn object_calls_are_bounded<S: Source>(src: S, limits: Limits, depth: u64)
    requires
        limits.wf(),
    ensures
        1 <= object_gen(src, limits, depth).calls <= slope(limits) * levels(limits, depth)
            + object_base(limits),
    decreases levels(limits, depth), 3nat, 0nat,
{
    let d1 = after(depth, 1);
    let s1 = src.advanced();
    let m = slope(limits);
    let l = levels(limits, depth);
    let p = pair_base(limits);
    let r = limits.max_repeat as nat;
    bases_in_order(limits);
    if src.drawn() % 10 != 0 {
        let first = pair_gen(s1, limits, d1);
        let d2 = after(d1, first.calls);
        let l1 = levels(limits, d1);
        pair_calls_are_bounded(s1, limits, d1);
        levels_after(limits, d1, first.calls);
        mul_spent(m, l, (l - l1) as nat);
        mul_next((r - 1) as nat, p);
        if d2 <= limits.max_depth {
            let n = (first.src.drawn() % limits.max_repeat) as nat;
            members_calls_are_bounded(first.src.advanced(), limits, d2, n);
            assert(n * p <= (r - 1) * p) by (nonlinear_arith)
                requires
                    n <= r - 1,
            ;
            if first.calls >= l1 {
                mul_next(m, 0);
            } else {
                mul_spent(m, l1, first.calls);
            }
        }
    }
}

/// A whole text enters at most `json_most` symbols: generation is finite,
/// with a bound that no source can pass.
pub proof fn json_calls_are_bounded<S: Source>(src: S, limits: Limits, depth: u64)
    requires
        limits.wf(),
    ensures
        2 <= json_gen(src, limits, depth).calls <= json_most(limits, depth),
{
    value_calls_are_bounded(src, limits, after(depth, 1));
}

/// Under the standard limits a whole text generated from depth zero enters
/// fewer than 400 000 symbols, so the counter ends at exactly the number of
/// symbols entered.
pub proof fn standard_json_is_counted<S: Source>(src: S)
    ensures
        json_gen(src, Limits::standard(), 0).calls <= 394_433,
        after(0, json_gen(src, Limits::standard(), 0).calls) == json_gen(
            src,
            Limits::standard(),
            0,
        ).calls,
{
    let limits = Limits::standard();
    json_calls_are_bounded(src, limits, 0);
    assert(pair_base(limits) == 194);
    assert(slope(limits) == 3105);
    assert(levels(limits, after(0, 1)) == 127);
    assert(value_most(limits, after(0, 1)) == 3105 * 127 + 97);
}

} // verus!
