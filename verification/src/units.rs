//! Byte counts in words: `1.5 KB`, `2.0 GB`.

use crate::text::{decimal, push_decimal};
use vstd::prelude::*;
use vstd::string::*;

verus! {

/// The bytes in a kilobyte.
pub const KB: u64 = 1024;

/// The bytes in a megabyte.
pub const MB: u64 = 1024 * 1024;

/// The bytes in a gigabyte.
pub const GB: u64 = 1024 * 1024 * 1024;

/// The first number that a double-precision value cannot hold exactly
/// together with all the numbers below it: two to the power 53.
pub const EXACT_LIMIT: u64 = 0x20_0000_0000_0000;

/// The distance between neighbouring double-precision values around `n`.
pub open spec fn spacing(n: nat) -> nat
    decreases n,
{
    if n < EXACT_LIMIT {
        1
    } else {
        2 * spacing(n / 2)
    }
}

/// `num / den` rounded to the nearest whole number, a tie going to the even
/// neighbour.
pub open spec fn round_half_even(num: nat, den: nat) -> nat
    recommends
        den > 0,
{
    let quotient = num / den;
    let rest = num % den;
    if 2 * rest > den || (2 * rest == den && quotient % 2 == 1) {
        quotient + 1
    } else {
        quotient
    }
}

/// The double-precision value nearest to `n`, a tie going to the value
/// whose last bit is zero.
pub open spec fn nearest_double(n: nat) -> nat {
    round_half_even(n, spacing(n)) * spacing(n)
}

/// How many tenths of `unit` the byte count comes to, counted on its
/// nearest double-precision value and rounded to the nearest tenth, a tie
/// going to the even tenth.
pub open spec fn tenths_of(bytes: nat, unit: nat) -> nat
    recommends
        unit > 0,
{
    round_half_even(10 * nearest_double(bytes), unit)
}

/// A count of tenths written with one decimal place.
pub open spec fn one_decimal(tenths: nat) -> Seq<char> {
    decimal(tenths / 10) + seq!['.'] + decimal(tenths % 10)
}

/// The byte count in words: in the largest of the units GB, MB and KB that
/// it reaches, with one decimal place, or in whole bytes below a kilobyte.
pub open spec fn format_bytes_text(bytes: nat) -> Seq<char> {
    if bytes >= GB {
        one_decimal(tenths_of(bytes, GB as nat)) + " GB"@
    } else if bytes >= MB {
        one_decimal(tenths_of(bytes, MB as nat)) + " MB"@
    } else if bytes >= KB {
        one_decimal(tenths_of(bytes, KB as nat)) + " KB"@
    } else {
        decimal(bytes) + " B"@
    }
}

fn spacing_of(n: u64) -> (step: u64)
    ensures
        step == spacing(n as nat),
        1 <= step <= 2048,
{
    let mut rest: u64 = n;
    let mut step: u64 = 1;
    let mut halvings: u32 = 0;
    proof {
        reveal_with_fuel(pow2_small, 2);
    }
    while rest >= EXACT_LIMIT
        invariant
            halvings <= 11,
            step == pow2_small(halvings as nat),
            rest as int == (n as int) / (step as int),
            spacing(n as nat) == step * spacing(rest as nat),
        decreases rest,
    {
        proof {
            lemma_pow2_small(halvings as nat);
            if halvings >= 11 {
                assert(step == 2048);
                assert((n as int) / 2048 < EXACT_LIMIT);
            }
            vstd::arithmetic::div_mod::lemma_div_denominator(n as int, step as int, 2);
            assert(step * (2 * spacing((rest / 2) as nat)) == (2 * step) * spacing((rest / 2) as nat))
                by (nonlinear_arith);
        }
        rest = rest / 2;
        step = step * 2;
        halvings = halvings + 1;
    }
    proof {
        lemma_pow2_small(halvings as nat);
        assert(spacing(rest as nat) == 1);
        assert(step * 1 == step);
    }
    step
}

/// Two to the power `k`, for the few small powers that occur here.
spec fn pow2_small(k: nat) -> nat
    decreases k,
{
    if k == 0 {
        1
    } else {
        2 * pow2_small((k - 1) as nat)
    }
}

proof fn lemma_pow2_small(k: nat)
    requires
        k <= 11,
    ensures
        1 <= pow2_small(k) <= 2048,
        k == 11 ==> pow2_small(k) == 2048,
        k < 11 ==> pow2_small(k) <= 1024,
    decreases k,
{
    reveal_with_fuel(pow2_small, 12);
}

fn rounded_quotient(num: u128, den: u128) -> (q: u128)
    requires
        den > 0,
        num / den < u128::MAX,
    ensures
        q == round_half_even(num as nat, den as nat),
{
    let quotient = num / den;
    let rest = num % den;
    // `rest` is below `den`, so comparing it with what is left of `den`
    // compares twice `rest` with `den` without leaving the number range.
    let other = den - rest;
    if rest > other || (rest == other && quotient % 2 == 1) {
        quotient + 1
    } else {
        quotient
    }
}

fn push_one_decimal(out: &mut String, tenths: u64)
    ensures
        final(out)@ == old(out)@ + one_decimal(tenths as nat),
{
    proof {
        reveal_strlit(".");
    }
    push_decimal(out, tenths / 10);
    out.append(".");
    push_decimal(out, tenths % 10);
    assert(out@ =~= old(out)@ + one_decimal(tenths as nat));
}

fn tenths(bytes: u64, unit: u64) -> (t: u64)
    requires
        unit >= KB,
    ensures
        t == tenths_of(bytes as nat, unit as nat),
{
    let step = spacing_of(bytes);
    let steps = rounded_quotient(bytes as u128, step as u128);
    assert(steps <= bytes / step + 1);
    proof {
        vstd::arithmetic::div_mod::lemma_fundamental_div_mod(bytes as int, step as int);
        assert((bytes / step) * step == step * (bytes / step)) by (nonlinear_arith);
    }
    assert(steps * step <= 0x1_0000_0000_0000_0800) by (nonlinear_arith)
        requires
            steps <= bytes / step + 1,
            1 <= step <= 2048,
            bytes <= u64::MAX,
            (bytes / step) * step <= bytes,
    ;
    let nearest: u128 = steps * (step as u128);
    let scaled: u128 = 10 * nearest;
    let t = rounded_quotient(scaled, unit as u128);
    assert(t <= scaled / (unit as u128) + 1);
    assert(scaled / (unit as u128) <= scaled / 1024) by (nonlinear_arith)
        requires
            unit >= 1024,
            scaled >= 0,
    ;
    assert(t <= u64::MAX);
    t as u64
}

/// The byte count in words.
pub fn format_bytes(bytes: u64) -> (text: String)
    ensures
        text@ == format_bytes_text(bytes as nat),
{
    let mut text = String::new();
    if bytes >= GB {
        push_one_decimal(&mut text, tenths(bytes, GB));
        text.append(" GB");
    } else if bytes >= MB {
        push_one_decimal(&mut text, tenths(bytes, MB));
        text.append(" MB");
    } else if bytes >= KB {
        push_one_decimal(&mut text, tenths(bytes, KB));
        text.append(" KB");
    } else {
        push_decimal(&mut text, bytes);
        text.append(" B");
    }
    assert(text@ =~= format_bytes_text(bytes as nat));
    text
}

/// The width to which the name of a target is filled up in a row.
pub const NAME_WIDTH: usize = 40;

/// A row of `n` spaces.
pub open spec fn spaces(n: int) -> Seq<char> {
    Seq::new(
        if n > 0 {
            n as nat
        } else {
            0
        },
        |i: int| ' ',
    )
}

/// The row of a target: a check box, the name filled up with spaces to
/// [`NAME_WIDTH`] characters, and the size in words.
pub open spec fn target_row(name: Seq<char>, size: nat, selected: bool) -> Seq<char> {
    " "@ + (if selected {
        "[X]"@
    } else {
        "[ ]"@
    }) + " "@ + name + spaces(NAME_WIDTH - name.len()) + " "@ + format_bytes_text(size) + " "@
}

/// The row of a target in a list of the dashboard.
pub fn format_target(name: &str, size: u64, selected: bool) -> (row: String)
    ensures
        row@ == target_row(name@, size as nat, selected),
{
    proof {
        reveal_strlit(" ");
    }
    let mut row = String::from_str(" ");
    row.append(if selected {
        "[X]"
    } else {
        "[ ]"
    });
    row.append(" ");
    row.append(name);
    let ghost head = row@;
    let mut width = name.unicode_len();
    assert(row@ =~= head + spaces(0));
    while width < NAME_WIDTH
        invariant
            " "@ == seq![' '],
            name@.len() <= width,
            width <= NAME_WIDTH || width == name@.len(),
            row@ == head + spaces(width - name@.len()),
        decreases NAME_WIDTH - width,
    {
        row.append(" ");
        width += 1;
        assert(row@ =~= head + spaces(width - name@.len()));
    }
    assert(spaces(width - name@.len()) =~= spaces(NAME_WIDTH - name@.len()));
    row.append(" ");
    row.append(format_bytes(size).as_str());
    row.append(" ");
    assert(row@ =~= target_row(name@, size as nat, selected));
    row
}

} // verus!
