//! Human-readable byte counts and table cells.
use vstd::prelude::*;
use vstd::arithmetic::div_mod::{lemma_div_denominator, lemma_fundamental_div_mod};
use vstd::string::*;
use vstd::utf8::{decode_utf8, encode_utf8, encode_utf8_decode_utf8, is_char_boundary};
use crate::text::{contains_str, decimal, digit, digit_char, has_substring, lowercase, push_char, push_decimal, spec_lowercase};

verus! {

pub const KB: u64 = 1024;

pub const MB: u64 = 1024 * 1024;

pub const GB: u64 = 1024 * 1024 * 1024;

/// `2^e`.
pub open spec fn two_pow(e: nat) -> nat
    decreases e,
{
    if e == 0 {
        1
    } else {
        2 * two_pow((e - 1) as nat)
    }
}

/// How many low bits of `b` do not fit in the 53-bit significand of an
/// `f64`.
pub open spec fn excess_bits(b: nat) -> nat
    decreases b,
{
    if b < 0x20_0000_0000_0000 {
        0
    } else {
        1 + excess_bits(b / 2)
    }
}

/// `q + r / d` rounded to a whole number, ties to even, for `r < d`.
pub open spec fn round_half_even(q: nat, r: nat, d: nat) -> nat {
    if 2 * r > d || (2 * r == d && q % 2 == 1) {
        q + 1
    } else {
        q
    }
}

/// The value of `b as f64`: `b` rounded to 53 significant bits, ties to
/// even.
pub open spec fn f64_of(b: nat) -> nat {
    let p = two_pow(excess_bits(b));
    round_half_even(b / p, b % p, p) * p
}

/// `v / unit` in hundredths, rounded ties to even: the digits `{:.2}`
/// prints.
pub open spec fn hundredths(v: nat, unit: nat) -> nat {
    round_half_even(v * 100 / unit, (v * 100) % unit, unit)
}

/// A count of hundredths written with two decimals.
pub open spec fn two_decimals(c: nat) -> Seq<char> {
    decimal(c / 100) + seq!['.', digit_char((c / 10) % 10), digit_char(c % 10)]
}

/// The text of a byte count: in GB, MB or KB with two decimals from one
/// unit up, else in bytes.
pub open spec fn bytes_text(b: nat) -> Seq<char> {
    if b >= GB {
        two_decimals(hundredths(f64_of(b), GB as nat)) + " GB"@
    } else if b >= MB {
        two_decimals(hundredths(f64_of(b), MB as nat)) + " MB"@
    } else if b >= KB {
        two_decimals(hundredths(f64_of(b), KB as nat)) + " KB"@
    } else {
        decimal(b) + " B"@
    }
}

/// `b as f64`, as an exact integer.
fn f64_value(b: u64) -> (v: u128)
    ensures
        v == f64_of(b as nat),
        v <= 2 * (b as nat) + 1,
{
    let mut q: u128 = b as u128;
    let mut p: u128 = 1;
    let ghost mut e: nat = 0;
    assert(b as nat / 1 == b) by {
        vstd::arithmetic::div_mod::lemma_div_basics(b as int);
    }
    while q >= 0x20_0000_0000_0000
        invariant
            p >= 1,
            p == two_pow(e),
            q == b as nat / (p as nat),
            excess_bits(b as nat) == e + excess_bits(q as nat),
            p <= b as nat || p == 1,
        decreases q,
    {
        proof {
            lemma_fundamental_div_mod(b as int, p as int);
            assert(q * p <= b) by (nonlinear_arith)
                requires
                    b == p * q + (b as int) % (p as int),
                    (b as int) % (p as int) >= 0,
            ;
            assert(2 * p <= b) by (nonlinear_arith)
                requires
                    q >= 2,
                    q * p <= b,
                    p >= 1,
            ;
            lemma_div_denominator(b as int, p as int, 2);
        }
        q = q / 2;
        p = p * 2;
        proof {
            e = e + 1;
        }
    }
    proof {
        lemma_fundamental_div_mod(b as int, p as int);
        assert(q * p <= b) by (nonlinear_arith)
            requires
                b == p * q + (b as int) % (p as int),
                (b as int) % (p as int) >= 0,
        ;
    }
    let r: u128 = b as u128 - q * p;
    assert(r == (b as nat) % (p as nat));
    let rounded: u128 = if 2 * r > p || (2 * r == p && q % 2 == 1) {
        q + 1
    } else {
        q
    };
    assert(rounded * p <= 2 * (b as nat) + 1) by (nonlinear_arith)
        requires
            rounded <= q + 1,
            q * p <= b,
            p <= b || p == 1,
            p >= 1,
            q <= b,
    ;
    rounded * p
}

fn hundredths_exec(v: u128, unit: u64) -> (c: u128)
    requires
        unit >= KB,
        v <= 0x4_0000_0000_0000_0000,
    ensures
        c == hundredths(v as nat, unit as nat),
        c <= (v as nat) * 100 / (unit as nat) + 1,
{
    let n: u128 = v * 100;
    let u: u128 = unit as u128;
    let q = n / u;
    let r = n % u;
    if 2 * r > u || (2 * r == u && q % 2 == 1) {
        q + 1
    } else {
        q
    }
}

/// `b` in `unit`s with two decimals, then `suffix`.
fn in_unit(b: u64, unit: u64, suffix: &str) -> (s: String)
    requires
        unit >= KB,
    ensures
        s@ == two_decimals(hundredths(f64_of(b as nat), unit as nat)) + suffix@,
{
    let v = f64_value(b);
    let c = hundredths_exec(v, unit);
    proof {
        let n: nat = (v as nat) * 100;
        vstd::arithmetic::div_mod::lemma_div_is_ordered_by_denominator(n as int, KB as int, unit as int);
        assert(n / 1024 <= 0x10_0000_0000_0000_0000) by (nonlinear_arith)
            requires
                n == v * 100,
                v <= 2 * (b as nat) + 1,
                b < 0x1_0000_0000_0000_0000,
        ;
    }
    let whole: u64 = (c / 100) as u64;
    let tenths: u64 = ((c / 10) % 10) as u64;
    let last: u64 = (c % 10) as u64;
    let mut s = String::new();
    push_decimal(&mut s, whole);
    push_char(&mut s, '.');
    push_char(&mut s, digit(tenths));
    push_char(&mut s, digit(last));
    let t = s.concat(suffix);
    assert(t@ =~= two_decimals(hundredths(f64_of(b as nat), unit as nat)) + suffix@);
    t
}

/// A byte count as the dashboard shows it, e.g. `1.50 KB` or `512 B`.
pub fn format_bytes(bytes: u64) -> (s: String)
    ensures
        s@ == bytes_text(bytes as nat),
{
    if bytes >= GB {
        in_unit(bytes, GB, " GB")
    } else if bytes >= MB {
        in_unit(bytes, MB, " MB")
    } else if bytes >= KB {
        in_unit(bytes, KB, " KB")
    } else {
        let mut s = String::new();
        push_decimal(&mut s, bytes);
        s.concat(" B")
    }
}

/// A cell text cut to `max` bytes of UTF-8: whole when it fits, else its
/// first `max - 1` bytes and an ellipsis.
pub open spec fn truncated(s: Seq<char>, max: nat) -> Seq<char> {
    if encode_utf8(s).len() <= max {
        s
    } else {
        decode_utf8(encode_utf8(s).subrange(0, max - 1)).push('\u{2026}')
    }
}

/// Cuts a cell text to `max` bytes. Cutting must leave whole characters.
pub fn truncate(s: &str, max: usize) -> (r: String)
    requires
        encode_utf8(s@).len() > max ==> max >= 1 && is_char_boundary(encode_utf8(s@), max - 1),
    ensures
        r@ == truncated(s@, max as nat),
{
    let n = s.as_bytes().len();
    if n <= max {
        return s.to_owned();
    }
    let (head, _) = s.split_at(max - 1);
    proof {
        encode_utf8_decode_utf8(head@);
    }
    let mut r = head.to_owned();
    push_char(&mut r, '\u{2026}');
    r
}

/// The colour a container status is shown in.
#[derive(Clone, Copy, Debug, PartialEq, Eq, Structural)]
pub enum StatusColor {
    Green,
    Red,
    Yellow,
}

/// Running containers are green, exited or dead ones red, any other state
/// yellow; the status is compared in lower case.
pub open spec fn status_color_of(status: Seq<char>) -> StatusColor {
    let lower = spec_lowercase(status);
    if has_substring(lower, "running"@) {
        StatusColor::Green
    } else if has_substring(lower, "exited"@) || has_substring(lower, "dead"@) {
        StatusColor::Red
    } else {
        StatusColor::Yellow
    }
}

pub fn status_color(status: &str) -> (c: StatusColor)
    ensures
        c == status_color_of(status@),
{
    let lower = lowercase(status);
    if contains_str(lower.as_str(), "running") {
        StatusColor::Green
    } else if contains_str(lower.as_str(), "exited") || contains_str(lower.as_str(), "dead") {
        StatusColor::Red
    } else {
        StatusColor::Yellow
    }
}

/// How long ago a chart point was, in whole minutes from one minute up,
/// else in seconds.
pub open spec fn ago_text(secs: nat) -> Seq<char> {
    if secs >= 60 {
        decimal(secs / 60) + "m ago"@
    } else {
        decimal(secs) + "s ago"@
    }
}

pub fn ago_label(secs: u64) -> (s: String)
    ensures
        s@ == ago_text(secs as nat),
{
    let mut s = String::new();
    if secs >= 60 {
        push_decimal(&mut s, secs / 60);
        s.concat("m ago")
    } else {
        push_decimal(&mut s, secs);
        s.concat("s ago")
    }
}

proof fn lemma_whole_units(q: nat, unit: nat)
    requires
        unit > 0,
        q * unit < 0x20_0000_0000_0000,
    ensures
        f64_of(q * unit) == q * unit,
        hundredths(f64_of(q * unit), unit) == q * 100,
        two_decimals(q * 100) == decimal(q) + ".00"@,
{
    let b = q * unit;
    assert(excess_bits(b) == 0);
    assert(two_pow(0) == 1);
    assert(b / 1 == b && b % 1 == 0) by (nonlinear_arith);
    assert(b * 100 == (q * 100) * unit) by (nonlinear_arith)
        requires
            b == q * unit,
    ;
    vstd::arithmetic::div_mod::lemma_div_multiples_vanish((q * 100) as int, unit as int);
    vstd::arithmetic::div_mod::lemma_mod_multiples_basic((q * 100) as int, unit as int);
    assert((q * 100) * unit == unit * (q * 100)) by (nonlinear_arith);
    assert((q * 100) / 100 == q && ((q * 100) / 10) % 10 == 0 && (q * 100) % 10 == 0) by (nonlinear_arith);
    reveal_strlit(".00");
    assert(digit_char(0) == '0');
    assert(seq!['.', digit_char(0), digit_char(0)] =~= ".00"@);
}

/// Byte counts below one KB are written in bytes; a whole number of KB, MB
/// or GB (as far as `f64` holds it exactly) is written as that number with
/// `.00` and the unit. GB is the largest unit: 1024 GB is `1024.00 GB`.
pub proof fn law_bytes_units(b: nat, q: nat)
    ensures
        b < KB ==> bytes_text(b) == decimal(b) + " B"@,
        1 <= q < 1024 ==> bytes_text((q * KB) as nat) == decimal(q) + ".00"@ + " KB"@,
        1 <= q < 1024 ==> bytes_text((q * MB) as nat) == decimal(q) + ".00"@ + " MB"@,
        1 <= q && q * GB < 0x20_0000_0000_0000 ==> bytes_text((q * GB) as nat) == decimal(q) + ".00"@ + " GB"@,
{
    let kb: nat = KB as nat;
    let mb: nat = MB as nat;
    let gb: nat = GB as nat;
    if 1 <= q < 1024 {
        assert(q * kb >= kb && q * kb < mb && q * mb >= mb && q * mb < gb) by (nonlinear_arith)
            requires
                1 <= q < 1024,
                kb == 1024,
                mb == 1024 * 1024,
                gb == 1024 * 1024 * 1024,
        ;
        lemma_whole_units(q, kb);
        lemma_whole_units(q, mb);
    }
    if 1 <= q && q * GB < 0x20_0000_0000_0000 {
        assert(q * gb >= gb) by (nonlinear_arith)
            requires
                1 <= q,
        ;
        lemma_whole_units(q, gb);
    }
}

} // verus!
