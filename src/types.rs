use vstd::prelude::*;

use crate::chars::string_of;
use crate::numeral::{decimal, digit_char, digit_of, push_decimal, push_signed_decimal, signed_decimal};

verus! {

/// A quantity of bytes, shown with a binary unit.
pub struct Bytes(i64);

/// A length of time in whole seconds, shown in ISO-8601 style.
pub struct Duration(u64);

pub const KIB: u64 = 1024;

pub const MIB: u64 = 1048576;

pub const GIB: u64 = 1073741824;

/// `n / unit` in hundredths, rounded to the nearest, ties to even.
pub open spec fn hundredths(n: nat, unit: nat) -> nat
    recommends
        unit > 0,
{
    let q = (n * 100) / unit;
    let rem = (n * 100) % unit;
    if 2 * rem > unit || (2 * rem == unit && q % 2 == 1) {
        q + 1
    } else {
        q
    }
}

/// A number of hundredths written with two decimals.
pub open spec fn two_decimals(h: nat) -> Seq<char> {
    decimal(h / 100) + seq!['.', digit_of(((h % 100) / 10) as int), digit_of((h % 10) as int)]
}

/// How a byte quantity is shown: plain bytes below 1024, else kB, MB or GB
/// with two decimals.
pub open spec fn bytes_text(n: int) -> Seq<char> {
    if n < KIB {
        signed_decimal(n) + seq![' ', 'B']
    } else if n < MIB {
        two_decimals(hundredths(n as nat, KIB as nat)) + seq![' ', 'k', 'B']
    } else if n < GIB {
        two_decimals(hundredths(n as nat, MIB as nat)) + seq![' ', 'M', 'B']
    } else {
        two_decimals(hundredths(n as nat, GIB as nat)) + seq![' ', 'G', 'B']
    }
}

/// `v` followed by its unit letter, or nothing where `v` is zero.
pub open spec fn unit_part(v: nat, unit: char) -> Seq<char> {
    if v > 0 {
        decimal(v).push(unit)
    } else {
        Seq::empty()
    }
}

/// How a duration of `n` seconds is shown: `P`, the days, then `T` and the
/// hours, minutes and seconds that are not zero; zero is `PT0S`.
pub open spec fn duration_text(n: nat) -> Seq<char> {
    if n == 0 {
        seq!['P', 'T', '0', 'S']
    } else {
        let rest = n % 86400;
        seq!['P'] + unit_part(n / 86400, 'D') + if rest > 0 {
            seq!['T'] + unit_part(rest / 3600, 'H') + unit_part((rest % 3600) / 60, 'M')
                + unit_part(rest % 60, 'S')
        } else {
            Seq::empty()
        }
    }
}

impl View for Bytes {
    type V = int;

    closed spec fn view(&self) -> int {
        self.0 as int
    }
}

impl View for Duration {
    type V = nat;

    closed spec fn view(&self) -> nat {
        self.0 as nat
    }
}

/// Appends `n / unit` with two decimals.
fn push_scaled(out: &mut Vec<char>, n: u64, unit: u64)
    requires
        unit == KIB || unit == MIB || unit == GIB,
        n <= i64::MAX,
    ensures
        final(out)@ == old(out)@ + two_decimals(hundredths(n as nat, unit as nat)),
{
    let x: u128 = n as u128 * 100;
    let q: u128 = x / unit as u128;
    let rem: u128 = x % unit as u128;
    assert(q <= n as u128 * 100) by (nonlinear_arith)
        requires
            q == x / unit as u128,
            x == n as u128 * 100,
            unit >= 1,
    ;
    let h: u128 = if 2 * rem > unit as u128 || (2 * rem == unit as u128 && q % 2 == 1) {
        q + 1
    } else {
        q
    };
    assert(h == hundredths(n as nat, unit as nat));
    let h: u64 = h as u64;
    push_decimal(out, h / 100);
    out.push('.');
    out.push(digit_char((h % 100) / 10));
    out.push(digit_char(h % 10));
    assert(final(out)@ =~= old(out)@ + two_decimals(h as nat));
}

impl Bytes {
    pub fn new(n: i64) -> (r: Self)
        ensures
            r@ == n as int,
    {
        Bytes(n)
    }

    pub fn value(&self) -> (r: i64)
        ensures
            r as int == self@,
    {
        self.0
    }

    /// The quantity with its unit, as `bytes_text` gives it
    /// (342 is `342 B`, 2342 is `2.29 kB`).
    pub fn to_string(&self) -> (r: String)
        ensures
            r@ == bytes_text(self@),
    {
        let n = self.0;
        let mut out: Vec<char> = Vec::new();
        if n < 1024 {
            push_signed_decimal(&mut out, n);
            out.push(' ');
            out.push('B');
        } else if n < 1048576 {
            push_scaled(&mut out, n as u64, KIB);
            out.push(' ');
            out.push('k');
            out.push('B');
        } else if n < 1073741824 {
            push_scaled(&mut out, n as u64, MIB);
            out.push(' ');
            out.push('M');
            out.push('B');
        } else {
            push_scaled(&mut out, n as u64, GIB);
            out.push(' ');
            out.push('G');
            out.push('B');
        }
        assert(out@ =~= bytes_text(self@));
        string_of(&out)
    }
}

/// Appends `v` and its unit letter, or nothing where `v` is zero.
fn push_unit_part(out: &mut Vec<char>, v: u64, unit: char)
    ensures
        final(out)@ == old(out)@ + unit_part(v as nat, unit),
{
    if v > 0 {
        push_decimal(out, v);
        out.push(unit);
        assert(final(out)@ =~= old(out)@ + unit_part(v as nat, unit));
    } else {
        assert(final(out)@ =~= old(out)@ + unit_part(v as nat, unit));
    }
}

impl Duration {
    pub fn from_secs(n: u64) -> (r: Self)
        ensures
            r@ == n as nat,
    {
        Duration(n)
    }

    pub fn as_secs(&self) -> (r: u64)
        ensures
            r as nat == self@,
    {
        self.0
    }

    /// The duration as `duration_text` gives it (138 seconds is `PT2M18S`).
    pub fn to_string(&self) -> (r: String)
        ensures
            r@ == duration_text(self@),
    {
        let n = self.0;
        let mut out: Vec<char> = Vec::new();
        out.push('P');
        if n == 0 {
            out.push('T');
            out.push('0');
            out.push('S');
            assert(out@ =~= duration_text(self@));
        } else {
            let rest = n % 86400;
            push_unit_part(&mut out, n / 86400, 'D');
            let ghost head = out@;
            if rest > 0 {
                out.push('T');
                push_unit_part(&mut out, rest / 3600, 'H');
                push_unit_part(&mut out, (rest % 3600) / 60, 'M');
                push_unit_part(&mut out, rest % 60, 'S');
            }
            assert(out@ =~= duration_text(self@));
        }
        string_of(&out)
    }
}

} // verus!
