//! A span of time measured in whole nanoseconds.

use vstd::prelude::*;

use crate::decimal::{decimal, decimal_padded, push_decimal, push_decimal_padded};
use crate::text::push_str;

verus! {

/// A non-negative span of time, held as a whole number of nanoseconds.
///
/// Every duration this library reasons about (lease and session TTLs,
/// remaining validity, delegation bounds) is a plain nanosecond count,
/// so comparisons and sums are exact integer arithmetic.
#[derive(Debug, Clone, Copy, PartialEq, Eq, PartialOrd, Ord, Hash)]
pub struct Duration {
    nanos: u128,
}

impl View for Duration {
    type V = nat;

    closed spec fn view(&self) -> nat {
        self.nanos as nat
    }
}

/// Nanoseconds in one second.
pub const NANOS_PER_SEC: u128 = 1_000_000_000u128;

/// Nanoseconds in one millisecond.
pub const NANOS_PER_MILLI: u128 = 1_000_000u128;

impl Duration {
    /// The empty span.
    pub fn zero() -> (d: Duration)
        ensures
            d@ == 0,
    {
        Duration { nanos: 0 }
    }

    pub fn from_secs(secs: u64) -> (d: Duration)
        ensures
            d@ == secs * 1_000_000_000,
    {
        let n: u128 = (secs as u128) * NANOS_PER_SEC;
        Duration { nanos: n }
    }

    pub fn from_millis(millis: u64) -> (d: Duration)
        ensures
            d@ == millis * 1_000_000,
    {
        let n: u128 = (millis as u128) * NANOS_PER_MILLI;
        Duration { nanos: n }
    }

    pub fn from_nanos(nanos: u64) -> (d: Duration)
        ensures
            d@ == nanos,
    {
        Duration { nanos: nanos as u128 }
    }

    pub fn as_nanos(&self) -> (n: u128)
        ensures
            n == self@,
    {
        self.nanos
    }

    pub fn is_zero(&self) -> (b: bool)
        ensures
            b == (self@ == 0),
    {
        self.nanos == 0
    }

    /// Append this duration as the standard library's `Debug` writes it.
    pub fn push_debug(&self, out: &mut String)
        ensures
            final(out)@ == old(out)@ + debug_text(self@),
    {
        proof {
            reveal_strlit("s");
            reveal_strlit("ms");
            reveal_strlit("\u{b5}s");
            reveal_strlit("ns");
        }
        let ghost start = out@;
        let n = self.nanos;
        if n >= 1_000_000_000 {
            push_decimal(out, n / 1_000_000_000);
            push_fraction(out, n % 1_000_000_000, 9);
            push_str(out, "s");
        } else if n >= 1_000_000 {
            push_decimal(out, n / 1_000_000);
            push_fraction(out, n % 1_000_000, 6);
            push_str(out, "ms");
        } else if n >= 1_000 {
            push_decimal(out, n / 1_000);
            push_fraction(out, n % 1_000, 3);
            push_str(out, "\u{b5}s");
        } else {
            push_decimal(out, n);
            push_str(out, "ns");
        }
        assert(out@ =~= start + debug_text(self@));
    }
}


/// The digits of a fraction `f` of `width` decimal places, with trailing
/// zeros dropped.
pub open spec fn fraction_digits(f: nat, width: nat) -> Seq<char>
    decreases width,
{
    if width > 0 && f % 10 == 0 {
        fraction_digits(f / 10, (width - 1) as nat)
    } else {
        decimal_padded(f, width)
    }
}

/// A decimal point and the fraction's digits; nothing for a zero fraction.
pub open spec fn fraction_text(f: nat, width: nat) -> Seq<char> {
    if f == 0 {
        Seq::empty()
    } else {
        "."@ + fraction_digits(f, width)
    }
}

/// How the standard library's `Debug` writes a duration of `n`
/// nanoseconds: in the largest of seconds, milliseconds, microseconds
/// and nanoseconds that leaves a whole part of at least one, with every
/// significant fractional digit.
pub open spec fn debug_text(n: nat) -> Seq<char> {
    if n >= 1_000_000_000 {
        decimal(n / 1_000_000_000) + fraction_text(n % 1_000_000_000, 9) + "s"@
    } else if n >= 1_000_000 {
        decimal(n / 1_000_000) + fraction_text(n % 1_000_000, 6) + "ms"@
    } else if n >= 1_000 {
        decimal(n / 1_000) + fraction_text(n % 1_000, 3) + "\u{b5}s"@
    } else {
        decimal(n) + "ns"@
    }
}

/// Append [`fraction_text`] of `f` to `out`.
fn push_fraction(out: &mut String, f: u128, width: usize)
    ensures
        final(out)@ == old(out)@ + fraction_text(f as nat, width as nat),
{
    if f == 0 {
        assert(old(out)@ + Seq::<char>::empty() =~= old(out)@);
        return;
    }
    proof {
        reveal_strlit(".");
    }
    let ghost start = out@;
    push_str(out, ".");
    let mut g: u128 = f;
    let mut w: usize = width;
    while w > 0 && g % 10 == 0
        invariant
            fraction_digits(g as nat, w as nat) == fraction_digits(f as nat, width as nat),
        decreases w,
    {
        g = g / 10;
        w = w - 1;
    }
    push_decimal_padded(out, g, w);
    assert(out@ =~= start + fraction_text(f as nat, width as nat));
}

} // verus!
