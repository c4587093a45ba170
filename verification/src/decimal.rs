//! Decimal and hexadecimal rendering of unsigned integers and bytes, and
//! decimal parsing with the same acceptance rules as `u64::from_str`.

use vstd::prelude::*;

use crate::text::push_char;

verus! {

/// The ASCII digit for `d < 16`, lower-case for `a`–`f`.
pub open spec fn digit_char(d: nat) -> char {
    if d < 10 {
        ((48 + d) as u8) as char
    } else {
        ((87 + d) as u8) as char
    }
}

/// The shortest decimal rendering of `n` (no sign, no leading zeros).
pub open spec fn decimal(n: nat) -> Seq<char>
    decreases n,
{
    if n < 10 {
        seq![digit_char(n)]
    } else {
        decimal(n / 10).push(digit_char(n % 10))
    }
}

/// `decimal(n)` left-padded with `'0'` to at least `width` characters.
pub open spec fn decimal_padded(n: nat, width: nat) -> Seq<char> {
    let d = decimal(n);
    if d.len() >= width {
        d
    } else {
        Seq::new((width - d.len()) as nat, |i: int| '0') + d
    }
}

/// The lower-case hexadecimal rendering of `n` using exactly `width`
/// digits (the low `4 * width` bits).
pub open spec fn hex_fixed(n: nat, width: nat) -> Seq<char>
    decreases width,
{
    if width == 0 {
        Seq::empty()
    } else {
        hex_fixed(n / 16, (width - 1) as nat).push(digit_char(n % 16))
    }
}

/// Two lower-case hex digits per byte, in order.
pub open spec fn hex_bytes(b: Seq<u8>) -> Seq<char>
    decreases b.len(),
{
    if b.len() == 0 {
        Seq::empty()
    } else {
        hex_bytes(b.drop_last()) + hex_fixed(b.last() as nat, 2)
    }
}

fn digit(d: u8) -> (c: char)
    requires
        d < 16,
    ensures
        c == digit_char(d as nat),
{
    if d < 10 {
        (48u8 + d) as char
    } else {
        (87u8 + d) as char
    }
}

/// Append the decimal rendering of `n` to `out`.
pub fn push_decimal(out: &mut String, n: u128)
    ensures
        final(out)@ == old(out)@ + decimal(n as nat),
    decreases n,
{
    if n >= 10 {
        push_decimal(out, n / 10);
    }
    push_char(out, digit((n % 10) as u8));
    proof {
        if n < 10 {
            assert(decimal(n as nat) =~= seq![digit_char(n as nat)]);
        }
    }
    assert(final(out)@ =~= old(out)@ + decimal(n as nat)) by {
        if n >= 10 {
            assert(decimal(n as nat) == decimal((n / 10) as nat).push(digit_char((n % 10) as nat)));
        }
    }
}

/// Append `decimal(n)` padded with zeros to at least `width` characters.
pub fn push_decimal_padded(out: &mut String, n: u128, width: usize)
    ensures
        final(out)@ == old(out)@ + decimal_padded(n as nat, width as nat),
{
    let ghost start = out@;
    let mut tmp = String::new();
    push_decimal(&mut tmp, n);
    let digits = crate::text::chars_of(tmp.as_str());
    assert(digits@ =~= decimal(n as nat));
    let len = digits.len();
    let mut i: usize = len;
    while i < width
        invariant
            len == decimal(n as nat).len(),
            len <= i,
            len >= width ==> i == len,
            len < width ==> i <= width,
            out@ == start + Seq::new((i - len) as nat, |k: int| '0'),
        decreases width - i,
    {
        push_char(out, '0');
        assert(out@ =~= start + Seq::new((i + 1 - len) as nat, |k: int| '0'));
        i = i + 1;
    }
    crate::text::push_all(out, &digits);
    proof {
        if len >= width {
            assert(i == len);
            assert(Seq::new((i - len) as nat, |k: int| '0') =~= Seq::<char>::empty());
            assert(out@ =~= start + decimal(n as nat));
        } else {
            assert(i == width);
            assert(out@ =~= start + (Seq::new((width - len) as nat, |k: int| '0') + decimal(
                n as nat,
            )));
        }
    }
}

/// Append the low `4 * width` bits of `n` as exactly `width` lower-case
/// hex digits.
pub fn push_hex_fixed(out: &mut String, n: u128, width: usize)
    requires
        width <= 32,
    ensures
        final(out)@ == old(out)@ + hex_fixed(n as nat, width as nat),
    decreases width,
{
    if width == 0 {
        assert(hex_fixed(n as nat, 0) =~= Seq::<char>::empty());
        assert(out@ =~= old(out)@ + hex_fixed(n as nat, 0));
        return;
    }
    push_hex_fixed(out, n / 16, width - 1);
    push_char(out, digit((n % 16) as u8));
    assert(out@ =~= old(out)@ + hex_fixed(n as nat, width as nat));
}

/// Append two lower-case hex digits per byte of `bytes`.
pub fn push_hex_bytes(out: &mut String, bytes: &[u8])
    ensures
        final(out)@ == old(out)@ + hex_bytes(bytes@),
{
    let ghost start = out@;
    let mut i: usize = 0;
    while i < bytes.len()
        invariant
            i <= bytes.len(),
            out@ == start + hex_bytes(bytes@.subrange(0, i as int)),
        decreases bytes.len() - i,
    {
        push_hex_fixed(out, bytes[i] as u128, 2);
        proof {
            let pre = bytes@.subrange(0, i + 1);
            assert(pre.drop_last() =~= bytes@.subrange(0, i as int));
            assert(pre.last() == bytes@[i as int]);
        }
        assert(out@ =~= start + hex_bytes(bytes@.subrange(0, i + 1)));
        i = i + 1;
    }
    assert(bytes@.subrange(0, bytes.len() as int) =~= bytes@);
}

/// The value of a run of ASCII decimal digits.
pub open spec fn digits_value(s: Seq<char>) -> nat
    decreases s.len(),
{
    if s.len() == 0 {
        0
    } else {
        digits_value(s.drop_last()) * 10 + ((s.last() as u32) - 48) as nat
    }
}

/// `c` is an ASCII decimal digit.
pub open spec fn is_digit(c: char) -> bool {
    '0' <= c && c <= '9'
}

/// Why a decimal string did not parse, mirroring `core::num::IntErrorKind`.
#[derive(Debug, Clone, Copy, PartialEq, Eq, Structural)]
pub enum ParseIntErrorKind {
    Empty,
    InvalidDigit,
    PosOverflow,
}

impl ParseIntErrorKind {
    /// The description the standard library gives this error.
    pub fn message(&self) -> (s: &'static str)
        ensures
            *self == ParseIntErrorKind::Empty ==> s@ == "cannot parse integer from empty string"@,
            *self == ParseIntErrorKind::InvalidDigit ==> s@ == "invalid digit found in string"@,
            *self == ParseIntErrorKind::PosOverflow ==> s@
                == "number too large to fit in target type"@,
    {
        match self {
            ParseIntErrorKind::Empty => "cannot parse integer from empty string",
            ParseIntErrorKind::InvalidDigit => "invalid digit found in string",
            ParseIntErrorKind::PosOverflow => "number too large to fit in target type",
        }
    }
}

/// The digits of `s` after an optional leading `'+'`.
pub open spec fn unsigned_body(s: Seq<char>) -> Seq<char> {
    if s.len() > 0 && s[0] == '+' {
        s.drop_first()
    } else {
        s
    }
}

/// The outcome `u64::from_str`-style parsing gives `s` for an unsigned
/// integer type whose largest value is `max`.
pub open spec fn parse_unsigned(s: Seq<char>, max: nat) -> Result<nat, ParseIntErrorKind> {
    let body = unsigned_body(s);
    if s.len() == 0 {
        Err(ParseIntErrorKind::Empty)
    } else if body.len() == 0 {
        Err(ParseIntErrorKind::InvalidDigit)
    } else if !(forall|i: int| 0 <= i < body.len() ==> is_digit(#[trigger] body[i])) {
        Err(ParseIntErrorKind::InvalidDigit)
    } else if digits_value(body) > max {
        Err(ParseIntErrorKind::PosOverflow)
    } else {
        Ok(digits_value(body))
    }
}

proof fn lemma_digits_value_monotone(s: Seq<char>, i: int)
    requires
        0 <= i <= s.len(),
        forall|k: int| 0 <= k < s.len() ==> is_digit(#[trigger] s[k]),
    ensures
        digits_value(s.subrange(0, i)) <= digits_value(s),
    decreases s.len() - i,
{
    if i < s.len() {
        lemma_digits_value_monotone(s, i + 1);
        let a = s.subrange(0, i);
        let b = s.subrange(0, i + 1);
        assert(b.drop_last() =~= a);
        assert(digits_value(b) == digits_value(a) * 10 + ((b.last() as u32) - 48) as nat);
    } else {
        assert(s.subrange(0, i) =~= s);
    }
}

/// Parse `s` as an unsigned decimal no larger than `max`, accepting an
/// optional leading `'+'` exactly as the standard library's integer
/// parsing does.
pub fn parse_unsigned_chars(s: &Vec<char>, max: u64) -> (r: Result<u64, ParseIntErrorKind>)
    ensures
        match parse_unsigned(s@, max as nat) {
            Ok(v) => r == Ok::<u64, ParseIntErrorKind>(v as u64),
            Err(e) => r == Err::<u64, ParseIntErrorKind>(e),
        },
{
    if s.len() == 0 {
        return Err(ParseIntErrorKind::Empty);
    }
    let start: usize = if s[0] == '+' {
        1
    } else {
        0
    };
    let ghost body = unsigned_body(s@);
    assert(body =~= s@.subrange(start as int, s@.len() as int));
    if start == s.len() {
        assert(body.len() == 0);
        return Err(ParseIntErrorKind::InvalidDigit);
    }
    // First pass: every character must be a digit.
    let mut i: usize = start;
    while i < s.len()
        invariant
            start <= i <= s.len(),
            body =~= s@.subrange(start as int, s@.len() as int),
            body == unsigned_body(s@),
            s@.len() > 0,
            forall|k: int| start <= k < i ==> is_digit(#[trigger] s@[k]),
        decreases s.len() - i,
    {
        if !('0' <= s[i] && s[i] <= '9') {
            assert(!is_digit(s@[i as int]));
            assert(body[i - start] == s@[i as int]);
            assert(!is_digit(body[i - start]));
            assert(!(forall|k: int| 0 <= k < body.len() ==> is_digit(#[trigger] body[k])));
            assert(body.len() > 0);
            assert(s@.len() > 0);
            return Err(ParseIntErrorKind::InvalidDigit);
        }
        i = i + 1;
    }
    assert forall|k: int| 0 <= k < body.len() implies is_digit(#[trigger] body[k]) by {
        assert(body[k] == s@[k + start]);
    }
    // Second pass: accumulate, refusing once the value exceeds `max`.
    let mut acc: u64 = 0;
    let mut j: usize = start;
    while j < s.len()
        invariant
            start <= j <= s.len(),
            body =~= s@.subrange(start as int, s@.len() as int),
            body == unsigned_body(s@),
            s@.len() > 0,
            forall|k: int| 0 <= k < body.len() ==> is_digit(#[trigger] body[k]),
            acc as nat == digits_value(body.subrange(0, j - start)),
            acc <= max,
        decreases s.len() - j,
    {
        proof {
            assert(is_digit(body[j - start]));
            assert(body[j - start] == s@[j as int]);
        }
        let d: u64 = (s[j] as u32 - 48) as u64;
        proof {
            let pre = body.subrange(0, j + 1 - start);
            assert(pre.drop_last() =~= body.subrange(0, j - start));
            assert(pre.last() == s@[j as int]);
        }
        if d > max || acc > (max - d) / 10 {
            proof {
                if d <= max {
                    assert(acc * 10 + d > max) by (nonlinear_arith)
                        requires
                            acc > (max - d) / 10,
                            d <= max,
                    ;
                } else {
                    assert(acc * 10 + d > max) by (nonlinear_arith)
                        requires
                            d > max,
                            acc >= 0,
                    ;
                }
                lemma_digits_value_monotone(body, j + 1 - start);
                assert(digits_value(body) > max);
                assert(s@.len() > 0);
                assert(body.len() > 0);
            }
            return Err(ParseIntErrorKind::PosOverflow);
        }
        proof {
            assert(acc * 10 + d <= max) by (nonlinear_arith)
                requires
                    acc <= (max - d) / 10,
                    d <= max,
            ;
        }
        acc = acc * 10 + d;
        j = j + 1;
    }
    assert(body.subrange(0, body.len() as int) =~= body);
    Ok(acc)
}

} // verus!
