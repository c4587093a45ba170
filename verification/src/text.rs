//! Character-level string helpers shared by every module: equality,
//! prefixes, lexicographic order, and building strings from characters.
//!
//! Strings are reasoned about through their character sequence (`s@`).
//! Rust orders `String`/`str` by their UTF-8 bytes, which is exactly the
//! lexicographic order of their Unicode scalar values, so
//! [`seq_lt`] — lexicographic order by code point — is the order a
//! `BTreeSet<String>` iterates in.

use vstd::prelude::*;
use vstd::string::*;

verus! {

/// Three-way result of comparing two values.
#[derive(Debug, Clone, Copy, PartialEq, Eq)]
pub enum Order {
    Less,
    Equal,
    Greater,
}

/// Code-point lexicographic order: `a` sorts strictly before `b`.
pub open spec fn seq_lt(a: Seq<char>, b: Seq<char>) -> bool
    decreases a.len(),
{
    if b.len() == 0 {
        false
    } else if a.len() == 0 {
        true
    } else if a[0] == b[0] {
        seq_lt(a.drop_first(), b.drop_first())
    } else {
        (a[0] as u32) < (b[0] as u32)
    }
}

/// Distinct characters have distinct code points.
pub proof fn lemma_char_code_injective(c1: char, c2: char)
    ensures
        (c1 as u32) == (c2 as u32) ==> c1 == c2,
{
}

/// `prefix` is a prefix of `s`.
pub open spec fn is_prefix(prefix: Seq<char>, s: Seq<char>) -> bool {
    prefix.len() <= s.len() && s.subrange(0, prefix.len() as int) == prefix
}

/// `needle` occurs somewhere in `hay` as a contiguous run.
pub open spec fn contains_run<A>(hay: Seq<A>, needle: Seq<A>) -> bool {
    exists|i: int|
        0 <= i && i + needle.len() <= hay.len() && #[trigger] hay.subrange(i, i + needle.len())
            == needle
}

/// `seq_lt` never holds both ways and never relates equal sequences.
pub proof fn lemma_seq_lt_asymmetric(a: Seq<char>, b: Seq<char>)
    ensures
        seq_lt(a, b) ==> !seq_lt(b, a),
        !seq_lt(a, a),
    decreases a.len(),
{
    if a.len() > 0 && b.len() > 0 {
        lemma_char_code_injective(a[0], b[0]);
        if a[0] == b[0] {
            lemma_seq_lt_asymmetric(a.drop_first(), b.drop_first());
        }
    }
    if a.len() > 0 {
        lemma_seq_lt_asymmetric(a.drop_first(), a.drop_first());
    }
}

/// Distinct sequences are ordered one way or the other.
pub proof fn lemma_seq_lt_total(a: Seq<char>, b: Seq<char>)
    ensures
        a != b ==> seq_lt(a, b) || seq_lt(b, a),
    decreases a.len(),
{
    if a.len() > 0 && b.len() > 0 {
        lemma_char_code_injective(a[0], b[0]);
    }
    if a.len() > 0 && b.len() > 0 && a[0] == b[0] {
        lemma_seq_lt_total(a.drop_first(), b.drop_first());
        if a.drop_first() == b.drop_first() {
            assert(a =~= seq![a[0]] + a.drop_first());
            assert(b =~= seq![b[0]] + b.drop_first());
        }
    }
    if a.len() == 0 && b.len() == 0 {
        assert(a =~= b);
    }
}

/// `seq_lt` is transitive.
pub proof fn lemma_seq_lt_transitive(a: Seq<char>, b: Seq<char>, c: Seq<char>)
    requires
        seq_lt(a, b),
        seq_lt(b, c),
    ensures
        seq_lt(a, c),
    decreases a.len(),
{
    if a.len() > 0 {
        lemma_char_code_injective(a[0], c[0]);
    }
    if a.len() > 0 && a[0] == b[0] && b[0] == c[0] {
        lemma_seq_lt_transitive(a.drop_first(), b.drop_first(), c.drop_first());
    }
}

/// The characters of `s`, in order.
pub fn chars_of(s: &str) -> (v: Vec<char>)
    ensures
        v@ == s@,
{
    let n = s.unicode_len();
    let mut v: Vec<char> = Vec::new();
    let mut i: usize = 0;
    while i < n
        invariant
            n == s@.len(),
            i <= n,
            v@ == s@.subrange(0, i as int),
        decreases n - i,
    {
        let c = s.get_char(i);
        v.push(c);
        assert(v@ =~= s@.subrange(0, i + 1));
        i = i + 1;
    }
    assert(v@ =~= s@);
    v
}

/// Append one character to a string (`String::push`).
#[verifier::external_body]
pub(crate) fn push_char(s: &mut String, c: char)
    ensures
        final(s)@ == old(s)@.push(c),
{
    s.push(c);
}

/// A string holding exactly `s`.
pub fn string_of(s: &str) -> (r: String)
    ensures
        r@ == s@,
{
    String::from_str(s)
}

/// Append every character of `v` to `out`.
pub fn push_all(out: &mut String, v: &Vec<char>)
    ensures
        final(out)@ == old(out)@ + v@,
{
    let ghost start = out@;
    let mut i: usize = 0;
    while i < v.len()
        invariant
            i <= v.len(),
            out@ == start + v@.subrange(0, i as int),
        decreases v.len() - i,
    {
        push_char(out, v[i]);
        assert(out@ =~= start + v@.subrange(0, i + 1));
        i = i + 1;
    }
    assert(v@.subrange(0, v.len() as int) =~= v@);
}

/// A string holding exactly the characters of `v`.
pub fn string_from_chars(v: &Vec<char>) -> (r: String)
    ensures
        r@ == v@,
{
    let mut out = String::new();
    push_all(&mut out, v);
    assert(out@ =~= v@);
    out
}

/// Append the characters of `s` to `out`.
pub fn push_str(out: &mut String, s: &str)
    ensures
        final(out)@ == old(out)@ + s@,
{
    let v = chars_of(s);
    push_all(out, &v);
}

/// Character-sequence equality of two strings.
pub fn str_eq(a: &str, b: &str) -> (r: bool)
    ensures
        r == (a@ == b@),
{
    let x = chars_of(a);
    let y = chars_of(b);
    if x.len() != y.len() {
        return false;
    }
    let mut i: usize = 0;
    while i < x.len()
        invariant
            x@ == a@,
            y@ == b@,
            x.len() == y.len(),
            i <= x.len(),
            forall|j: int| 0 <= j < i ==> x@[j] == y@[j],
        decreases x.len() - i,
    {
        if x[i] != y[i] {
            return false;
        }
        i = i + 1;
    }
    assert(x@ =~= y@);
    true
}

/// Whether `prefix` is a prefix of `s`.
pub fn starts_with(s: &str, prefix: &str) -> (r: bool)
    ensures
        r == is_prefix(prefix@, s@),
{
    let x = chars_of(s);
    let p = chars_of(prefix);
    if p.len() > x.len() {
        return false;
    }
    let mut i: usize = 0;
    while i < p.len()
        invariant
            x@ == s@,
            p@ == prefix@,
            p.len() <= x.len(),
            i <= p.len(),
            forall|j: int| 0 <= j < i ==> x@[j] == p@[j],
        decreases p.len() - i,
    {
        if x[i] != p[i] {
            assert(s@.subrange(0, prefix@.len() as int)[i as int] != prefix@[i as int]);
            return false;
        }
        i = i + 1;
    }
    assert(s@.subrange(0, prefix@.len() as int) =~= prefix@);
    true
}

/// Code-point lexicographic comparison of two character sequences.
pub fn compare_chars(a: &Vec<char>, b: &Vec<char>) -> (r: Order)
    ensures
        r == Order::Less <==> seq_lt(a@, b@),
        r == Order::Greater <==> seq_lt(b@, a@),
        r == Order::Equal <==> a@ == b@,
{
    let mut i: usize = 0;
    while i < a.len() && i < b.len()
        invariant
            i <= a.len(),
            i <= b.len(),
            a@.subrange(0, i as int) == b@.subrange(0, i as int),
        decreases a.len() - i,
    {
        if a[i] == b[i] {
            assert(a@.subrange(0, i + 1) =~= a@.subrange(0, i as int).push(a@[i as int]));
            assert(b@.subrange(0, i + 1) =~= b@.subrange(0, i as int).push(b@[i as int]));
            i = i + 1;
            continue;
        }
        let x = a[i] as u32;
        let y = b[i] as u32;
        proof {
            lemma_char_code_injective(a@[i as int], b@[i as int]);
        }
        if x < y {
            proof {
                lemma_lt_at(a@, b@, i as int);
                lemma_seq_lt_asymmetric(a@, b@);
            }
            return Order::Less;
        }
        proof {
            lemma_lt_at(b@, a@, i as int);
            lemma_seq_lt_asymmetric(b@, a@);
        }
        return Order::Greater;
    }
    proof {
        lemma_seq_lt_asymmetric(a@, b@);
        lemma_seq_lt_asymmetric(b@, a@);
        if i == a.len() {
            assert(a@.subrange(0, i as int) =~= a@);
            lemma_prefix_lt(a@, b@, i as int);
        }
        if i == b.len() {
            assert(b@.subrange(0, i as int) =~= b@);
            lemma_prefix_lt(b@, a@, i as int);
        }
    }
    if a.len() < b.len() {
        Order::Less
    } else if a.len() > b.len() {
        Order::Greater
    } else {
        assert(a@ =~= a@.subrange(0, i as int));
        assert(b@ =~= b@.subrange(0, i as int));
        Order::Equal
    }
}

/// Sequences that agree before `i` and first differ, with `a` lower, at `i`.
proof fn lemma_lt_at(a: Seq<char>, b: Seq<char>, i: int)
    requires
        0 <= i < a.len(),
        i < b.len(),
        a.subrange(0, i) == b.subrange(0, i),
        a[i] != b[i],
        (a[i] as u32) < (b[i] as u32),
    ensures
        seq_lt(a, b),
    decreases i,
{
    if i > 0 {
        assert(a[0] == a.subrange(0, i)[0]);
        assert(b[0] == b.subrange(0, i)[0]);
        assert(a.drop_first().subrange(0, i - 1) =~= a.subrange(0, i).drop_first());
        assert(b.drop_first().subrange(0, i - 1) =~= b.subrange(0, i).drop_first());
        lemma_lt_at(a.drop_first(), b.drop_first(), i - 1);
    }
}

/// A proper prefix sorts first.
proof fn lemma_prefix_lt(a: Seq<char>, b: Seq<char>, i: int)
    requires
        i == a.len(),
        i <= b.len(),
        a == b.subrange(0, i),
    ensures
        i < b.len() ==> seq_lt(a, b),
    decreases i,
{
    if i > 0 && i < b.len() {
        assert(a[0] == b[0]);
        assert(a.drop_first() =~= b.drop_first().subrange(0, i - 1));
        lemma_prefix_lt(a.drop_first(), b.drop_first(), i - 1);
    }
}

/// Code-point lexicographic comparison of two strings.
pub fn compare_strs(a: &str, b: &str) -> (r: Order)
    ensures
        r == Order::Less <==> seq_lt(a@, b@),
        r == Order::Greater <==> seq_lt(b@, a@),
        r == Order::Equal <==> a@ == b@,
{
    let x = chars_of(a);
    let y = chars_of(b);
    compare_chars(&x, &y)
}

/// Whether `needle` occurs in `hay`.
pub fn contains_chars(hay: &Vec<char>, needle: &Vec<char>) -> (r: bool)
    ensures
        r == contains_run(hay@, needle@),
{
    if needle.len() > hay.len() {
        return false;
    }
    let last = hay.len() - needle.len();
    let mut i: usize = 0;
    while i <= last
        invariant
            last == hay.len() - needle.len(),
            needle.len() <= hay.len(),
            forall|k: int| 0 <= k < i ==> #[trigger] hay@.subrange(k, k + needle.len()) != needle@,
        decreases last + 1 - i,
    {
        let mut j: usize = 0;
        let mut ok = true;
        while j < needle.len()
            invariant
                i <= last,
                last == hay.len() - needle.len(),
                j <= needle.len(),
                ok == (forall|m: int| 0 <= m < j ==> hay@[i + m] == needle@[m]),
            decreases needle.len() - j,
        {
            if hay[i + j] != needle[j] {
                ok = false;
            }
            j = j + 1;
        }
        if ok {
            assert(hay@.subrange(i as int, i + needle.len()) =~= needle@);
            return true;
        }
        assert(ok == false);
        let ghost m = choose|m: int| 0 <= m < needle.len() && hay@[i + m] != needle@[m];
        assert(hay@.subrange(i as int, i + needle.len())[m] != needle@[m]);
        i = i + 1;
    }
    assert forall|k: int|
        0 <= k && k + needle@.len() <= hay@.len() implies #[trigger] hay@.subrange(
        k,
        k + needle@.len(),
    ) != needle@ by {
        assert(k < i);
    }
    false
}

/// The UTF-8 encoding of one character.
pub open spec fn utf8_char(c: char) -> Seq<u8> {
    let n = c as u32;
    if n < 0x80 {
        seq![n as u8]
    } else if n < 0x800 {
        seq![(0xC0 + n / 64) as u8, (0x80 + n % 64) as u8]
    } else if n < 0x10000 {
        seq![(0xE0 + n / 4096) as u8, (0x80 + (n / 64) % 64) as u8, (0x80 + n % 64) as u8]
    } else {
        seq![
            (0xF0 + n / 262144) as u8,
            (0x80 + (n / 4096) % 64) as u8,
            (0x80 + (n / 64) % 64) as u8,
            (0x80 + n % 64) as u8,
        ]
    }
}

/// The UTF-8 encoding of a character sequence (what `str::as_bytes` holds).
pub open spec fn utf8(s: Seq<char>) -> Seq<u8>
    decreases s.len(),
{
    if s.len() == 0 {
        Seq::empty()
    } else {
        utf8(s.drop_last()) + utf8_char(s.last())
    }
}

/// Append the UTF-8 encoding of one character.
fn push_utf8_char(out: &mut Vec<u8>, c: char)
    ensures
        final(out)@ == old(out)@ + utf8_char(c),
{
    let n = c as u32;
    if n < 0x80 {
        out.push(n as u8);
    } else if n < 0x800 {
        out.push((0xC0 + n / 64) as u8);
        out.push((0x80 + n % 64) as u8);
    } else if n < 0x10000 {
        out.push((0xE0 + n / 4096) as u8);
        out.push((0x80 + (n / 64) % 64) as u8);
        out.push((0x80 + n % 64) as u8);
    } else {
        out.push((0xF0 + n / 262144) as u8);
        out.push((0x80 + (n / 4096) % 64) as u8);
        out.push((0x80 + (n / 64) % 64) as u8);
        out.push((0x80 + n % 64) as u8);
    }
    assert(out@ =~= old(out)@ + utf8_char(c));
}

/// Append the UTF-8 encoding of `s` (its `as_bytes`) to `out`.
pub fn push_utf8(out: &mut Vec<u8>, s: &str)
    ensures
        final(out)@ == old(out)@ + utf8(s@),
{
    let v = chars_of(s);
    let ghost start = out@;
    let mut i: usize = 0;
    while i < v.len()
        invariant
            i <= v.len(),
            v@ == s@,
            out@ == start + utf8(v@.take(i as int)),
        decreases v.len() - i,
    {
        push_utf8_char(out, v[i]);
        assert(v@.take(i + 1).drop_last() =~= v@.take(i as int));
        assert(out@ =~= start + utf8(v@.take(i + 1)));
        i = i + 1;
    }
    assert(v@.take(v.len() as int) =~= v@);
}

/// Strictly increasing in code-point order: sorted, no repeats.
pub open spec fn texts_sorted(s: Seq<Seq<char>>) -> bool {
    forall|i: int, j: int| 0 <= i < j < s.len() ==> seq_lt(#[trigger] s[i], #[trigger] s[j])
}

/// The character sequences of a list of strings.
pub open spec fn texts_of(v: Seq<String>) -> Seq<Seq<char>> {
    v.map_values(|s: String| s@)
}

/// Insert `t` into the sorted, repeat-free list `v`.
fn insert_text(v: &mut Vec<String>, t: &str)
    requires
        texts_sorted(texts_of(old(v)@)),
    ensures
        texts_sorted(texts_of(final(v)@)),
        texts_of(final(v)@).to_set() == texts_of(old(v)@).to_set().insert(t@),
{
    let ghost old_texts = texts_of(v@);
    let mut i: usize = 0;
    while i < v.len()
        invariant
            i <= v@.len(),
            v@ == old(v)@,
            old_texts == texts_of(v@),
            texts_sorted(old_texts),
            forall|k: int| 0 <= k < i ==> seq_lt(#[trigger] old_texts[k], t@),
        ensures
            i <= v@.len(),
            i < v@.len() ==> seq_lt(t@, old_texts[i as int]),
        decreases v.len() - i,
    {
        match compare_strs(v[i].as_str(), t) {
            Order::Less => {},
            Order::Equal => {
                proof {
                    assert(old_texts[i as int] == t@);
                    assert(old_texts.to_set().insert(t@) =~= old_texts.to_set());
                }
                return;
            },
            Order::Greater => {
                assert(old_texts[i as int] == v@[i as int]@);
                break;
            },
        }
        i = i + 1;
    }
    v.insert(i, string_of(t));
    proof {
        let new_texts = texts_of(v@);
        assert(new_texts =~= old_texts.insert(i as int, t@));
        assert forall|a: int, b: int| 0 <= a < b < new_texts.len() implies seq_lt(
            #[trigger] new_texts[a],
            #[trigger] new_texts[b],
        ) by {
            if b < i {
            } else if b == i {
                assert(new_texts[a] == old_texts[a]);
            } else if a < i {
                assert(new_texts[b] == old_texts[b - 1]);
                if b - 1 > i {
                    assert(seq_lt(old_texts[i as int], old_texts[b - 1]));
                    lemma_seq_lt_transitive(t@, old_texts[i as int], old_texts[b - 1]);
                }
                lemma_seq_lt_transitive(old_texts[a], t@, old_texts[b - 1]);
            } else if a == i {
                assert(new_texts[b] == old_texts[b - 1]);
                if b - 1 > i {
                    lemma_seq_lt_transitive(t@, old_texts[i as int], old_texts[b - 1]);
                }
            } else {
                assert(new_texts[a] == old_texts[a - 1]);
                assert(new_texts[b] == old_texts[b - 1]);
            }
        }
        assert(new_texts.to_set() =~= old_texts.to_set().insert(t@)) by {
            assert forall|x: Seq<char>| #[trigger]
                new_texts.to_set().contains(x) implies old_texts.to_set().insert(t@).contains(x) by {
                let k = choose|k: int| 0 <= k < new_texts.len() && new_texts[k] == x;
                if k < i {
                    assert(old_texts[k] == x);
                } else if k > i {
                    assert(old_texts[k - 1] == x);
                }
            }
            assert forall|x: Seq<char>| #[trigger]
                old_texts.to_set().insert(t@).contains(x) implies new_texts.to_set().contains(x) by {
                if x == t@ {
                    assert(new_texts[i as int] == x);
                } else {
                    let k = choose|k: int| 0 <= k < old_texts.len() && old_texts[k] == x;
                    if k < i {
                        assert(new_texts[k] == x);
                    } else {
                        assert(new_texts[k + 1] == x);
                    }
                }
            }
        }
    }
}

/// The distinct strings of `items`, sorted in code-point order.
pub fn sorted_texts(items: &Vec<String>) -> (r: Vec<String>)
    ensures
        texts_sorted(texts_of(r@)),
        texts_of(r@).to_set() == texts_of(items@).to_set(),
{
    let mut sorted: Vec<String> = Vec::new();
    let mut i: usize = 0;
    while i < items.len()
        invariant
            i <= items@.len(),
            texts_sorted(texts_of(sorted@)),
            texts_of(sorted@).to_set() == texts_of(items@.subrange(0, i as int)).to_set(),
        decreases items.len() - i,
    {
        insert_text(&mut sorted, items[i].as_str());
        proof {
            assert(texts_of(items@.subrange(0, i + 1)) =~= texts_of(
                items@.subrange(0, i as int),
            ).push(items@[i as int]@));
            texts_of(items@.subrange(0, i as int)).lemma_push_to_set_commute(items@[i as int]@);
        }
        i = i + 1;
    }
    proof {
        assert(items@.subrange(0, items@.len() as int) =~= items@);
    }
    sorted
}

/// Whether `t` is one of the strings of `v`.
pub fn contains_text(v: &Vec<String>, t: &str) -> (b: bool)
    ensures
        b == texts_of(v@).contains(t@),
{
    let mut i: usize = 0;
    while i < v.len()
        invariant
            i <= v@.len(),
            forall|k: int| 0 <= k < i ==> texts_of(v@)[k] != t@,
        decreases v.len() - i,
    {
        if str_eq(v[i].as_str(), t) {
            assert(texts_of(v@)[i as int] == t@);
            return true;
        }
        i = i + 1;
    }
    false
}


/// What the standard library's `Debug` writes for a string: the string
/// in double quotes, with std's escapes (which depend on Unicode
/// printability and grapheme tables).
pub uninterp spec fn str_debug(s: Seq<char>) -> Seq<char>;

/// `<str as Debug>::fmt`, through `format!("{:?}")`. The contract claims
/// only that the text is a function of `s` alone.
#[verifier::external_body]
pub(crate) fn debug_quoted(s: &str) -> (r: String)
    ensures
        r@ == str_debug(s@),
{
    format!("{:?}", s)
}

/// Append the `Debug` text of `s`.
pub fn push_debug_quoted(out: &mut String, s: &str)
    ensures
        final(out)@ == old(out)@ + str_debug(s@),
{
    let q = debug_quoted(s);
    push_str(out, q.as_str());
}

} // verus!
