//! The decisions behind the platform identity collectors: parsing the
//! text Linux exposes under `/proc/<pid>/`, the bounded ancestry walk, and
//! the small conversions the macOS collector applies to kernel values.
//! Reading the kernel is left to the caller; everything here works on
//! what was read.

use vstd::prelude::*;

use crate::decimal::{decimal, hex_bytes, parse_unsigned, parse_unsigned_chars, push_decimal};
use crate::digest::{sha256_hex, sha256_of};
use crate::identity::{Evidence, EvidenceSource, ProcessStartToken};
use crate::session::SessionKey;
use crate::text::{chars_of, push_str, string_from_chars, string_of, texts_of};

verus! {

/// The most parent hops an ancestry walk takes: bounds the work against
/// a corrupted or adversarially long chain, and any cycle.
pub const MAX_ANCESTRY_HOPS: usize = 32usize;

/// The largest executable the collectors hash, in bytes.
pub const EXECUTABLE_HASH_SIZE_CAP: u64 = 268435456u64;

/// Unicode `White_Space`, as `char::is_whitespace` tests it.
pub open spec fn is_white(c: char) -> bool {
    let n = c as u32;
    (9 <= n && n <= 13) || n == 32 || n == 0x85 || n == 0xA0 || n == 0x1680 || (0x2000 <= n
        && n <= 0x200A) || n == 0x2028 || n == 0x2029 || n == 0x202F || n == 0x205F || n
        == 0x3000
}

/// Whether `c` is Unicode white space.
fn white(c: char) -> (b: bool)
    ensures
        b == is_white(c),
{
    let n = c as u32;
    (9 <= n && n <= 13) || n == 32 || n == 0x85 || n == 0xA0 || n == 0x1680 || (0x2000 <= n
        && n <= 0x200A) || n == 0x2028 || n == 0x2029 || n == 0x202F || n == 0x205F || n
        == 0x3000
}

/// Splitting state after reading `s`: the finished pieces and the piece
/// in progress.
pub open spec fn word_state(s: Seq<char>) -> (Seq<Seq<char>>, Seq<char>)
    decreases s.len(),
{
    if s.len() == 0 {
        (Seq::empty(), Seq::empty())
    } else {
        let (done, cur) = word_state(s.drop_last());
        let c = s.last();
        if is_white(c) {
            if cur.len() > 0 {
                (done.push(cur), Seq::empty())
            } else {
                (done, Seq::empty())
            }
        } else {
            (done, cur.push(c))
        }
    }
}

/// The maximal runs of non-white-space characters of `s`, in order
/// (`str::split_whitespace`).
pub open spec fn words(s: Seq<char>) -> Seq<Seq<char>> {
    let (done, cur) = word_state(s);
    if cur.len() > 0 {
        done.push(cur)
    } else {
        done
    }
}

/// The character sequences of a list of character vectors.
pub open spec fn char_views(v: Seq<Vec<char>>) -> Seq<Seq<char>> {
    v.map_values(|w: Vec<char>| w@)
}

/// The white-space separated words of `s`.
pub fn split_words(s: &Vec<char>) -> (r: Vec<Vec<char>>)
    ensures
        char_views(r@) == words(s@),
{
    let mut done: Vec<Vec<char>> = Vec::new();
    let mut cur: Vec<char> = Vec::new();
    let mut i: usize = 0;
    while i < s.len()
        invariant
            i <= s@.len(),
            char_views(done@) == word_state(s@.take(i as int)).0,
            cur@ == word_state(s@.take(i as int)).1,
        decreases s.len() - i,
    {
        proof {
            assert(s@.take(i + 1).drop_last() =~= s@.take(i as int));
            assert(s@.take(i + 1).last() == s@[i as int]);
        }
        let c = s[i];
        if white(c) {
            if cur.len() > 0 {
                let ghost before = done@;
                let piece = cur;
                done.push(piece);
                assert(char_views(done@) =~= char_views(before).push(piece@));
                cur = Vec::new();
            }
        } else {
            cur.push(c);
        }
        i = i + 1;
    }
    proof {
        assert(s@.take(i as int) =~= s@);
    }
    if cur.len() > 0 {
        let ghost before = done@;
        let piece = cur;
        done.push(piece);
        assert(char_views(done@) =~= char_views(before).push(piece@));
    }
    done
}

/// Line-splitting state after reading `s`: finished lines (without their
/// `\n`, and without a `\r` just before it) and the line in progress.
pub open spec fn line_state(s: Seq<char>) -> (Seq<Seq<char>>, Seq<char>)
    decreases s.len(),
{
    if s.len() == 0 {
        (Seq::empty(), Seq::empty())
    } else {
        let (done, cur) = line_state(s.drop_last());
        let c = s.last();
        if c == '\n' {
            (done.push(strip_cr(cur)), Seq::empty())
        } else {
            (done, cur.push(c))
        }
    }
}

/// `line` without one trailing `\r`.
pub open spec fn strip_cr(line: Seq<char>) -> Seq<char> {
    if line.len() > 0 && line.last() == '\r' {
        line.drop_last()
    } else {
        line
    }
}

/// The lines of `s` (`str::lines`): split at `\n` or `\r\n`, a final line
/// ending being optional.
pub open spec fn lines(s: Seq<char>) -> Seq<Seq<char>> {
    let (done, cur) = line_state(s);
    if cur.len() > 0 {
        done.push(cur)
    } else {
        done
    }
}

/// The lines of `s`.
pub fn split_lines(s: &Vec<char>) -> (r: Vec<Vec<char>>)
    ensures
        char_views(r@) == lines(s@),
{
    let mut done: Vec<Vec<char>> = Vec::new();
    let mut cur: Vec<char> = Vec::new();
    let mut i: usize = 0;
    while i < s.len()
        invariant
            i <= s@.len(),
            char_views(done@) == line_state(s@.take(i as int)).0,
            cur@ == line_state(s@.take(i as int)).1,
        decreases s.len() - i,
    {
        proof {
            assert(s@.take(i + 1).drop_last() =~= s@.take(i as int));
            assert(s@.take(i + 1).last() == s@[i as int]);
        }
        let c = s[i];
        if c == '\n' {
            let ghost before = done@;
            let ghost cur_view = cur@;
            let mut piece = cur;
            if piece.len() > 0 && piece[piece.len() - 1] == '\r' {
                piece.pop();
                assert(piece@ =~= cur_view.drop_last());
            }
            done.push(piece);
            assert(char_views(done@) =~= char_views(before).push(strip_cr(cur_view)));
            cur = Vec::new();
        } else {
            cur.push(c);
        }
        i = i + 1;
    }
    proof {
        assert(s@.take(i as int) =~= s@);
    }
    if cur.len() > 0 {
        let ghost before = done@;
        let piece = cur;
        done.push(piece);
        assert(char_views(done@) =~= char_views(before).push(piece@));
    }
    done
}

/// The characters after the last `c` of `s`, if `s` holds one
/// (`str::rsplit_once`).
pub open spec fn after_last(s: Seq<char>, c: char) -> Option<Seq<char>> {
    if exists|i: int| 0 <= i < s.len() && s[i] == c {
        let i = choose|i: int|
            0 <= i < s.len() && s[i] == c && forall|j: int| i < j < s.len() ==> s[j] != c;
        Some(s.subrange(i + 1, s.len() as int))
    } else {
        None
    }
}

/// The characters after the last `c` of `s`, if any.
fn split_after_last(s: &Vec<char>, c: char) -> (r: Option<Vec<char>>)
    ensures
        match after_last(s@, c) {
            Some(t) => r matches Some(v) && v@ == t,
            None => r is None,
        },
{
    let mut i: usize = s.len();
    while i > 0
        invariant
            i <= s@.len(),
            forall|j: int| i <= j < s@.len() ==> s@[j] != c,
        decreases i,
    {
        if s[i - 1] == c {
            let k = i - 1;
            proof {
                assert(0 <= k < s@.len() && s@[k as int] == c && forall|j: int|
                    k < j < s@.len() ==> s@[j] != c);
                let w = choose|w: int|
                    0 <= w < s@.len() && s@[w] == c && forall|j: int| w < j < s@.len() ==> s@[j]
                        != c;
                assert(w == k as int) by {
                    if w < k {
                        assert(s@[k as int] != c);
                    } else if w > k {
                        assert(s@[w] != c);
                    }
                }
            }
            let mut out: Vec<char> = Vec::new();
            let mut m: usize = i;
            while m < s.len()
                invariant
                    i <= m <= s@.len(),
                    out@ == s@.subrange(i as int, m as int),
                decreases s.len() - m,
            {
                out.push(s[m]);
                assert(out@ =~= s@.subrange(i as int, m + 1));
                m = m + 1;
            }
            return Some(out);
        }
        i = i - 1;
    }
    None
}

/// The whitespace-separated fields of a `/proc/<pid>/stat` line after its
/// `comm` field: everything after the **last** `)`, since `comm` is
/// process-chosen text that may itself hold spaces and parentheses.
/// `None` when the line holds no `)`.
pub fn stat_fields(raw: &str) -> (r: Option<Vec<String>>)
    ensures
        match after_last(raw@, ')') {
            Some(rest) => r matches Some(v) && texts_of(v@) == words(rest),
            None => r is None,
        },
{
    let chars = chars_of(raw);
    match split_after_last(&chars, ')') {
        None => None,
        Some(rest) => {
            let pieces = split_words(&rest);
            let mut out: Vec<String> = Vec::new();
            let mut i: usize = 0;
            while i < pieces.len()
                invariant
                    i <= pieces@.len(),
                    texts_of(out@) == char_views(pieces@).take(i as int),
                decreases pieces.len() - i,
            {
                let ghost before = out@;
                let t = string_from_chars(&pieces[i]);
                out.push(t);
                assert(texts_of(out@) =~= texts_of(before).push(t@));
                assert(char_views(pieces@).take(i + 1) =~= char_views(pieces@).take(
                    i as int,
                ).push(pieces@[i as int]@));
                i = i + 1;
            }
            assert(char_views(pieces@).take(i as int) =~= char_views(pieces@));
            Some(out)
        },
    }
}

/// The two `/proc/<pid>/stat` fields the collector uses.
#[derive(Debug, Clone, Copy, PartialEq, Eq, Structural)]
pub struct StatFields {
    /// Field 4: the parent pid.
    pub ppid: u32,
    /// Field 22: the start time in clock ticks since boot.
    pub starttime: u64,
}

/// `prefix` followed by the standard library's description of `e`.
pub open spec fn parse_failure(prefix: Seq<char>, e: crate::decimal::ParseIntErrorKind) -> Seq<char> {
    prefix + match e {
        crate::decimal::ParseIntErrorKind::Empty => "cannot parse integer from empty string"@,
        crate::decimal::ParseIntErrorKind::InvalidDigit => "invalid digit found in string"@,
        crate::decimal::ParseIntErrorKind::PosOverflow => "number too large to fit in target type"@,
    }
}

/// What parsing the `/proc/<pid>/stat` text `raw` gives: the fields, or
/// the reason in the order the collector checks — no `)`, no ppid field,
/// an unparsable ppid, no starttime field, an unparsable starttime.
pub open spec fn stat_outcome(pid: u32, raw: Seq<char>) -> Result<(u32, u64), Seq<char>> {
    match after_last(raw, ')') {
        None => Err(
            "/proc/"@ + decimal(pid as nat) + "/stat missing ')': "@ + crate::text::str_debug(raw),
        ),
        Some(rest) => {
            let f = words(rest);
            if f.len() < 2 {
                Err("missing ppid field"@)
            } else {
                match parse_unsigned(f[1], u32::MAX as nat) {
                    Err(e) => Err(parse_failure("parse ppid: "@, e)),
                    Ok(ppid) => if f.len() < 20 {
                        Err("missing starttime field"@)
                    } else {
                        match parse_unsigned(f[19], u64::MAX as nat) {
                            Err(e) => Err(parse_failure("parse starttime: "@, e)),
                            Ok(start) => Ok((ppid as u32, start as u64)),
                        }
                    },
                }
            }
        },
    }
}

/// `prefix` followed by the description of `e`, as a string.
fn failure_text(prefix: &str, e: crate::decimal::ParseIntErrorKind) -> (s: String)
    ensures
        s@ == parse_failure(prefix@, e),
{
    let mut s = string_of(prefix);
    push_str(&mut s, e.message());
    s
}

/// Parse the `/proc/<pid>/stat` text `raw` of process `pid` (the pid only
/// names it in messages).
pub fn parse_stat(pid: u32, raw: &str) -> (r: Result<StatFields, String>)
    ensures
        match stat_outcome(pid, raw@) {
            Ok((ppid, start)) => r == Ok::<StatFields, String>(StatFields { ppid, starttime: start }),
            Err(reason) => r matches Err(s) && s@ == reason,
        },
{
    proof {
        reveal_strlit("missing ppid field");
        reveal_strlit("missing starttime field");
        reveal_strlit("/proc/");
        reveal_strlit("/stat missing ')': ");
    }
    let fields = match stat_fields(raw) {
        None => {
            let mut s = string_of("/proc/");
            push_decimal(&mut s, pid as u128);
            push_str(&mut s, "/stat missing ')': ");
            crate::text::push_debug_quoted(&mut s, raw);
            return Err(s);
        },
        Some(f) => f,
    };
    if fields.len() < 2 {
        return Err(string_of("missing ppid field"));
    }
    let ppid = match parse_unsigned_chars(&chars_of(fields[1].as_str()), 4294967295u64) {
        Err(e) => {
            return Err(failure_text("parse ppid: ", e));
        },
        Ok(v) => v,
    };
    if fields.len() < 20 {
        return Err(string_of("missing starttime field"));
    }
    let starttime = match parse_unsigned_chars(
        &chars_of(fields[19].as_str()),
        18446744073709551615u64,
    ) {
        Err(e) => {
            return Err(failure_text("parse starttime: ", e));
        },
        Ok(v) => v,
    };
    Ok(StatFields { ppid: ppid as u32, starttime })
}

/// The start-token evidence for process `pid` from reading its
/// `/proc/<pid>/stat`: `read` is the text read, or why it could not be
/// read. Any failure, to read or to parse, is `Missing` with its reason —
/// never a default token.
pub fn process_start_evidence(pid: u32, read: Result<String, String>) -> (e: Evidence<
    ProcessStartToken,
>)
    ensures
        match read {
            Err(reason) => e == Evidence::<ProcessStartToken>::Missing { reason },
            Ok(raw) => match stat_outcome(pid, raw@) {
                Ok((_, start)) => e == Evidence::Present {
                    value: ProcessStartToken(start),
                    source: EvidenceSource::KernelObserved,
                },
                Err(reason) => e matches Evidence::Missing { reason: r } && r@ == reason,
            },
        },
{
    match read {
        Err(reason) => Evidence::Missing { reason },
        Ok(raw) => match parse_stat(pid, raw.as_str()) {
            Ok(stat) => Evidence::Present {
                value: ProcessStartToken(stat.starttime),
                source: EvidenceSource::KernelObserved,
            },
            Err(reason) => Evidence::Missing { reason },
        },
    }
}

/// Index of the first line of `ls` that starts with `label`, if any.
pub open spec fn first_labelled(ls: Seq<Seq<char>>, label: Seq<char>) -> Option<int> {
    if exists|i: int| 0 <= i < ls.len() && crate::text::is_prefix(label, #[trigger] ls[i]) {
        Some(
            choose|i: int|
                0 <= i < ls.len() && crate::text::is_prefix(label, #[trigger] ls[i]) && forall|
                    j: int,
                | 0 <= j < i ==> !crate::text::is_prefix(label, #[trigger] ls[j]),
        )
    } else {
        None
    }
}

/// What reading the id in word `column` of the `label` line of the
/// `/proc/<pid>/status` text `raw` gives: the first line starting with
/// `label`, its whitespace-separated word number `column` (the label
/// itself is word 0), parsed as a `u32`.
pub open spec fn status_column_outcome(pid: u32, raw: Seq<char>, label: Seq<char>, column: nat) -> Result<
    u32,
    Seq<char>,
> {
    let ls = lines(raw);
    match first_labelled(ls, label) {
        None => Err("no "@ + label + " line in /proc/"@ + decimal(pid as nat) + "/status"@),
        Some(i) => {
            let w = words(ls[i]);
            if w.len() <= column {
                Err(label + " line has no value: "@ + crate::text::str_debug(ls[i]))
            } else {
                match parse_unsigned(w[column as int], u32::MAX as nat) {
                    Err(e) => Err(parse_failure("parse "@ + label + ": "@, e)),
                    Ok(v) => Ok(v as u32),
                }
            }
        },
    }
}

/// What reading the real id (word 1) on the `label` line gives.
pub open spec fn status_id_outcome(pid: u32, raw: Seq<char>, label: Seq<char>) -> Result<u32, Seq<char>> {
    status_column_outcome(pid, raw, label, 1)
}

/// The real id on the `label` line (`"Uid:"` or `"Gid:"`) of the
/// `/proc/<pid>/status` text `raw` (`label\treal\teffective\tsaved\tfs`).
pub fn status_id(pid: u32, raw: &str, label: &str) -> (r: Result<u32, String>)
    ensures
        match status_id_outcome(pid, raw@, label@) {
            Ok(v) => r == Ok::<u32, String>(v),
            Err(reason) => r matches Err(s) && s@ == reason,
        },
{
    status_column(pid, raw, label, 1)
}

/// The id in word `column` of the `label` line of the `/proc/<pid>/status`
/// text `raw`: 1 for the real id, 2 for the effective one.
pub fn status_column(pid: u32, raw: &str, label: &str, column: usize) -> (r: Result<u32, String>)
    ensures
        match status_column_outcome(pid, raw@, label@, column as nat) {
            Ok(v) => r == Ok::<u32, String>(v),
            Err(reason) => r matches Err(s) && s@ == reason,
        },
{
    proof {
        reveal_strlit("no ");
        reveal_strlit(" line in /proc/");
        reveal_strlit("/status");
        reveal_strlit(" line has no value: ");
        reveal_strlit("parse ");
        reveal_strlit(": ");
    }
    let ls = split_lines(&chars_of(raw));
    let ghost lv = char_views(ls@);
    let mut i: usize = 0;
    while i < ls.len()
        invariant
            i <= ls@.len(),
            lv == char_views(ls@),
            lv == lines(raw@),
            forall|j: int| 0 <= j < i ==> !crate::text::is_prefix(label@, #[trigger] lv[j]),
        decreases ls.len() - i,
    {
        let line = string_from_chars(&ls[i]);
        assert(lv[i as int] == line@);
        if crate::text::starts_with(line.as_str(), label) {
            proof {
                let k = first_labelled(lv, label@)->0;
                assert(k == i as int) by {
                    if k < i {
                    } else if k > i {
                    }
                }
            }
            let w = split_words(&ls[i]);
            if w.len() <= column {
                let mut s = string_of(label);
                push_str(&mut s, " line has no value: ");
                crate::text::push_debug_quoted(&mut s, line.as_str());
                return Err(s);
            }
            return match parse_unsigned_chars(&w[column], 4294967295u64) {
                Ok(v) => Ok(v as u32),
                Err(e) => {
                    let mut prefix = string_of("parse ");
                    push_str(&mut prefix, label);
                    push_str(&mut prefix, ": ");
                    Err(failure_text(prefix.as_str(), e))
                },
            };
        }
        i = i + 1;
    }
    let mut s = string_of("no ");
    push_str(&mut s, label);
    push_str(&mut s, " line in /proc/");
    push_decimal(&mut s, pid as u128);
    push_str(&mut s, "/status");
    Err(s)
}

/// How many times `c` occurs in `s`.
pub open spec fn count_of(s: Seq<char>, c: char) -> nat
    decreases s.len(),
{
    if s.len() == 0 {
        0
    } else {
        count_of(s.drop_last(), c) + if s.last() == c {
            1nat
        } else {
            0nat
        }
    }
}

/// The text after the second `:` of `line`, if it has two
/// (`line.splitn(3, ':').nth(2)`).
pub open spec fn after_second_colon(line: Seq<char>) -> Option<Seq<char>> {
    if exists|j: int| 0 <= j < line.len() && line[j] == ':' && count_of(line.take(j), ':') == 1 {
        let j = choose|j: int|
            0 <= j < line.len() && line[j] == ':' && count_of(line.take(j), ':') == 1;
        Some(line.subrange(j + 1, line.len() as int))
    } else {
        None
    }
}

/// Counting `c` in a longer prefix never decreases.
proof fn lemma_count_of_prefix(s: Seq<char>, c: char, i: int, j: int)
    requires
        0 <= i <= j <= s.len(),
    ensures
        count_of(s.take(i), c) <= count_of(s.take(j), c),
    decreases j - i,
{
    if i < j {
        lemma_count_of_prefix(s, c, i, j - 1);
        assert(s.take(j).drop_last() =~= s.take(j - 1));
    }
}

/// The path of the last line of the `/proc/<pid>/cgroup` text `raw`
/// (`hierarchy-id:controllers:path`): the unified cgroup-v2 path when
/// present, else the last-listed v1 hierarchy.
pub open spec fn cgroup_outcome(pid: u32, raw: Seq<char>) -> Result<Seq<char>, Seq<char>> {
    let ls = lines(raw);
    if ls.len() == 0 {
        Err("/proc/"@ + decimal(pid as nat) + "/cgroup is empty"@)
    } else {
        match after_second_colon(ls.last()) {
            Some(path) => Ok(path),
            None => Err(
                "malformed /proc/"@ + decimal(pid as nat) + "/cgroup line: "@
                    + crate::text::str_debug(ls.last()),
            ),
        }
    }
}

/// The cgroup path named by the `/proc/<pid>/cgroup` text `raw`.
pub fn cgroup_path(pid: u32, raw: &str) -> (r: Result<String, String>)
    ensures
        match cgroup_outcome(pid, raw@) {
            Ok(path) => r matches Ok(s) && s@ == path,
            Err(reason) => r matches Err(s) && s@ == reason,
        },
{
    proof {
        reveal_strlit("/proc/");
        reveal_strlit("/cgroup is empty");
        reveal_strlit("malformed /proc/");
        reveal_strlit("/cgroup line: ");
    }
    let ls = split_lines(&chars_of(raw));
    if ls.len() == 0 {
        let mut s = string_of("/proc/");
        push_decimal(&mut s, pid as u128);
        push_str(&mut s, "/cgroup is empty");
        return Err(s);
    }
    let line = &ls[ls.len() - 1];
    assert(line@ == lines(raw@).last());
    let mut colons: usize = 0;
    let mut j: usize = 0;
    while j < line.len()
        invariant
            j <= line@.len(),
            lines(raw@).len() > 0,
            line@ == lines(raw@).last(),
            colons == count_of(line@.take(j as int), ':'),
            colons <= 1,
            forall|k: int|
                0 <= k < j && line@[k] == ':' ==> count_of(line@.take(k), ':') != 1,
        decreases line.len() - j,
    {
        proof {
            assert(line@.take(j + 1).drop_last() =~= line@.take(j as int));
        }
        if line[j] == ':' {
            if colons == 1 {
                proof {
                    assert(count_of(line@.take(j as int), ':') == 1);
                    let w = choose|w: int|
                        0 <= w < line@.len() && line@[w] == ':' && count_of(line@.take(w), ':')
                            == 1;
                    assert(w == j as int) by {
                        if w > j {
                            lemma_count_of_prefix(line@, ':', j + 1, w);
                            assert(line@.take(j + 1).drop_last() =~= line@.take(j as int));
                        }
                    }
                    assert(after_second_colon(line@) == Some(
                        line@.subrange(j + 1, line@.len() as int),
                    ));
                }
                let mut out: Vec<char> = Vec::new();
                let mut m: usize = j + 1;
                while m < line.len()
                    invariant
                        j + 1 <= m <= line@.len(),
                        out@ == line@.subrange(j + 1, m as int),
                    decreases line.len() - m,
                {
                    out.push(line[m]);
                    assert(out@ =~= line@.subrange(j + 1, m + 1));
                    m = m + 1;
                }
                assert(out@ == line@.subrange(j + 1, line@.len() as int));
                return Ok(string_from_chars(&out));
            }
            colons = colons + 1;
        }
        j = j + 1;
    }
    let mut s = string_of("malformed /proc/");
    push_decimal(&mut s, pid as u128);
    push_str(&mut s, "/cgroup line: ");
    let last = string_from_chars(line);
    crate::text::push_debug_quoted(&mut s, last.as_str());
    Err(s)
}

/// The abstract state of an [`AncestryWalk`].
pub struct AncestryWalkView {
    /// The pid the walk started from.
    pub start: u32,
    /// The ancestors recorded so far, nearest first.
    pub recorded: Seq<u32>,
    /// The pid whose parent is read next.
    pub current: u32,
    /// Whether the walk has stopped.
    pub done: bool,
}

/// A bounded walk up a process's parent chain. The caller reads the
/// parent of [`AncestryWalk::current`] and offers it to
/// [`AncestryWalk::advance`]; the walk stops at a failed read, pid 0, a
/// pid already seen, or after [`MAX_ANCESTRY_HOPS`] hops.
pub struct AncestryWalk {
    seen: Vec<u32>,
    current: u32,
    done: bool,
}

impl View for AncestryWalk {
    type V = AncestryWalkView;

    closed spec fn view(&self) -> AncestryWalkView {
        AncestryWalkView {
            start: self.seen@[0],
            recorded: self.seen@.drop_first(),
            current: self.current,
            done: self.done,
        }
    }
}

impl AncestryWalk {
    #[verifier::type_invariant]
    closed spec fn wf(self) -> bool {
        &&& 1 <= self.seen@.len() <= MAX_ANCESTRY_HOPS + 1
        &&& self.seen@.no_duplicates()
        &&& self.current == self.seen@.last()
    }

    /// A walk starting at `start_pid`, nothing recorded yet.
    pub fn new(start_pid: u32) -> (w: Self)
        ensures
            w@.start == start_pid,
            w@.recorded == Seq::<u32>::empty(),
            w@.current == start_pid,
            !w@.done,
    {
        let mut seen: Vec<u32> = Vec::new();
        seen.push(start_pid);
        let w = AncestryWalk { seen, current: start_pid, done: false };
        assert(w@.recorded =~= Seq::<u32>::empty());
        w
    }

    /// The pid whose parent is read next.
    pub fn current(&self) -> (p: u32)
        ensures
            p == self@.current,
    {
        self.current
    }

    /// Whether the walk has stopped.
    pub fn is_done(&self) -> (b: bool)
        ensures
            b == self@.done,
    {
        self.done
    }

    /// Offer the parent read for [`AncestryWalk::current`] (`None` when
    /// the read failed). Returns the parent to record next, or `None`
    /// when the walk stops here.
    pub fn advance(&mut self, parent: Option<u32>) -> (next: Option<u32>)
        ensures
            final(self)@.start == old(self)@.start,
            ({
                let o = old(self)@;
                let stops = o.done || o.recorded.len() >= MAX_ANCESTRY_HOPS || match parent {
                    None => true,
                    Some(p) => p == 0 || p == o.start || o.recorded.contains(p),
                };
                if stops {
                    &&& next is None
                    &&& final(self)@.done
                    &&& final(self)@.recorded == o.recorded
                    &&& final(self)@.current == o.current
                } else {
                    &&& next == parent
                    &&& !final(self)@.done
                    &&& final(self)@.recorded == o.recorded.push(parent->0)
                    &&& final(self)@.current == parent->0
                }
            }),
    {
        proof {
            use_type_invariant(&*self);
        }
        let ghost o = self@;
        proof {
            assert(self.seen@ =~= seq![o.start] + o.recorded);
        }
        if self.done || self.seen.len() > MAX_ANCESTRY_HOPS {
            self.done = true;
            return None;
        }
        let p = match parent {
            None => {
                self.done = true;
                return None;
            },
            Some(p) => p,
        };
        let mut seen_before = false;
        let mut i: usize = 0;
        while i < self.seen.len()
            invariant
                i <= self.seen@.len(),
                seen_before == exists|k: int| 0 <= k < i && self.seen@[k] == p,
            decreases self.seen.len() - i,
        {
            if self.seen[i] == p {
                seen_before = true;
            }
            i = i + 1;
        }
        proof {
            assert(self.seen@.contains(p) == (p == o.start || o.recorded.contains(p))) by {
                if o.recorded.contains(p) {
                    let k = choose|k: int| 0 <= k < o.recorded.len() && o.recorded[k] == p;
                    assert(self.seen@[k + 1] == p);
                }
                if self.seen@.contains(p) {
                    let k = choose|k: int| 0 <= k < self.seen@.len() && self.seen@[k] == p;
                    if k > 0 {
                        assert(o.recorded[k - 1] == p);
                    }
                }
            }
        }
        if p == 0 || seen_before {
            self.done = true;
            return None;
        }
        let mut seen: Vec<u32> = Vec::new();
        let mut k: usize = 0;
        while k < self.seen.len()
            invariant
                k <= self.seen@.len(),
                seen@ == self.seen@.take(k as int),
            decreases self.seen.len() - k,
        {
            seen.push(self.seen[k]);
            assert(seen@ =~= self.seen@.take(k + 1));
            k = k + 1;
        }
        assert(seen@ =~= self.seen@);
        seen.push(p);
        proof {
            assert forall|a: int, b: int| 0 <= a < b < seen@.len() implies seen@[a] != seen@[b] by {
                if b == seen@.len() - 1 {
                    assert(seen@[a] == o.start || o.recorded.contains(seen@[a])) by {
                        if a > 0 {
                            assert(o.recorded[a - 1] == seen@[a]);
                        }
                    }
                }
            }
            assert(seen@.drop_first() =~= o.recorded.push(p));
        }
        *self = AncestryWalk { seen, current: p, done: false };
        Some(p)
    }

    /// The ancestors recorded so far, nearest first.
    pub fn recorded(&self) -> (r: Vec<u32>)
        ensures
            r@ == self@.recorded,
            r@.len() <= MAX_ANCESTRY_HOPS,
            r@.no_duplicates(),
            !r@.contains(self@.start),
    {
        proof {
            use_type_invariant(self);
        }
        let mut r: Vec<u32> = Vec::new();
        let mut i: usize = 1;
        while i < self.seen.len()
            invariant
                1 <= i <= self.seen@.len(),
                r@ == self.seen@.subrange(1, i as int),
            decreases self.seen.len() - i,
        {
            r.push(self.seen[i]);
            assert(r@ =~= self.seen@.subrange(1, i + 1));
            i = i + 1;
        }
        proof {
            assert(r@ =~= self.seen@.drop_first());
            assert forall|a: int, b: int| 0 <= a < b < r@.len() implies r@[a] != r@[b] by {
                assert(r@[a] == self.seen@[a + 1] && r@[b] == self.seen@[b + 1]);
            }
            if r@.contains(self@.start) {
                let k = choose|k: int| 0 <= k < r@.len() && r@[k] == self@.start;
                assert(self.seen@[k + 1] == self.seen@[0]);
            }
        }
        r
    }
}

/// The macOS process-start token: seconds and microseconds since the
/// epoch as one microsecond count, saturating at the top of the range.
pub fn start_token_micros(tv_sec: u64, tv_usec: u64) -> (m: u64)
    ensures
        m == if tv_sec * 1000000 + tv_usec <= u64::MAX {
            (tv_sec * 1000000 + tv_usec) as u64
        } else {
            u64::MAX
        },
{
    let scaled = match tv_sec.checked_mul(1000000) {
        Some(v) => v,
        None => u64::MAX,
    };
    match scaled.checked_add(tv_usec) {
        Some(v) => v,
        None => u64::MAX,
    }
}

/// The session key of a kernel session id: negative ids become 0.
pub fn session_key_of(sid: i32) -> (k: SessionKey)
    ensures
        k.0 == if sid < 0 {
            0
        } else {
            sid as u64
        },
{
    if sid < 0 {
        SessionKey(0)
    } else {
        SessionKey(sid as u64)
    }
}

/// Whether `total` bytes read so far are still within
/// [`EXECUTABLE_HASH_SIZE_CAP`].
pub fn within_hash_size_cap(total: u64) -> (b: bool)
    ensures
        b == (total <= EXECUTABLE_HASH_SIZE_CAP),
{
    total <= EXECUTABLE_HASH_SIZE_CAP
}


/// The text of an executable-content hash: `sha256:` and the digest's
/// lowercase hex.
pub open spec fn executable_hash_text(content: Seq<u8>) -> Seq<char> {
    "sha256:"@ + hex_bytes(sha256_of(content))
}

/// What an executable-path observation leaves to hash: the path itself
/// when present; otherwise the hash evidence follows from the path's —
/// missing with the path's reason, or unsupported.
pub fn hash_target(path: &Evidence<String>) -> (r: Result<String, Evidence<String>>)
    ensures
        match *path {
            Evidence::Present { value, .. } => r matches Ok(p) && p@ == value@,
            Evidence::Missing { reason } => r matches Err(Evidence::Missing { reason: m }) && m@
                == "no executable path to hash: "@ + reason@,
            Evidence::Unsupported => r == Err::<String, Evidence<String>>(
                Evidence::<String>::Unsupported,
            ),
        },
{
    match path {
        Evidence::Present { value, .. } => Ok(string_of(value.as_str())),
        Evidence::Missing { reason } => {
            let mut m = string_of("no executable path to hash: ");
            push_str(&mut m, reason.as_str());
            Err(Evidence::Missing { reason: m })
        },
        Evidence::Unsupported => Err(Evidence::Unsupported),
    }
}

/// The hash evidence for an executable at `path` that outgrew
/// [`EXECUTABLE_HASH_SIZE_CAP`] while being read.
pub fn hash_cap_exceeded(path: &str) -> (e: Evidence<String>)
    ensures
        e matches Evidence::Missing { reason } && reason@ == path@ + " exceeds hash size cap ("@
            + decimal(EXECUTABLE_HASH_SIZE_CAP as nat) + " bytes)"@,
{
    let mut reason = string_of(path);
    push_str(&mut reason, " exceeds hash size cap (");
    push_decimal(&mut reason, EXECUTABLE_HASH_SIZE_CAP as u128);
    push_str(&mut reason, " bytes)");
    Evidence::Missing { reason }
}

/// The hash evidence for an executable's content read in full. Only
/// best-effort: the file on disk may no longer be the image that was
/// executed.
pub fn executable_hash_of(content: &[u8]) -> (e: Evidence<String>)
    ensures
        e matches Evidence::Present { value, source } && value@ == executable_hash_text(content@)
            && source == EvidenceSource::BestEffort,
{
    let mut value = string_of("sha256:");
    let hex = sha256_hex(content);
    push_str(&mut value, hex.as_str());
    Evidence::Present { value, source: EvidenceSource::BestEffort }
}


/// The evidence a read of a kernel-reported path gives: the path, kernel
/// observed, or why it could not be read.
pub fn path_evidence(read: Result<String, String>) -> (e: Evidence<String>)
    ensures
        match read {
            Ok(path) => e == Evidence::Present { value: path, source: EvidenceSource::KernelObserved },
            Err(reason) => e == Evidence::<String>::Missing { reason },
        },
{
    match read {
        Ok(path) => Evidence::Present { value: path, source: EvidenceSource::KernelObserved },
        Err(reason) => Evidence::Missing { reason },
    }
}

/// The id evidence on the `label` line of process `pid`'s
/// `/proc/<pid>/status`: `read` is the text read, or why it could not be
/// read. Any failure, to read or to parse, is `Missing` with its reason.
pub fn status_evidence(pid: u32, read: Result<String, String>, label: &str) -> (e: Evidence<u32>)
    ensures
        match read {
            Err(reason) => e == Evidence::<u32>::Missing { reason },
            Ok(raw) => match status_id_outcome(pid, raw@, label@) {
                Ok(v) => e == Evidence::Present { value: v, source: EvidenceSource::KernelObserved },
                Err(reason) => e matches Evidence::Missing { reason: r } && r@ == reason,
            },
        },
{
    match read {
        Err(reason) => Evidence::Missing { reason },
        Ok(raw) => match status_id(pid, raw.as_str(), label) {
            Ok(value) => Evidence::Present { value, source: EvidenceSource::KernelObserved },
            Err(reason) => Evidence::Missing { reason },
        },
    }
}

/// The id evidence in word `column` of the `label` line of process
/// `pid`'s `/proc/<pid>/status` (1 for the real id, 2 for the effective
/// one): `read` is the text read, or why it could not be read. Any
/// failure, to read or to parse, is `Missing` with its reason.
pub fn status_column_evidence(pid: u32, read: Result<String, String>, label: &str, column: usize) -> (e:
    Evidence<u32>)
    ensures
        match read {
            Err(reason) => e == Evidence::<u32>::Missing { reason },
            Ok(raw) => match status_column_outcome(pid, raw@, label@, column as nat) {
                Ok(v) => e == Evidence::Present { value: v, source: EvidenceSource::KernelObserved },
                Err(reason) => e matches Evidence::Missing { reason: r } && r@ == reason,
            },
        },
{
    match read {
        Err(reason) => Evidence::Missing { reason },
        Ok(raw) => match status_column(pid, raw.as_str(), label, column) {
            Ok(value) => Evidence::Present { value, source: EvidenceSource::KernelObserved },
            Err(reason) => Evidence::Missing { reason },
        },
    }
}

/// The cgroup-path evidence of process `pid` from reading its
/// `/proc/<pid>/cgroup`: `read` is the text read, or why it could not be
/// read.
pub fn cgroup_evidence(pid: u32, read: Result<String, String>) -> (e: Evidence<String>)
    ensures
        match read {
            Err(reason) => e == Evidence::<String>::Missing { reason },
            Ok(raw) => match cgroup_outcome(pid, raw@) {
                Ok(path) => e matches Evidence::Present { value, source } && value@ == path
                    && source == EvidenceSource::KernelObserved,
                Err(reason) => e matches Evidence::Missing { reason: r } && r@ == reason,
            },
        },
{
    match read {
        Err(reason) => Evidence::Missing { reason },
        Ok(raw) => match cgroup_path(pid, raw.as_str()) {
            Ok(value) => Evidence::Present { value, source: EvidenceSource::KernelObserved },
            Err(reason) => Evidence::Missing { reason },
        },
    }
}

/// The executable-hash evidence of a collector that does not hash
/// executables: hashing a large binary on every collection would make
/// collection itself a resource-consumption vector, so the gap is
/// reported rather than filled with a placeholder.
pub fn executable_hash_not_collected() -> (e: Evidence<String>)
    ensures
        e matches Evidence::Missing { reason } && reason@
            == "executable hashing not implemented by this collector"@,
{
    Evidence::Missing {
        reason: string_of("executable hashing not implemented by this collector"),
    }
}


/// The session-origin evidence a session-key observation gives: the key
/// in decimal, with the same source; a gap stays the same gap.
pub fn session_origin_of(key: Evidence<SessionKey>) -> (e: Evidence<String>)
    ensures
        match key {
            Evidence::Present { value, source } => e matches Evidence::Present {
                value: text,
                source: s,
            } && text@ == decimal(value.0 as nat) && s == source,
            Evidence::Missing { reason } => e == Evidence::<String>::Missing { reason },
            Evidence::Unsupported => e == Evidence::<String>::Unsupported,
        },
{
    match key {
        Evidence::Present { value, source } => {
            let mut text = String::new();
            push_decimal(&mut text, value.0 as u128);
            Evidence::Present { value: text, source }
        },
        Evidence::Missing { reason } => Evidence::Missing { reason },
        Evidence::Unsupported => Evidence::Unsupported,
    }
}

} // verus!
