//! The evidence canonicalization: the event as compact JSON with its
//! `integrity` member left out, keys in byte order, strings escaped the
//! way `serde_json` escapes them, then SHA-256 over the UTF-8 text.
//!
//! The event is flat — every member is a string, an optional string, a
//! boolean or a non-negative integer — so this fixed rendering is the
//! whole canonical form; it does not claim to canonicalize arbitrary
//! JSON.

use vstd::prelude::*;

use crate::decimal::{decimal, hex_bytes, hex_fixed, push_decimal, push_hex_fixed};
use crate::digest::{sha256_hex, sha256_of};
use crate::dogfood::event::{ActualAction, ContentHash, Event, GapReason, Integrity};
use crate::text::{chars_of, push_char, push_str, push_utf8, string_of, utf8};

verus! {

/// The canonicalization id stamped on every integrity envelope.
pub const CANONICALIZATION_ID: &'static str = "horonom-evidence-canon-v1";

/// Why canonicalization failed.
#[derive(Debug)]
pub struct CanonError {
    reason: String,
}

impl CanonError {
    pub closed spec fn spec_reason(&self) -> Seq<char> {
        self.reason@
    }

    /// The human-readable description of this error.
    pub fn message(&self) -> (s: String)
        ensures
            s@ == "failed to canonicalize evidence event: "@ + self.spec_reason(),
    {
        let mut s = string_of("failed to canonicalize evidence event: ");
        push_str(&mut s, self.reason.as_str());
        s
    }
}

/// The JSON escape of one character, as `serde_json` writes it.
pub open spec fn escape_char(c: char) -> Seq<char> {
    if c == '"' {
        seq!['\\', '"']
    } else if c == '\\' {
        seq!['\\', '\\']
    } else if c == '\u{8}' {
        seq!['\\', 'b']
    } else if c == '\t' {
        seq!['\\', 't']
    } else if c == '\n' {
        seq!['\\', 'n']
    } else if c == '\u{c}' {
        seq!['\\', 'f']
    } else if c == '\r' {
        seq!['\\', 'r']
    } else if (c as u32) < 0x20 {
        seq!['\\', 'u', '0', '0'] + hex_fixed((c as u32) as nat, 2)
    } else {
        seq![c]
    }
}

/// The JSON escape of a string's contents.
pub open spec fn json_escape(s: Seq<char>) -> Seq<char>
    decreases s.len(),
{
    if s.len() == 0 {
        Seq::empty()
    } else {
        json_escape(s.drop_last()) + escape_char(s.last())
    }
}

/// A JSON string literal.
pub open spec fn json_string(s: Seq<char>) -> Seq<char> {
    seq!['"'] + json_escape(s) + seq!['"']
}

/// An optional JSON string: `null` when absent.
pub open spec fn json_opt_string(o: Option<Seq<char>>) -> Seq<char> {
    match o {
        Some(s) => json_string(s),
        None => "null"@,
    }
}

/// A JSON boolean.
pub open spec fn json_bool(b: bool) -> Seq<char> {
    if b {
        "true"@
    } else {
        "false"@
    }
}

/// `"key":value`, for a key with nothing to escape.
pub open spec fn member(key: Seq<char>, value: Seq<char>) -> Seq<char> {
    seq!['"'] + key + seq!['"', ':'] + value
}

/// The text of an optional string.
pub open spec fn opt_text(o: Option<String>) -> Option<Seq<char>> {
    match o {
        Some(s) => Some(s@),
        None => None,
    }
}

/// The name of an optional action.
pub open spec fn opt_action(o: Option<ActualAction>) -> Option<Seq<char>> {
    match o {
        Some(a) => Some(a.spec_text()),
        None => None,
    }
}

/// The name of an optional gap reason.
pub open spec fn opt_gap(o: Option<GapReason>) -> Option<Seq<char>> {
    match o {
        Some(g) => Some(g.spec_text()),
        None => None,
    }
}

/// The first members of the canonical text of `e`, each followed by a
/// comma.
pub open spec fn members_head(e: Event) -> Seq<char> {
    member("actual_action"@, json_string(e.actual_action.spec_text())) + seq![','] + member(
        "adapter_version"@,
        json_string(e.adapter_version@),
    ) + seq![','] + member("coverage"@, json_string(e.coverage.spec_text())) + seq![','] + member(
        "decision_mode"@,
        json_string(e.decision_mode.spec_text()),
    ) + seq![','] + member("destination"@, json_string(e.destination@)) + seq![','] + member(
        "dropped_count"@,
        decimal(e.dropped_count as nat),
    ) + seq![','] + member("eligibility"@, json_string(e.eligibility.spec_text())) + seq![',']
        + member("event_id"@, json_string(e.event_id@)) + seq![',']
}

/// The middle members of the canonical text of `e`, each followed by a
/// comma.
pub open spec fn members_middle(e: Event) -> Seq<char> {
    member("gap_reason"@, json_opt_string(opt_gap(e.gap_reason))) + seq![','] + member(
        "imported"@,
        json_bool(e.imported),
    ) + seq![','] + member("ingested_at"@, json_string(e.ingested_at@)) + seq![','] + member(
        "occurred_at"@,
        json_string(e.occurred_at@),
    ) + seq![','] + member("origin_profile"@, json_string(e.origin_profile.spec_text())) + seq![
        ',',
    ] + member("payload_classification"@, json_string("metadata_only"@)) + seq![','] + member(
        "permanently_ineligible"@,
        json_bool(e.permanently_ineligible),
    ) + seq![',']
}

/// The product members of the canonical text of `e`, each followed by
/// a comma.
pub open spec fn members_product(e: Event) -> Seq<char> {
    member("product"@, json_string(e.product@)) + seq![','] + member(
        "product_version"@,
        json_string(e.product_version@),
    ) + seq![','] + member("profile"@, json_string(e.profile.spec_text())) + seq![','] + member(
        "schema_version"@,
        decimal(e.schema_version as nat),
    ) + seq![',']
}

/// The last members of the canonical text of `e`, comma-separated.
pub open spec fn members_tail(e: Event) -> Seq<char> {
    member("scope_id"@, json_opt_string(opt_text(e.scope_id))) + seq![','] + member(
        "tenant_id"@,
        json_opt_string(opt_text(e.tenant_id)),
    ) + seq![','] + member("transport_state"@, json_string("pending"@)) + seq![','] + member(
        "would_action"@,
        json_opt_string(opt_action(e.would_action)),
    )
}

/// The canonical text of `e`: every member but `integrity`, keys in byte
/// order, no insignificant white space.
pub open spec fn canonical_text(e: Event) -> Seq<char> {
    seq!['{'] + members_head(e) + members_middle(e) + members_product(e) + members_tail(e)
        + seq!['}']
}

/// Append the JSON escape of one character.
fn push_escaped_char(out: &mut String, c: char)
    ensures
        final(out)@ == old(out)@ + escape_char(c),
{
    if c == '"' {
        push_char(out, '\\');
        push_char(out, '"');
    } else if c == '\\' {
        push_char(out, '\\');
        push_char(out, '\\');
    } else if c == '\u{8}' {
        push_char(out, '\\');
        push_char(out, 'b');
    } else if c == '\t' {
        push_char(out, '\\');
        push_char(out, 't');
    } else if c == '\n' {
        push_char(out, '\\');
        push_char(out, 'n');
    } else if c == '\u{c}' {
        push_char(out, '\\');
        push_char(out, 'f');
    } else if c == '\r' {
        push_char(out, '\\');
        push_char(out, 'r');
    } else if (c as u32) < 0x20 {
        push_char(out, '\\');
        push_char(out, 'u');
        push_char(out, '0');
        push_char(out, '0');
        push_hex_fixed(out, (c as u32) as u128, 2);
    } else {
        push_char(out, c);
    }
    assert(out@ =~= old(out)@ + escape_char(c));
}

/// Append `s` as a JSON string literal.
fn push_json_string(out: &mut String, s: &str)
    ensures
        final(out)@ == old(out)@ + json_string(s@),
{
    let ghost start = out@;
    let v = chars_of(s);
    push_char(out, '"');
    let mut i: usize = 0;
    while i < v.len()
        invariant
            i <= v@.len(),
            v@ == s@,
            out@ == start + seq!['"'] + json_escape(v@.take(i as int)),
        decreases v.len() - i,
    {
        push_escaped_char(out, v[i]);
        proof {
            assert(v@.take(i + 1).drop_last() =~= v@.take(i as int));
        }
        assert(out@ =~= start + seq!['"'] + json_escape(v@.take(i + 1)));
        i = i + 1;
    }
    push_char(out, '"');
    assert(v@.take(i as int) =~= v@);
    assert(out@ =~= start + json_string(s@));
}

/// Append `"key":` for a key with nothing to escape.
fn push_key(out: &mut String, key: &str)
    ensures
        final(out)@ == old(out)@ + seq!['"'] + key@ + seq!['"', ':'],
{
    push_char(out, '"');
    push_str(out, key);
    push_char(out, '"');
    push_char(out, ':');
    assert(out@ =~= old(out)@ + seq!['"'] + key@ + seq!['"', ':']);
}

/// Append an optional string.
fn push_opt_string(out: &mut String, o: Option<&str>)
    ensures
        final(out)@ == old(out)@ + json_opt_string(
            match o {
                Some(s) => Some(s@),
                None => None,
            },
        ),
{
    match o {
        Some(s) => push_json_string(out, s),
        None => push_str(out, "null"),
    }
}

/// Append a boolean.
fn push_bool(out: &mut String, b: bool)
    ensures
        final(out)@ == old(out)@ + json_bool(b),
{
    if b {
        push_str(out, "true")
    } else {
        push_str(out, "false")
    }
}

/// Canonicalize `event`: every member but `integrity`, keys sorted, no
/// insignificant white space.
pub fn canonicalize(event: &Event) -> (r: Result<String, CanonError>)
    ensures
        r matches Ok(s) && s@ == canonical_text(*event),
{
    Ok(canonical_string(event))
}

/// Append `"key":"value"`.
fn push_text_member(out: &mut String, key: &str, value: &str)
    ensures
        final(out)@ == old(out)@ + member(key@, json_string(value@)),
{
    let ghost start = out@;
    push_key(out, key);
    push_json_string(out, value);
    assert(out@ =~= start + member(key@, json_string(value@)));
}

/// Append the first members of the canonical text.
fn push_head(out: &mut String, event: &Event)
    ensures
        final(out)@ == old(out)@ + members_head(*event),
{
    let ghost start = out@;
    push_text_member(out, "actual_action", event.actual_action.as_str());
    push_char(out, ',');
    push_text_member(out, "adapter_version", event.adapter_version.as_str());
    push_char(out, ',');
    push_text_member(out, "coverage", event.coverage.as_str());
    push_char(out, ',');
    push_text_member(out, "decision_mode", event.decision_mode.as_str());
    push_char(out, ',');
    push_text_member(out, "destination", event.destination);
    push_char(out, ',');
    push_key(out, "dropped_count");
    push_decimal(out, event.dropped_count as u128);
    push_char(out, ',');
    push_text_member(out, "eligibility", event.eligibility.as_str());
    push_char(out, ',');
    push_text_member(out, "event_id", event.event_id.as_str());
    push_char(out, ',');
    assert(out@ =~= start + members_head(*event));
}

/// Append the middle members of the canonical text.
#[verifier::rlimit(50)]
fn push_middle(out: &mut String, event: &Event)
    ensures
        final(out)@ == old(out)@ + members_middle(*event),
{
    let ghost start = out@;
    push_key(out, "gap_reason");
    push_opt_string(
        out,
        match event.gap_reason {
            Some(g) => Some(g.as_str()),
            None => None,
        },
    );
    push_char(out, ',');
    push_key(out, "imported");
    push_bool(out, event.imported);
    push_char(out, ',');
    push_text_member(out, "ingested_at", event.ingested_at.as_str());
    push_char(out, ',');
    push_text_member(out, "occurred_at", event.occurred_at.as_str());
    push_char(out, ',');
    push_text_member(out, "origin_profile", event.origin_profile.as_str());
    push_char(out, ',');
    push_text_member(out, "payload_classification", "metadata_only");
    push_char(out, ',');
    push_key(out, "permanently_ineligible");
    push_bool(out, event.permanently_ineligible);
    push_char(out, ',');
    assert(out@ =~= start + members_middle(*event));
}

/// Append the product members of the canonical text.
fn push_product(out: &mut String, event: &Event)
    ensures
        final(out)@ == old(out)@ + members_product(*event),
{
    let ghost start = out@;
    push_text_member(out, "product", event.product);
    push_char(out, ',');
    push_text_member(out, "product_version", event.product_version.as_str());
    push_char(out, ',');
    push_text_member(out, "profile", event.profile.as_str());
    push_char(out, ',');
    push_key(out, "schema_version");
    push_decimal(out, event.schema_version as u128);
    push_char(out, ',');
    assert(out@ =~= start + members_product(*event));
}

/// Append the last members of the canonical text.
#[verifier::rlimit(50)]
fn push_tail(out: &mut String, event: &Event)
    ensures
        final(out)@ == old(out)@ + members_tail(*event),
{
    let ghost start = out@;
    push_key(out, "scope_id");
    push_opt_string(
        out,
        match &event.scope_id {
            Some(x) => Some(x.as_str()),
            None => None,
        },
    );
    push_char(out, ',');
    push_key(out, "tenant_id");
    push_opt_string(
        out,
        match &event.tenant_id {
            Some(x) => Some(x.as_str()),
            None => None,
        },
    );
    push_char(out, ',');
    push_text_member(out, "transport_state", "pending");
    push_char(out, ',');
    push_key(out, "would_action");
    push_opt_string(
        out,
        match event.would_action {
            Some(a) => Some(a.as_str()),
            None => None,
        },
    );
    assert(out@ =~= start + members_tail(*event));
}

/// The canonical text of `event`.
fn canonical_string(event: &Event) -> (s: String)
    ensures
        s@ == canonical_text(*event),
{
    let mut s = String::new();
    push_char(&mut s, '{');
    push_head(&mut s, event);
    push_middle(&mut s, event);
    push_product(&mut s, event);
    push_tail(&mut s, event);
    push_char(&mut s, '}');
    assert(s@ =~= canonical_text(*event));
    s
}

/// The content hash of an event: SHA-256 of its canonical text's UTF-8
/// bytes, as lowercase hex.
#[verifier::opaque]
pub open spec fn content_hash_text(e: Event) -> Seq<char> {
    hex_bytes(sha256_of(utf8(canonical_text(e))))
}

/// The integrity envelope of `event`: the canonicalization id and the
/// SHA-256 of its canonical form (which leaves `integrity` out).
pub fn hash_event(event: &Event) -> (r: Result<Integrity, CanonError>)
    ensures
        r matches Ok(i) && i.canonicalization@ == CANONICALIZATION_ID@ && i.content_hash.alg@
            == "sha256"@ && i.content_hash.value@ == content_hash_text(*event),
{
    let canonical = canonical_string(event);
    let mut bytes: Vec<u8> = Vec::new();
    push_utf8(&mut bytes, canonical.as_str());
    assert(bytes@ =~= utf8(canonical_text(*event)));
    let value = sha256_hex(bytes.as_slice());
    proof {
        reveal(content_hash_text);
    }
    Ok(
        Integrity {
            canonicalization: CANONICALIZATION_ID,
            content_hash: ContentHash { alg: "sha256", value },
        },
    )
}

/// The integrity member is never part of what is hashed: two events that
/// differ only in `integrity` have the same canonical text and hash.
pub proof fn law_integrity_is_not_hashed(a: Event, b: Event)
    requires
        a == (Event { integrity: a.integrity, ..b }),
    ensures
        canonical_text(a) == canonical_text(b),
        content_hash_text(a) == content_hash_text(b),
{
    reveal(content_hash_text);
}

} // verus!
