//! The boundary between untrusted input and the rest of the pipeline:
//! required fields are checked, the payload is filled in, and each event gets
//! the hash it is deduplicated by.

use std::collections::hash_map::DefaultHasher;
use std::hash::Hasher;
use vstd::prelude::*;
use vstd::std_specs::hash::DefaultHasherAdditionalSpecFns;
use vstd::utf8::encode_utf8;

use crate::error::AppError;
use crate::model::{NormalizedEvent, NormalizedEventView, RawEvent, RawEventView};
use crate::text::{
    decimal, decimal_value, is_blank, is_blank_text, lemma_decimal_round_trip,
    lemma_visible_char_not_blank, push_decimal,
};

verus! {

/// A required field is present and, trimmed, not empty.
pub open spec fn is_present(field: Option<Seq<char>>) -> bool {
    field matches Some(s) && !is_blank_text(s)
}

/// How `{:?}` prints an `Option<u64>`: `Some(123)` or `None`.
pub open spec fn debug_user_id(user_id: Option<u64>) -> Seq<char> {
    match user_id {
        Some(n) => "Some("@ + decimal(n as nat) + ")"@,
        None => "None"@,
    }
}

/// The text an event's hash is computed from:
/// `event_id|ts|source|event_name|user_id` with the user id as `{:?}` prints it.
/// The payload takes no part in it.
pub open spec fn hash_input(
    event_id: Seq<char>,
    ts: Seq<char>,
    source: Seq<char>,
    event_name: Seq<char>,
    user_id: Option<u64>,
) -> Seq<char> {
    event_id + "|"@ + ts + "|"@ + source + "|"@ + event_name + "|"@ + debug_user_id(user_id)
}

/// The `DefaultHasher` hash of a text, as `str`'s `Hash` impl feeds it: the
/// UTF-8 bytes of the text, then the byte `0xff`.
pub open spec fn text_hash(s: Seq<char>) -> u64 {
    DefaultHasher::spec_finish(seq![encode_utf8(s), seq![0xffu8]])
}

/// The payload of a normalised event: the given JSON text, or `null`.
pub open spec fn payload_or_null(payload: Option<Seq<char>>) -> Seq<char> {
    match payload {
        Some(p) => p,
        None => "null"@,
    }
}

/// A name is acceptable when it is absent or, trimmed, not empty.
pub open spec fn name_acceptable(field: Option<Seq<char>>) -> bool {
    field matches Some(s) ==> !is_blank_text(s)
}

/// The name a normalised event carries: the given one, or empty where the
/// event had none.
pub open spec fn name_or_empty(field: Option<Seq<char>>) -> Seq<char> {
    match field {
        Some(s) => s,
        None => Seq::empty(),
    }
}

/// What normalising an event gives: the message of the first field that is
/// refused (checked in the order `event_id`, `ts`, `source`, `event_name`),
/// or the normalised event. `event_id`, `ts` and `source` must be present and
/// not blank; `event_name` may be absent (it is then empty) but not blank.
pub open spec fn normalize(raw: RawEventView) -> Result<NormalizedEventView, Seq<char>> {
    if !is_present(raw.event_id) {
        Err("event_id is missing"@)
    } else if !is_present(raw.ts) {
        Err("ts is missing"@)
    } else if !is_present(raw.source) {
        Err("source is missing"@)
    } else if !name_acceptable(raw.event_name) {
        Err("event_name is missing"@)
    } else {
        let event_id = raw.event_id.unwrap();
        let ts = raw.ts.unwrap();
        let source = raw.source.unwrap();
        let event_name = name_or_empty(raw.event_name);
        Ok(
            NormalizedEventView {
                event_id,
                ts,
                source,
                event_name,
                user_id: raw.user_id,
                payload: payload_or_null(raw.payload),
                event_hash: text_hash(hash_input(event_id, ts, source, event_name, raw.user_id)),
            },
        )
    }
}

/// A normalised event is well formed: its required fields are not blank, its
/// name is empty or not blank, and its hash is the hash of its identifying fields.
pub open spec fn is_well_formed(e: NormalizedEventView) -> bool {
    &&& !is_blank_text(e.event_id)
    &&& !is_blank_text(e.ts)
    &&& !is_blank_text(e.source)
    &&& (e.event_name.len() == 0 || !is_blank_text(e.event_name))
    &&& e.event_hash == text_hash(hash_input(e.event_id, e.ts, e.source, e.event_name, e.user_id))
}

/// Hashes a text with `DefaultHasher`, exactly as `s.hash(&mut hasher)` followed
/// by `hasher.finish()` does.
pub fn simple_hash(s: &str) -> (h: u64)
    ensures
        h == text_hash(s@),
{
    let mut hasher = DefaultHasher::new();
    hasher.write(s.as_bytes());
    let terminator: Vec<u8> = vec![0xffu8];
    hasher.write(terminator.as_slice());
    assert(terminator@ =~= seq![0xffu8]);
    assert(hasher@ =~= seq![encode_utf8(s@), seq![0xffu8]]);
    hasher.finish()
}

/// Builds the text the hash of an event is computed from.
fn build_hash_input(
    event_id: &String,
    ts: &String,
    source: &String,
    event_name: &String,
    user_id: Option<u64>,
) -> (s: String)
    ensures
        s@ == hash_input(event_id@, ts@, source@, event_name@, user_id),
{
    let mut s = String::new();
    s.append(event_id.as_str());
    s.append("|");
    s.append(ts.as_str());
    s.append("|");
    s.append(source.as_str());
    s.append("|");
    s.append(event_name.as_str());
    s.append("|");
    let ghost head = s@;
    match user_id {
        Some(n) => {
            s.append("Some(");
            push_decimal(&mut s, n);
            s.append(")");
            assert(s@ =~= head + debug_user_id(user_id));
        },
        None => {
            s.append("None");
        },
    }
    s
}

/// Takes a required field out of the event, or the validation error that
/// names it.
fn require_field(field: Option<String>, missing: &str) -> (r: Result<String, AppError>)
    ensures
        match r {
            Ok(s) => field.deep_view() == Some(s@) && is_present(Some(s@)),
            Err(e) => !is_present(field.deep_view()) && (e matches AppError::Validation(m) && m@
                == missing@),
        },
{
    match field {
        Some(s) => {
            if is_blank(s.as_str()) {
                Err(AppError::Validation(String::from_str(missing)))
            } else {
                Ok(s)
            }
        },
        None => Err(AppError::Validation(String::from_str(missing))),
    }
}

/// Turns a raw event into a normalised one, or says which field is refused.
///
/// `event_id`, `ts` and `source` are required; `event_name` may be left out
/// (the event then has an empty name) but may not be blank. The fields keep
/// their text as it came (blank-ness is judged on the trimmed text, the text
/// itself is not trimmed); a missing payload becomes JSON `null`; the hash
/// covers the identifying fields, not the payload.
pub fn normalize_event(raw: RawEvent) -> (r: Result<NormalizedEvent, AppError>)
    ensures
        match normalize(raw@) {
            Ok(v) => r matches Ok(e) && e@ == v,
            Err(msg) => r matches Err(AppError::Validation(m)) && m@ == msg,
        },
{
    let event_id = match require_field(raw.event_id, "event_id is missing") {
        Ok(s) => s,
        Err(e) => return Err(e),
    };
    let ts = match require_field(raw.ts, "ts is missing") {
        Ok(s) => s,
        Err(e) => return Err(e),
    };
    let source = match require_field(raw.source, "source is missing") {
        Ok(s) => s,
        Err(e) => return Err(e),
    };
    let event_name = match raw.event_name {
        Some(name) => match require_field(Some(name), "event_name is missing") {
            Ok(s) => s,
            Err(e) => return Err(e),
        },
        None => String::new(),
    };
    let payload = match raw.payload {
        Some(p) => p,
        None => String::from_str("null"),
    };
    let input = build_hash_input(&event_id, &ts, &source, &event_name, raw.user_id);
    let event_hash = simple_hash(input.as_str());
    Ok(
        NormalizedEvent {
            event_id,
            ts,
            source,
            event_name,
            user_id: raw.user_id,
            payload,
            event_hash,
        },
    )
}

/// Every event that normalisation accepts is well formed.
pub proof fn lemma_normalized_is_well_formed(raw: RawEventView)
    ensures
        normalize(raw) matches Ok(e) ==> is_well_formed(e),
{
}

/// Normalisation accepts an event exactly when `event_id`, `ts` and `source`
/// are present and not blank and `event_name` is absent or not blank.
pub proof fn lemma_accepted_iff_required_present(raw: RawEventView)
    ensures
        normalize(raw) is Ok <==> (is_present(raw.event_id) && is_present(raw.ts) && is_present(
            raw.source,
        ) && name_acceptable(raw.event_name)),
{
}

/// Normalising an already normalised event changes nothing (for an event with
/// a name: an empty name, carried as a present field, is blank and refused).
pub proof fn lemma_normalize_idempotent(e: NormalizedEventView)
    requires
        is_well_formed(e),
        e.event_name.len() > 0,
    ensures
        normalize(e.to_raw()) == Ok::<NormalizedEventView, Seq<char>>(e),
{
}

/// The payload takes no part in validation or in the hash: two events that
/// differ only in their payload are accepted or refused alike, with the same
/// message, and when accepted they get the same hash.
pub proof fn lemma_hash_ignores_payload(a: RawEventView, b: RawEventView)
    requires
        a.event_id == b.event_id,
        a.ts == b.ts,
        a.source == b.source,
        a.event_name == b.event_name,
        a.user_id == b.user_id,
    ensures
        normalize(a) is Ok <==> normalize(b) is Ok,
        normalize(a) matches Err(m) ==> normalize(b) == Err::<NormalizedEventView, Seq<char>>(m),
        normalize(a) matches Ok(ea) ==> normalize(b) matches Ok(eb) && ea.event_hash
            == eb.event_hash,
{
}

/// A text holds no `|`, the separator of the hash text.
pub open spec fn has_no_separator(s: Seq<char>) -> bool {
    forall|i: int| 0 <= i < s.len() ==> #[trigger] s[i] != '|'
}

/// The hash text holds each identifying field whole and in order, each
/// followed by one `|`, and ends with the user id as `{:?}` prints it.
pub proof fn lemma_hash_input_layout(
    event_id: Seq<char>,
    ts: Seq<char>,
    source: Seq<char>,
    event_name: Seq<char>,
    user_id: Option<u64>,
)
    ensures
        ({
            let t = hash_input(event_id, ts, source, event_name, user_id);
            let a = event_id.len() as int;
            let b = a + 1 + ts.len();
            let c = b + 1 + source.len();
            let d = c + 1 + event_name.len();
            &&& t.len() == d + 1 + debug_user_id(user_id).len()
            &&& t.subrange(0, a) == event_id
            &&& t[a] == '|'
            &&& t.subrange(a + 1, b) == ts
            &&& t[b] == '|'
            &&& t.subrange(b + 1, c) == source
            &&& t[c] == '|'
            &&& t.subrange(c + 1, d) == event_name
            &&& t[d] == '|'
            &&& t.subrange(d + 1, t.len() as int) == debug_user_id(user_id)
        }),
{
    reveal_strlit("|");
    let bar = seq!['|'];
    let t = hash_input(event_id, ts, source, event_name, user_id);
    assert(t =~= event_id + bar + ts + bar + source + bar + event_name + bar + debug_user_id(
        user_id,
    ));
    let a = event_id.len() as int;
    let b = a + 1 + ts.len();
    let c = b + 1 + source.len();
    let d = c + 1 + event_name.len();
    assert(t.subrange(0, a) =~= event_id);
    assert(t.subrange(a + 1, b) =~= ts);
    assert(t.subrange(b + 1, c) =~= source);
    assert(t.subrange(c + 1, d) =~= event_name);
    assert(t.subrange(d + 1, t.len() as int) =~= debug_user_id(user_id));
}

/// The user id part of the hash text: `None`, or `Some(` and the decimal
/// digits of the id (which read back as the id) and `)`.
pub proof fn lemma_debug_user_id(user_id: Option<u64>)
    ensures
        user_id is None ==> debug_user_id(user_id) == seq!['N', 'o', 'n', 'e'],
        user_id matches Some(n) ==> ({
            let t = debug_user_id(user_id);
            &&& t.len() >= 7
            &&& t.take(5) == seq!['S', 'o', 'm', 'e', '(']
            &&& t.last() == ')'
            &&& decimal_value(t.subrange(5, t.len() - 1)) == n
        }),
{
    reveal_strlit("None");
    reveal_strlit("Some(");
    reveal_strlit(")");
    if let Some(n) = user_id {
        lemma_decimal_round_trip(n as nat);
        let t = debug_user_id(user_id);
        assert(t.take(5) =~= seq!['S', 'o', 'm', 'e', '(']);
        assert(t.subrange(5, t.len() - 1) =~= decimal(n as nat));
    } else {
        assert(debug_user_id(user_id) =~= seq!['N', 'o', 'n', 'e']);
    }
}

proof fn lemma_split_at_separator(x1: Seq<char>, r1: Seq<char>, x2: Seq<char>, r2: Seq<char>)
    requires
        has_no_separator(x1),
        has_no_separator(x2),
        x1 + seq!['|'] + r1 == x2 + seq!['|'] + r2,
    ensures
        x1 == x2,
        r1 == r2,
{
    let t = x1 + seq!['|'] + r1;
    if x1.len() < x2.len() {
        assert(t[x1.len() as int] == '|');
        assert((x2 + seq!['|'] + r2)[x1.len() as int] == x2[x1.len() as int]);
    } else if x2.len() < x1.len() {
        assert((x2 + seq!['|'] + r2)[x2.len() as int] == '|');
        assert(t[x2.len() as int] == x1[x2.len() as int]);
    }
    assert(x1 =~= t.take(x1.len() as int));
    assert(x2 =~= (x2 + seq!['|'] + r2).take(x2.len() as int));
    assert(r1 =~= t.skip(x1.len() as int + 1));
    assert(r2 =~= (x2 + seq!['|'] + r2).skip(x2.len() as int + 1));
}

/// Different identifying fields give different hash texts: for fields that
/// hold no `|`, equal hash texts mean equal `event_id`, `ts`, `source`,
/// `event_name` and user id.
pub proof fn lemma_hash_input_injective(
    id1: Seq<char>,
    ts1: Seq<char>,
    source1: Seq<char>,
    name1: Seq<char>,
    user1: Option<u64>,
    id2: Seq<char>,
    ts2: Seq<char>,
    source2: Seq<char>,
    name2: Seq<char>,
    user2: Option<u64>,
)
    requires
        has_no_separator(id1),
        has_no_separator(ts1),
        has_no_separator(source1),
        has_no_separator(name1),
        has_no_separator(id2),
        has_no_separator(ts2),
        has_no_separator(source2),
        has_no_separator(name2),
        hash_input(id1, ts1, source1, name1, user1) == hash_input(id2, ts2, source2, name2, user2),
    ensures
        id1 == id2,
        ts1 == ts2,
        source1 == source2,
        name1 == name2,
        user1 == user2,
{
    reveal_strlit("|");
    let bar = seq!['|'];
    let d1 = debug_user_id(user1);
    let d2 = debug_user_id(user2);
    let n1 = name1 + bar + d1;
    let n2 = name2 + bar + d2;
    let s1 = source1 + bar + n1;
    let s2 = source2 + bar + n2;
    let m1 = ts1 + bar + s1;
    let m2 = ts2 + bar + s2;
    assert(hash_input(id1, ts1, source1, name1, user1) =~= id1 + bar + m1);
    assert(hash_input(id2, ts2, source2, name2, user2) =~= id2 + bar + m2);
    lemma_split_at_separator(id1, m1, id2, m2);
    lemma_split_at_separator(ts1, s1, ts2, s2);
    lemma_split_at_separator(source1, n1, source2, n2);
    lemma_split_at_separator(name1, d1, name2, d2);
    lemma_debug_user_id(user1);
    lemma_debug_user_id(user2);
    if let (Some(a), Some(b)) = (user1, user2) {
        assert(d1.subrange(5, d1.len() - 1) == d2.subrange(5, d2.len() - 1));
    }
}

/// An event whose `event_id`, `ts` and `source` each hold a letter, digit or
/// punctuation mark, and whose `event_name` is absent or holds one too, is
/// accepted.
pub proof fn lemma_visible_fields_accepted(raw: RawEventView, i: int, j: int, k: int, l: int)
    requires
        raw.event_id matches Some(s) && 0 <= i < s.len() && 0x21 <= (s[i] as u32) <= 0x7E,
        raw.ts matches Some(s) && 0 <= j < s.len() && 0x21 <= (s[j] as u32) <= 0x7E,
        raw.source matches Some(s) && 0 <= k < s.len() && 0x21 <= (s[k] as u32) <= 0x7E,
        raw.event_name matches Some(s) ==> 0 <= l < s.len() && 0x21 <= (s[l] as u32) <= 0x7E,
    ensures
        normalize(raw) is Ok,
{
    lemma_visible_char_not_blank(raw.event_id.unwrap(), i);
    lemma_visible_char_not_blank(raw.ts.unwrap(), j);
    lemma_visible_char_not_blank(raw.source.unwrap(), k);
    if let Some(s) = raw.event_name {
        lemma_visible_char_not_blank(s, l);
    }
}

} // verus!
