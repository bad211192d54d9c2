//! Preparing a batch of events for ClickHouse's HTTP interface: each event
//! becomes one `JSONEachRow` line, and the request says where it goes and who
//! sends it. The network call itself happens in front of the library.

use vstd::prelude::*;

use crate::config::{Config, ConfigView};
use crate::model::{NormalizedEvent, NormalizedEventView};
use crate::text::{decimal, digit_char, lemma_decimal_digits, push_decimal};

verus! {

/// A lowercase hexadecimal digit.
pub open spec fn hex_digit(d: nat) -> char {
    if d < 10 {
        digit_char(d)
    } else if d == 10 {
        'a'
    } else if d == 11 {
        'b'
    } else if d == 12 {
        'c'
    } else if d == 13 {
        'd'
    } else if d == 14 {
        'e'
    } else {
        'f'
    }
}

/// How one character is written inside a JSON string: `"` and `\` behind a
/// backslash, the control characters with a short escape where JSON has one
/// (`\b \t \n \f \r`) and as `\u00xx` in lowercase hex otherwise, every
/// other character as it is.
pub open spec fn json_escaped_char(c: char) -> Seq<char> {
    let u = c as u32;
    if c == '"' {
        seq!['\\', '"']
    } else if c == '\\' {
        seq!['\\', '\\']
    } else if u == 0x08 {
        seq!['\\', 'b']
    } else if u == 0x09 {
        seq!['\\', 't']
    } else if u == 0x0A {
        seq!['\\', 'n']
    } else if u == 0x0C {
        seq!['\\', 'f']
    } else if u == 0x0D {
        seq!['\\', 'r']
    } else if u < 0x20 {
        seq!['\\', 'u', '0', '0', hex_digit((u / 16) as nat), hex_digit((u % 16) as nat)]
    } else {
        seq![c]
    }
}

/// The characters of a text, each escaped for a JSON string.
pub open spec fn json_escaped(s: Seq<char>) -> Seq<char>
    decreases s.len(),
{
    if s.len() == 0 {
        Seq::empty()
    } else {
        json_escaped_char(s[0]) + json_escaped(s.skip(1))
    }
}

/// The JSON string literal of a text: its escaped characters between quotes.
pub open spec fn json_string_text(s: Seq<char>) -> Seq<char> {
    seq!['"'] + json_escaped(s) + seq!['"']
}

/// Calls `serde_json::to_string` on a `str`. It succeeds, with the JSON string
/// literal of the text: serialising a `str` writes the quoted, escaped text
/// into a `Vec`, a path with no error.
#[verifier::external_body]
fn json_string(s: &str) -> (r: Result<String, serde_json::Error>)
    ensures
        r is Ok,
        r matches Ok(t) ==> t@ == json_string_text(s@),
{
    serde_json::to_string(s)
}

/// The JSON string literal of a text.
fn json_string_of(s: &str) -> (t: String)
    ensures
        t@ == json_string_text(s@),
{
    match json_string(s) {
        Ok(t) => t,
        Err(_) => {
            assert(false);
            String::new()
        },
    }
}

/// How an optional unsigned integer is written in JSON: its digits, or `null`.
pub open spec fn json_optional_u64(value: Option<u64>) -> Seq<char> {
    match value {
        Some(n) => decimal(n as nat),
        None => "null"@,
    }
}

/// One `JSONEachRow` line from the already encoded string fields of an event.
/// The fields stand in the order of the table's columns.
pub open spec fn row_text(
    event_id_json: Seq<char>,
    ts_json: Seq<char>,
    source_json: Seq<char>,
    event_name_json: Seq<char>,
    user_id: Option<u64>,
    payload_json: Seq<char>,
    event_hash: u64,
) -> Seq<char> {
    "{\"event_id\":"@ + event_id_json + ",\"ts\":"@ + ts_json + ",\"source\":"@ + source_json
        + ",\"event_name\":"@ + event_name_json + ",\"user_id\":"@ + json_optional_u64(user_id)
        + ",\"payload\":"@ + payload_json + ",\"event_hash\":"@ + decimal(event_hash as nat)
        + "}"@
}

/// The `JSONEachRow` line of an event. The payload, itself JSON text, is sent
/// as a JSON string.
pub open spec fn event_row(e: NormalizedEventView) -> Seq<char> {
    row_text(
        json_string_text(e.event_id),
        json_string_text(e.ts),
        json_string_text(e.source),
        json_string_text(e.event_name),
        e.user_id,
        json_string_text(e.payload),
        e.event_hash,
    )
}

/// The lines of a batch, one per event, in the batch's order.
pub open spec fn event_rows(events: Seq<NormalizedEvent>) -> Seq<Seq<char>> {
    events.map_values(|e: NormalizedEvent| event_row(e@))
}

/// Lines joined by a newline between each two of them.
pub open spec fn join_lines(lines: Seq<Seq<char>>) -> Seq<char>
    decreases lines.len(),
{
    if lines.len() == 0 {
        Seq::empty()
    } else if lines.len() == 1 {
        lines[0]
    } else {
        join_lines(lines.drop_last()) + "\n"@ + lines.last()
    }
}

/// The URL that inserts `JSONEachRow` data into the configured table.
pub open spec fn insert_url(c: ConfigView) -> Seq<char> {
    c.clickhouse_url + "/?query=INSERT%20INTO%20"@ + c.clickhouse_db + "."@ + c.clickhouse_table
        + "%20FORMAT%20JSONEachRow"@
}

/// The headers of an insert: the content type and ClickHouse's credentials.
pub open spec fn insert_headers(c: ConfigView) -> Seq<(Seq<char>, Seq<char>)> {
    seq![
        ("Content-Type"@, "text/plain"@),
        ("X-ClickHouse-User"@, c.clickhouse_user),
        ("X-ClickHouse-Key"@, c.clickhouse_password),
    ]
}

/// An HTTP `POST` that inserts a batch of events into ClickHouse.
#[derive(Debug)]
pub struct InsertRequest {
    pub url: String,
    /// Header names and values, in the order they are sent.
    pub headers: Vec<(String, String)>,
    pub body: String,
}

/// The abstract value of an [`InsertRequest`].
pub struct InsertRequestView {
    pub url: Seq<char>,
    pub headers: Seq<(Seq<char>, Seq<char>)>,
    pub body: Seq<char>,
}

impl View for InsertRequest {
    type V = InsertRequestView;

    open spec fn view(&self) -> InsertRequestView {
        InsertRequestView {
            url: self.url@,
            headers: self.headers@.map_values(|h: (String, String)| (h.0@, h.1@)),
            body: self.body@,
        }
    }
}

/// The request that inserts a non-empty batch under a configuration.
pub open spec fn insert_request_for(events: Seq<NormalizedEvent>, c: ConfigView) -> InsertRequestView {
    InsertRequestView {
        url: insert_url(c),
        headers: insert_headers(c),
        body: join_lines(event_rows(events)),
    }
}

/// Writes one `JSONEachRow` line from the encoded string fields of an event.
pub fn frame_row(
    event_id_json: &str,
    ts_json: &str,
    source_json: &str,
    event_name_json: &str,
    user_id: Option<u64>,
    payload_json: &str,
    event_hash: u64,
) -> (line: String)
    ensures
        line@ == row_text(
            event_id_json@,
            ts_json@,
            source_json@,
            event_name_json@,
            user_id,
            payload_json@,
            event_hash,
        ),
{
    let mut line = String::from_str("{\"event_id\":");
    line.append(event_id_json);
    line.append(",\"ts\":");
    line.append(ts_json);
    line.append(",\"source\":");
    line.append(source_json);
    line.append(",\"event_name\":");
    line.append(event_name_json);
    line.append(",\"user_id\":");
    let ghost before_user = line@;
    match user_id {
        Some(n) => push_decimal(&mut line, n),
        None => line.append("null"),
    }
    assert(line@ == before_user + json_optional_u64(user_id));
    line.append(",\"payload\":");
    line.append(payload_json);
    line.append(",\"event_hash\":");
    push_decimal(&mut line, event_hash);
    line.append("}");
    line
}

/// Encodes one event as its `JSONEachRow` line.
pub fn encode_row(event: &NormalizedEvent) -> (line: String)
    ensures
        line@ == event_row(event@),
{
    let event_id_json = json_string_of(event.event_id.as_str());
    let ts_json = json_string_of(event.ts.as_str());
    let source_json = json_string_of(event.source.as_str());
    let event_name_json = json_string_of(event.event_name.as_str());
    let payload_json = json_string_of(event.payload.as_str());
    frame_row(
        event_id_json.as_str(),
        ts_json.as_str(),
        source_json.as_str(),
        event_name_json.as_str(),
        event.user_id,
        payload_json.as_str(),
        event.event_hash,
    )
}

/// Joins the `JSONEachRow` lines of a batch into a request body.
pub fn encode_body(events: &[NormalizedEvent]) -> (body: String)
    ensures
        body@ == join_lines(event_rows(events@)),
{
    let ghost rows = event_rows(events@);
    let mut body = String::new();
    let n = events.len();
    for i in 0..n
        invariant
            n == events@.len(),
            rows == event_rows(events@),
            body@ == join_lines(rows.take(i as int)),
    {
        let line = encode_row(&events[i]);
        if i > 0 {
            body.append("\n");
        }
        body.append(line.as_str());
        assert(rows.take(i + 1).drop_last() =~= rows.take(i as int));
        assert(rows.take(i + 1).last() == rows[i as int]);
        if i == 0 {
            assert(rows.take(0) =~= Seq::<Seq<char>>::empty());
        }
    }
    assert(rows.take(n as int) =~= rows);
    body
}

/// The request that sends a batch to ClickHouse under `config`, or `None` for
/// an empty batch, which is not sent at all.
pub fn insert_request(events: &[NormalizedEvent], config: &Config) -> (r: Option<InsertRequest>)
    ensures
        events@.len() == 0 ==> r is None,
        events@.len() > 0 ==> (r matches Some(req) && req@ == insert_request_for(events@, config@)),
{
    if events.len() == 0 {
        return None;
    }
    let body = encode_body(events);
    let mut url = config.clickhouse_url.clone();
    url.append("/?query=INSERT%20INTO%20");
    url.append(config.clickhouse_db.as_str());
    url.append(".");
    url.append(config.clickhouse_table.as_str());
    url.append("%20FORMAT%20JSONEachRow");
    let mut headers: Vec<(String, String)> = Vec::new();
    headers.push((String::from_str("Content-Type"), String::from_str("text/plain")));
    headers.push((String::from_str("X-ClickHouse-User"), config.clickhouse_user.clone()));
    headers.push((String::from_str("X-ClickHouse-Key"), config.clickhouse_password.clone()));
    let req = InsertRequest { url, headers, body };
    assert(req@.headers =~= insert_headers(config@));
    Some(req)
}

/// A text holds neither a quote, a backslash nor a control character: JSON
/// can carry it between quotes as it is.
pub open spec fn is_plain_json_text(s: Seq<char>) -> bool {
    forall|i: int|
        0 <= i < s.len() ==> #[trigger] s[i] != '"' && s[i] != '\\' && (s[i] as u32) >= 0x20
}

proof fn lemma_json_escaped_char_visible(c: char)
    ensures
        forall|i: int|
            0 <= i < json_escaped_char(c).len() ==> (#[trigger] json_escaped_char(c)[i] as u32)
                >= 0x20,
{
    let e = json_escaped_char(c);
    assert forall|i: int| 0 <= i < e.len() implies (#[trigger] e[i] as u32) >= 0x20 by {
        let u = c as u32;
        if u < 0x20 && u != 0x08 && u != 0x09 && u != 0x0A && u != 0x0C && u != 0x0D {
            let hi = (u / 16) as nat;
            let lo = (u % 16) as nat;
            assert(hi < 2);
            assert(i == 4 ==> e[i] == hex_digit(hi));
            assert(i == 5 ==> e[i] == hex_digit(lo));
        }
    }
}

proof fn lemma_json_escaped_facts(s: Seq<char>)
    ensures
        forall|i: int| 0 <= i < json_escaped(s).len() ==> (#[trigger] json_escaped(s)[i] as u32) >= 0x20,
        is_plain_json_text(s) ==> json_escaped(s) == s,
    decreases s.len(),
{
    if s.len() > 0 {
        let rest = s.skip(1);
        let c = s[0];
        lemma_json_escaped_facts(rest);
        lemma_json_escaped_char_visible(c);
        let e = json_escaped_char(c);
        assert forall|i: int| 0 <= i < json_escaped(s).len() implies (#[trigger] json_escaped(
            s,
        )[i] as u32) >= 0x20 by {
            if i < e.len() {
                assert(json_escaped(s)[i] == e[i]);
            } else {
                assert(json_escaped(s)[i] == json_escaped(rest)[i - e.len()]);
            }
        }
        if is_plain_json_text(s) {
            assert(is_plain_json_text(rest)) by {
                assert forall|i: int| 0 <= i < rest.len() implies #[trigger] rest[i] != '"'
                    && rest[i] != '\\' && (rest[i] as u32) >= 0x20 by {
                    assert(rest[i] == s[i + 1]);
                }
            }
            assert(json_escaped(s) =~= s);
        }
    } else {
        assert(json_escaped(s) =~= s);
    }
}

/// The value of a hexadecimal digit, in either case.
pub open spec fn hex_value(c: char) -> Option<nat> {
    if '0' <= c && c <= '9' {
        Some((c as u32 - '0' as u32) as nat)
    } else if 'a' <= c && c <= 'f' {
        Some((c as u32 - 'a' as u32 + 10) as nat)
    } else if 'A' <= c && c <= 'F' {
        Some((c as u32 - 'A' as u32 + 10) as nat)
    } else {
        None
    }
}

/// The character a JSON short escape (the character after the backslash)
/// stands for.
pub open spec fn short_escape(e: char) -> Option<char> {
    if e == '"' {
        Some('"')
    } else if e == '\\' {
        Some('\\')
    } else if e == '/' {
        Some('/')
    } else if e == 'b' {
        Some('\u{8}')
    } else if e == 'f' {
        Some('\u{c}')
    } else if e == 'n' {
        Some('\n')
    } else if e == 'r' {
        Some('\r')
    } else if e == 't' {
        Some('\t')
    } else {
        None
    }
}

/// Reads the inside of a JSON string literal (RFC 8259): a backslash starts a
/// short escape or `u` and four hex digits (a code point outside the surrogate
/// range); an unescaped quote or control character is not allowed.
pub open spec fn json_unescape(t: Seq<char>) -> Option<Seq<char>>
    decreases t.len(),
{
    if t.len() == 0 {
        Some(Seq::empty())
    } else if t[0] == '\\' {
        if t.len() < 2 {
            None
        } else if short_escape(t[1]) is Some {
            match json_unescape(t.skip(2)) {
                Some(r) => Some(seq![short_escape(t[1]).unwrap()] + r),
                None => None,
            }
        } else if t[1] == 'u' && t.len() >= 6 && hex_value(t[2]) is Some && hex_value(t[3]) is Some
            && hex_value(t[4]) is Some && hex_value(t[5]) is Some {
            let v = hex_value(t[2]).unwrap() * 4096 + hex_value(t[3]).unwrap() * 256 + hex_value(
                t[4],
            ).unwrap() * 16 + hex_value(t[5]).unwrap();
            if 0xD800 <= v <= 0xDFFF {
                None
            } else {
                match json_unescape(t.skip(6)) {
                    Some(r) => Some(seq![(v as u32) as char] + r),
                    None => None,
                }
            }
        } else {
            None
        }
    } else if t[0] == '"' || (t[0] as u32) < 0x20 {
        None
    } else {
        match json_unescape(t.skip(1)) {
            Some(r) => Some(seq![t[0]] + r),
            None => None,
        }
    }
}

proof fn lemma_hex_round_trip(d: nat)
    requires
        d < 16,
    ensures
        hex_value(hex_digit(d)) == Some(d),
{
}

proof fn lemma_unescape_char(c: char, r: Seq<char>)
    ensures
        json_unescape(json_escaped_char(c) + r) == match json_unescape(r) {
            Some(x) => Some(seq![c] + x),
            None => None::<Seq<char>>,
        },
{
    let e = json_escaped_char(c);
    let t = e + r;
    let u = c as u32;
    assert(t.skip(e.len() as int) =~= r);
    if c == '"' || c == '\\' || u == 0x08 || u == 0x09 || u == 0x0A || u == 0x0C || u == 0x0D {
        assert(t[0] == '\\');
        assert(short_escape(t[1]) == Some(c));
    } else if u < 0x20 {
        let hi = (u / 16) as nat;
        let lo = (u % 16) as nat;
        lemma_hex_round_trip(0);
        lemma_hex_round_trip(hi);
        lemma_hex_round_trip(lo);
        assert(t[1] == 'u');
        assert(short_escape(t[1]) is None);
        assert(hex_value(t[2]) == Some(0nat));
        assert(hex_value(t[3]) == Some(0nat));
        assert(hex_value(t[4]) == Some(hi));
        assert(hex_value(t[5]) == Some(lo));
        assert(hi * 16 + lo == u);
        assert(((u as nat) as u32) as char == c);
    } else {
        assert(t[0] == c);
    }
}

/// A control character without a short escape is written as a backslash,
/// `u00` and two lowercase hex digits giving its code.
pub proof fn lemma_control_escape(c: char)
    requires
        (c as u32) < 0x20,
        c != '\u{8}' && c != '\t' && c != '\n' && c != '\u{c}' && c != '\r',
    ensures
        ({
            let e = json_escaped_char(c);
            &&& e.len() == 6
            &&& e.take(4) == seq!['\\', 'u', '0', '0']
            &&& hex_value(e[4]) matches Some(h) && hex_value(e[5]) matches Some(l) && h * 16 + l
                == (c as u32)
            &&& !('A' <= e[4] && e[4] <= 'F') && !('A' <= e[5] && e[5] <= 'F')
        }),
{
    let u = c as u32;
    let e = json_escaped_char(c);
    lemma_hex_round_trip((u / 16) as nat);
    lemma_hex_round_trip((u % 16) as nat);
    assert(e.take(4) =~= seq!['\\', 'u', '0', '0']);
}

/// Escaping can be undone: reading the escaped text as the inside of a JSON
/// string gives back the text.
pub proof fn lemma_json_escaped_round_trip(s: Seq<char>)
    ensures
        json_unescape(json_escaped(s)) == Some(s),
    decreases s.len(),
{
    if s.len() > 0 {
        lemma_json_escaped_round_trip(s.skip(1));
        lemma_unescape_char(s[0], json_escaped(s.skip(1)));
        assert(seq![s[0]] + s.skip(1) =~= s);
    } else {
        assert(json_escaped(s) =~= Seq::<char>::empty());
    }
}

/// A JSON string literal starts and ends with a quote and holds no control
/// character (so no line break); what stands between the quotes reads back, as
/// JSON, as the text; a text with no quote, backslash or control character
/// stands between the quotes unchanged.
pub proof fn lemma_json_string_text(s: Seq<char>)
    ensures
        json_string_text(s).len() >= 2,
        json_string_text(s)[0] == '"',
        json_string_text(s).last() == '"',
        forall|i: int|
            0 <= i < json_string_text(s).len() ==> (#[trigger] json_string_text(s)[i] as u32)
                >= 0x20,
        is_plain_json_text(s) ==> json_string_text(s) == seq!['"'] + s + seq!['"'],
        json_unescape(json_string_text(s).subrange(1, json_string_text(s).len() - 1)) == Some(s),
{
    lemma_json_escaped_facts(s);
    lemma_json_escaped_round_trip(s);
    assert(json_string_text(s).subrange(1, json_string_text(s).len() - 1) =~= json_escaped(s));
    let t = json_string_text(s);
    let m = json_escaped(s);
    assert forall|i: int| 0 <= i < t.len() implies (#[trigger] t[i] as u32) >= 0x20 by {
        if 0 < i < t.len() - 1 {
            assert(t[i] == m[i - 1]);
        }
    }
}

/// The layout of an event's line: each key in column order, each followed by
/// its value — the string fields and the payload as JSON string literals, the
/// user id and the hash as numbers — between `{` and `}`.
#[verifier::rlimit(50)]
pub proof fn lemma_event_row_layout(e: NormalizedEventView)
    ensures
        ({
            let t = event_row(e);
            let q_id = json_string_text(e.event_id);
            let q_ts = json_string_text(e.ts);
            let q_source = json_string_text(e.source);
            let q_name = json_string_text(e.event_name);
            let user = json_optional_u64(e.user_id);
            let q_payload = json_string_text(e.payload);
            let hash = decimal(e.event_hash as nat);
            let p_id = 12int;
            let p_ts = p_id + q_id.len() + 6;
            let p_source = p_ts + q_ts.len() + 10;
            let p_name = p_source + q_source.len() + 14;
            let p_user = p_name + q_name.len() + 11;
            let p_payload = p_user + user.len() + 11;
            let p_hash = p_payload + q_payload.len() + 14;
            &&& t.len() == p_hash + hash.len() + 1
            &&& t.subrange(0, p_id) == "{\"event_id\":"@
            &&& t.subrange(p_id, p_id + q_id.len()) == q_id
            &&& t.subrange(p_ts - 6, p_ts) == ",\"ts\":"@
            &&& t.subrange(p_ts, p_ts + q_ts.len()) == q_ts
            &&& t.subrange(p_source - 10, p_source) == ",\"source\":"@
            &&& t.subrange(p_source, p_source + q_source.len()) == q_source
            &&& t.subrange(p_name - 14, p_name) == ",\"event_name\":"@
            &&& t.subrange(p_name, p_name + q_name.len()) == q_name
            &&& t.subrange(p_user - 11, p_user) == ",\"user_id\":"@
            &&& t.subrange(p_user, p_user + user.len()) == user
            &&& t.subrange(p_payload - 11, p_payload) == ",\"payload\":"@
            &&& t.subrange(p_payload, p_payload + q_payload.len()) == q_payload
            &&& t.subrange(p_hash - 14, p_hash) == ",\"event_hash\":"@
            &&& t.subrange(p_hash, p_hash + hash.len()) == hash
            &&& t.last() == '}'
        }),
{
    reveal_strlit("{\"event_id\":");
    reveal_strlit(",\"ts\":");
    reveal_strlit(",\"source\":");
    reveal_strlit(",\"event_name\":");
    reveal_strlit(",\"user_id\":");
    reveal_strlit(",\"payload\":");
    reveal_strlit(",\"event_hash\":");
    reveal_strlit("}");
    let k_id = "{\"event_id\":"@;
    let q_id = json_string_text(e.event_id);
    let k_ts = ",\"ts\":"@;
    let q_ts = json_string_text(e.ts);
    let k_source = ",\"source\":"@;
    let q_source = json_string_text(e.source);
    let k_name = ",\"event_name\":"@;
    let q_name = json_string_text(e.event_name);
    let k_user = ",\"user_id\":"@;
    let user = json_optional_u64(e.user_id);
    let k_payload = ",\"payload\":"@;
    let q_payload = json_string_text(e.payload);
    let k_hash = ",\"event_hash\":"@;
    let hash = decimal(e.event_hash as nat);
    let close = "}"@;
    let a0 = k_id;
    let a1 = a0 + q_id;
    let a2 = a1 + k_ts;
    let a3 = a2 + q_ts;
    let a4 = a3 + k_source;
    let a5 = a4 + q_source;
    let a6 = a5 + k_name;
    let a7 = a6 + q_name;
    let a8 = a7 + k_user;
    let a9 = a8 + user;
    let a10 = a9 + k_payload;
    let a11 = a10 + q_payload;
    let a12 = a11 + k_hash;
    let a13 = a12 + hash;
    let a14 = a13 + close;
    let t = event_row(e);
    assert(t == a14);
    lemma_concat_parts(a0, q_id);
    lemma_concat_parts(a1, k_ts);
    lemma_concat_parts(a2, q_ts);
    lemma_concat_parts(a3, k_source);
    lemma_concat_parts(a4, q_source);
    lemma_concat_parts(a5, k_name);
    lemma_concat_parts(a6, q_name);
    lemma_concat_parts(a7, k_user);
    lemma_concat_parts(a8, user);
    lemma_concat_parts(a9, k_payload);
    lemma_concat_parts(a10, q_payload);
    lemma_concat_parts(a11, k_hash);
    lemma_concat_parts(a12, hash);
    lemma_concat_parts(a13, close);
    assert(t.take(a14.len() as int) =~= a14);
    lemma_take_of_prefix(t, a14, a13);
    lemma_take_of_prefix(t, a13, a12);
    lemma_take_of_prefix(t, a12, a11);
    lemma_take_of_prefix(t, a11, a10);
    lemma_take_of_prefix(t, a10, a9);
    lemma_take_of_prefix(t, a9, a8);
    lemma_take_of_prefix(t, a8, a7);
    lemma_take_of_prefix(t, a7, a6);
    lemma_take_of_prefix(t, a6, a5);
    lemma_take_of_prefix(t, a5, a4);
    lemma_take_of_prefix(t, a4, a3);
    lemma_take_of_prefix(t, a3, a2);
    lemma_take_of_prefix(t, a2, a1);
    lemma_take_of_prefix(t, a1, a0);
    lemma_prefix_subrange(t, a1, a0.len() as int, a1.len() as int);
    lemma_prefix_subrange(t, a2, a1.len() as int, a2.len() as int);
    lemma_prefix_subrange(t, a3, a2.len() as int, a3.len() as int);
    lemma_prefix_subrange(t, a4, a3.len() as int, a4.len() as int);
    lemma_prefix_subrange(t, a5, a4.len() as int, a5.len() as int);
    lemma_prefix_subrange(t, a6, a5.len() as int, a6.len() as int);
    lemma_prefix_subrange(t, a7, a6.len() as int, a7.len() as int);
    lemma_prefix_subrange(t, a8, a7.len() as int, a8.len() as int);
    lemma_prefix_subrange(t, a9, a8.len() as int, a9.len() as int);
    lemma_prefix_subrange(t, a10, a9.len() as int, a10.len() as int);
    lemma_prefix_subrange(t, a11, a10.len() as int, a11.len() as int);
    lemma_prefix_subrange(t, a12, a11.len() as int, a12.len() as int);
    lemma_prefix_subrange(t, a13, a12.len() as int, a13.len() as int);
    lemma_prefix_subrange(t, a14, a13.len() as int, a14.len() as int);
    lemma_prefix_subrange(t, a0, 0, a0.len() as int);
    assert(a0.subrange(0, a0.len() as int) =~= a0);
}

/// A text put after another: the first is its start, the second what follows.
proof fn lemma_concat_parts(x: Seq<char>, y: Seq<char>)
    ensures
        (x + y).take(x.len() as int) == x,
        (x + y).subrange(x.len() as int, (x + y).len() as int) == y,
{
    assert((x + y).take(x.len() as int) =~= x);
    assert((x + y).subrange(x.len() as int, (x + y).len() as int) =~= y);
}

proof fn lemma_take_of_prefix(t: Seq<char>, b: Seq<char>, a: Seq<char>)
    requires
        b.len() <= t.len(),
        t.take(b.len() as int) == b,
        a.len() <= b.len(),
        b.take(a.len() as int) == a,
    ensures
        t.take(a.len() as int) == a,
{
    assert(t.take(a.len() as int) =~= b.take(a.len() as int));
}

proof fn lemma_prefix_subrange(t: Seq<char>, a: Seq<char>, x: int, y: int)
    requires
        a.len() <= t.len(),
        t.take(a.len() as int) == a,
        0 <= x <= y <= a.len(),
    ensures
        t.subrange(x, y) == a.subrange(x, y),
{
    assert(t.subrange(x, y) =~= a.subrange(x, y));
}

/// The lines of a joined text: the `i`-th line starts after the earlier lines
/// and one newline behind each of them.
pub open spec fn line_start(lines: Seq<Seq<char>>, i: int) -> int
    decreases i,
{
    if i <= 0 {
        0
    } else {
        line_start(lines, i - 1) + lines[i - 1].len() + 1
    }
}

proof fn lemma_line_start_prefix(lines: Seq<Seq<char>>, i: int)
    requires
        lines.len() >= 1,
        0 <= i < lines.len(),
    ensures
        line_start(lines.drop_last(), i) == line_start(lines, i),
    decreases i,
{
    if i > 0 {
        lemma_line_start_prefix(lines, i - 1);
    }
}

proof fn lemma_line_end_bound(lines: Seq<Seq<char>>, i: int, k: int)
    requires
        0 <= i <= k < lines.len(),
    ensures
        0 <= line_start(lines, i),
        line_start(lines, i) + lines[i].len() <= line_start(lines, k) + lines[k].len(),
        i < k ==> line_start(lines, i) + lines[i].len() + 1 <= line_start(lines, k),
    decreases k - i,
{
    lemma_line_start_nonneg(lines, i);
    if i < k {
        lemma_line_end_bound(lines, i, k - 1);
        assert(line_start(lines, k) == line_start(lines, k - 1) + lines[k - 1].len() + 1);
    }
}

proof fn lemma_join_split(lines: Seq<Seq<char>>)
    requires
        lines.len() >= 2,
    ensures
        join_lines(lines).take(join_lines(lines.drop_last()).len() as int) == join_lines(
            lines.drop_last(),
        ),
        join_lines(lines)[join_lines(lines.drop_last()).len() as int] == '\n',
        join_lines(lines).len() == join_lines(lines.drop_last()).len() + 1 + lines.last().len(),
        join_lines(lines).subrange(
            join_lines(lines.drop_last()).len() as int + 1,
            join_lines(lines).len() as int,
        ) == lines.last(),
{
    reveal_strlit("\n");
    let j = join_lines(lines.drop_last());
    let nl = "\n"@;
    let t = join_lines(lines);
    assert(t == j + nl + lines.last());
    lemma_concat_parts(j + nl, lines.last());
    lemma_concat_parts(j, nl);
    lemma_take_of_prefix(t, j + nl, j);
}

proof fn lemma_join_len(lines: Seq<Seq<char>>)
    requires
        lines.len() >= 1,
    ensures
        join_lines(lines).len() == line_start(lines, lines.len() - 1) + lines.last().len(),
    decreases lines.len(),
{
    if lines.len() >= 2 {
        let init = lines.drop_last();
        lemma_join_len(init);
        lemma_join_split(lines);
        lemma_line_start_prefix(lines, lines.len() - 2);
        assert(init[init.len() - 1] == lines[lines.len() - 2]);
    }
}

proof fn lemma_join_line_at(lines: Seq<Seq<char>>, i: int)
    requires
        0 <= i < lines.len(),
    ensures
        join_lines(lines).subrange(line_start(lines, i), line_start(lines, i) + lines[i].len())
            == lines[i],
    decreases lines.len(),
{
    let n = lines.len() as int;
    if n == 1 {
        assert(join_lines(lines).subrange(0, lines[0].len() as int) =~= lines[0]);
    } else {
        let init = lines.drop_last();
        let j = join_lines(init);
        lemma_join_split(lines);
        lemma_join_len(init);
        lemma_line_start_prefix(lines, n - 1);
        lemma_line_start_prefix(lines, n - 2);
        assert(init[n - 2] == lines[n - 2]);
        if i < n - 1 {
            lemma_join_line_at(init, i);
            lemma_line_start_prefix(lines, i);
            assert(init[i] == lines[i]);
            lemma_line_end_bound(init, i, n - 2);
            assert(init.last() == init[n - 2]);
            lemma_prefix_subrange(
                join_lines(lines),
                j,
                line_start(lines, i),
                line_start(lines, i) + lines[i].len(),
            );
        }
    }
}

proof fn lemma_join_newline_at(lines: Seq<Seq<char>>, i: int)
    requires
        0 <= i < lines.len() - 1,
    ensures
        join_lines(lines)[line_start(lines, i) + lines[i].len()] == '\n',
    decreases lines.len(),
{
    let n = lines.len() as int;
    let init = lines.drop_last();
    let j = join_lines(init);
    let t = join_lines(lines);
    lemma_join_split(lines);
    lemma_join_len(init);
    lemma_line_start_prefix(lines, i);
    assert(init[i] == lines[i]);
    let x = line_start(lines, i) + lines[i].len();
    if i < n - 2 {
        lemma_join_newline_at(init, i);
        lemma_line_end_bound(init, i, n - 2);
        assert(init.last() == init[n - 2]);
        assert(j[x] == '\n');
        assert(t.take(j.len() as int)[x] == t[x]);
    } else {
        lemma_line_start_prefix(lines, n - 2);
    }
}

proof fn lemma_line_start_nonneg(lines: Seq<Seq<char>>, i: int)
    ensures
        0 <= line_start(lines, i),
    decreases i,
{
    if i > 0 {
        lemma_line_start_nonneg(lines, i - 1);
    }
}

/// Joined lines hold each line whole, in order, with exactly one newline
/// between each two and none at the end.
pub proof fn lemma_join_lines_layout(lines: Seq<Seq<char>>)
    requires
        lines.len() >= 1,
    ensures
        join_lines(lines).len() == line_start(lines, lines.len() - 1) + lines.last().len(),
        forall|i: int|
            0 <= i < lines.len() ==> join_lines(lines).subrange(
                line_start(lines, i),
                line_start(lines, i) + lines[i].len(),
            ) == #[trigger] lines[i],
        forall|i: int|
            0 <= i < lines.len() - 1 ==> join_lines(lines)[line_start(lines, i)
                + #[trigger] lines[i].len()] == '\n',
{
    lemma_join_len(lines);
    assert forall|i: int| 0 <= i < lines.len() implies join_lines(lines).subrange(
        line_start(lines, i),
        line_start(lines, i) + lines[i].len(),
    ) == #[trigger] lines[i] by {
        lemma_join_line_at(lines, i);
    }
    assert forall|i: int| 0 <= i < lines.len() - 1 implies join_lines(lines)[line_start(lines, i)
        + #[trigger] lines[i].len()] == '\n' by {
        lemma_join_newline_at(lines, i);
    }
}

/// A text holds no line break.
pub open spec fn has_no_newline(s: Seq<char>) -> bool {
    forall|i: int| 0 <= i < s.len() ==> #[trigger] s[i] != '\n'
}

proof fn lemma_no_newline_concat(x: Seq<char>, y: Seq<char>)
    requires
        has_no_newline(x),
        has_no_newline(y),
    ensures
        has_no_newline(x + y),
{
    assert forall|i: int| 0 <= i < (x + y).len() implies #[trigger] (x + y)[i] != '\n' by {
        if i < x.len() {
            assert((x + y)[i] == x[i]);
        } else {
            assert((x + y)[i] == y[i - x.len()]);
        }
    }
}

proof fn lemma_json_string_no_newline(s: Seq<char>)
    ensures
        has_no_newline(json_string_text(s)),
{
    lemma_json_string_text(s);
    assert forall|i: int| 0 <= i < json_string_text(s).len() implies #[trigger] json_string_text(
        s,
    )[i] != '\n' by {
        assert((json_string_text(s)[i] as u32) >= 0x20);
    }
}

proof fn lemma_decimal_no_newline(n: nat)
    ensures
        has_no_newline(decimal(n)),
{
    lemma_decimal_digits(n);
    assert forall|i: int| 0 <= i < decimal(n).len() implies #[trigger] decimal(n)[i] != '\n' by {
        assert('0' <= decimal(n)[i]);
    }
}

/// An event's line holds no line break, so in a body every event takes
/// exactly one line.
pub proof fn lemma_event_row_single_line(e: NormalizedEventView)
    ensures
        has_no_newline(event_row(e)),
{
    reveal_strlit("{\"event_id\":");
    reveal_strlit(",\"ts\":");
    reveal_strlit(",\"source\":");
    reveal_strlit(",\"event_name\":");
    reveal_strlit(",\"user_id\":");
    reveal_strlit(",\"payload\":");
    reveal_strlit(",\"event_hash\":");
    reveal_strlit("}");
    reveal_strlit("null");
    let p0 = "{\"event_id\":"@;
    assert(has_no_newline(p0));
    let p1 = json_string_text(e.event_id);
    lemma_json_string_no_newline(e.event_id);
    let p2 = ",\"ts\":"@;
    assert(has_no_newline(p2));
    let p3 = json_string_text(e.ts);
    lemma_json_string_no_newline(e.ts);
    let p4 = ",\"source\":"@;
    assert(has_no_newline(p4));
    let p5 = json_string_text(e.source);
    lemma_json_string_no_newline(e.source);
    let p6 = ",\"event_name\":"@;
    assert(has_no_newline(p6));
    let p7 = json_string_text(e.event_name);
    lemma_json_string_no_newline(e.event_name);
    let p8 = ",\"user_id\":"@;
    assert(has_no_newline(p8));
    let p9 = json_optional_u64(e.user_id);
    if let Some(n) = e.user_id {
        lemma_decimal_no_newline(n as nat);
    }
    assert(has_no_newline(p9));
    let p10 = ",\"payload\":"@;
    assert(has_no_newline(p10));
    let p11 = json_string_text(e.payload);
    lemma_json_string_no_newline(e.payload);
    let p12 = ",\"event_hash\":"@;
    assert(has_no_newline(p12));
    let p13 = decimal(e.event_hash as nat);
    lemma_decimal_no_newline(e.event_hash as nat);
    let p14 = "}"@;
    assert(has_no_newline(p14));
    let a0 = p0;
    lemma_no_newline_concat(a0, p1);
    let a1 = a0 + p1;
    lemma_no_newline_concat(a1, p2);
    let a2 = a1 + p2;
    lemma_no_newline_concat(a2, p3);
    let a3 = a2 + p3;
    lemma_no_newline_concat(a3, p4);
    let a4 = a3 + p4;
    lemma_no_newline_concat(a4, p5);
    let a5 = a4 + p5;
    lemma_no_newline_concat(a5, p6);
    let a6 = a5 + p6;
    lemma_no_newline_concat(a6, p7);
    let a7 = a6 + p7;
    lemma_no_newline_concat(a7, p8);
    let a8 = a7 + p8;
    lemma_no_newline_concat(a8, p9);
    let a9 = a8 + p9;
    lemma_no_newline_concat(a9, p10);
    let a10 = a9 + p10;
    lemma_no_newline_concat(a10, p11);
    let a11 = a10 + p11;
    lemma_no_newline_concat(a11, p12);
    let a12 = a11 + p12;
    lemma_no_newline_concat(a12, p13);
    let a13 = a12 + p13;
    lemma_no_newline_concat(a13, p14);
    let a14 = a13 + p14;
    assert(event_row(e) == a14);
}

/// The insert URL: the server's URL, the query start, the configured
/// database, a dot, the configured table, and the format.
pub proof fn lemma_insert_url_layout(c: ConfigView)
    ensures
        ({
            let u = insert_url(c);
            let a = c.clickhouse_url.len() as int;
            let b = a + 24;
            let d = b + c.clickhouse_db.len();
            let f = d + 1 + c.clickhouse_table.len();
            &&& u.len() == f + 23
            &&& u.subrange(0, a) == c.clickhouse_url
            &&& u.subrange(a, b) == "/?query=INSERT%20INTO%20"@
            &&& u.subrange(b, d) == c.clickhouse_db
            &&& u[d] == '.'
            &&& u.subrange(d + 1, f) == c.clickhouse_table
            &&& u.subrange(f, u.len() as int) == "%20FORMAT%20JSONEachRow"@
        }),
{
    reveal_strlit("/?query=INSERT%20INTO%20");
    reveal_strlit(".");
    reveal_strlit("%20FORMAT%20JSONEachRow");
    let u = insert_url(c);
    let p1 = c.clickhouse_url;
    let p2 = p1 + "/?query=INSERT%20INTO%20"@;
    let p3 = p2 + c.clickhouse_db;
    let p4 = p3 + "."@;
    let p5 = p4 + c.clickhouse_table;
    assert(u == p5 + "%20FORMAT%20JSONEachRow"@);
    assert(u.subrange(0, p1.len() as int) =~= p1);
    assert(u.subrange(p1.len() as int, p2.len() as int) =~= "/?query=INSERT%20INTO%20"@);
    assert(u.subrange(p2.len() as int, p3.len() as int) =~= c.clickhouse_db);
    assert(u[p3.len() as int] == '.');
    assert(u.subrange(p4.len() as int, p5.len() as int) =~= c.clickhouse_table);
    assert(u.subrange(p5.len() as int, u.len() as int) =~= "%20FORMAT%20JSONEachRow"@);
}

/// The URL depends only on the server, database and table: the credentials
/// take no part in it.
pub proof fn lemma_insert_url_ignores_credentials(c1: ConfigView, c2: ConfigView)
    requires
        c1.clickhouse_url == c2.clickhouse_url,
        c1.clickhouse_db == c2.clickhouse_db,
        c1.clickhouse_table == c2.clickhouse_table,
    ensures
        insert_url(c1) == insert_url(c2),
{
}

/// The request sends three headers: the content type `text/plain`, the
/// configured user, and the configured password as the key.
pub proof fn lemma_insert_headers(c: ConfigView)
    ensures
        insert_headers(c).len() == 3,
        insert_headers(c)[0] == ("Content-Type"@, "text/plain"@),
        insert_headers(c)[1] == ("X-ClickHouse-User"@, c.clickhouse_user),
        insert_headers(c)[2] == ("X-ClickHouse-Key"@, c.clickhouse_password),
{
}

/// The body of a non-empty batch: one line per event, in the batch's order,
/// a newline between each two; and no event's line holds a line break.
pub proof fn lemma_body_lines(events: Seq<NormalizedEvent>)
    requires
        events.len() >= 1,
    ensures
        ({
            let rows = event_rows(events);
            let body = join_lines(rows);
            &&& rows.len() == events.len()
            &&& forall|i: int| 0 <= i < events.len() ==> #[trigger] rows[i] == event_row(events[i]@)
            &&& forall|i: int|
                0 <= i < events.len() ==> body.subrange(
                    line_start(rows, i),
                    line_start(rows, i) + rows[i].len(),
                ) == #[trigger] event_row(events[i]@)
            &&& forall|i: int|
                0 <= i < events.len() - 1 ==> body[line_start(rows, i)
                    + #[trigger] rows[i].len()] == '\n'
            &&& body.len() == line_start(rows, rows.len() - 1) + rows.last().len()
            &&& forall|i: int| 0 <= i < events.len() ==> has_no_newline(#[trigger] rows[i])
        }),
{
    let rows = event_rows(events);
    lemma_join_lines_layout(rows);
    assert forall|i: int| 0 <= i < events.len() implies join_lines(rows).subrange(
        line_start(rows, i),
        line_start(rows, i) + rows[i].len(),
    ) == #[trigger] event_row(events[i]@) by {
        assert(rows[i] == event_row(events[i]@));
    }
    assert forall|i: int| 0 <= i < events.len() implies has_no_newline(#[trigger] rows[i]) by {
        lemma_event_row_single_line(events[i]@);
    }
}

} // verus!
