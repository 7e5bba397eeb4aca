//! The wire codec: events travel as JSON objects with a fixed field order,
//! produced and parsed by this module. Well-formed fields (no double quote,
//! no backslash, no control character) need no escaping, so the wire form
//! of an event is a plain
//! concatenation of literal framing and the field texts, and parsing is an
//! exact inverse (see [`lemma_parse_wire_event`]).

use vstd::prelude::*;
use vstd::string::*;

use crate::event::Event;
use crate::event::TransformedEvent;
use crate::event::field_ok;

verus! {

/// The wire form of a raw event: its four fields framed as a JSON object,
/// in declaration order.
pub open spec fn wire_event(
    ts: Seq<char>,
    src: Seq<char>,
    et: Seq<char>,
    pl: Seq<char>,
) -> Seq<char> {
    "{\"timestamp\":\""@ + ts + "\""@ + ",\"source\":\""@ + src + "\""@ + ",\"event_type\":\""@
        + et + "\""@ + ",\"payload\":\""@ + pl + "\""@ + "}"@
}

/// The wire form of a transformed event.
pub open spec fn wire_transformed(
    pa: Seq<char>,
    os: Seq<char>,
    kind: Seq<char>,
    details: Seq<char>,
    local: bool,
) -> Seq<char> {
    "{\"processed_at\":\""@ + pa + "\""@ + ",\"original_source\":\""@ + os + "\""@ + ",\"kind\":\""@
        + kind + "\""@ + ",\"details\":\""@ + details + "\""@ + ",\"local_transformer\":"@ + (
    if local {
        "true"@
    } else {
        "false"@
    }) + "}"@
}

/// `p` is a prefix of `s`.
pub open spec fn prefix_of(p: Seq<char>, s: Seq<char>) -> bool {
    p.len() <= s.len() && s.take(p.len() as int) == p
}

/// Scans a quoted field's remainder: the characters up to the next double
/// quote, which must appear before any backslash or control character,
/// together with what follows the quote. `None` when the input is exhausted
/// or a backslash or control character intervenes.
pub open spec fn scan_field(s: Seq<char>) -> Option<(Seq<char>, Seq<char>)>
    decreases s.len(),
{
    if s.len() == 0 {
        None
    } else if s[0] == '"' {
        Some((Seq::<char>::empty(), s.skip(1)))
    } else if s[0] == '\\' || (s[0] as u32) < 32 {
        None
    } else {
        match scan_field(s.skip(1)) {
            Some(p) => Some((seq![s[0]] + p.0, p.1)),
            None => None,
        }
    }
}

/// The deterministic parser for the raw-event wire form: the four field
/// texts when `s` is exactly the wire form of some event, `None` otherwise.
pub open spec fn parse_event_chars(s: Seq<char>) -> Option<
    (Seq<char>, Seq<char>, Seq<char>, Seq<char>),
> {
    if !prefix_of("{\"timestamp\":\""@, s) {
        None
    } else {
        match scan_field(s.skip("{\"timestamp\":\""@.len() as int)) {
            None => None,
            Some(p1) => if !prefix_of(",\"source\":\""@, p1.1) {
                None
            } else {
                match scan_field(p1.1.skip(",\"source\":\""@.len() as int)) {
                    None => None,
                    Some(p2) => if !prefix_of(",\"event_type\":\""@, p2.1) {
                        None
                    } else {
                        match scan_field(p2.1.skip(",\"event_type\":\""@.len() as int)) {
                            None => None,
                            Some(p3) => if !prefix_of(",\"payload\":\""@, p3.1) {
                                None
                            } else {
                                match scan_field(p3.1.skip(",\"payload\":\""@.len() as int)) {
                                    None => None,
                                    Some(p4) => if p4.1 == "}"@ {
                                        Some((p1.0, p2.0, p3.0, p4.0))
                                    } else {
                                        None
                                    },
                                }
                            },
                        }
                    },
                }
            },
        }
    }
}

/// Scanning a well-formed field followed by its closing quote yields exactly
/// that field and the remainder.
pub proof fn lemma_scan_field_of(f: Seq<char>, rest: Seq<char>)
    requires
        field_ok(f),
    ensures
        scan_field(f + "\""@ + rest) == Some((f, rest)),
    decreases f.len(),
{
    reveal_strlit("\"");
    let s = f + "\""@ + rest;
    if f.len() == 0 {
        assert(s[0] == '"');
        assert(s.skip(1) =~= rest);
        assert(f =~= Seq::<char>::empty());
    } else {
        assert(s[0] == f[0]);
        assert(f[0] != '"' && f[0] != '\\' && (f[0] as u32) >= 32);
        assert(s.skip(1) =~= f.skip(1) + "\""@ + rest);
        assert(field_ok(f.skip(1)));
        lemma_scan_field_of(f.skip(1), rest);
        assert(seq![f[0]] + f.skip(1) =~= f);
    }
}

/// A loop-shaped reading of `scan_field`: if the first `j` characters are
/// clean and character `j` is the closing quote, the scan succeeds there.
pub proof fn lemma_scan_field_found(s: Seq<char>, j: int)
    requires
        0 <= j < s.len(),
        forall|k: int| 0 <= k < j ==> s[k] != '"' && s[k] != '\\' && (s[k] as u32) >= 32,
        s[j] == '"',
    ensures
        scan_field(s) == Some((s.take(j), s.skip(j + 1))),
    decreases j,
{
    if j == 0 {
        assert(s.take(0) =~= Seq::<char>::empty());
    } else {
        assert(s[0] != '"' && s[0] != '\\' && (s[0] as u32) >= 32);
        let t = s.skip(1);
        assert(forall|k: int|
            0 <= k < j - 1 ==> t[k] != '"' && t[k] != '\\' && (t[k] as u32) >= 32);
        assert(t[j - 1] == '"');
        lemma_scan_field_found(t, j - 1);
        assert(seq![s[0]] + t.take(j - 1) =~= s.take(j));
        assert(t.skip(j) =~= s.skip(j + 1));
    }
}

/// If no closing quote appears before the end, before a backslash or before
/// a control character, the scan fails.
pub proof fn lemma_scan_field_missing(s: Seq<char>, j: int)
    requires
        0 <= j <= s.len(),
        forall|k: int| 0 <= k < j ==> s[k] != '"' && s[k] != '\\' && (s[k] as u32) >= 32,
        j == s.len() || s[j] == '\\' || (s[j] as u32) < 32,
    ensures
        scan_field(s) is None,
    decreases j,
{
    if s.len() == 0 {
    } else if j == 0 {
    } else {
        assert(s[0] != '"' && s[0] != '\\' && (s[0] as u32) >= 32);
        let t = s.skip(1);
        assert(forall|k: int|
            0 <= k < j - 1 ==> t[k] != '"' && t[k] != '\\' && (t[k] as u32) >= 32);
        lemma_scan_field_missing(t, j - 1);
    }
}

/// Round trip at the level of character sequences: parsing the wire form of
/// any four well-formed fields recovers exactly those fields. Together with
/// the contracts of [`encode_event`] and [`decode_event`] this says that
/// serializing an event and deserializing the result yields an event equal
/// to the original in every field.
#[verifier::rlimit(100)]
pub proof fn lemma_parse_wire_event(ts: Seq<char>, src: Seq<char>, et: Seq<char>, pl: Seq<char>)
    requires
        field_ok(ts),
        field_ok(src),
        field_ok(et),
        field_ok(pl),
    ensures
        parse_event_chars(wire_event(ts, src, et, pl)) == Some((ts, src, et, pl)),
{
    let s = wire_event(ts, src, et, pl);
    let l1 = "{\"timestamp\":\""@;
    let m2 = ",\"source\":\""@;
    let m3 = ",\"event_type\":\""@;
    let m4 = ",\"payload\":\""@;
    let rb = "}"@;
    let r1 = m2 + src + "\""@ + m3 + et + "\""@ + m4 + pl + "\""@ + rb;
    let r2 = m3 + et + "\""@ + m4 + pl + "\""@ + rb;
    let r3 = m4 + pl + "\""@ + rb;
    assert(s.take(l1.len() as int) =~= l1);
    assert(s.skip(l1.len() as int) =~= ts + "\""@ + r1);
    lemma_scan_field_of(ts, r1);
    assert(r1.take(m2.len() as int) =~= m2);
    assert(r1.skip(m2.len() as int) =~= src + "\""@ + r2);
    lemma_scan_field_of(src, r2);
    assert(r2.take(m3.len() as int) =~= m3);
    assert(r2.skip(m3.len() as int) =~= et + "\""@ + r3);
    lemma_scan_field_of(et, r3);
    assert(r3.take(m4.len() as int) =~= m4);
    assert(r3.skip(m4.len() as int) =~= pl + "\""@ + rb);
    lemma_scan_field_of(pl, rb);
}

/// Round trip for events: parsing the wire form of a well-formed event
/// recovers every one of its fields unchanged.
pub proof fn lemma_event_round_trip(e: Event)
    requires
        e.wf(),
    ensures
        parse_event_chars(wire_event(e.timestamp@, e.source@, e.event_type@, e.payload@)) == Some(
            (e.timestamp@, e.source@, e.event_type@, e.payload@),
        ),
{
    lemma_parse_wire_event(e.timestamp@, e.source@, e.event_type@, e.payload@);
}

/// Checks that the field text may stand unescaped on the wire.
pub fn field_ok_exec(s: &str) -> (b: bool)
    ensures
        b == field_ok(s@),
{
    let n = s.unicode_len();
    let mut i: usize = 0;
    while i < n
        invariant
            0 <= i <= n,
            n == s@.len(),
            forall|k: int| 0 <= k < i ==> s@[k] != '"' && s@[k] != '\\' && (s@[k] as u32) >= 32,
        decreases n - i,
    {
        let c = s.get_char(i);
        if c == '"' || c == '\\' || (c as u32) < 32 {
            return false;
        }
        i += 1;
    }
    true
}

/// Whether `lit` occurs in `s` starting at position `i`.
fn match_lit(s: &str, i: usize, lit: &str) -> (b: bool)
    requires
        i <= s@.len(),
    ensures
        b == prefix_of(lit@, s@.skip(i as int)),
{
    let n = s.unicode_len();
    let m = lit.unicode_len();
    if m > n - i {
        return false;
    }
    let mut k: usize = 0;
    while k < m
        invariant
            0 <= k <= m,
            m == lit@.len(),
            n == s@.len(),
            i + m <= n,
            forall|t: int| 0 <= t < k ==> s@[i + t] == lit@[t],
        decreases m - k,
    {
        if s.get_char(i + k) != lit.get_char(k) {
            proof {
                let rest = s@.skip(i as int);
                assert(rest.take(m as int)[k as int] != lit@[k as int]);
            }
            return false;
        }
        k += 1;
    }
    proof {
        let rest = s@.skip(i as int);
        assert(rest.take(m as int) =~= lit@);
    }
    true
}

/// Scans `s` from position `i` for the closing quote of a field, returning
/// the field's text and the position just past the quote.
fn scan_field_exec(s: &str, i: usize) -> (r: Option<(String, usize)>)
    requires
        i <= s@.len(),
    ensures
        match r {
            Some(p) => {
                &&& i <= p.1 <= s@.len()
                &&& scan_field(s@.skip(i as int)) == Some((p.0@, s@.skip(p.1 as int)))
                &&& field_ok(p.0@)
            },
            None => scan_field(s@.skip(i as int)) is None,
        },
{
    let n = s.unicode_len();
    let mut j: usize = i;
    while j < n
        invariant
            i <= j <= n,
            n == s@.len(),
            forall|k: int| i <= k < j ==> s@[k] != '"' && s@[k] != '\\' && (s@[k] as u32) >= 32,
        decreases n - j,
    {
        let c = s.get_char(j);
        if c == '"' {
            let f = s.substring_char(i, j).to_owned();
            proof {
                let t = s@.skip(i as int);
                assert(forall|k: int| 0 <= k < j - i ==> t[k] == s@[i + k]);
                lemma_scan_field_found(t, j - i);
                assert(t.take(j - i) =~= s@.subrange(i as int, j as int));
                assert(t.skip(j - i + 1) =~= s@.skip(j + 1));
            }
            return Some((f, j + 1));
        }
        if c == '\\' || (c as u32) < 32 {
            proof {
                let t = s@.skip(i as int);
                assert(forall|k: int| 0 <= k < j - i ==> t[k] == s@[i + k]);
                lemma_scan_field_missing(t, j - i);
            }
            return None;
        }
        j += 1;
    }
    proof {
        let t = s@.skip(i as int);
        assert(forall|k: int| 0 <= k < n - i ==> t[k] == s@[i + k]);
        lemma_scan_field_missing(t, n - i);
    }
    None
}

/// Serializes a raw event to its wire form.
pub fn encode_event(e: &Event) -> (r: String)
    ensures
        r@ == wire_event(e.timestamp@, e.source@, e.event_type@, e.payload@),
{
    let mut out = String::new();
    out.append("{\"timestamp\":\"");
    out.append(e.timestamp.as_str());
    out.append("\"");
    out.append(",\"source\":\"");
    out.append(e.source.as_str());
    out.append("\"");
    out.append(",\"event_type\":\"");
    out.append(e.event_type.as_str());
    out.append("\"");
    out.append(",\"payload\":\"");
    out.append(e.payload.as_str());
    out.append("\"");
    out.append("}");
    proof {
        assert(out@ =~= wire_event(e.timestamp@, e.source@, e.event_type@, e.payload@));
    }
    out
}

/// Serializes a raw event if all of its fields may stand on the wire;
/// an event with a quote or backslash in a field is not serializable.
pub fn encode_event_checked(e: &Event) -> (r: Option<String>)
    ensures
        match r {
            Some(w) => e.wf() && w@ == wire_event(
                e.timestamp@,
                e.source@,
                e.event_type@,
                e.payload@,
            ),
            None => !e.wf(),
        },
{
    if field_ok_exec(e.timestamp.as_str()) && field_ok_exec(e.source.as_str()) && field_ok_exec(
        e.event_type.as_str(),
    ) && field_ok_exec(e.payload.as_str()) {
        Some(encode_event(e))
    } else {
        None
    }
}

/// Serializes a transformed event to its wire form.
pub fn encode_transformed(t: &TransformedEvent) -> (r: String)
    ensures
        r@ == wire_transformed(
            t.processed_at@,
            t.original_source@,
            t.kind@,
            t.details@,
            t.local_transformer,
        ),
{
    let mut out = String::new();
    out.append("{\"processed_at\":\"");
    out.append(t.processed_at.as_str());
    out.append("\"");
    out.append(",\"original_source\":\"");
    out.append(t.original_source.as_str());
    out.append("\"");
    out.append(",\"kind\":\"");
    out.append(t.kind.as_str());
    out.append("\"");
    out.append(",\"details\":\"");
    out.append(t.details.as_str());
    out.append("\"");
    out.append(",\"local_transformer\":");
    if t.local_transformer {
        out.append("true");
    } else {
        out.append("false");
    }
    out.append("}");
    proof {
        assert(out@ =~= wire_transformed(
            t.processed_at@,
            t.original_source@,
            t.kind@,
            t.details@,
            t.local_transformer,
        ));
    }
    out
}

/// Parses a raw event from its wire text: the event whose wire form is
/// exactly `s`, or `None` when `s` is not the wire form of any event.
pub fn decode_event(s: &str) -> (r: Option<Event>)
    ensures
        match r {
            Some(e) => {
                &&& parse_event_chars(s@) == Some(
                    (e.timestamp@, e.source@, e.event_type@, e.payload@),
                )
                &&& e.wf()
            },
            None => parse_event_chars(s@) is None,
        },
{
    let n = s.unicode_len();
    proof {
        assert(s@.skip(0) =~= s@);
    }
    if !match_lit(s, 0, "{\"timestamp\":\"") {
        return None;
    }
    let l1 = "{\"timestamp\":\"".unicode_len();
    let p1 = scan_field_exec(s, l1);
    let (ts, j1) = match p1 {
        Some(p) => p,
        None => {
            return None;
        },
    };
    if !match_lit(s, j1, ",\"source\":\"") {
        return None;
    }
    let m2 = ",\"source\":\"".unicode_len();
    proof {
        assert(s@.skip(j1 as int).skip(m2 as int) =~= s@.skip(j1 + m2));
    }
    let p2 = scan_field_exec(s, j1 + m2);
    let (src, j2) = match p2 {
        Some(p) => p,
        None => {
            return None;
        },
    };
    if !match_lit(s, j2, ",\"event_type\":\"") {
        return None;
    }
    let m3 = ",\"event_type\":\"".unicode_len();
    proof {
        assert(s@.skip(j2 as int).skip(m3 as int) =~= s@.skip(j2 + m3));
    }
    let p3 = scan_field_exec(s, j2 + m3);
    let (et, j3) = match p3 {
        Some(p) => p,
        None => {
            return None;
        },
    };
    if !match_lit(s, j3, ",\"payload\":\"") {
        return None;
    }
    let m4 = ",\"payload\":\"".unicode_len();
    proof {
        assert(s@.skip(j3 as int).skip(m4 as int) =~= s@.skip(j3 + m4));
    }
    let p4 = scan_field_exec(s, j3 + m4);
    let (pl, j4) = match p4 {
        Some(p) => p,
        None => {
            return None;
        },
    };
    proof {
        reveal_strlit("}");
    }
    if !(match_lit(s, j4, "}") && n - j4 == 1) {
        proof {
            let r4 = s@.skip(j4 as int);
            if r4 == "}"@ {
                assert(prefix_of("}"@, r4)) by {
                    assert(r4.take(1) =~= r4);
                }
                assert(r4.len() == 1);
            }
        }
        return None;
    }
    proof {
        let r4 = s@.skip(j4 as int);
        assert(r4.len() == 1);
        assert(r4 =~= "}"@) by {
            assert(r4.take(1) =~= r4);
        }
    }
    Some(Event { timestamp: ts, source: src, event_type: et, payload: pl })
}

} // verus!
