//! The canonical text wire format of an order-placed envelope: a JSON
//! object `{event_type, payload, timestamp, source, correlation_id,
//! metadata}` with the payload object `{item_id, quantity}`.
//!
//! The format is canonical: field order is fixed, numbers carry no leading
//! zeros, and strings escape exactly `"`, `\` and control characters (the
//! latter as lowercase `\u00xx`). The decoder accepts precisely the strings
//! the encoder produces, so a round trip is exact in both directions.

use crate::event::Event;
use crate::events::OrderPlacedEvent;
use crate::text::{
    chars_to_string, dec_nat, hex_char, hex_val, is_digit, is_hex_lower, parse_dec, push_dec_u64,
    str_chars,
};
use vstd::prelude::*;

verus! {

/// The mathematical content of an order-placed envelope: each string field
/// as its character sequence.
pub struct EnvelopeView {
    pub event_type: Seq<char>,
    pub payload: OrderPlacedEvent,
    pub timestamp: u64,
    pub source: Seq<char>,
    pub correlation_id: Option<Seq<char>>,
    pub metadata: Option<Seq<(Seq<char>, Seq<char>)>>,
}

/// The metadata entries as character sequences, in stored order.
pub open spec fn meta_view(m: Seq<(String, String)>) -> Seq<(Seq<char>, Seq<char>)> {
    m.map_values(|p: (String, String)| (p.0@, p.1@))
}

/// The view of an envelope value.
pub open spec fn env_view(e: Event<OrderPlacedEvent>) -> EnvelopeView {
    EnvelopeView {
        event_type: e.event_type@,
        payload: e.payload,
        timestamp: e.timestamp,
        source: e.source@,
        correlation_id: match e.correlation_id {
            Option::None => None,
            Option::Some(s) => Some(s@),
        },
        metadata: match e.metadata {
            Option::None => None,
            Option::Some(v) => Some(meta_view(v@)),
        },
    }
}

/// JSON escape of one character: `"` and `\` get a backslash escape, other
/// control characters a lowercase `\u00xx` escape, everything else stands
/// for itself.
pub open spec fn esc_char(c: char) -> Seq<char> {
    if c == '"' {
        seq!['\\', '"']
    } else if c == '\\' {
        seq!['\\', '\\']
    } else if (c as u32) < 32 {
        seq!['\\', 'u', '0', '0', hex_char((c as u32 / 16) as nat), hex_char(
            (c as u32 % 16) as nat,
        )]
    } else {
        seq![c]
    }
}

/// JSON escape of a string, character by character.
pub open spec fn esc_str(s: Seq<char>) -> Seq<char>
    decreases s.len(),
{
    if s.len() == 0 {
        Seq::empty()
    } else {
        esc_str(s.drop_last()) + esc_char(s.last())
    }
}

/// A JSON string literal: the escaped text between double quotes.
pub open spec fn quoted(s: Seq<char>) -> Seq<char> {
    seq!['"'] + esc_str(s) + seq!['"']
}

/// An optional string field: `null` or a JSON string.
pub open spec fn json_opt_string(o: Option<Seq<char>>) -> Seq<char> {
    match o {
        Option::None => "null"@,
        Option::Some(s) => quoted(s),
    }
}

/// One metadata member: a key string, a colon, a value string.
pub open spec fn entry_json(kv: (Seq<char>, Seq<char>)) -> Seq<char> {
    quoted(kv.0) + seq![':'] + quoted(kv.1)
}

/// The members of a metadata object, comma separated, in stored order.
pub open spec fn meta_entries_json(m: Seq<(Seq<char>, Seq<char>)>) -> Seq<char>
    decreases m.len(),
{
    if m.len() == 0 {
        Seq::empty()
    } else if m.len() == 1 {
        entry_json(m[0])
    } else {
        meta_entries_json(m.drop_last()) + seq![','] + entry_json(m.last())
    }
}

/// The metadata field: `null` or a JSON object of string pairs.
pub open spec fn json_meta(o: Option<Seq<(Seq<char>, Seq<char>)>>) -> Seq<char> {
    match o {
        Option::None => "null"@,
        Option::Some(m) => seq!['{'] + meta_entries_json(m) + seq!['}'],
    }
}

/// The canonical wire text of an envelope. The concatenation is grouped
/// from the right, matching how the parser peels fields off the front.
pub open spec fn wire_of(v: EnvelopeView) -> Seq<char> {
    "{\"event_type\":"@ + (quoted(v.event_type) + (",\"payload\":{\"item_id\":"@ + (dec_nat(
        v.payload.item_id as nat,
    ) + (",\"quantity\":"@ + (dec_nat(v.payload.quantity as nat) + ("},\"timestamp\":"@ + (dec_nat(
        v.timestamp as nat,
    ) + (",\"source\":"@ + (quoted(v.source) + (",\"correlation_id\":"@ + (json_opt_string(
        v.correlation_id,
    ) + (",\"metadata\":"@ + (json_meta(v.metadata) + seq!['}'])))))))))))))
}

/// Appends the characters of `lit` to `out`.
fn push_lit(out: &mut Vec<char>, lit: &str)
    ensures
        final(out)@ == old(out)@ + lit@,
{
    let mut cs = str_chars(lit);
    out.append(&mut cs);
}

/// The lowercase hexadecimal digit with value `d`.
fn hex_char_exec(d: u8) -> (c: char)
    requires
        d < 16,
    ensures
        c == hex_char(d as nat),
{
    if d < 10 {
        (48 + d) as char
    } else {
        (87 + d) as char
    }
}

/// Appends the JSON escape of `s` to `out`.
fn push_escaped(out: &mut Vec<char>, s: &str)
    ensures
        final(out)@ == old(out)@ + esc_str(s@),
{
    let cs = str_chars(s);
    let mut i: usize = 0;
    while i < cs.len()
        invariant
            i <= cs.len(),
            cs@ == s@,
            out@ == old(out)@ + esc_str(s@.take(i as int)),
        decreases cs.len() - i,
    {
        let c = cs[i];
        proof {
            assert(s@.take(i + 1 as int).drop_last() =~= s@.take(i as int));
            assert(s@.take(i + 1 as int).last() == s@[i as int]);
        }
        let u = c as u32;
        if c == '"' {
            out.push('\\');
            out.push('"');
        } else if c == '\\' {
            out.push('\\');
            out.push('\\');
        } else if u < 32 {
            out.push('\\');
            out.push('u');
            out.push('0');
            out.push('0');
            out.push(hex_char_exec((u / 16) as u8));
            out.push(hex_char_exec((u % 16) as u8));
        } else {
            out.push(c);
        }
        proof {
            assert(out@ =~= old(out)@ + esc_str(s@.take(i + 1 as int)));
        }
        i += 1;
    }
    proof {
        assert(s@.take(cs@.len() as int) =~= s@);
    }
}

/// Appends the JSON string literal for `s` to `out`.
fn push_quoted(out: &mut Vec<char>, s: &str)
    ensures
        final(out)@ == old(out)@ + quoted(s@),
{
    out.push('"');
    push_escaped(out, s);
    out.push('"');
    proof {
        assert(out@ =~= old(out)@ + quoted(s@));
    }
}

/// Appends the JSON metadata object for `m` to `out`.
fn push_meta(out: &mut Vec<char>, m: &Vec<(String, String)>)
    ensures
        final(out)@ == old(out)@ + json_meta(Some(meta_view(m@))),
{
    out.push('{');
    let ghost mv = meta_view(m@);
    let mut i: usize = 0;
    while i < m.len()
        invariant
            i <= m.len(),
            mv == meta_view(m@),
            mv.len() == m@.len(),
            out@ == old(out)@ + seq!['{'] + meta_entries_json(mv.take(i as int)),
        decreases m.len() - i,
    {
        proof {
            assert(mv.take(i + 1 as int).drop_last() =~= mv.take(i as int));
            assert(mv.take(i + 1 as int).last() == mv[i as int]);
            assert(mv[i as int] == (m@[i as int].0@, m@[i as int].1@));
        }
        if i > 0 {
            out.push(',');
        }
        let pair = &m[i];
        push_quoted(out, pair.0.as_str());
        out.push(':');
        push_quoted(out, pair.1.as_str());
        proof {
            if i == 0 {
                assert(meta_entries_json(mv.take(1)) == quoted(mv[0].0) + seq![':'] + quoted(
                    mv[0].1,
                ));
            }
            assert(out@ =~= old(out)@ + seq!['{'] + meta_entries_json(mv.take(i + 1 as int)));
        }
        i += 1;
    }
    out.push('}');
    proof {
        assert(mv.take(m@.len() as int) =~= mv);
        assert(out@ =~= old(out)@ + json_meta(Some(mv)));
    }
}

/// Serializes an envelope to its canonical wire text.
#[verifier::rlimit(100)]
pub fn encode_envelope(e: &Event<OrderPlacedEvent>) -> (w: String)
    ensures
        w@ == wire_of(env_view(*e)),
{
    let mut out: Vec<char> = Vec::new();
    push_lit(&mut out, "{\"event_type\":");
    push_quoted(&mut out, e.event_type.as_str());
    push_lit(&mut out, ",\"payload\":{\"item_id\":");
    push_dec_u64(&mut out, e.payload.item_id as u64);
    push_lit(&mut out, ",\"quantity\":");
    push_dec_u64(&mut out, e.payload.quantity as u64);
    push_lit(&mut out, "},\"timestamp\":");
    push_dec_u64(&mut out, e.timestamp);
    push_lit(&mut out, ",\"source\":");
    push_quoted(&mut out, e.source.as_str());
    push_lit(&mut out, ",\"correlation_id\":");
    match &e.correlation_id {
        Option::Some(c) => push_quoted(&mut out, c.as_str()),
        Option::None => push_lit(&mut out, "null"),
    }
    push_lit(&mut out, ",\"metadata\":");
    match &e.metadata {
        Option::Some(m) => push_meta(&mut out, m),
        Option::None => push_lit(&mut out, "null"),
    }
    out.push('}');
    proof {
        assert(out@ =~= wire_of(env_view(*e)));
    }
    chars_to_string(&out)
}

/// Consumes the exact literal `lit` from the front of `s`.
pub open spec fn after_lit(s: Seq<char>, lit: Seq<char>) -> Option<Seq<char>> {
    if lit.len() <= s.len() && s.take(lit.len() as int) == lit {
        Some(s.skip(lit.len() as int))
    } else {
        None
    }
}

/// Reads the body of a JSON string, after the opening quote, up to and
/// including the closing quote, undoing the canonical escapes. Rejects raw
/// control characters and any escape the encoder does not produce, so only
/// canonical text is accepted.
pub open spec fn parse_string_body(s: Seq<char>) -> Option<(Seq<char>, Seq<char>)>
    decreases s.len(),
{
    if s.len() == 0 {
        None
    } else if s[0] == '"' {
        Some((Seq::empty(), s.skip(1)))
    } else if s[0] == '\\' {
        if s.len() >= 2 && (s[1] == '"' || s[1] == '\\') {
            match parse_string_body(s.skip(2)) {
                Option::None => None,
                Option::Some(p) => Some((seq![s[1]] + p.0, p.1)),
            }
        } else if s.len() >= 6 && s[1] == 'u' && s[2] == '0' && s[3] == '0' && is_hex_lower(s[4])
            && is_hex_lower(s[5]) && hex_val(s[4]) * 16 + hex_val(s[5]) < 32 {
            match parse_string_body(s.skip(6)) {
                Option::None => None,
                Option::Some(p) => Some(
                    (seq![((hex_val(s[4]) * 16 + hex_val(s[5])) as u32) as char] + p.0, p.1),
                ),
            }
        } else {
            None
        }
    } else if (s[0] as u32) < 32 {
        None
    } else {
        match parse_string_body(s.skip(1)) {
            Option::None => None,
            Option::Some(p) => Some((seq![s[0]] + p.0, p.1)),
        }
    }
}

/// Reads a JSON string literal, opening quote included.
pub open spec fn parse_quoted(s: Seq<char>) -> Option<(Seq<char>, Seq<char>)> {
    if s.len() > 0 && s[0] == '"' {
        parse_string_body(s.skip(1))
    } else {
        None
    }
}

/// Reads an optional string field: a JSON string or the literal `null`.
pub open spec fn parse_opt_string(s: Seq<char>) -> Option<(Option<Seq<char>>, Seq<char>)> {
    if s.len() > 0 && s[0] == '"' {
        match parse_quoted(s) {
            Option::None => None,
            Option::Some(p) => Some((Some(p.0), p.1)),
        }
    } else {
        match after_lit(s, "null"@) {
            Option::None => None,
            Option::Some(r) => Some((None, r)),
        }
    }
}

/// The remaining members of a metadata object, each preceded by a comma.
pub open spec fn sep_entries_json(m: Seq<(Seq<char>, Seq<char>)>) -> Seq<char>
    decreases m.len(),
{
    if m.len() == 0 {
        Seq::empty()
    } else {
        seq![','] + entry_json(m[0]) + sep_entries_json(m.skip(1))
    }
}

/// Reads one metadata member.
pub open spec fn parse_meta_entry(s: Seq<char>) -> Option<((Seq<char>, Seq<char>), Seq<char>)> {
    match parse_quoted(s) {
        Option::None => None,
        Option::Some((k, r1)) => match after_lit(r1, seq![':']) {
            Option::None => None,
            Option::Some(r2) => match parse_quoted(r2) {
                Option::None => None,
                Option::Some((v, r3)) => Some(((k, v), r3)),
            },
        },
    }
}

/// A successfully read string body is shorter than its input.
pub proof fn lemma_parse_string_body_consumes(s: Seq<char>)
    ensures
        parse_string_body(s) matches Some(p) ==> p.1.len() < s.len(),
    decreases s.len(),
{
    if s.len() == 0 {
    } else if s[0] == '"' {
    } else if s[0] == '\\' {
        if s.len() >= 2 && (s[1] == '"' || s[1] == '\\') {
            lemma_parse_string_body_consumes(s.skip(2));
        } else if s.len() >= 6 && s[1] == 'u' && s[2] == '0' && s[3] == '0' && is_hex_lower(s[4])
            && is_hex_lower(s[5]) && hex_val(s[4]) * 16 + hex_val(s[5]) < 32 {
            lemma_parse_string_body_consumes(s.skip(6));
        }
    } else if (s[0] as u32) < 32 {
    } else {
        lemma_parse_string_body_consumes(s.skip(1));
    }
}

/// A successfully read metadata member is shorter than its input.
pub proof fn lemma_parse_meta_entry_consumes(s: Seq<char>)
    ensures
        parse_meta_entry(s) matches Some(p) ==> p.1.len() < s.len(),
{
    if s.len() > 0 && s[0] == '"' {
        lemma_parse_string_body_consumes(s.skip(1));
        match parse_string_body(s.skip(1)) {
            Option::None => {},
            Option::Some((k, r1)) => {
                match after_lit(r1, seq![':']) {
                    Option::None => {},
                    Option::Some(r2) => {
                        if r2.len() > 0 && r2[0] == '"' {
                            lemma_parse_string_body_consumes(r2.skip(1));
                        }
                    },
                }
            },
        }
    }
}

/// Reads the members of a metadata object from the second member on:
/// either the closing brace, or a comma followed by a member and the rest.
pub open spec fn parse_meta_rest(s: Seq<char>) -> Option<
    (Seq<(Seq<char>, Seq<char>)>, Seq<char>),
>
    decreases s.len(),
    via parse_meta_rest_dec
{
    if s.len() == 0 {
        None
    } else if s[0] == '}' {
        Some((Seq::empty(), s.skip(1)))
    } else if s[0] == ',' {
        match parse_meta_entry(s.skip(1)) {
            Option::None => None,
            Option::Some((kv, r)) => match parse_meta_rest(r) {
                Option::None => None,
                Option::Some((list, rest)) => Some((seq![kv] + list, rest)),
            },
        }
    } else {
        None
    }
}

#[via_fn]
proof fn parse_meta_rest_dec(s: Seq<char>) {
    if s.len() > 0 && s[0] == ',' {
        lemma_parse_meta_entry_consumes(s.skip(1));
    }
}

/// Reads a whole metadata object body, after the opening brace.
pub open spec fn parse_meta_body(s: Seq<char>) -> Option<
    (Seq<(Seq<char>, Seq<char>)>, Seq<char>),
> {
    if s.len() == 0 {
        None
    } else if s[0] == '}' {
        Some((Seq::empty(), s.skip(1)))
    } else {
        match parse_meta_entry(s) {
            Option::None => None,
            Option::Some((kv, r)) => match parse_meta_rest(r) {
                Option::None => None,
                Option::Some((list, rest)) => Some((seq![kv] + list, rest)),
            },
        }
    }
}

/// Reads the metadata field: a JSON object of string pairs or `null`.
pub open spec fn parse_meta_opt(s: Seq<char>) -> Option<
    (Option<Seq<(Seq<char>, Seq<char>)>>, Seq<char>),
> {
    if s.len() > 0 && s[0] == '{' {
        match parse_meta_body(s.skip(1)) {
            Option::None => None,
            Option::Some(p) => Some((Some(p.0), p.1)),
        }
    } else {
        match after_lit(s, "null"@) {
            Option::None => None,
            Option::Some(r) => Some((None, r)),
        }
    }
}

/// Reads the back half of a wire message, from the `source` field on,
/// given the values already read from the front half.
pub open spec fn parse_wire_tail(
    r8: Seq<char>,
    etype: Seq<char>,
    item_id: nat,
    quantity: nat,
    ts: nat,
) -> Option<EnvelopeView> {
    match after_lit(r8, ",\"source\":"@) {
        Option::None => None,
        Option::Some(r9) => match parse_quoted(r9) {
            Option::None => None,
            Option::Some((src, r10)) => match after_lit(r10, ",\"correlation_id\":"@) {
                Option::None => None,
                Option::Some(r11) => match parse_opt_string(r11) {
                    Option::None => None,
                    Option::Some((cid, r12)) => match after_lit(r12, ",\"metadata\":"@) {
                        Option::None => None,
                        Option::Some(r13) => match parse_meta_opt(r13) {
                            Option::None => None,
                            Option::Some((meta, r14)) => if r14 == seq!['}'] {
                                Some(
                                    EnvelopeView {
                                        event_type: etype,
                                        payload: OrderPlacedEvent {
                                            item_id: item_id as u32,
                                            quantity: quantity as u32,
                                        },
                                        timestamp: ts as u64,
                                        source: src,
                                        correlation_id: cid,
                                        metadata: meta,
                                    },
                                )
                            } else {
                                None
                            },
                        },
                    },
                },
            },
        },
    }
}

/// Reads a whole canonical wire message; accepts exactly the texts
/// `wire_of` produces.
pub open spec fn parse_wire(s: Seq<char>) -> Option<EnvelopeView> {
    match after_lit(s, "{\"event_type\":"@) {
        Option::None => None,
        Option::Some(r1) => match parse_quoted(r1) {
            Option::None => None,
            Option::Some((etype, r2)) => match after_lit(r2, ",\"payload\":{\"item_id\":"@) {
                Option::None => None,
                Option::Some(r3) => match parse_dec(r3, u32::MAX as nat) {
                    Option::None => None,
                    Option::Some((item_id, r4)) => match after_lit(r4, ",\"quantity\":"@) {
                        Option::None => None,
                        Option::Some(r5) => match parse_dec(r5, u32::MAX as nat) {
                            Option::None => None,
                            Option::Some((quantity, r6)) => match after_lit(
                                r6,
                                "},\"timestamp\":"@,
                            ) {
                                Option::None => None,
                                Option::Some(r7) => match parse_dec(r7, u64::MAX as nat) {
                                    Option::None => None,
                                    Option::Some((ts, r8)) => parse_wire_tail(
                                        r8,
                                        etype,
                                        item_id,
                                        quantity,
                                        ts,
                                    ),
                                },
                            },
                        },
                    },
                },
            },
        },
    }
}

/// A lowercase hexadecimal digit round-trips through its value.
pub proof fn lemma_hex_char_val(d: nat)
    requires
        d < 16,
    ensures
        is_hex_lower(hex_char(d)),
        hex_val(hex_char(d)) == d,
{
}

/// A scalar value below the control range round-trips through `char`.
pub proof fn lemma_low_scalar_char(u: u32)
    requires
        u < 32,
    ensures
        (u as char) as u32 == u,
{
}

/// A literal followed by anything is consumed exactly.
pub proof fn lemma_after_lit_complete(lit: Seq<char>, rest: Seq<char>)
    ensures
        after_lit(lit + rest, lit) == Some(rest),
{
    let s = lit + rest;
    assert(s.take(lit.len() as int) =~= lit);
    assert(s.skip(lit.len() as int) =~= rest);
}

/// The escape of a string can also be unfolded at its first character.
pub proof fn lemma_esc_str_first(s: Seq<char>)
    requires
        s.len() > 0,
    ensures
        esc_str(s) == esc_char(s[0]) + esc_str(s.skip(1)),
    decreases s.len(),
{
    if s.len() == 1 {
        assert(s.drop_last() =~= Seq::<char>::empty());
        assert(s.skip(1) =~= Seq::<char>::empty());
        assert(s.last() == s[0]);
        assert(esc_char(s[0]) + esc_str(s.skip(1)) =~= esc_str(s));
    } else {
        let front = s.drop_last();
        assert(front[0] == s[0]);
        lemma_esc_str_first(front);
        assert(front.skip(1) =~= s.skip(1).drop_last());
        assert(s.skip(1).last() == s.last());
        assert(esc_str(s.skip(1)) == esc_str(s.skip(1).drop_last()) + esc_char(s.skip(1).last()));
        assert(esc_char(s[0]) + esc_str(s.skip(1)) =~= esc_str(s));
    }
}

/// An escaped string, its closing quote, and anything after parse back to
/// the string.
pub proof fn lemma_parse_string_body_complete(c: Seq<char>, rest: Seq<char>)
    ensures
        parse_string_body(esc_str(c) + seq!['"'] + rest) == Some((c, rest)),
    decreases c.len(),
{
    let s = esc_str(c) + seq!['"'] + rest;
    if c.len() == 0 {
        assert(s =~= seq!['"'] + rest);
        assert(s[0] == '"');
        assert(s.skip(1) =~= rest);
        assert(parse_string_body(s) == Some((Seq::<char>::empty(), rest)));
    } else {
        lemma_esc_str_first(c);
        let c0 = c[0];
        let e0 = esc_char(c0);
        let tail_s = esc_str(c.skip(1)) + seq!['"'] + rest;
        assert(s =~= e0 + tail_s);
        lemma_parse_string_body_complete(c.skip(1), rest);
        if c0 == '"' {
            assert(s[0] == '\\' && s[1] == '"');
            assert(s.skip(2) =~= tail_s);
            assert(seq![s[1]] + c.skip(1) =~= c);
        } else if c0 == '\\' {
            assert(s[0] == '\\' && s[1] == '\\');
            assert(s.skip(2) =~= tail_s);
            assert(seq![s[1]] + c.skip(1) =~= c);
        } else if (c0 as u32) < 32 {
            let u = c0 as u32;
            assert(s.len() >= 6);
            assert(s[0] == '\\' && s[1] == 'u' && s[2] == '0' && s[3] == '0');
            assert(s[4] == hex_char((u / 16) as nat));
            assert(s[5] == hex_char((u % 16) as nat));
            lemma_hex_char_val((u / 16) as nat);
            lemma_hex_char_val((u % 16) as nat);
            vstd::arithmetic::div_mod::lemma_fundamental_div_mod(u as int, 16);
            assert(hex_val(s[4]) * 16 + hex_val(s[5]) == u);
            vstd::utf8::char_u32_cast(c0, u);
            assert(((hex_val(s[4]) * 16 + hex_val(s[5])) as u32) as char == c0);
            assert(s.skip(6) =~= tail_s);
            assert(seq![c0] + c.skip(1) =~= c);
        } else {
            assert(s[0] == c0);
            assert(s[0] != '"' && s[0] != '\\' && (s[0] as u32) >= 32);
            assert(s.skip(1) =~= tail_s);
            assert(seq![c0] + c.skip(1) =~= c);
        }
    }
}

/// A quoted string followed by anything parses back to the string.
pub proof fn lemma_parse_quoted_complete(c: Seq<char>, rest: Seq<char>)
    ensures
        parse_quoted(quoted(c) + rest) == Some((c, rest)),
{
    let s = quoted(c) + rest;
    assert(s[0] == '"');
    assert(s.skip(1) =~= esc_str(c) + seq!['"'] + rest);
    lemma_parse_string_body_complete(c, rest);
}

/// A metadata member followed by anything parses back to the pair.
pub proof fn lemma_parse_meta_entry_complete(k: Seq<char>, v: Seq<char>, rest: Seq<char>)
    ensures
        parse_meta_entry(entry_json((k, v)) + rest) == Some(((k, v), rest)),
{
    let s = entry_json((k, v)) + rest;
    let r1 = seq![':'] + quoted(v) + rest;
    assert(s =~= quoted(k) + r1);
    lemma_parse_quoted_complete(k, r1);
    let r2 = quoted(v) + rest;
    assert(r1 =~= seq![':'] + r2);
    lemma_after_lit_complete(seq![':'], r2);
    lemma_parse_quoted_complete(v, rest);
}

/// The member list can also be unfolded at its first member.
pub proof fn lemma_meta_entries_first(m: Seq<(Seq<char>, Seq<char>)>)
    requires
        m.len() >= 1,
    ensures
        meta_entries_json(m) == entry_json(m[0]) + sep_entries_json(m.skip(1)),
    decreases m.len(),
{
    if m.len() == 1 {
        assert(m.skip(1) =~= Seq::<(Seq<char>, Seq<char>)>::empty());
        assert(entry_json(m[0]) + sep_entries_json(m.skip(1)) =~= meta_entries_json(m));
    } else {
        let front = m.drop_last();
        assert(front[0] == m[0]);
        lemma_meta_entries_first(front);
        assert(front.skip(1) =~= m.skip(1).drop_last());
        if m.len() == 2 {
            assert(m.skip(1).len() == 1);
            assert(m.skip(1)[0] == m.last());
            assert(sep_entries_json(m.skip(1)) == seq![','] + entry_json(m.last())
                + sep_entries_json(m.skip(1).skip(1)));
            assert(m.skip(1).skip(1) =~= Seq::<(Seq<char>, Seq<char>)>::empty());
            assert(entry_json(m[0]) + sep_entries_json(m.skip(1)) =~= meta_entries_json(m));
        } else {
            // sep_entries of m.skip(1) unfolds at the front; relate it to
            // sep_entries of front.skip(1) via the last member.
            lemma_sep_entries_last(m.skip(1));
            assert(m.skip(1).drop_last().skip(1) =~= m.skip(1).skip(1).drop_last());
            assert(m.skip(1).last() == m.last());
            assert(entry_json(m[0]) + sep_entries_json(m.skip(1)) =~= meta_entries_json(m));
        }
    }
}

/// The separated member list can also be unfolded at its last member.
pub proof fn lemma_sep_entries_last(m: Seq<(Seq<char>, Seq<char>)>)
    requires
        m.len() >= 1,
    ensures
        sep_entries_json(m) == sep_entries_json(m.drop_last()) + seq![','] + entry_json(m.last()),
    decreases m.len(),
{
    if m.len() == 1 {
        assert(m.drop_last() =~= Seq::<(Seq<char>, Seq<char>)>::empty());
        assert(m.skip(1) =~= Seq::<(Seq<char>, Seq<char>)>::empty());
        assert(sep_entries_json(m.drop_last()) + seq![','] + entry_json(m.last())
            =~= sep_entries_json(m));
    } else {
        lemma_sep_entries_last(m.skip(1));
        assert(m.skip(1).drop_last() =~= m.drop_last().skip(1));
        assert(m.skip(1).last() == m.last());
        assert(m.drop_last()[0] == m[0]);
        assert(m.drop_last().len() >= 1);
        assert(sep_entries_json(m.drop_last()) == seq![','] + entry_json(m.drop_last()[0])
            + sep_entries_json(m.drop_last().skip(1)));
        assert(sep_entries_json(m.drop_last()) + seq![','] + entry_json(m.last())
            =~= sep_entries_json(m));
    }
}

/// Comma-separated members, the closing brace, and anything after parse
/// back to the member list.
pub proof fn lemma_parse_meta_rest_complete(m: Seq<(Seq<char>, Seq<char>)>, rest: Seq<char>)
    ensures
        parse_meta_rest(sep_entries_json(m) + seq!['}'] + rest) == Some((m, rest)),
    decreases m.len(),
{
    let s = sep_entries_json(m) + seq!['}'] + rest;
    if m.len() == 0 {
        assert(s =~= seq!['}'] + rest);
        assert(s[0] == '}');
        assert(s.skip(1) =~= rest);
        assert(m =~= Seq::<(Seq<char>, Seq<char>)>::empty());
    } else {
        let t = sep_entries_json(m.skip(1)) + seq!['}'] + rest;
        assert(s =~= seq![','] + entry_json(m[0]) + t);
        assert(s[0] == ',');
        assert(s[0] != '}');
        assert(s.skip(1) =~= entry_json(m[0]) + t);
        lemma_parse_meta_entry_complete(m[0].0, m[0].1, t);
        assert(parse_meta_entry(s.skip(1)) == Some((m[0], t)));
        lemma_parse_meta_rest_complete(m.skip(1), rest);
        assert(seq![m[0]] + m.skip(1) =~= m);
    }
}

/// A whole metadata object body parses back to its member list.
pub proof fn lemma_parse_meta_body_complete(m: Seq<(Seq<char>, Seq<char>)>, rest: Seq<char>)
    ensures
        parse_meta_body(meta_entries_json(m) + seq!['}'] + rest) == Some((m, rest)),
{
    let s = meta_entries_json(m) + seq!['}'] + rest;
    if m.len() == 0 {
        assert(s =~= seq!['}'] + rest);
        assert(s[0] == '}');
        assert(s.skip(1) =~= rest);
        assert(m =~= Seq::<(Seq<char>, Seq<char>)>::empty());
    } else {
        lemma_meta_entries_first(m);
        let t = sep_entries_json(m.skip(1)) + seq!['}'] + rest;
        assert(s =~= entry_json(m[0]) + t);
        assert(s[0] == '"');
        assert(s[0] != '}');
        lemma_parse_meta_entry_complete(m[0].0, m[0].1, t);
        assert(parse_meta_entry(s) == Some((m[0], t)));
        lemma_parse_meta_rest_complete(m.skip(1), rest);
        assert(seq![m[0]] + m.skip(1) =~= m);
    }
}

/// Every canonical wire text parses back to the envelope view it encodes:
/// the wire format loses nothing.
#[verifier::rlimit(100)]
pub proof fn lemma_parse_wire_complete(v: EnvelopeView)
    ensures
        parse_wire(wire_of(v)) == Some(v),
{
    reveal_strlit("null");
    reveal_strlit(",\"quantity\":");
    reveal_strlit("},\"timestamp\":");
    reveal_strlit(",\"source\":");
    let id = v.payload.item_id as nat;
    let q = v.payload.quantity as nat;
    let ts = v.timestamp as nat;
    let t14 = seq!['}'];
    let t13 = json_meta(v.metadata) + t14;
    let t12 = ",\"metadata\":"@ + t13;
    let t11 = json_opt_string(v.correlation_id) + t12;
    let t10 = ",\"correlation_id\":"@ + t11;
    let t9 = quoted(v.source) + t10;
    let t8 = ",\"source\":"@ + t9;
    let t7 = dec_nat(ts) + t8;
    let t6 = "},\"timestamp\":"@ + t7;
    let t5 = dec_nat(q) + t6;
    let t4 = ",\"quantity\":"@ + t5;
    let t3 = dec_nat(id) + t4;
    let t2 = ",\"payload\":{\"item_id\":"@ + t3;
    let t1 = quoted(v.event_type) + t2;
    let s = wire_of(v);
    assert(s =~= "{\"event_type\":"@ + t1);
    lemma_after_lit_complete("{\"event_type\":"@, t1);
    lemma_parse_quoted_complete(v.event_type, t2);
    lemma_after_lit_complete(",\"payload\":{\"item_id\":"@, t3);
    crate::text::lemma_parse_dec_complete(id, t4, u32::MAX as nat);
    lemma_after_lit_complete(",\"quantity\":"@, t5);
    crate::text::lemma_parse_dec_complete(q, t6, u32::MAX as nat);
    lemma_after_lit_complete("},\"timestamp\":"@, t7);
    crate::text::lemma_parse_dec_complete(ts, t8, u64::MAX as nat);
    lemma_after_lit_complete(",\"source\":"@, t9);
    lemma_parse_quoted_complete(v.source, t10);
    lemma_after_lit_complete(",\"correlation_id\":"@, t11);
    match v.correlation_id {
        Option::Some(c) => {
            assert(t11 =~= quoted(c) + t12);
            assert(t11[0] == '"');
            lemma_parse_quoted_complete(c, t12);
        },
        Option::None => {
            assert(t11 =~= "null"@ + t12);
            assert(t11[0] == 'n');
            lemma_after_lit_complete("null"@, t12);
        },
    }
    assert(parse_opt_string(t11) == Some((v.correlation_id, t12)));
    lemma_after_lit_complete(",\"metadata\":"@, t13);
    match v.metadata {
        Option::Some(m) => {
            assert(t13 =~= seq!['{'] + (meta_entries_json(m) + seq!['}'] + t14));
            assert(t13[0] == '{');
            assert(t13.skip(1) =~= meta_entries_json(m) + seq!['}'] + t14);
            lemma_parse_meta_body_complete(m, t14);
        },
        Option::None => {
            assert(t13 =~= "null"@ + t14);
            assert(t13[0] == 'n');
            lemma_after_lit_complete("null"@, t14);
        },
    }
    assert(parse_meta_opt(t13) == Some((v.metadata, t14)));
    assert(t14 == seq!['}']);
}

/// A lowercase hexadecimal digit is recovered from its value.
pub proof fn lemma_hex_val_char(c: char)
    requires
        is_hex_lower(c),
    ensures
        hex_val(c) < 16,
        hex_char(hex_val(c)) == c,
{
    vstd::utf8::char_u32_cast(c, c as u32);
}

/// What a consumed literal pins down.
pub proof fn lemma_after_lit_sound(s: Seq<char>, lit: Seq<char>)
    requires
        after_lit(s, lit) is Some,
    ensures
        s == lit + after_lit(s, lit)->Some_0,
{
    assert(s =~= s.take(lit.len() as int) + s.skip(lit.len() as int));
}

/// Splitting `s` at a known prefix.
proof fn lemma_prefix_split(s: Seq<char>, p: Seq<char>, k: int)
    requires
        0 <= k <= s.len(),
        p.len() == k,
        forall|i: int| 0 <= i < k ==> p[i] == s[i],
    ensures
        s == p + s.skip(k),
{
    assert(s =~= p + s.skip(k));
}

/// What a successfully parsed string body pins down: the input was exactly
/// the canonical escape of the result, the closing quote, and the rest.
pub proof fn lemma_parse_string_body_sound(s: Seq<char>)
    requires
        parse_string_body(s) is Some,
    ensures
        ({
            let (c, rest) = parse_string_body(s)->Some_0;
            s == esc_str(c) + seq!['"'] + rest
        }),
    decreases s.len(),
{
    let (c, rest) = parse_string_body(s)->Some_0;
    if s[0] == '"' {
        assert(c =~= Seq::<char>::empty());
        assert(esc_str(c) == Seq::<char>::empty());
        lemma_prefix_split(s, seq![s[0]], 1);
        assert(esc_str(c) + seq!['"'] + rest =~= seq![s[0]] + s.skip(1));
    } else if s[0] == '\\' {
        if s.len() >= 2 && (s[1] == '"' || s[1] == '\\') {
            lemma_parse_string_body_sound(s.skip(2));
            let (c2, _) = parse_string_body(s.skip(2))->Some_0;
            assert(c == seq![s[1]] + c2);
            assert(c[0] == s[1] && c.skip(1) =~= c2);
            lemma_esc_str_first(c);
            let e1 = esc_char(s[1]);
            let e2 = esc_str(c2);
            assert(e1.len() == 2 && e1[0] == s[0] && e1[1] == s[1]);
            lemma_prefix_split(s, e1, 2);
            assert((e1 + e2) + seq!['"'] + rest =~= e1 + (e2 + seq!['"'] + rest));
            assert(esc_str(c) + seq!['"'] + rest == s);
        } else {
            let u = (hex_val(s[4]) * 16 + hex_val(s[5])) as u32;
            let c0 = u as char;
            lemma_parse_string_body_sound(s.skip(6));
            let (c2, _) = parse_string_body(s.skip(6))->Some_0;
            assert(c == seq![c0] + c2);
            assert(c[0] == c0 && c.skip(1) =~= c2);
            lemma_esc_str_first(c);
            lemma_low_scalar_char(u);
            assert(c0 as u32 == u);
            lemma_hex_val_char(s[4]);
            lemma_hex_val_char(s[5]);
            vstd::arithmetic::div_mod::lemma_fundamental_div_mod_converse(
                u as int,
                16,
                hex_val(s[4]) as int,
                hex_val(s[5]) as int,
            );
            assert(hex_char((c0 as u32 / 16) as nat) == s[4]);
            assert(hex_char((c0 as u32 % 16) as nat) == s[5]);
            let e1 = esc_char(c0);
            let e2 = esc_str(c2);
            assert(e1.len() == 6 && e1[0] == s[0] && e1[1] == s[1] && e1[2] == s[2] && e1[3]
                == s[3] && e1[4] == s[4] && e1[5] == s[5]);
            lemma_prefix_split(s, e1, 6);
            assert((e1 + e2) + seq!['"'] + rest =~= e1 + (e2 + seq!['"'] + rest));
            assert(esc_str(c) + seq!['"'] + rest == s);
        }
    } else {
        lemma_parse_string_body_sound(s.skip(1));
        let (c2, _) = parse_string_body(s.skip(1))->Some_0;
        assert(c == seq![s[0]] + c2);
        assert(c[0] == s[0] && c.skip(1) =~= c2);
        lemma_esc_str_first(c);
        let e1 = esc_char(s[0]);
        let e2 = esc_str(c2);
        assert(e1.len() == 1 && e1[0] == s[0]);
        lemma_prefix_split(s, e1, 1);
        assert((e1 + e2) + seq!['"'] + rest =~= e1 + (e2 + seq!['"'] + rest));
        assert(esc_str(c) + seq!['"'] + rest == s);
    }
}

/// What a successfully parsed string literal pins down.
pub proof fn lemma_parse_quoted_sound(s: Seq<char>)
    requires
        parse_quoted(s) is Some,
    ensures
        ({
            let (c, rest) = parse_quoted(s)->Some_0;
            s == quoted(c) + rest
        }),
{
    let (c, rest) = parse_quoted(s)->Some_0;
    lemma_parse_string_body_sound(s.skip(1));
    lemma_prefix_split(s, seq![s[0]], 1);
    let e = esc_str(c);
    assert(((seq!['"'] + e) + seq!['"']) + rest =~= seq!['"'] + ((e + seq!['"']) + rest));
    assert(quoted(c) + rest == s);
}

/// What a successfully parsed metadata member pins down.
pub proof fn lemma_parse_meta_entry_sound(s: Seq<char>)
    requires
        parse_meta_entry(s) is Some,
    ensures
        ({
            let (kv, rest) = parse_meta_entry(s)->Some_0;
            s == entry_json(kv) + rest
        }),
{
    let (k, r1) = parse_quoted(s)->Some_0;
    lemma_parse_quoted_sound(s);
    lemma_after_lit_sound(r1, seq![':']);
    let r2 = after_lit(r1, seq![':'])->Some_0;
    lemma_parse_quoted_sound(r2);
    let (v, r3) = parse_quoted(r2)->Some_0;
    let a = quoted(k);
    let b = quoted(v);
    assert(((a + seq![':']) + b) + r3 =~= a + (seq![':'] + (b + r3)));
    assert(entry_json((k, v)) + r3 == s);
}

/// What a successfully parsed member tail pins down.
pub proof fn lemma_parse_meta_rest_sound(s: Seq<char>)
    requires
        parse_meta_rest(s) is Some,
    ensures
        ({
            let (m, rest) = parse_meta_rest(s)->Some_0;
            s == sep_entries_json(m) + seq!['}'] + rest
        }),
    decreases s.len(),
{
    let (m, rest) = parse_meta_rest(s)->Some_0;
    if s[0] == '}' {
        assert(m =~= Seq::<(Seq<char>, Seq<char>)>::empty());
        assert(sep_entries_json(m) == Seq::<char>::empty());
        lemma_prefix_split(s, seq![s[0]], 1);
        assert(sep_entries_json(m) + seq!['}'] + rest =~= seq![s[0]] + s.skip(1));
    } else {
        let (kv, r) = parse_meta_entry(s.skip(1))->Some_0;
        lemma_parse_meta_entry_sound(s.skip(1));
        lemma_parse_meta_entry_consumes(s.skip(1));
        lemma_parse_meta_rest_sound(r);
        let (list, _) = parse_meta_rest(r)->Some_0;
        assert(m == seq![kv] + list);
        assert(m[0] == kv && m.skip(1) =~= list);
        assert(m.len() >= 1);
        let e = entry_json(kv);
        let sp = sep_entries_json(list);
        assert(sep_entries_json(m) == (seq![','] + e) + sp);
        lemma_prefix_split(s, seq![s[0]], 1);
        assert((((seq![','] + e) + sp) + seq!['}']) + rest =~= seq![','] + (e + ((sp + seq!['}'])
            + rest)));
        assert(sep_entries_json(m) + seq!['}'] + rest == s);
    }
}

/// What a successfully parsed metadata object body pins down.
pub proof fn lemma_parse_meta_body_sound(s: Seq<char>)
    requires
        parse_meta_body(s) is Some,
    ensures
        ({
            let (m, rest) = parse_meta_body(s)->Some_0;
            s == meta_entries_json(m) + seq!['}'] + rest
        }),
{
    let (m, rest) = parse_meta_body(s)->Some_0;
    if s[0] == '}' {
        assert(m =~= Seq::<(Seq<char>, Seq<char>)>::empty());
        assert(meta_entries_json(m) == Seq::<char>::empty());
        lemma_prefix_split(s, seq![s[0]], 1);
        assert(meta_entries_json(m) + seq!['}'] + rest =~= seq![s[0]] + s.skip(1));
    } else {
        let (kv, r) = parse_meta_entry(s)->Some_0;
        lemma_parse_meta_entry_sound(s);
        lemma_parse_meta_rest_sound(r);
        let (list, _) = parse_meta_rest(r)->Some_0;
        assert(m == seq![kv] + list);
        assert(m[0] == kv && m.skip(1) =~= list);
        assert(m.len() >= 1);
        lemma_meta_entries_first(m);
        let e = entry_json(kv);
        let sp = sep_entries_json(list);
        assert(meta_entries_json(m) == e + sp);
        assert(((e + sp) + seq!['}']) + rest =~= e + ((sp + seq!['}']) + rest));
        assert(meta_entries_json(m) + seq!['}'] + rest == s);
    }
}

/// Every text the parser accepts is the canonical encoding of its result:
/// the format is unambiguous.
#[verifier::rlimit(100)]
pub proof fn lemma_parse_wire_sound(s: Seq<char>)
    requires
        parse_wire(s) is Some,
    ensures
        s == wire_of(parse_wire(s)->Some_0),
{
    let v = parse_wire(s)->Some_0;
    let r1 = after_lit(s, "{\"event_type\":"@)->Some_0;
    lemma_after_lit_sound(s, "{\"event_type\":"@);
    let (etype, r2) = parse_quoted(r1)->Some_0;
    lemma_parse_quoted_sound(r1);
    let r3 = after_lit(r2, ",\"payload\":{\"item_id\":"@)->Some_0;
    lemma_after_lit_sound(r2, ",\"payload\":{\"item_id\":"@);
    let (item_id, r4) = parse_dec(r3, u32::MAX as nat)->Some_0;
    crate::text::lemma_parse_dec_sound(r3, u32::MAX as nat);
    let r5 = after_lit(r4, ",\"quantity\":"@)->Some_0;
    lemma_after_lit_sound(r4, ",\"quantity\":"@);
    let (quantity, r6) = parse_dec(r5, u32::MAX as nat)->Some_0;
    crate::text::lemma_parse_dec_sound(r5, u32::MAX as nat);
    let r7 = after_lit(r6, "},\"timestamp\":"@)->Some_0;
    lemma_after_lit_sound(r6, "},\"timestamp\":"@);
    let (ts, r8) = parse_dec(r7, u64::MAX as nat)->Some_0;
    crate::text::lemma_parse_dec_sound(r7, u64::MAX as nat);
    let r9 = after_lit(r8, ",\"source\":"@)->Some_0;
    lemma_after_lit_sound(r8, ",\"source\":"@);
    let (src, r10) = parse_quoted(r9)->Some_0;
    lemma_parse_quoted_sound(r9);
    let r11 = after_lit(r10, ",\"correlation_id\":"@)->Some_0;
    lemma_after_lit_sound(r10, ",\"correlation_id\":"@);
    let (cid, r12) = parse_opt_string(r11)->Some_0;
    if r11.len() > 0 && r11[0] == '"' {
        lemma_parse_quoted_sound(r11);
        assert(r11 == json_opt_string(cid) + r12);
    } else {
        lemma_after_lit_sound(r11, "null"@);
        assert(r11 == json_opt_string(cid) + r12);
    }
    let r13 = after_lit(r12, ",\"metadata\":"@)->Some_0;
    lemma_after_lit_sound(r12, ",\"metadata\":"@);
    let (meta, r14) = parse_meta_opt(r13)->Some_0;
    if r13.len() > 0 && r13[0] == '{' {
        lemma_parse_meta_body_sound(r13.skip(1));
        let (m, _) = parse_meta_body(r13.skip(1))->Some_0;
        assert(r13.skip(1) == meta_entries_json(m) + seq!['}'] + r14);
        assert(r13 =~= seq!['{'] + r13.skip(1));
        assert(r13 =~= json_meta(meta) + r14);
    } else {
        lemma_after_lit_sound(r13, "null"@);
        assert(r13 == json_meta(meta) + r14);
    }
    assert(r14 == seq!['}']);
    assert(v.payload.item_id as nat == item_id);
    assert(v.payload.quantity as nat == quantity);
    assert(v.timestamp as nat == ts);
    assert(s == wire_of(v));
}

/// A message that does not deserialize as a canonical wire envelope.
#[derive(Clone, Copy, Debug, PartialEq, Eq, Structural)]
pub struct WireError;

/// Consumes the literal `lit` at position `start`; returns the position
/// just past it. Agrees exactly with `after_lit` on the remaining input.
fn match_lit(v: &Vec<char>, start: usize, lit: &str) -> (r: Option<usize>)
    requires
        start <= v@.len(),
    ensures
        match after_lit(v@.skip(start as int), lit@) {
            Some(rest) => {
                &&& r is Some
                &&& start <= r->Some_0 <= v@.len()
                &&& v@.skip(r->Some_0 as int) == rest
            },
            None => r is None,
        },
{
    let ghost s = v@.skip(start as int);
    let cs = str_chars(lit);
    let n = cs.len();
    let vlen = v.len();
    if vlen - start < n {
        return None;
    }
    let mut j: usize = 0;
    while j < n
        invariant
            j <= n == cs@.len(),
            cs@ == lit@,
            vlen == v@.len(),
            start + n <= vlen,
            s == v@.skip(start as int),
            forall|m: int| 0 <= m < j ==> v@[start + m] == lit@[m],
        decreases n - j,
    {
        if v[start + j] != cs[j] {
            proof {
                assert(s.len() == v@.len() - start);
                assert(s[j as int] == v@[start + j]);
                assert(s.take(n as int)[j as int] == s[j as int]);
                assert(cs@[j as int] == lit@[j as int]);
                assert(s.take(n as int) != lit@);
            }
            return None;
        }
        j += 1;
    }
    proof {
        assert(s.take(n as int) =~= lit@);
        assert(v@.skip(start + n) =~= s.skip(n as int));
    }
    Some(start + n)
}

/// `c` is a lowercase hexadecimal digit.
fn is_hex_lower_char(c: char) -> (b: bool)
    ensures
        b == is_hex_lower(c),
{
    let u = c as u32;
    (48 <= u && u <= 57) || (97 <= u && u <= 102)
}

/// Numeric value of a lowercase hexadecimal digit.
fn hex_val_char(c: char) -> (d: u32)
    requires
        is_hex_lower(c),
    ensures
        d == hex_val(c),
        d < 16,
{
    let u = c as u32;
    if u <= 57 {
        u - 48
    } else {
        u - 87
    }
}

/// Reads a JSON string literal at position `start`; returns the unescaped
/// content and the position just past the closing quote. Agrees exactly
/// with `parse_quoted` on the remaining input.
fn scan_string(v: &Vec<char>, start: usize) -> (r: Option<(String, usize)>)
    requires
        start <= v@.len(),
    ensures
        match parse_quoted(v@.skip(start as int)) {
            Some(p) => {
                &&& r is Some
                &&& r->Some_0.0@ == p.0
                &&& start <= r->Some_0.1 <= v@.len()
                &&& v@.skip(r->Some_0.1 as int) == p.1
            },
            None => r is None,
        },
{
    let ghost s = v@.skip(start as int);
    let vlen = v.len();
    if start >= vlen {
        proof {
            assert(s.len() == 0);
        }
        return None;
    }
    proof {
        assert(s[0] == v@[start as int]);
    }
    if v[start] != '"' {
        return None;
    }
    let ghost s0 = v@.skip(start + 1);
    proof {
        assert(s.skip(1) =~= s0);
        assert(parse_quoted(s) == parse_string_body(s0));
    }
    let mut cur: usize = start + 1;
    let mut out: Vec<char> = Vec::new();
    loop
        invariant
            start + 1 <= cur <= vlen,
            vlen == v@.len(),
            s == v@.skip(start as int),
            s0 == v@.skip(start + 1),
            parse_quoted(s) == parse_string_body(s0),
            parse_string_body(v@.skip(cur as int)) matches Some(p) ==> parse_string_body(s0)
                == Some((out@ + p.0, p.1)),
            parse_string_body(v@.skip(cur as int)) is None ==> parse_string_body(s0) is None,
        decreases vlen - cur,
    {
        let ghost sc = v@.skip(cur as int);
        if cur >= vlen {
            proof {
                assert(sc.len() == 0);
            }
            return None;
        }
        let c = v[cur];
        proof {
            assert(sc[0] == c);
        }
        if c == '"' {
            proof {
                assert(sc.skip(1) =~= v@.skip(cur + 1));
                assert(out@ + Seq::<char>::empty() =~= out@);
            }
            return Some((chars_to_string(&out), cur + 1));
        } else if c == '\\' {
            if vlen - cur < 2 {
                proof {
                    assert(sc.len() < 2);
                }
                return None;
            }
            let c1 = v[cur + 1];
            proof {
                assert(sc[1] == c1);
            }
            if c1 == '"' || c1 == '\\' {
                proof {
                    assert(sc.skip(2) =~= v@.skip(cur + 2));
                    match parse_string_body(v@.skip(cur + 2)) {
                        Option::Some(p) => {
                            assert((out@ + seq![c1]) + p.0 =~= out@ + (seq![c1] + p.0));
                        },
                        Option::None => {},
                    }
                }
                out.push(c1);
                cur += 2;
            } else if c1 == 'u' {
                if vlen - cur < 6 {
                    proof {
                        assert(sc.len() < 6);
                    }
                    return None;
                }
                let h1 = v[cur + 4];
                let h2 = v[cur + 5];
                proof {
                    assert(sc[2] == v@[cur + 2] && sc[3] == v@[cur + 3] && sc[4] == h1 && sc[5]
                        == h2);
                }
                if v[cur + 2] == '0' && v[cur + 3] == '0' && is_hex_lower_char(h1)
                    && is_hex_lower_char(h2) {
                    let val = hex_val_char(h1) * 16 + hex_val_char(h2);
                    if val < 32 {
                        let dc = (val as u8) as char;
                        proof {
                            lemma_low_scalar_char(val);
                            vstd::utf8::char_u32_cast((val as u32) as char, val);
                            assert(dc as u32 == val);
                            assert(dc == (val as u32) as char);
                            assert(sc.skip(6) =~= v@.skip(cur + 6));
                            match parse_string_body(v@.skip(cur + 6)) {
                                Option::Some(p) => {
                                    assert((out@ + seq![dc]) + p.0 =~= out@ + (seq![dc] + p.0));
                                },
                                Option::None => {},
                            }
                        }
                        out.push(dc);
                        cur += 6;
                    } else {
                        return None;
                    }
                } else {
                    return None;
                }
            } else {
                return None;
            }
        } else {
            let u = c as u32;
            if u < 32 {
                return None;
            }
            proof {
                assert(sc.skip(1) =~= v@.skip(cur + 1));
                match parse_string_body(v@.skip(cur + 1)) {
                    Option::Some(p) => {
                        assert((out@ + seq![c]) + p.0 =~= out@ + (seq![c] + p.0));
                    },
                    Option::None => {},
                }
            }
            out.push(c);
            cur += 1;
        }
    }
}

/// Reads an optional string field: a JSON string or `null`. Agrees exactly
/// with `parse_opt_string` on the remaining input.
fn scan_opt_string(v: &Vec<char>, start: usize) -> (r: Option<(Option<String>, usize)>)
    requires
        start <= v@.len(),
    ensures
        match parse_opt_string(v@.skip(start as int)) {
            Some(p) => {
                &&& r is Some
                &&& match r->Some_0.0 {
                    Some(c) => p.0 is Some && c@ == p.0->Some_0,
                    None => p.0 is None,
                }
                &&& start <= r->Some_0.1 <= v@.len()
                &&& v@.skip(r->Some_0.1 as int) == p.1
            },
            None => r is None,
        },
{
    if start < v.len() && v[start] == '"' {
        match scan_string(v, start) {
            Some((c, j)) => Some((Some(c), j)),
            None => None,
        }
    } else {
        match match_lit(v, start, "null") {
            Some(j) => Some((None, j)),
            None => None,
        }
    }
}

/// Reads one metadata member. Agrees exactly with `parse_meta_entry` on
/// the remaining input.
fn scan_entry(v: &Vec<char>, start: usize) -> (r: Option<((String, String), usize)>)
    requires
        start <= v@.len(),
    ensures
        match parse_meta_entry(v@.skip(start as int)) {
            Some(p) => {
                &&& r is Some
                &&& r->Some_0.0.0@ == p.0.0
                &&& r->Some_0.0.1@ == p.0.1
                &&& start <= r->Some_0.1 <= v@.len()
                &&& v@.skip(r->Some_0.1 as int) == p.1
            },
            None => r is None,
        },
{
    proof {
        reveal_strlit(":");
        assert(":"@ =~= seq![':']);
    }
    let (k, j1) = match scan_string(v, start) {
        Some(p) => p,
        None => {
            return None;
        },
    };
    let j2 = match match_lit(v, j1, ":") {
        Some(j) => j,
        None => {
            return None;
        },
    };
    let (val, j3) = match scan_string(v, j2) {
        Some(p) => p,
        None => {
            return None;
        },
    };
    Some(((k, val), j3))
}

/// Reads a metadata object, from its opening brace on. Agrees exactly with
/// the composition of `parse_meta_body` after the brace.
fn scan_meta_obj(v: &Vec<char>, start: usize) -> (r: Option<(Vec<(String, String)>, usize)>)
    requires
        start < v@.len(),
        v@[start as int] == '{',
    ensures
        match parse_meta_body(v@.skip(start + 1)) {
            Some(p) => {
                &&& r is Some
                &&& meta_view(r->Some_0.0@) == p.0
                &&& start <= r->Some_0.1 <= v@.len()
                &&& v@.skip(r->Some_0.1 as int) == p.1
            },
            None => r is None,
        },
{
    let ghost s0 = v@.skip(start + 1);
    let vlen = v.len();
    let mut out: Vec<(String, String)> = Vec::new();
    if start + 1 >= vlen {
        proof {
            assert(s0.len() == 0);
        }
        return None;
    }
    proof {
        assert(s0[0] == v@[start + 1]);
    }
    if v[start + 1] == '}' {
        proof {
            assert(s0.skip(1) =~= v@.skip(start + 2));
            assert(meta_view(out@) =~= Seq::<(Seq<char>, Seq<char>)>::empty());
        }
        return Some((out, start + 2));
    }
    let (kv, cur0) = match scan_entry(v, start + 1) {
        Some(p) => p,
        None => {
            return None;
        },
    };
    let mut cur = cur0;
    proof {
        let kvs = parse_meta_entry(s0)->Some_0.0;
        assert((kv.0@, kv.1@) == kvs);
        assert(meta_view(seq![kv]) =~= seq![kvs]);
        match parse_meta_rest(v@.skip(cur as int)) {
            Option::Some(p) => {
                assert(meta_view(seq![kv]) + p.0 =~= seq![kvs] + p.0);
            },
            Option::None => {},
        }
    }
    out.push(kv);
    proof {
        assert(out@ =~= seq![kv]);
    }
    loop
        invariant
            start + 1 <= cur <= vlen,
            vlen == v@.len(),
            s0 == v@.skip(start + 1),
            s0.len() > 0,
            s0[0] != '}',
            parse_meta_rest(v@.skip(cur as int)) matches Some(p) ==> parse_meta_body(s0) == Some(
                (meta_view(out@) + p.0, p.1),
            ),
            parse_meta_rest(v@.skip(cur as int)) is None ==> parse_meta_body(s0) is None,
        decreases vlen - cur,
    {
        let ghost sc = v@.skip(cur as int);
        if cur >= vlen {
            proof {
                assert(sc.len() == 0);
            }
            return None;
        }
        let c = v[cur];
        proof {
            assert(sc[0] == c);
        }
        if c == '}' {
            proof {
                assert(sc.skip(1) =~= v@.skip(cur + 1));
                assert(meta_view(out@) + Seq::<(Seq<char>, Seq<char>)>::empty() =~= meta_view(
                    out@,
                ));
            }
            return Some((out, cur + 1));
        } else if c == ',' {
            proof {
                assert(sc.skip(1) =~= v@.skip(cur + 1));
            }
            let (kv2, nxt) = match scan_entry(v, cur + 1) {
                Some(p) => p,
                None => {
                    return None;
                },
            };
            proof {
                let ghost pair = (kv2.0@, kv2.1@);
                assert(meta_view(out@.push(kv2)) =~= meta_view(out@).push(pair));
                match parse_meta_rest(v@.skip(nxt as int)) {
                    Option::Some(p) => {
                        assert((meta_view(out@).push(pair)) + p.0 =~= meta_view(out@) + (seq![pair]
                            + p.0));
                    },
                    Option::None => {},
                }
            }
            out.push(kv2);
            cur = nxt;
        } else {
            return None;
        }
    }
}

/// Reads the back half of a wire message, from the `source` field on.
fn decode_tail(
    v: &Vec<char>,
    j8: usize,
    etype: String,
    item_id: u64,
    quantity: u64,
    ts: u64,
) -> (r: Result<Event<OrderPlacedEvent>, WireError>)
    requires
        j8 <= v@.len(),
        item_id <= u32::MAX,
        quantity <= u32::MAX,
    ensures
        match parse_wire_tail(
            v@.skip(j8 as int),
            etype@,
            item_id as nat,
            quantity as nat,
            ts as nat,
        ) {
            Some(view) => r is Ok && env_view(r->Ok_0) == view,
            None => r is Err,
        },
{
    let j9 = match match_lit(v, j8, ",\"source\":") {
        Some(j) => j,
        None => {
            return Err(WireError);
        },
    };
    let (source, j10) = match scan_string(v, j9) {
        Some(p) => p,
        None => {
            return Err(WireError);
        },
    };
    let j11 = match match_lit(v, j10, ",\"correlation_id\":") {
        Some(j) => j,
        None => {
            return Err(WireError);
        },
    };
    let (cid, j12) = match scan_opt_string(v, j11) {
        Some(p) => p,
        None => {
            return Err(WireError);
        },
    };
    let j13 = match match_lit(v, j12, ",\"metadata\":") {
        Some(j) => j,
        None => {
            return Err(WireError);
        },
    };
    let ghost r13 = v@.skip(j13 as int);
    let (meta, j14) = if j13 < v.len() && v[j13] == '{' {
        proof {
            assert(r13[0] == v@[j13 as int]);
            assert(r13.skip(1) =~= v@.skip(j13 + 1));
        }
        match scan_meta_obj(v, j13) {
            Some((m, j)) => (Some(m), j),
            None => {
                return Err(WireError);
            },
        }
    } else {
        proof {
            if j13 < v@.len() {
                assert(r13[0] == v@[j13 as int]);
            } else {
                assert(r13.len() == 0);
            }
        }
        match match_lit(v, j13, "null") {
            Some(j) => (None, j),
            None => {
                return Err(WireError);
            },
        }
    };
    proof {
        assert(j14 <= v@.len());
        assert(v@.skip(j14 as int).len() == v@.len() - j14);
    }
    if v.len() - j14 != 1 {
        proof {
            assert(v@.skip(j14 as int) != seq!['}']);
        }
        return Err(WireError);
    }
    if v[j14] != '}' {
        proof {
            assert(v@.skip(j14 as int)[0] == v@[j14 as int]);
            assert(v@.skip(j14 as int) != seq!['}']);
        }
        return Err(WireError);
    }
    proof {
        assert(v@.skip(j14 as int) =~= seq!['}']);
    }
    let e = Event {
        event_type: etype,
        payload: OrderPlacedEvent { item_id: item_id as u32, quantity: quantity as u32 },
        timestamp: ts,
        source,
        correlation_id: cid,
        metadata: meta,
    };
    Ok(e)
}

/// Deserializes a canonical wire text into an envelope; rejects exactly
/// the texts that are not a canonical encoding.
pub fn decode_envelope(s: &str) -> (r: Result<Event<OrderPlacedEvent>, WireError>)
    ensures
        match parse_wire(s@) {
            Some(view) => r is Ok && env_view(r->Ok_0) == view,
            None => r is Err,
        },
{
    let v = str_chars(s);
    proof {
        assert(v@.skip(0) =~= s@);
    }
    let j1 = match match_lit(&v, 0, "{\"event_type\":") {
        Some(j) => j,
        None => {
            return Err(WireError);
        },
    };
    let (etype, j2) = match scan_string(&v, j1) {
        Some(p) => p,
        None => {
            return Err(WireError);
        },
    };
    let j3 = match match_lit(&v, j2, ",\"payload\":{\"item_id\":") {
        Some(j) => j,
        None => {
            return Err(WireError);
        },
    };
    let (item_id, j4) = match crate::text::scan_dec_u64(&v, j3, u32::MAX as u64) {
        Some(p) => p,
        None => {
            return Err(WireError);
        },
    };
    let j5 = match match_lit(&v, j4, ",\"quantity\":") {
        Some(j) => j,
        None => {
            return Err(WireError);
        },
    };
    let (quantity, j6) = match crate::text::scan_dec_u64(&v, j5, u32::MAX as u64) {
        Some(p) => p,
        None => {
            return Err(WireError);
        },
    };
    let j7 = match match_lit(&v, j6, "},\"timestamp\":") {
        Some(j) => j,
        None => {
            return Err(WireError);
        },
    };
    let (ts, j8) = match crate::text::scan_dec_u64(&v, j7, u64::MAX) {
        Some(p) => p,
        None => {
            return Err(WireError);
        },
    };
    decode_tail(&v, j8, etype, item_id, quantity, ts)
}

} // verus!
