//! The record model and its JSON envelope codec.
//!
//! The wire shape, shared by list, find and create exchanges, is
//! `{"records":[{"fields":{"slug": string, "target": string}}, ...]}`.
//! Decoding accepts that shape with arbitrary JSON whitespace, ignores
//! members other than the ones of interest (skipping their values by
//! string-aware bracket balance rather than validating them in full), and
//! rejects duplicate members of interest, missing required members, and
//! anything that does not scan. Encoding produces the canonical unspaced
//! form: quotes, backslashes and control characters in field values are
//! escaped, so every encoded envelope is valid JSON.
//!
//! The decoder is specified against `spec_parse_envelope`, a spec-level
//! parser the executable code mirrors step for step; the encoder against
//! `encode_envelope_view`. The round-trip law relating the two lives in
//! `laws`.

use vstd::prelude::*;

verus! {

/// What a record reads as: its two field values as character sequences.
pub ghost struct RecordView {
    pub slug: Seq<char>,
    pub target: Seq<char>,
}

/// The two fields of a stored mapping: the short identifier and the
/// destination it resolves to.
#[derive(Debug, Clone)]
pub struct RecordField {
    pub slug: String,
    pub target: String,
}

/// One slug-to-target mapping, as the wire shape nests it.
#[derive(Debug, Clone)]
pub struct Record {
    pub fields: RecordField,
}

/// The response envelope: a list of records under the "records" member.
#[derive(Debug)]
pub struct AirtableResponse {
    pub records: Vec<Record>,
}

/// The create-request envelope. Structurally the same as the response
/// envelope, kept as a distinct type so that holding one never implies a
/// response was received.
#[derive(Debug)]
pub struct AirtableRequest {
    pub records: Vec<Record>,
}

impl View for RecordField {
    type V = RecordView;

    open spec fn view(&self) -> RecordView {
        RecordView { slug: self.slug@, target: self.target@ }
    }
}

impl View for Record {
    type V = RecordView;

    open spec fn view(&self) -> RecordView {
        self.fields@
    }
}

impl View for AirtableResponse {
    type V = Seq<RecordView>;

    open spec fn view(&self) -> Seq<RecordView> {
        Seq::new(self.records@.len(), |i: int| self.records@[i]@)
    }
}

impl View for AirtableRequest {
    type V = Seq<RecordView>;

    open spec fn view(&self) -> Seq<RecordView> {
        Seq::new(self.records@.len(), |i: int| self.records@[i]@)
    }
}

impl Record {
    /// Build a record from its two field values.
    pub fn new(slug: String, target: String) -> (r: Record)
        ensures
            r@ == (RecordView { slug: slug@, target: target@ }),
    {
        Record { fields: RecordField { slug, target } }
    }
}

// ---------------------------------------------------------------------------
// Encoding: the canonical unspaced envelope text.
// ---------------------------------------------------------------------------
/// The uppercase hexadecimal digit for a value below sixteen.
pub open spec fn hex_digit(n: int) -> char {
    if n == 0 {
        '0'
    } else if n == 1 {
        '1'
    } else if n == 2 {
        '2'
    } else if n == 3 {
        '3'
    } else if n == 4 {
        '4'
    } else if n == 5 {
        '5'
    } else if n == 6 {
        '6'
    } else if n == 7 {
        '7'
    } else if n == 8 {
        '8'
    } else if n == 9 {
        '9'
    } else if n == 10 {
        'A'
    } else if n == 11 {
        'B'
    } else if n == 12 {
        'C'
    } else if n == 13 {
        'D'
    } else if n == 14 {
        'E'
    } else {
        'F'
    }
}

pub(crate) fn hex_digit_x(n: u32) -> (r: char)
    requires
        n < 16,
    ensures
        r == hex_digit(n as int),
{
    match n {
        0 => '0',
        1 => '1',
        2 => '2',
        3 => '3',
        4 => '4',
        5 => '5',
        6 => '6',
        7 => '7',
        8 => '8',
        9 => '9',
        10 => 'A',
        11 => 'B',
        12 => 'C',
        13 => 'D',
        14 => 'E',
        _ => 'F',
    }
}

/// The short escape letter for a character that has one.
pub open spec fn short_escape(c: char) -> Option<char> {
    if c == '"' {
        Some('"')
    } else if c == '\\' {
        Some('\\')
    } else if c == '\u{0008}' {
        Some('b')
    } else if c == '\t' {
        Some('t')
    } else if c == '\n' {
        Some('n')
    } else if c == '\u{000C}' {
        Some('f')
    } else if c == '\r' {
        Some('r')
    } else {
        None
    }
}

/// How one character appears inside a JSON string literal: quote,
/// backslash and the five named control characters take their short
/// escapes, the other control characters a four-digit unicode escape, and
/// everything else stands as itself.
pub open spec fn escape_char(c: char) -> Seq<char> {
    match short_escape(c) {
        Some(e) => seq!['\\', e],
        None => if (c as u32) < 0x20 {
            seq![
                '\\',
                'u',
                '0',
                '0',
                hex_digit(c as u32 as int / 16),
                hex_digit(c as u32 as int % 16),
            ]
        } else {
            seq![c]
        },
    }
}

/// A whole field value as it appears inside its JSON string literal.
pub open spec fn escape_string(s: Seq<char>) -> Seq<char>
    decreases s.len(),
{
    if s.len() == 0 {
        Seq::empty()
    } else {
        escape_char(s[0]) + escape_string(s.skip(1))
    }
}

/// One record as envelope text.
pub open spec fn encode_record_view(r: RecordView) -> Seq<char> {
    "{\"fields\":{\"slug\":\""@ + escape_string(r.slug) + "\",\"target\":\""@ + escape_string(
        r.target,
    ) + "\"}}"@
}

/// The comma-separated items of the records array.
pub open spec fn encode_record_items(rs: Seq<RecordView>) -> Seq<char>
    decreases rs.len(),
{
    if rs.len() == 0 {
        Seq::empty()
    } else if rs.len() == 1 {
        encode_record_view(rs[0])
    } else {
        encode_record_view(rs[0]) + seq![','] + encode_record_items(rs.skip(1))
    }
}

/// A whole envelope as text.
pub open spec fn encode_envelope_view(rs: Seq<RecordView>) -> Seq<char> {
    "{\"records\":["@ + encode_record_items(rs) + "]}"@
}

/// Appending one character extends the escaped text by that character's
/// escape.
pub proof fn lemma_escape_snoc(s: Seq<char>, c: char)
    ensures
        escape_string(s.push(c)) == escape_string(s) + escape_char(c),
    decreases s.len(),
{
    if s.len() == 0 {
        assert(s.push(c) =~= seq![c]);
        assert(s.push(c).skip(1) =~= Seq::<char>::empty());
        assert(s.push(c)[0] == c);
        assert(escape_string(s.push(c).skip(1)) == Seq::<char>::empty());
        assert(escape_string(s.push(c)) == escape_char(c) + escape_string(s.push(c).skip(1)));
        assert(escape_string(s.push(c)) =~= escape_string(s) + escape_char(c));
    } else {
        assert(s.push(c).skip(1) =~= s.skip(1).push(c));
        lemma_escape_snoc(s.skip(1), c);
        assert(s.push(c)[0] == s[0]);
        assert(escape_string(s.push(c)) == escape_char(s[0]) + escape_string(s.skip(1).push(c)));
        assert(escape_string(s.skip(1).push(c)) == escape_string(s.skip(1)) + escape_char(c));
        assert(escape_string(s.push(c)) =~= escape_string(s) + escape_char(c));
    }
}

/// Relies on `String::push`: appends exactly the given character.
#[verifier::external_body]
pub(crate) fn push_char(out: &mut String, c: char)
    ensures
        final(out)@ == old(out)@.push(c),
{
    out.push(c);
}

/// Append a field value to `out` in its escaped JSON-string form.
pub(crate) fn append_escaped(out: &mut String, s: &str)
    ensures
        final(out)@ == old(out)@ + escape_string(s@),
{
    let len = s.unicode_len();
    let mut i: usize = 0;
    while i < len
        invariant
            i <= len,
            len == s@.len(),
            out@ == old(out)@ + escape_string(s@.take(i as int)),
        decreases len - i,
    {
        let c = s.get_char(i);
        let u = c as u32;
        if c == '"' {
            out.append("\\\"");
            proof {
                reveal_strlit("\\\"");
                assert("\\\""@ =~= escape_char(c));
            }
        } else if c == '\\' {
            out.append("\\\\");
            proof {
                reveal_strlit("\\\\");
                assert("\\\\"@ =~= escape_char(c));
            }
        } else if u == 0x08 {
            out.append("\\b");
            proof {
                reveal_strlit("\\b");
                assert("\\b"@ =~= escape_char(c));
            }
        } else if u == 0x09 {
            out.append("\\t");
            proof {
                reveal_strlit("\\t");
                assert("\\t"@ =~= escape_char(c));
            }
        } else if u == 0x0A {
            out.append("\\n");
            proof {
                reveal_strlit("\\n");
                assert("\\n"@ =~= escape_char(c));
            }
        } else if u == 0x0C {
            out.append("\\f");
            proof {
                reveal_strlit("\\f");
                assert("\\f"@ =~= escape_char(c));
            }
        } else if u == 0x0D {
            out.append("\\r");
            proof {
                reveal_strlit("\\r");
                assert("\\r"@ =~= escape_char(c));
            }
        } else if u < 0x20 {
            out.append("\\u00");
            push_char(out, hex_digit_x(u / 16));
            push_char(out, hex_digit_x(u % 16));
            proof {
                reveal_strlit("\\u00");
                assert("\\u00"@.push(hex_digit(u as int / 16)).push(hex_digit(u as int % 16))
                    =~= escape_char(c));
            }
        } else {
            push_char(out, c);
            proof {
                assert(out@ =~= old(out)@ + escape_string(s@.take(i as int)) + escape_char(c));
            }
        }
        proof {
            assert(s@.take(i + 1) =~= s@.take(i as int).push(s@[i as int]));
            lemma_escape_snoc(s@.take(i as int), s@[i as int]);
            assert(out@ =~= old(out)@ + escape_string(s@.take(i + 1)));
        }
        i = i + 1;
    }
    proof {
        assert(s@.take(len as int) =~= s@);
    }
}

/// Encode one record as envelope text.
pub(crate) fn append_record(out: &mut String, r: &Record)
    ensures
        final(out)@ == old(out)@ + encode_record_view(r@),
{
    out.append("{\"fields\":{\"slug\":\"");
    append_escaped(out, self_slug(r));
    out.append("\",\"target\":\"");
    append_escaped(out, self_target(r));
    out.append("\"}}");
}

/// The slug field, borrowed.
fn self_slug(r: &Record) -> (s: &str)
    ensures
        s@ == r@.slug,
{
    r.fields.slug.as_str()
}

/// The target field, borrowed.
fn self_target(r: &Record) -> (s: &str)
    ensures
        s@ == r@.target,
{
    r.fields.target.as_str()
}

/// Encode a create-request envelope to its JSON text.
pub fn encode_request(req: &AirtableRequest) -> (out: String)
    ensures
        out@ == encode_envelope_view(req@),
{
    let mut out = String::from_str("{\"records\":[");
    let n = req.records.len();
    let mut i: usize = 0;
    while i < n
        invariant
            i <= n,
            n == req.records@.len(),
            out@ == "{\"records\":["@ + encode_record_items(req@.take(i as int)),
        decreases n - i,
    {
        if i > 0 {
            push_char(&mut out, ',');
        }
        let r = &req.records[i];
        append_record(&mut out, r);
        proof {
            assert(req@.take(i + 1) =~= req@.take(i as int).push(req@[i as int]));
            lemma_encode_items_snoc(req@.take(i as int), req@[i as int]);
            assert(req@[i as int] == req.records@[i as int]@);
            assert(out@ =~= "{\"records\":["@ + encode_record_items(req@.take(i + 1)));
        }
        i = i + 1;
    }
    out.append("]}");
    proof {
        assert(req@.take(n as int) =~= req@);
        assert(out@ =~= encode_envelope_view(req@));
    }
    out
}

/// Appending one record extends the item text by a separating comma (when
/// items precede it) and that record's text.
pub proof fn lemma_encode_items_snoc(rs: Seq<RecordView>, r: RecordView)
    ensures
        rs.len() == 0 ==> encode_record_items(rs.push(r)) == encode_record_view(r),
        rs.len() > 0 ==> encode_record_items(rs.push(r)) == encode_record_items(rs) + seq![',']
            + encode_record_view(r),
    decreases rs.len(),
{
    if rs.len() == 0 {
        assert(rs.push(r) =~= seq![r]);
        assert(encode_record_items(rs.push(r)) =~= encode_record_view(r));
    } else if rs.len() == 1 {
        assert(rs.push(r).skip(1) =~= seq![r]);
        assert(rs.push(r)[0] == rs[0]);
        assert(encode_record_items(seq![r]) == encode_record_view(r));
        assert(encode_record_items(rs.push(r)) == encode_record_view(rs[0]) + seq![',']
            + encode_record_items(seq![r]));
        assert(encode_record_items(rs.push(r)) =~= encode_record_view(rs[0]) + seq![',']
            + encode_record_view(r));
    } else {
        assert(rs.push(r).skip(1) =~= rs.skip(1).push(r));
        lemma_encode_items_snoc(rs.skip(1), r);
        assert(encode_record_items(rs.push(r)) =~= encode_record_items(rs) + seq![',']
            + encode_record_view(r));
    }
}

} // verus!
