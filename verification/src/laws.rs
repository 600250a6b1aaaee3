//! The round-trip law relating the encoder and the decoder.
//!
//! An envelope encoded from a record decodes back to exactly that record,
//! whatever its fields hold: quotes, backslashes and the named control
//! characters go through their short escapes, the other control
//! characters through four-digit unicode escapes, and everything else
//! stands as itself.

use vstd::prelude::*;

use crate::codec::encode_envelope_view;
use crate::codec::encode_record_items;
use crate::codec::encode_record_view;
use crate::codec::escape_char;
use crate::codec::escape_string;
use crate::codec::hex_digit;
use crate::codec::short_escape;
use crate::codec::RecordView;
use crate::decode::hex4_val;
use crate::decode::hex_val;
use crate::decode::is_high_surrogate;
use crate::decode::is_low_surrogate;
use crate::decode::member_head;
use crate::decode::parse_envelope_members;
use crate::decode::parse_fields_members;
use crate::decode::parse_record;
use crate::decode::parse_record_items;
use crate::decode::parse_record_members;
use crate::decode::scan_string;
use crate::decode::scan_unicode_escape;
use crate::decode::unescape_char;
use crate::decode::spec_parse_envelope;
use crate::decode::ws_count;

verus! {

/// The value a hexadecimal digit character reads back as is the value it
/// was written for.
pub proof fn lemma_hex_digit_val(n: int)
    requires
        0 <= n < 16,
    ensures
        hex_val(hex_digit(n)) == n,
{
}

/// Escaping text free of quotes and backslashes leaves it unchanged.
pub proof fn lemma_escape_plain(t: Seq<char>)
    requires
        forall|k: int| 0 <= k < t.len() ==> t[k] != '"' && t[k] != '\\' && (t[k] as u32) >= 0x20,
    ensures
        escape_string(t) == t,
    decreases t.len(),
{
    if t.len() == 0 {
        assert(escape_string(t) =~= t);
    } else {
        assert(forall|k: int|
            0 <= k < t.skip(1).len() ==> t.skip(1)[k] != '"' && t.skip(1)[k] != '\\' && (t.skip(
                1,
            )[k] as u32) >= 0x20);
        lemma_escape_plain(t.skip(1));
        assert(escape_char(t[0]) =~= seq![t[0]]);
        assert(escape_string(t) =~= t);
    }
}

/// Scanning escaped text followed by a closing quote recovers the
/// original text and consumes exactly through that quote.
pub proof fn lemma_scan_escape(s: Seq<char>, i: int, t: Seq<char>, rest: Seq<char>)
    requires
        0 <= i <= s.len(),
        s.skip(i) == escape_string(t) + seq!['"'] + rest,
    ensures
        scan_string(s, i) == Some((t, (escape_string(t).len() + 1) as nat)),
    decreases t.len(),
{
    assert(s.skip(i).len() == s.len() - i);
    assert(forall|k: int| 0 <= k < s.len() - i ==> s.skip(i)[k] == s[i + k]);
    if t.len() == 0 {
        assert(escape_string(t) == Seq::<char>::empty());
        assert(s.skip(i)[0] == '"');
        assert(s[i] == '"');
        assert(scan_string(s, i) == Some((Seq::<char>::empty(), 1nat)));
        assert(t =~= Seq::<char>::empty());
    } else {
        let c = t[0];
        let t2 = t.skip(1);
        assert(escape_string(t) == escape_char(c) + escape_string(t2));
        if short_escape(c) is Some {
            let e = short_escape(c)->0;
            assert(escape_char(c) =~= seq!['\\', e]);
            assert(escape_string(t).len() == 2 + escape_string(t2).len());
            assert(escape_string(t)[0] == '\\');
            assert(escape_string(t)[1] == e);
            assert(s.skip(i)[0] == escape_string(t)[0]);
            assert(s.skip(i)[1] == escape_string(t)[1]);
            assert(s[i] == '\\');
            assert(s[i + 1] == e);
            assert(e != 'u');
            assert(unescape_char(e) == Some(c));
            assert(forall|k: int|
                0 <= k < s.len() - (i + 2) ==> #[trigger] s.skip(i + 2)[k] == s.skip(i)[k + 2]);
            assert(forall|k: int|
                0 <= k < escape_string(t2).len() ==> escape_string(t)[k + 2] == #[trigger] escape_string(t2)[k]);
            assert(s.skip(i + 2) =~= escape_string(t2) + seq!['"'] + rest);
            lemma_scan_escape(s, i + 2, t2, rest);
            assert(seq![c] + t2 =~= t);
            assert(scan_string(s, i) == Some((t, (escape_string(t).len() + 1) as nat)));
        } else if (c as u32) < 0x20 {
            let u = c as u32 as int;
            let hi = hex_digit(u / 16);
            let lo = hex_digit(u % 16);
            assert(escape_char(c) =~= seq!['\\', 'u', '0', '0', hi, lo]);
            assert(escape_string(t).len() == 6 + escape_string(t2).len());
            assert(escape_string(t)[0] == '\\');
            assert(escape_string(t)[1] == 'u');
            assert(escape_string(t)[2] == '0');
            assert(escape_string(t)[3] == '0');
            assert(escape_string(t)[4] == hi);
            assert(escape_string(t)[5] == lo);
            assert(s.skip(i)[0] == escape_string(t)[0]);
            assert(s.skip(i)[1] == escape_string(t)[1]);
            assert(s.skip(i)[2] == escape_string(t)[2]);
            assert(s.skip(i)[3] == escape_string(t)[3]);
            assert(s.skip(i)[4] == escape_string(t)[4]);
            assert(s.skip(i)[5] == escape_string(t)[5]);
            assert(s[i] == '\\' && s[i + 1] == 'u');
            assert(s[i + 2] == '0' && s[i + 3] == '0' && s[i + 4] == hi && s[i + 5] == lo);
            assert(u == 16 * (u / 16) + u % 16) by (nonlinear_arith);
            assert(0 <= u / 16 < 16 && 0 <= u % 16 < 16) by (nonlinear_arith)
                requires 0 <= u < 32,
            ;
            lemma_hex_digit_val(u / 16);
            lemma_hex_digit_val(u % 16);
            assert(hex_val('0') == 0);
            assert(i + 6 <= s.len());
            assert(hex4_val(s, i + 2) == u);
            assert(!is_high_surrogate(u) && !is_low_surrogate(u));
            assert(c as u32 == u as u32);
            vstd::utf8::char_u32_cast(c, c as u32);
            assert(((u as u32) as char) == c);
            assert(scan_unicode_escape(s, i + 2) == Some((c, 4nat)));
            assert(forall|k: int|
                0 <= k < s.len() - (i + 6) ==> #[trigger] s.skip(i + 6)[k] == s.skip(i)[k + 6]);
            assert(forall|k: int|
                0 <= k < escape_string(t2).len() ==> escape_string(t)[k + 6] == #[trigger] escape_string(t2)[k]);
            assert(s.skip(i + 6) =~= escape_string(t2) + seq!['"'] + rest);
            lemma_scan_escape(s, i + 6, t2, rest);
            assert(seq![c] + t2 =~= t);
            assert(scan_string(s, i) == Some((t, (escape_string(t).len() + 1) as nat)));
        } else {
            assert(escape_char(c) =~= seq![c]);
            assert(escape_string(t).len() == 1 + escape_string(t2).len());
            assert(escape_string(t)[0] == c);
            assert(s.skip(i)[0] == escape_string(t)[0]);
            assert(s[i] == c);
            assert(forall|k: int|
                0 <= k < s.len() - (i + 1) ==> #[trigger] s.skip(i + 1)[k] == s.skip(i)[k + 1]);
            assert(forall|k: int|
                0 <= k < escape_string(t2).len() ==> escape_string(t)[k + 1] == #[trigger] escape_string(t2)[k]);
            assert(s.skip(i + 1) =~= escape_string(t2) + seq!['"'] + rest);
            lemma_scan_escape(s, i + 1, t2, rest);
            assert(seq![c] + t2 =~= t);
            assert(scan_string(s, i) == Some((t, (escape_string(t).len() + 1) as nat)));
        }
    }
}

/// The encoded one-record envelope, as one concatenation around the two
/// escaped field values.
pub proof fn lemma_envelope_shape(r: RecordView)
    ensures
        encode_envelope_view(seq![r]) == "{\"records\":[{\"fields\":{\"slug\":\""@
            + escape_string(r.slug) + "\",\"target\":\""@ + escape_string(r.target) + "\"}}]}"@,
        encode_envelope_view(seq![r]).len() == 48 + escape_string(r.slug).len() as int + escape_string(
            r.target,
        ).len(),
{
    reveal_strlit("{\"records\":[{\"fields\":{\"slug\":\"");
    reveal_strlit("\",\"target\":\"");
    reveal_strlit("\"}}]}");
    reveal_strlit("{\"records\":[");
    reveal_strlit("{\"fields\":{\"slug\":\"");
    reveal_strlit("\"}}");
    reveal_strlit("]}");
    assert(seq![r][0] == r);
    assert(encode_record_items(seq![r]) == encode_record_view(r));
    assert(encode_envelope_view(seq![r]) =~= "{\"records\":[{\"fields\":{\"slug\":\""@
        + escape_string(r.slug) + "\",\"target\":\""@ + escape_string(r.target) + "\"}}]}"@);
}

/// The four key scans the decode of an encoded envelope performs.
#[verifier::rlimit(100)]
pub proof fn lemma_round_trip_key_scans(r: RecordView)
    ensures
        scan_string(encode_envelope_view(seq![r]), 2) == Some(("records"@, 8nat)),
        scan_string(encode_envelope_view(seq![r]), 14) == Some(("fields"@, 7nat)),
        scan_string(encode_envelope_view(seq![r]), 24) == Some(("slug"@, 5nat)),
        scan_string(encode_envelope_view(seq![r]), 34 + escape_string(r.slug).len() as int) == Some(
            ("target"@, 7nat),
        ),
{
    lemma_envelope_shape(r);
    let e = encode_envelope_view(seq![r]);
    let es = escape_string(r.slug);
    let et = escape_string(r.target);
    let el = es.len() as int;
    let tl = et.len() as int;
    reveal_strlit("{\"records\":[{\"fields\":{\"slug\":\"");
    reveal_strlit("\",\"target\":\"");
    reveal_strlit("\"}}]}");
    reveal_strlit("records");
    reveal_strlit("fields");
    reveal_strlit("slug");
    reveal_strlit("target");

    assert(forall|k: int|
        0 <= k < 7 ==> "records"@[k] != '"' && "records"@[k] != '\\' && ("records"@[k] as u32) >= 0x20);
    lemma_escape_plain("records"@);
    assert(e.skip(2) =~= "records"@ + seq!['"'] + e.skip(10));
    lemma_scan_escape(e, 2, "records"@, e.skip(10));

    assert(forall|k: int|
        0 <= k < 6 ==> "fields"@[k] != '"' && "fields"@[k] != '\\' && ("fields"@[k] as u32) >= 0x20);
    lemma_escape_plain("fields"@);
    assert(e.skip(14) =~= "fields"@ + seq!['"'] + e.skip(21));
    lemma_scan_escape(e, 14, "fields"@, e.skip(21));

    assert(forall|k: int|
        0 <= k < 4 ==> "slug"@[k] != '"' && "slug"@[k] != '\\' && ("slug"@[k] as u32) >= 0x20);
    lemma_escape_plain("slug"@);
    assert(e.skip(24) =~= "slug"@ + seq!['"'] + e.skip(29));
    lemma_scan_escape(e, 24, "slug"@, e.skip(29));

    assert(forall|k: int|
        0 <= k < 6 ==> "target"@[k] != '"' && "target"@[k] != '\\' && ("target"@[k] as u32) >= 0x20);
    lemma_escape_plain("target"@);
    assert(e.skip(34 + el) =~= "target"@ + seq!['"'] + e.skip(41 + el));
    lemma_scan_escape(e, 34 + el, "target"@, e.skip(41 + el));

}

/// The six string scans the decode of an encoded envelope performs: the
/// three keys on its path, and the two field values.
#[verifier::rlimit(100)]
pub proof fn lemma_round_trip_scans(r: RecordView)
    ensures
        scan_string(encode_envelope_view(seq![r]), 2) == Some(("records"@, 8nat)),
        scan_string(encode_envelope_view(seq![r]), 14) == Some(("fields"@, 7nat)),
        scan_string(encode_envelope_view(seq![r]), 24) == Some(("slug"@, 5nat)),
        scan_string(encode_envelope_view(seq![r]), 34 + escape_string(r.slug).len() as int) == Some(
            ("target"@, 7nat),
        ),
        scan_string(encode_envelope_view(seq![r]), 31) == Some(
            (r.slug, (escape_string(r.slug).len() as int + 1) as nat),
        ),
        scan_string(encode_envelope_view(seq![r]), 43 + escape_string(r.slug).len() as int) == Some(
            (r.target, (escape_string(r.target).len() as int + 1) as nat),
        ),
{
    lemma_round_trip_key_scans(r);
    lemma_envelope_shape(r);
    let e = encode_envelope_view(seq![r]);
    let es = escape_string(r.slug);
    let et = escape_string(r.target);
    let el = es.len() as int;
    let tl = et.len() as int;
    reveal_strlit("{\"records\":[{\"fields\":{\"slug\":\"");
    reveal_strlit("\",\"target\":\"");
    reveal_strlit("\"}}]}");

    assert(e.skip(31) =~= es + seq!['"'] + e.skip(32 + el));
    lemma_scan_escape(e, 31, r.slug, e.skip(32 + el));

    assert(e.skip(43 + el) =~= et + seq!['"'] + e.skip(44 + el + tl));
    lemma_scan_escape(e, 43 + el, r.target, e.skip(44 + el + tl));
}

/// The member heads the decode of an encoded envelope meets, and the
/// absence of whitespace everywhere the walk looks for it.
#[verifier::rlimit(100)]
pub proof fn lemma_round_trip_heads(r: RecordView)
    ensures
        member_head(encode_envelope_view(seq![r]), 1) == Some(("records"@, 10nat)),
        member_head(encode_envelope_view(seq![r]), 13) == Some(("fields"@, 9nat)),
        member_head(encode_envelope_view(seq![r]), 23) == Some(("slug"@, 7nat)),
        member_head(encode_envelope_view(seq![r]), 33 + escape_string(r.slug).len() as int) == Some(
            ("target"@, 9nat),
        ),
        scan_string(encode_envelope_view(seq![r]), 31) == Some(
            (r.slug, (escape_string(r.slug).len() as int + 1) as nat),
        ),
        scan_string(encode_envelope_view(seq![r]), 43 + escape_string(r.slug).len() as int) == Some(
            (r.target, (escape_string(r.target).len() as int + 1) as nat),
        ),
        ws_count(encode_envelope_view(seq![r]), 0) == 0,
        ws_count(encode_envelope_view(seq![r]), 12) == 0,
        ws_count(encode_envelope_view(seq![r]), 32 + escape_string(r.slug).len() as int) == 0,
        ws_count(
            encode_envelope_view(seq![r]),
            44 + escape_string(r.slug).len() as int + escape_string(r.target).len() as int,
        ) == 0,
        ws_count(
            encode_envelope_view(seq![r]),
            45 + escape_string(r.slug).len() as int + escape_string(r.target).len() as int,
        ) == 0,
        ws_count(
            encode_envelope_view(seq![r]),
            46 + escape_string(r.slug).len() as int + escape_string(r.target).len() as int,
        ) == 0,
        ws_count(
            encode_envelope_view(seq![r]),
            47 + escape_string(r.slug).len() as int + escape_string(r.target).len() as int,
        ) == 0,
        ws_count(
            encode_envelope_view(seq![r]),
            48 + escape_string(r.slug).len() as int + escape_string(r.target).len() as int,
        ) == 0,
        encode_envelope_view(seq![r])[0] == '{',
        encode_envelope_view(seq![r])[11] == '[',
        encode_envelope_view(seq![r])[12] == '{',
        encode_envelope_view(seq![r])[22] == '{',
        encode_envelope_view(seq![r])[30] == '"',
        encode_envelope_view(seq![r])[32 + escape_string(r.slug).len() as int] == ',',
        encode_envelope_view(seq![r])[42 + escape_string(r.slug).len() as int] == '"',
        encode_envelope_view(seq![r])[44 + escape_string(r.slug).len() as int + escape_string(
            r.target,
        ).len()] == '}',
        encode_envelope_view(seq![r])[45 + escape_string(r.slug).len() as int + escape_string(
            r.target,
        ).len()] == '}',
        encode_envelope_view(seq![r])[46 + escape_string(r.slug).len() as int + escape_string(
            r.target,
        ).len()] == ']',
        encode_envelope_view(seq![r])[47 + escape_string(r.slug).len() as int + escape_string(
            r.target,
        ).len()] == '}',
{
    lemma_envelope_shape(r);
    lemma_round_trip_scans(r);
    let e = encode_envelope_view(seq![r]);
    let es = escape_string(r.slug);
    let et = escape_string(r.target);
    let el = es.len() as int;
    let tl = et.len() as int;
    reveal_strlit("{\"records\":[{\"fields\":{\"slug\":\"");
    reveal_strlit("\",\"target\":\"");
    reveal_strlit("\"}}]}");

    assert(ws_count(e, 0) == 0);
    assert(ws_count(e, 1) == 0);
    assert(ws_count(e, 10) == 0);
    assert(ws_count(e, 11) == 0);
    assert(ws_count(e, 12) == 0);
    assert(ws_count(e, 13) == 0);
    assert(ws_count(e, 21) == 0);
    assert(ws_count(e, 22) == 0);
    assert(ws_count(e, 23) == 0);
    assert(ws_count(e, 29) == 0);
    assert(ws_count(e, 30) == 0);
    assert(e[32 + el] == ',');
    assert(ws_count(e, 32 + el) == 0);
    assert(e[33 + el] == '"');
    assert(ws_count(e, 33 + el) == 0);
    assert(e[41 + el] == ':');
    assert(ws_count(e, 41 + el) == 0);
    assert(e[42 + el] == '"');
    assert(ws_count(e, 42 + el) == 0);
    assert(e[44 + el + tl] == '}');
    assert(ws_count(e, 44 + el + tl) == 0);
    assert(e[45 + el + tl] == '}');
    assert(ws_count(e, 45 + el + tl) == 0);
    assert(e[46 + el + tl] == ']');
    assert(ws_count(e, 46 + el + tl) == 0);
    assert(e[47 + el + tl] == '}');
    assert(ws_count(e, 47 + el + tl) == 0);
    assert(ws_count(e, 48 + el + tl) == 0);

    assert(member_head(e, 1) == Some(("records"@, 10nat)));
    assert(member_head(e, 13) == Some(("fields"@, 9nat)));
    assert(member_head(e, 23) == Some(("slug"@, 7nat)));
    assert(member_head(e, 33 + el) == Some(("target"@, 9nat)));
}

/// Only what the walk of the "target" member needs to see of the
/// encoded envelope.
pub proof fn lemma_round_trip_target_facts(r: RecordView)
    ensures
        encode_envelope_view(seq![r]).len() == 48 + escape_string(r.slug).len() as int
            + escape_string(r.target).len() as int,
        member_head(encode_envelope_view(seq![r]), 33 + escape_string(r.slug).len() as int)
            == Some(("target"@, 9nat)),
        scan_string(encode_envelope_view(seq![r]), 43 + escape_string(r.slug).len() as int) == Some(
            (r.target, (escape_string(r.target).len() as int + 1) as nat),
        ),
        encode_envelope_view(seq![r])[42 + escape_string(r.slug).len() as int] == '"',
        encode_envelope_view(seq![r])[44 + escape_string(r.slug).len() as int + escape_string(
            r.target,
        ).len() as int] == '}',
        ws_count(
            encode_envelope_view(seq![r]),
            44 + escape_string(r.slug).len() as int + escape_string(r.target).len() as int,
        ) == 0,
{
    lemma_envelope_shape(r);
    lemma_round_trip_heads(r);
}

/// The walk of the encoded fields object from its "target" member.
#[verifier::rlimit(100)]
pub proof fn lemma_round_trip_fields_tail(r: RecordView)
    ensures
        parse_fields_members(
            encode_envelope_view(seq![r]),
            33 + escape_string(r.slug).len() as int,
            Some(r.slug),
            None,
        ) == Some(
            (
                RecordView { slug: r.slug, target: r.target },
                (escape_string(r.target).len() as int + 12) as nat,
            ),
        ),
{
    lemma_round_trip_target_facts(r);
    let e = encode_envelope_view(seq![r]);
    let es = escape_string(r.slug);
    let et = escape_string(r.target);
    let el = es.len() as int;
    let tl = et.len() as int;
    reveal_strlit("slug");
    reveal_strlit("target");
    assert("slug"@.len() == 4);
    assert("target"@.len() == 6);
    assert("target"@ != "slug"@);
    let rv = RecordView { slug: r.slug, target: r.target };
    assert(parse_fields_members(e, 33 + el, Some(r.slug), None) == Some((rv, (tl + 12) as nat)));
}

/// The walk of the encoded fields object, recovering both field values.
#[verifier::rlimit(100)]
pub proof fn lemma_round_trip_fields(r: RecordView)
    ensures
        parse_fields_members(encode_envelope_view(seq![r]), 23, None, None) == Some(
            (
                RecordView { slug: r.slug, target: r.target },
                (escape_string(r.slug).len() as int + escape_string(r.target).len() as int
                    + 22) as nat,
            ),
        ),
{
    lemma_envelope_shape(r);
    lemma_round_trip_heads(r);
    lemma_round_trip_fields_tail(r);
    let e = encode_envelope_view(seq![r]);
    let es = escape_string(r.slug);
    let et = escape_string(r.target);
    let el = es.len() as int;
    let tl = et.len() as int;
    reveal_strlit("slug");
    assert("slug"@.len() == 4);
    let rv = RecordView { slug: r.slug, target: r.target };
    assert(parse_fields_members(e, 23, None, None) == Some((rv, (el + tl + 22) as nat)));
}

/// Round trip: the envelope encoded from one record parses back to
/// exactly that record, whatever its fields hold.
#[verifier::rlimit(100)]
pub proof fn lemma_encode_decode_round_trip(r: RecordView)
    ensures
        spec_parse_envelope(encode_envelope_view(seq![r])) == Some(seq![r]),
{
    lemma_envelope_shape(r);
    lemma_round_trip_heads(r);
    lemma_round_trip_fields(r);
    let e = encode_envelope_view(seq![r]);
    let es = escape_string(r.slug);
    let et = escape_string(r.target);
    let el = es.len() as int;
    let tl = et.len() as int;
    let rv = RecordView { slug: r.slug, target: r.target };
    assert(parse_record_members(e, 13, None) == Some((rv, (el + tl + 33) as nat)));
    assert(parse_record(e, 12) == Some((rv, (el + tl + 34) as nat)));
    assert(parse_record_items(e, 12, true) == Some((seq![rv], (el + tl + 35) as nat)));
    assert(parse_envelope_members(e, 1, None) == Some((seq![rv], (el + tl + 47) as nat)));
    assert(rv == r);
    assert(seq![rv] =~= seq![r]);
    assert(spec_parse_envelope(e) == Some(seq![r]));
}

} // verus!
