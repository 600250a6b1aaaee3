//! Decoding the list envelope from JSON text.
//!
//! `spec_parse_envelope` is the specification: a recursive spec-level
//! parser over the character sequence. The executable decoder mirrors it
//! step for step and is proved to return exactly what it returns. All
//! counts consumed are non-negative by type, so every walk over the text
//! only moves forward.
//!
//! Strings take the short escapes and four-hex-digit unicode escapes,
//! surrogate pairs included; an unescaped control character, a lone
//! surrogate half, or an unknown escape is rejected. Members other than
//! "records", "fields", "slug" and "target" are accepted and ignored;
//! their values are skipped by string-aware bracket balance (and, for
//! scalars, by a run of scalar characters), not validated as full JSON.
//! Duplicates of the members of interest, and a missing required member,
//! are rejected.

use vstd::prelude::*;

use crate::codec::push_char;
use crate::codec::Record;
use crate::codec::RecordField;
use crate::codec::RecordView;
use crate::error::ParseFailure;

verus! {

// ---------------------------------------------------------------------------
// The spec-level parser.
// ---------------------------------------------------------------------------
/// JSON whitespace.
pub open spec fn is_ws(c: char) -> bool {
    c == ' ' || c == '\t' || c == '\n' || c == '\r'
}

/// A character that may appear in a skipped scalar (number or keyword).
pub open spec fn is_scalar_char(c: char) -> bool {
    (48 <= c as u32 && c as u32 <= 57) || (97 <= c as u32 && c as u32 <= 122) || (65 <= c as u32
        && c as u32 <= 90) || c == '+' || c == '-' || c == '.'
}

/// How many whitespace characters run from `i`.
pub open spec fn ws_count(s: Seq<char>, i: int) -> nat
    decreases s.len() - i,
{
    if 0 <= i < s.len() && is_ws(s[i]) {
        (ws_count(s, i + 1) + 1) as nat
    } else {
        0
    }
}

/// How many scalar characters run from `i`.
pub open spec fn scalar_count(s: Seq<char>, i: int) -> nat
    decreases s.len() - i,
{
    if 0 <= i < s.len() && is_scalar_char(s[i]) {
        (scalar_count(s, i + 1) + 1) as nat
    } else {
        0
    }
}

/// What a backslash escape stands for, if it is one the codec knows.
pub open spec fn unescape_char(c: char) -> Option<char> {
    if c == '"' {
        Some('"')
    } else if c == '\\' {
        Some('\\')
    } else if c == '/' {
        Some('/')
    } else if c == 'n' {
        Some('\n')
    } else if c == 't' {
        Some('\t')
    } else if c == 'r' {
        Some('\r')
    } else if c == 'b' {
        Some('\u{0008}')
    } else if c == 'f' {
        Some('\u{000C}')
    } else {
        None
    }
}

/// The value of one hexadecimal digit, either case, or minus one.
pub open spec fn hex_val(c: char) -> int {
    let u = c as u32;
    if 48 <= u && u <= 57 {
        u - 48
    } else if 65 <= u && u <= 70 {
        u - 55
    } else if 97 <= u && u <= 102 {
        u - 87
    } else {
        -1
    }
}

/// The value of four hexadecimal digits at `i`, or minus one.
pub open spec fn hex4_val(s: Seq<char>, i: int) -> int {
    if 0 <= i && i + 4 <= s.len() && hex_val(s[i]) >= 0 && hex_val(s[i + 1]) >= 0 && hex_val(
        s[i + 2],
    ) >= 0 && hex_val(s[i + 3]) >= 0 {
        hex_val(s[i]) * 4096 + hex_val(s[i + 1]) * 256 + hex_val(s[i + 2]) * 16 + hex_val(s[i + 3])
    } else {
        -1
    }
}

/// The leading half of a surrogate pair.
pub open spec fn is_high_surrogate(v: int) -> bool {
    0xD800 <= v <= 0xDBFF
}

/// The trailing half of a surrogate pair.
pub open spec fn is_low_surrogate(v: int) -> bool {
    0xDC00 <= v <= 0xDFFF
}

/// A unicode escape from its first hexadecimal digit: the character it
/// stands for and the count consumed. A leading high surrogate must be
/// followed by a `\u`-escaped low surrogate; anything else with a
/// surrogate half in it is rejected.
pub open spec fn scan_unicode_escape(s: Seq<char>, i: int) -> Option<(char, nat)> {
    let v = hex4_val(s, i);
    if v < 0 {
        None
    } else if is_high_surrogate(v) {
        if i + 6 <= s.len() && s[i + 4] == '\\' && s[i + 5] == 'u' {
            let w = hex4_val(s, i + 6);
            if is_low_surrogate(w) {
                Some(
                    (
                        ((0x10000 + (v - 0xD800) * 0x400 + (w - 0xDC00)) as u32) as char,
                        10nat,
                    ),
                )
            } else {
                None
            }
        } else {
            None
        }
    } else if is_low_surrogate(v) {
        None
    } else {
        Some(((v as u32) as char, 4nat))
    }
}

/// Scan a JSON string body from just after its opening quote: the decoded
/// characters, and the count consumed including the closing quote.
pub open spec fn scan_string(s: Seq<char>, i: int) -> Option<(Seq<char>, nat)>
    decreases s.len() - i,
{
    if i < 0 || i >= s.len() {
        None
    } else if s[i] == '"' {
        Some((Seq::empty(), 1nat))
    } else if s[i] == '\\' {
        if i + 1 >= s.len() {
            None
        } else if s[i + 1] == 'u' {
            match scan_unicode_escape(s, i + 2) {
                None => None,
                Some((u, m)) => match scan_string(s, i + 2 + m) {
                    None => None,
                    Some((t, n)) => Some((seq![u] + t, (n + m + 2) as nat)),
                },
            }
        } else {
            match unescape_char(s[i + 1]) {
                None => None,
                Some(u) => match scan_string(s, i + 2) {
                    None => None,
                    Some((t, n)) => Some((seq![u] + t, (n + 2) as nat)),
                },
            }
        }
    } else if (s[i] as u32) < 0x20 {
        None
    } else {
        match scan_string(s, i + 1) {
            None => None,
            Some((t, n)) => Some((seq![s[i]] + t, (n + 1) as nat)),
        }
    }
}

/// One more consumed character in front of a region's count.
pub open spec fn step_region(o: Option<nat>) -> Option<nat> {
    match o {
        None => None,
        Some(n) => Some((n + 1) as nat),
    }
}

/// Skip to just past the close of a bracketed region whose opener stood
/// before `i`, tracking bracket depth and JSON string state.
pub open spec fn region_count(s: Seq<char>, i: int, depth: nat, in_str: bool, esc: bool) -> Option<
    nat,
>
    decreases s.len() - i,
{
    if i < 0 || i >= s.len() {
        None
    } else if in_str {
        if esc {
            step_region(region_count(s, i + 1, depth, true, false))
        } else if s[i] == '\\' {
            step_region(region_count(s, i + 1, depth, true, true))
        } else if s[i] == '"' {
            step_region(region_count(s, i + 1, depth, false, false))
        } else {
            step_region(region_count(s, i + 1, depth, true, false))
        }
    } else if s[i] == '"' {
        step_region(region_count(s, i + 1, depth, true, false))
    } else if s[i] == '[' || s[i] == '{' {
        step_region(region_count(s, i + 1, (depth + 1) as nat, false, false))
    } else if s[i] == ']' || s[i] == '}' {
        if depth == 1 {
            Some(1nat)
        } else {
            step_region(region_count(s, i + 1, (depth - 1) as nat, false, false))
        }
    } else {
        step_region(region_count(s, i + 1, depth, false, false))
    }
}

/// Skip one ignored JSON value beginning at `i` (no leading whitespace).
pub open spec fn skip_value_count(s: Seq<char>, i: int) -> Option<nat> {
    if i < 0 || i >= s.len() {
        None
    } else if s[i] == '"' {
        match scan_string(s, i + 1) {
            None => None,
            Some((t, n)) => Some((n + 1) as nat),
        }
    } else if s[i] == '[' || s[i] == '{' {
        step_region(region_count(s, i + 1, 1nat, false, false))
    } else if is_scalar_char(s[i]) {
        Some(scalar_count(s, i))
    } else {
        None
    }
}

/// A member's key and colon, from a member start; the count runs to the
/// first character of the member's value.
pub open spec fn member_head(s: Seq<char>, i: int) -> Option<(Seq<char>, nat)> {
    let w1 = ws_count(s, i);
    let j = i + w1;
    if j >= s.len() || s[j] != '"' {
        None
    } else {
        match scan_string(s, j + 1) {
            None => None,
            Some((k, nk)) => {
                let j2 = j + 1 + nk;
                let w2 = ws_count(s, j2);
                let j3 = j2 + w2;
                if j3 >= s.len() || s[j3] != ':' {
                    None
                } else {
                    let w3 = ws_count(s, j3 + 1);
                    Some((k, (w1 + 1 + nk + w2 + 1 + w3) as nat))
                }
            },
        }
    }
}

/// Walk the members of a "fields" object from a member start; both the
/// "slug" and "target" members must appear exactly once, as strings.
pub open spec fn parse_fields_members(
    s: Seq<char>,
    i: int,
    slug: Option<Seq<char>>,
    target: Option<Seq<char>>,
) -> Option<(RecordView, nat)>
    decreases s.len() - i,
{
    match member_head(s, i) {
        None => None,
        Some((k, nh)) => {
            let j = i + nh;
            let vres: Option<(Option<Seq<char>>, Option<Seq<char>>, nat)> = if k == "slug"@ {
                if slug is Some {
                    None
                } else if j < s.len() && s[j] == '"' {
                    match scan_string(s, j + 1) {
                        None => None,
                        Some((t, n)) => Some((Some(t), target, (n + 1) as nat)),
                    }
                } else {
                    None
                }
            } else if k == "target"@ {
                if target is Some {
                    None
                } else if j < s.len() && s[j] == '"' {
                    match scan_string(s, j + 1) {
                        None => None,
                        Some((t, n)) => Some((slug, Some(t), (n + 1) as nat)),
                    }
                } else {
                    None
                }
            } else {
                match skip_value_count(s, j) {
                    None => None,
                    Some(n) => Some((slug, target, n)),
                }
            };
            match vres {
                None => None,
                Some((slug2, target2, nv)) => {
                    let j2 = j + nv;
                    let w = ws_count(s, j2);
                    let j3 = j2 + w;
                    if j3 >= s.len() {
                        None
                    } else if s[j3] == '}' {
                        if slug2 is Some && target2 is Some {
                            Some(
                                (
                                    RecordView { slug: slug2->0, target: target2->0 },
                                    (nh + nv + w + 1) as nat,
                                ),
                            )
                        } else {
                            None
                        }
                    } else if s[j3] == ',' {
                        match parse_fields_members(s, j3 + 1, slug2, target2) {
                            None => None,
                            Some((r, n)) => Some((r, (nh + nv + w + 1 + n) as nat)),
                        }
                    } else {
                        None
                    }
                },
            }
        },
    }
}

/// Walk the members of a record object; the "fields" member must appear
/// exactly once, as an object of the field members.
pub open spec fn parse_record_members(s: Seq<char>, i: int, found: Option<RecordView>) -> Option<
    (RecordView, nat),
>
    decreases s.len() - i,
{
    match member_head(s, i) {
        None => None,
        Some((k, nh)) => {
            let j = i + nh;
            let vres: Option<(Option<RecordView>, nat)> = if k == "fields"@ {
                if found is Some {
                    None
                } else if j < s.len() && s[j] == '{' {
                    match parse_fields_members(s, j + 1, None, None) {
                        None => None,
                        Some((r, n)) => Some((Some(r), (n + 1) as nat)),
                    }
                } else {
                    None
                }
            } else {
                match skip_value_count(s, j) {
                    None => None,
                    Some(n) => Some((found, n)),
                }
            };
            match vres {
                None => None,
                Some((found2, nv)) => {
                    let j2 = j + nv;
                    let w = ws_count(s, j2);
                    let j3 = j2 + w;
                    if j3 >= s.len() {
                        None
                    } else if s[j3] == '}' {
                        match found2 {
                            Some(r) => Some((r, (nh + nv + w + 1) as nat)),
                            None => None,
                        }
                    } else if s[j3] == ',' {
                        match parse_record_members(s, j3 + 1, found2) {
                            None => None,
                            Some((r, n)) => Some((r, (nh + nv + w + 1 + n) as nat)),
                        }
                    } else {
                        None
                    }
                },
            }
        },
    }
}

/// One record object beginning at `i` (no leading whitespace).
pub open spec fn parse_record(s: Seq<char>, i: int) -> Option<(RecordView, nat)> {
    if 0 <= i < s.len() && s[i] == '{' {
        match parse_record_members(s, i + 1, None) {
            None => None,
            Some((r, n)) => Some((r, (n + 1) as nat)),
        }
    } else {
        None
    }
}

/// The items of the records array, from just after '[' or after a comma.
pub open spec fn parse_record_items(s: Seq<char>, i: int, first: bool) -> Option<
    (Seq<RecordView>, nat),
>
    decreases s.len() - i,
{
    let w = ws_count(s, i);
    let j = i + w;
    if j >= s.len() {
        None
    } else if s[j] == ']' {
        if first {
            Some((Seq::empty(), (w + 1) as nat))
        } else {
            None
        }
    } else {
        match parse_record(s, j) {
            None => None,
            Some((r, nr)) => {
                let j2 = j + nr;
                let w2 = ws_count(s, j2);
                let j3 = j2 + w2;
                if j3 >= s.len() {
                    None
                } else if s[j3] == ']' {
                    Some((seq![r], (w + nr + w2 + 1) as nat))
                } else if s[j3] == ',' {
                    match parse_record_items(s, j3 + 1, false) {
                        None => None,
                        Some((rs, n)) => Some((seq![r] + rs, (w + nr + w2 + 1 + n) as nat)),
                    }
                } else {
                    None
                }
            },
        }
    }
}

/// Walk the members of the envelope object; the "records" member must
/// appear exactly once, as an array of record objects.
pub open spec fn parse_envelope_members(s: Seq<char>, i: int, found: Option<Seq<RecordView>>) -> Option<
    (Seq<RecordView>, nat),
>
    decreases s.len() - i,
{
    match member_head(s, i) {
        None => None,
        Some((k, nh)) => {
            let j = i + nh;
            let vres: Option<(Option<Seq<RecordView>>, nat)> = if k == "records"@ {
                if found is Some {
                    None
                } else if j < s.len() && s[j] == '[' {
                    match parse_record_items(s, j + 1, true) {
                        None => None,
                        Some((rs, n)) => Some((Some(rs), (n + 1) as nat)),
                    }
                } else {
                    None
                }
            } else {
                match skip_value_count(s, j) {
                    None => None,
                    Some(n) => Some((found, n)),
                }
            };
            match vres {
                None => None,
                Some((found2, nv)) => {
                    let j2 = j + nv;
                    let w = ws_count(s, j2);
                    let j3 = j2 + w;
                    if j3 >= s.len() {
                        None
                    } else if s[j3] == '}' {
                        match found2 {
                            Some(rs) => Some((rs, (nh + nv + w + 1) as nat)),
                            None => None,
                        }
                    } else if s[j3] == ',' {
                        match parse_envelope_members(s, j3 + 1, found2) {
                            None => None,
                            Some((rs, n)) => Some((rs, (nh + nv + w + 1 + n) as nat)),
                        }
                    } else {
                        None
                    }
                },
            }
        },
    }
}

/// The whole decode: the envelope object with nothing but whitespace
/// around it, or nothing.
pub open spec fn spec_parse_envelope(s: Seq<char>) -> Option<Seq<RecordView>> {
    let w = ws_count(s, 0);
    let j = w as int;
    if j >= s.len() || s[j] != '{' {
        None
    } else {
        match parse_envelope_members(s, j + 1, None) {
            None => None,
            Some((rs, n)) => {
                let j2 = j + 1 + n;
                let w2 = ws_count(s, j2);
                if j2 + w2 == s.len() {
                    Some(rs)
                } else {
                    None
                }
            },
        }
    }
}

// ---------------------------------------------------------------------------
// The executable decoder, mirroring the spec parser step for step.
// ---------------------------------------------------------------------------
/// The view of an optional owned string.
pub open spec fn str_oview(o: Option<String>) -> Option<Seq<char>> {
    match o {
        Some(v) => Some(v@),
        None => None,
    }
}

/// The view of an optional record.
pub open spec fn rec_oview(o: Option<Record>) -> Option<RecordView> {
    match o {
        Some(v) => Some(v@),
        None => None,
    }
}

/// The view of an optional vector of records.
pub open spec fn vec_oview(o: Option<Vec<Record>>) -> Option<Seq<RecordView>> {
    match o {
        Some(v) => Some(records_view(v@)),
        None => None,
    }
}

/// What a sequence of records reads as.
pub open spec fn records_view(v: Seq<Record>) -> Seq<RecordView> {
    Seq::new(v.len(), |i: int| v[i]@)
}

fn is_ws_x(c: char) -> (r: bool)
    ensures
        r == is_ws(c),
{
    c == ' ' || c == '\t' || c == '\n' || c == '\r'
}

fn is_scalar_char_x(c: char) -> (r: bool)
    ensures
        r == is_scalar_char(c),
{
    let u = c as u32;
    (48 <= u && u <= 57) || (97 <= u && u <= 122) || (65 <= u && u <= 90) || c == '+' || c == '-'
        || c == '.'
}

fn unescape_char_x(c: char) -> (r: Option<char>)
    ensures
        r == unescape_char(c),
{
    if c == '"' {
        Some('"')
    } else if c == '\\' {
        Some('\\')
    } else if c == '/' {
        Some('/')
    } else if c == 'n' {
        Some('\n')
    } else if c == 't' {
        Some('\t')
    } else if c == 'r' {
        Some('\r')
    } else if c == 'b' {
        Some('\u{0008}')
    } else if c == 'f' {
        Some('\u{000C}')
    } else {
        None
    }
}

fn hex_val_x(c: char) -> (r: Option<u8>)
    ensures
        r is Some <==> hex_val(c) >= 0,
        r matches Some(v) ==> v as int == hex_val(c),
{
    let u = c as u32;
    if 48 <= u && u <= 57 {
        Some((u - 48) as u8)
    } else if 65 <= u && u <= 70 {
        Some((u - 55) as u8)
    } else if 97 <= u && u <= 102 {
        Some((u - 87) as u8)
    } else {
        None
    }
}

fn hex4_x(s: &str, i: usize) -> (r: Option<u32>)
    requires
        i <= s@.len(),
    ensures
        r is Some <==> hex4_val(s@, i as int) >= 0,
        r matches Some(v) ==> v as int == hex4_val(s@, i as int) && i + 4 <= s@.len(),
{
    let len = s.unicode_len();
    if len - i < 4 {
        return None;
    }
    let a = hex_val_x(s.get_char(i));
    let b = hex_val_x(s.get_char(i + 1));
    let c = hex_val_x(s.get_char(i + 2));
    let d = hex_val_x(s.get_char(i + 3));
    match (a, b, c, d) {
        (Some(a), Some(b), Some(c), Some(d)) => Some(
            a as u32 * 4096 + b as u32 * 256 + c as u32 * 16 + d as u32,
        ),
        _ => None,
    }
}

/// Relies on `char::from_u32`: `Some` exactly for values that are unicode
/// scalars (not surrogate halves, not above the highest code point), and
/// then the character with exactly that value.
#[verifier::external_body]
fn char_from_u32(v: u32) -> (r: Option<char>)
    ensures
        r is Some <==> (v < 0xD800 || (0xE000 <= v && v <= 0x10FFFF)),
        r matches Some(c) ==> c as u32 == v,
{
    char::from_u32(v)
}

fn scan_unicode_x(s: &str, i: usize) -> (r: Option<(char, usize)>)
    requires
        i <= s@.len(),
    ensures
        r is Some <==> scan_unicode_escape(s@, i as int) is Some,
        r matches Some((c, m)) ==> scan_unicode_escape(s@, i as int) == Some((c, m as nat)) && i
            + m <= s@.len(),
{
    let len = s.unicode_len();
    match hex4_x(s, i) {
        None => None,
        Some(v) => {
            if 0xD800 <= v && v <= 0xDBFF {
                if len - i >= 6 && s.get_char(i + 4) == '\\' && s.get_char(i + 5) == 'u' {
                    match hex4_x(s, i + 6) {
                        None => None,
                        Some(w) => {
                            if 0xDC00 <= w && w <= 0xDFFF {
                                let code: u32 = 0x10000 + (v - 0xD800) * 0x400 + (w - 0xDC00);
                                match char_from_u32(code) {
                                    Some(c) => {
                                        proof {
                                            vstd::utf8::char_u32_cast(c, code);
                                        }
                                        Some((c, 10))
                                    },
                                    None => {
                                        proof {
                                            assert(false);
                                        }
                                        None
                                    },
                                }
                            } else {
                                None
                            }
                        },
                    }
                } else {
                    None
                }
            } else if 0xDC00 <= v && v <= 0xDFFF {
                None
            } else {
                match char_from_u32(v) {
                    Some(c) => {
                        proof {
                            vstd::utf8::char_u32_cast(c, v);
                        }
                        Some((c, 4))
                    },
                    None => {
                        proof {
                            assert(false);
                        }
                        None
                    },
                }
            }
        },
    }
}

fn ws_count_x(s: &str, i: usize) -> (n: usize)
    requires
        i <= s@.len(),
    ensures
        n == ws_count(s@, i as int),
        i + n <= s@.len(),
    decreases s@.len() - i,
{
    let len = s.unicode_len();
    if i < len {
        let c = s.get_char(i);
        if is_ws_x(c) {
            let n2 = ws_count_x(s, i + 1);
            return n2 + 1;
        }
    }
    0
}

fn scalar_count_x(s: &str, i: usize) -> (n: usize)
    requires
        i <= s@.len(),
    ensures
        n == scalar_count(s@, i as int),
        i + n <= s@.len(),
    decreases s@.len() - i,
{
    let len = s.unicode_len();
    if i < len {
        let c = s.get_char(i);
        if is_scalar_char_x(c) {
            let n2 = scalar_count_x(s, i + 1);
            return n2 + 1;
        }
    }
    0
}

fn scan_string_x(s: &str, i: usize) -> (r: Option<(String, usize)>)
    requires
        i <= s@.len(),
    ensures
        r is Some <==> scan_string(s@, i as int) is Some,
        r matches Some((t, n)) ==> scan_string(s@, i as int) == Some((t@, n as nat)) && i + n
            <= s@.len(),
    decreases s@.len() - i,
{
    let len = s.unicode_len();
    if i >= len {
        return None;
    }
    let c = s.get_char(i);
    if c == '"' {
        Some((String::new(), 1))
    } else if c == '\\' {
        if i + 1 >= len {
            return None;
        }
        let e = s.get_char(i + 1);
        if e == 'u' {
            match scan_unicode_x(s, i + 2) {
                None => None,
                Some((u, m)) => {
                    match scan_string_x(s, i + 2 + m) {
                        None => None,
                        Some((t, n)) => {
                            let mut out = String::new();
                            push_char(&mut out, u);
                            out.append(t.as_str());
                            proof {
                                assert(out@ =~= seq![u] + t@);
                            }
                            Some((out, n + m + 2))
                        },
                    }
                },
            }
        } else {
            match unescape_char_x(e) {
                None => None,
                Some(u) => {
                    match scan_string_x(s, i + 2) {
                        None => None,
                        Some((t, n)) => {
                            let mut out = String::new();
                            push_char(&mut out, u);
                            out.append(t.as_str());
                            proof {
                                assert(out@ =~= seq![u] + t@);
                            }
                            Some((out, n + 2))
                        },
                    }
                },
            }
        }
    } else if (c as u32) < 0x20 {
        None
    } else {
        match scan_string_x(s, i + 1) {
            None => None,
            Some((t, n)) => {
                let mut out = String::new();
                push_char(&mut out, c);
                out.append(t.as_str());
                proof {
                    assert(out@ =~= seq![c] + t@);
                }
                Some((out, n + 1))
            },
        }
    }
}

// Depth is carried wider than usize: it is bounded by the position, so
// at the widest it stays clear of overflow when a bracket deepens it.
fn region_count_x(s: &str, i: usize, depth: u128, in_str: bool, esc: bool) -> (r: Option<usize>)
    requires
        i <= s@.len(),
        1 <= depth,
        depth <= i as int + 1,
    ensures
        r is Some <==> region_count(s@, i as int, depth as nat, in_str, esc) is Some,
        r matches Some(n) ==> region_count(s@, i as int, depth as nat, in_str, esc) == Some(
            n as nat,
        ) && i + n <= s@.len(),
    decreases s@.len() - i,
{
    let len = s.unicode_len();
    if i >= len {
        return None;
    }
    let c = s.get_char(i);
    let step: Option<usize> = if in_str {
        if esc {
            region_count_x(s, i + 1, depth, true, false)
        } else if c == '\\' {
            region_count_x(s, i + 1, depth, true, true)
        } else if c == '"' {
            region_count_x(s, i + 1, depth, false, false)
        } else {
            region_count_x(s, i + 1, depth, true, false)
        }
    } else if c == '"' {
        region_count_x(s, i + 1, depth, true, false)
    } else if c == '[' || c == '{' {
        region_count_x(s, i + 1, depth + 1, false, false)
    } else if c == ']' || c == '}' {
        if depth == 1 {
            return Some(1);
        } else {
            region_count_x(s, i + 1, depth - 1, false, false)
        }
    } else {
        region_count_x(s, i + 1, depth, false, false)
    };
    match step {
        None => None,
        Some(n) => Some(n + 1),
    }
}

fn skip_value_x(s: &str, i: usize) -> (r: Option<usize>)
    requires
        i <= s@.len(),
    ensures
        r is Some <==> skip_value_count(s@, i as int) is Some,
        r matches Some(n) ==> skip_value_count(s@, i as int) == Some(n as nat) && i + n
            <= s@.len(),
{
    let len = s.unicode_len();
    if i >= len {
        return None;
    }
    let c = s.get_char(i);
    if c == '"' {
        match scan_string_x(s, i + 1) {
            None => None,
            Some((_t, n)) => Some(n + 1),
        }
    } else if c == '[' || c == '{' {
        match region_count_x(s, i + 1, 1, false, false) {
            None => None,
            Some(n) => Some(n + 1),
        }
    } else if is_scalar_char_x(c) {
        Some(scalar_count_x(s, i))
    } else {
        None
    }
}

/// Whether an owned key reads as the given literal.
fn key_is(k: &String, lit: &str) -> (r: bool)
    ensures
        r == (k@ == lit@),
{
    let l = String::from_str(lit);
    *k == l
}

fn member_head_x(s: &str, i: usize) -> (r: Option<(String, usize)>)
    requires
        i <= s@.len(),
    ensures
        r is Some <==> member_head(s@, i as int) is Some,
        r matches Some((k, nh)) ==> member_head(s@, i as int) == Some((k@, nh as nat)) && i + nh
            <= s@.len(),
{
    let len = s.unicode_len();
    let w1 = ws_count_x(s, i);
    let j = i + w1;
    if j >= len {
        return None;
    }
    if s.get_char(j) != '"' {
        return None;
    }
    match scan_string_x(s, j + 1) {
        None => None,
        Some((k, nk)) => {
            let j2 = j + 1 + nk;
            let w2 = ws_count_x(s, j2);
            let j3 = j2 + w2;
            if j3 >= len {
                return None;
            }
            if s.get_char(j3) != ':' {
                return None;
            }
            let w3 = ws_count_x(s, j3 + 1);
            Some((k, w1 + 1 + nk + w2 + 1 + w3))
        },
    }
}

fn parse_fields_members_x(s: &str, i: usize, slug: Option<String>, target: Option<String>) -> (r:
    Option<((String, String), usize)>)
    requires
        i <= s@.len(),
    ensures
        r is Some <==> parse_fields_members(s@, i as int, str_oview(slug), str_oview(target))
            is Some,
        r matches Some((p, n)) ==> parse_fields_members(s@, i as int, str_oview(slug), str_oview(target))
            == Some((RecordView { slug: p.0@, target: p.1@ }, n as nat)) && i + n <= s@.len(),
    decreases s@.len() - i,
{
    let len = s.unicode_len();
    match member_head_x(s, i) {
        None => None,
        Some((k, nh)) => {
            let j = i + nh;
            let vres: Option<(Option<String>, Option<String>, usize)> = if key_is(&k, "slug") {
                if slug.is_some() {
                    None
                } else if j < len && s.get_char(j) == '"' {
                    match scan_string_x(s, j + 1) {
                        None => None,
                        Some((t, n)) => Some((Some(t), target, n + 1)),
                    }
                } else {
                    None
                }
            } else if key_is(&k, "target") {
                if target.is_some() {
                    None
                } else if j < len && s.get_char(j) == '"' {
                    match scan_string_x(s, j + 1) {
                        None => None,
                        Some((t, n)) => Some((slug, Some(t), n + 1)),
                    }
                } else {
                    None
                }
            } else {
                match skip_value_x(s, j) {
                    None => None,
                    Some(n) => Some((slug, target, n)),
                }
            };
            match vres {
                None => None,
                Some((slug2, target2, nv)) => {
                    let j2 = j + nv;
                    let w = ws_count_x(s, j2);
                    let j3 = j2 + w;
                    if j3 >= len {
                        return None;
                    }
                    let c = s.get_char(j3);
                    if c == '}' {
                        match (slug2, target2) {
                            (Some(sv), Some(tv)) => Some(((sv, tv), nh + nv + w + 1)),
                            _ => None,
                        }
                    } else if c == ',' {
                        match parse_fields_members_x(s, j3 + 1, slug2, target2) {
                            None => None,
                            Some((p, n)) => Some((p, nh + nv + w + 1 + n)),
                        }
                    } else {
                        None
                    }
                },
            }
        },
    }
}

fn parse_record_members_x(s: &str, i: usize, found: Option<Record>) -> (r: Option<
    (Record, usize),
>)
    requires
        i <= s@.len(),
    ensures
        r is Some <==> parse_record_members(s@, i as int, rec_oview(found)) is Some,
        r matches Some((rec, n)) ==> parse_record_members(s@, i as int, rec_oview(found)) == Some(
            (rec@, n as nat),
        ) && i + n <= s@.len(),
    decreases s@.len() - i,
{
    let len = s.unicode_len();
    match member_head_x(s, i) {
        None => None,
        Some((k, nh)) => {
            let j = i + nh;
            let vres: Option<(Option<Record>, usize)> = if key_is(&k, "fields") {
                if found.is_some() {
                    None
                } else if j < len && s.get_char(j) == '{' {
                    match parse_fields_members_x(s, j + 1, None, None) {
                        None => None,
                        Some(((sv, tv), n)) => Some(
                            (Some(Record { fields: RecordField { slug: sv, target: tv } }), n + 1),
                        ),
                    }
                } else {
                    None
                }
            } else {
                match skip_value_x(s, j) {
                    None => None,
                    Some(n) => Some((found, n)),
                }
            };
            match vres {
                None => None,
                Some((found2, nv)) => {
                    let j2 = j + nv;
                    let w = ws_count_x(s, j2);
                    let j3 = j2 + w;
                    if j3 >= len {
                        return None;
                    }
                    let c = s.get_char(j3);
                    if c == '}' {
                        match found2 {
                            Some(rec) => Some((rec, nh + nv + w + 1)),
                            None => None,
                        }
                    } else if c == ',' {
                        match parse_record_members_x(s, j3 + 1, found2) {
                            None => None,
                            Some((rec, n)) => Some((rec, nh + nv + w + 1 + n)),
                        }
                    } else {
                        None
                    }
                },
            }
        },
    }
}

fn parse_record_x(s: &str, i: usize) -> (r: Option<(Record, usize)>)
    requires
        i <= s@.len(),
    ensures
        r is Some <==> parse_record(s@, i as int) is Some,
        r matches Some((rec, n)) ==> parse_record(s@, i as int) == Some((rec@, n as nat)) && i + n
            <= s@.len(),
{
    let len = s.unicode_len();
    if i < len && s.get_char(i) == '{' {
        match parse_record_members_x(s, i + 1, None) {
            None => None,
            Some((rec, n)) => Some((rec, n + 1)),
        }
    } else {
        None
    }
}

fn parse_record_items_x(s: &str, i: usize, first: bool) -> (r: Option<(Vec<Record>, usize)>)
    requires
        i <= s@.len(),
    ensures
        r is Some <==> parse_record_items(s@, i as int, first) is Some,
        r matches Some((v, n)) ==> parse_record_items(s@, i as int, first) == Some(
            (records_view(v@), n as nat),
        ) && i + n <= s@.len(),
    decreases s@.len() - i,
{
    let len = s.unicode_len();
    let w = ws_count_x(s, i);
    let j = i + w;
    if j >= len {
        return None;
    }
    let c = s.get_char(j);
    if c == ']' {
        if first {
            let v: Vec<Record> = Vec::new();
            proof {
                assert(records_view(v@) =~= Seq::<RecordView>::empty());
            }
            Some((v, w + 1))
        } else {
            None
        }
    } else {
        match parse_record_x(s, j) {
            None => None,
            Some((rec, nr)) => {
                let j2 = j + nr;
                let w2 = ws_count_x(s, j2);
                let j3 = j2 + w2;
                if j3 >= len {
                    return None;
                }
                let c2 = s.get_char(j3);
                if c2 == ']' {
                    let mut v: Vec<Record> = Vec::new();
                    v.push(rec);
                    proof {
                        assert(records_view(v@) =~= seq![rec@]);
                    }
                    Some((v, w + nr + w2 + 1))
                } else if c2 == ',' {
                    match parse_record_items_x(s, j3 + 1, false) {
                        None => None,
                        Some((rest, n)) => {
                            let ghost old_rest = rest@;
                            let mut v = rest;
                            v.insert(0, rec);
                            proof {
                                assert(records_view(v@) =~= seq![rec@] + records_view(old_rest));
                            }
                            Some((v, w + nr + w2 + 1 + n))
                        },
                    }
                } else {
                    None
                }
            },
        }
    }
}

fn parse_envelope_members_x(s: &str, i: usize, found: Option<Vec<Record>>) -> (r: Option<
    (Vec<Record>, usize),
>)
    requires
        i <= s@.len(),
    ensures
        r is Some <==> parse_envelope_members(s@, i as int, vec_oview(found)) is Some,
        r matches Some((v, n)) ==> parse_envelope_members(s@, i as int, vec_oview(found)) == Some(
            (records_view(v@), n as nat),
        ) && i + n <= s@.len(),
    decreases s@.len() - i,
{
    let len = s.unicode_len();
    match member_head_x(s, i) {
        None => None,
        Some((k, nh)) => {
            let j = i + nh;
            let vres: Option<(Option<Vec<Record>>, usize)> = if key_is(&k, "records") {
                if found.is_some() {
                    None
                } else if j < len && s.get_char(j) == '[' {
                    match parse_record_items_x(s, j + 1, true) {
                        None => None,
                        Some((v, n)) => Some((Some(v), n + 1)),
                    }
                } else {
                    None
                }
            } else {
                match skip_value_x(s, j) {
                    None => None,
                    Some(n) => Some((found, n)),
                }
            };
            match vres {
                None => None,
                Some((found2, nv)) => {
                    let j2 = j + nv;
                    let w = ws_count_x(s, j2);
                    let j3 = j2 + w;
                    if j3 >= len {
                        return None;
                    }
                    let c = s.get_char(j3);
                    if c == '}' {
                        match found2 {
                            Some(v) => Some((v, nh + nv + w + 1)),
                            None => None,
                        }
                    } else if c == ',' {
                        match parse_envelope_members_x(s, j3 + 1, found2) {
                            None => None,
                            Some((v, n)) => Some((v, nh + nv + w + 1 + n)),
                        }
                    } else {
                        None
                    }
                },
            }
        },
    }
}

/// Decode a list envelope from JSON text: the records it holds, or the
/// malformed-payload cause. Succeeds exactly when the spec-level parser
/// accepts the text.
pub fn decode_envelope(s: &str) -> (r: Result<crate::codec::AirtableResponse, ParseFailure>)
    ensures
        r is Ok <==> spec_parse_envelope(s@) is Some,
        r matches Ok(resp) ==> spec_parse_envelope(s@) == Some(resp@),
        r is Err ==> r->Err_0 == ParseFailure::Malformed,
{
    let len = s.unicode_len();
    let w = ws_count_x(s, 0);
    if w >= len {
        return Err(ParseFailure::Malformed);
    }
    if s.get_char(w) != '{' {
        return Err(ParseFailure::Malformed);
    }
    match parse_envelope_members_x(s, w + 1, None) {
        None => Err(ParseFailure::Malformed),
        Some((v, n)) => {
            let j2 = w + 1 + n;
            let w2 = ws_count_x(s, j2);
            if j2 + w2 == len {
                let resp = crate::codec::AirtableResponse { records: v };
                proof {
                    assert(resp@ =~= records_view(resp.records@));
                }
                Ok(resp)
            } else {
                Err(ParseFailure::Malformed)
            }
        },
    }
}

} // verus!
