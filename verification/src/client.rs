//! The record client: request shaping and response interpretation.
//!
//! The network exchange itself is not here: the binary around the library
//! sends the requests this module shapes, and hands response bodies back
//! in as plain strings. Everything on either side of the exchange — the
//! exact URLs, the authorization header, the create body, and what each
//! operation makes of a response body — is stated and checked.
//!
//! User-supplied search input is embedded safely: quotes and backslashes
//! are escaped for the filter formula, and the whole formula is
//! percent-encoded into the query string, characters beyond ASCII byte by
//! byte of their UTF-8 encoding.

use vstd::prelude::*;

use crate::codec::encode_envelope_view;
use crate::codec::encode_request;
use crate::codec::escape_string;
use crate::codec::hex_digit;
use crate::codec::hex_digit_x;
use crate::codec::push_char;
use crate::codec::AirtableRequest;
use crate::codec::Record;
use crate::codec::RecordView;
use crate::config::AirtableConfig;
use crate::decode::decode_envelope;
use crate::decode::records_view;
use crate::decode::spec_parse_envelope;
use crate::error::ClientError;
use crate::error::ParseFailure;

verus! {

// ---------------------------------------------------------------------------
// Percent-encoding of the filter formula.
// ---------------------------------------------------------------------------
/// An ASCII character that stands as itself in a query string.
pub open spec fn is_unreserved(c: char) -> bool {
    (48 <= c as u32 && c as u32 <= 57) || (65 <= c as u32 && c as u32 <= 90) || (97 <= c as u32
        && c as u32 <= 122) || c == '-' || c == '.' || c == '_' || c == '~'
}

/// One percent-encoded byte.
pub open spec fn pct_byte(b: int) -> Seq<char> {
    seq!['%', hex_digit(b / 16), hex_digit(b % 16)]
}

/// One character as it stands in the query string: unreserved ASCII as
/// itself, every other character percent-encoded, byte by byte of its
/// UTF-8 encoding.
pub open spec fn pct_char(c: char) -> Seq<char> {
    let v = c as u32 as int;
    if is_unreserved(c) {
        seq![c]
    } else if v < 0x80 {
        pct_byte(v)
    } else if v < 0x800 {
        pct_byte(0xC0 + v / 64) + pct_byte(0x80 + v % 64)
    } else if v < 0x10000 {
        pct_byte(0xE0 + v / 4096) + pct_byte(0x80 + (v / 64) % 64) + pct_byte(0x80 + v % 64)
    } else {
        pct_byte(0xF0 + v / 262144) + pct_byte(0x80 + (v / 4096) % 64) + pct_byte(
            0x80 + (v / 64) % 64,
        ) + pct_byte(0x80 + v % 64)
    }
}

/// A whole value as it stands in the query string.
pub open spec fn pct_encode(s: Seq<char>) -> Seq<char>
    decreases s.len(),
{
    if s.len() == 0 {
        Seq::empty()
    } else {
        pct_char(s[0]) + pct_encode(s.skip(1))
    }
}

/// Appending one character extends the encoded text by that character's
/// encoding.
pub proof fn lemma_pct_snoc(s: Seq<char>, c: char)
    ensures
        pct_encode(s.push(c)) == pct_encode(s) + pct_char(c),
    decreases s.len(),
{
    if s.len() == 0 {
        assert(s.push(c) =~= seq![c]);
        assert(s.push(c).skip(1) =~= Seq::<char>::empty());
        assert(s.push(c)[0] == c);
        assert(pct_encode(s.push(c).skip(1)) == Seq::<char>::empty());
        assert(pct_encode(s.push(c)) == pct_char(c) + pct_encode(s.push(c).skip(1)));
        assert(pct_encode(s.push(c)) =~= pct_encode(s) + pct_char(c));
    } else {
        assert(s.push(c).skip(1) =~= s.skip(1).push(c));
        lemma_pct_snoc(s.skip(1), c);
        assert(s.push(c)[0] == s[0]);
        assert(pct_encode(s.push(c)) == pct_char(s[0]) + pct_encode(s.skip(1).push(c)));
        assert(pct_encode(s.skip(1).push(c)) == pct_encode(s.skip(1)) + pct_char(c));
        assert(pct_encode(s.push(c)) =~= pct_encode(s) + pct_char(c));
    }
}

fn is_unreserved_x(c: char) -> (r: bool)
    ensures
        r == is_unreserved(c),
{
    let u = c as u32;
    (48 <= u && u <= 57) || (65 <= u && u <= 90) || (97 <= u && u <= 122) || c == '-' || c == '.'
        || c == '_' || c == '~'
}

/// Append one percent-encoded byte to `out`.
fn push_pct_byte(out: &mut String, b: u32)
    requires
        b < 256,
    ensures
        final(out)@ == old(out)@ + pct_byte(b as int),
{
    push_char(out, '%');
    push_char(out, hex_digit_x(b / 16));
    push_char(out, hex_digit_x(b % 16));
    proof {
        assert(out@ =~= old(out)@ + pct_byte(b as int));
    }
}

/// Append a value to `out` in its percent-encoded form.
fn append_pct(out: &mut String, s: &str)
    ensures
        final(out)@ == old(out)@ + pct_encode(s@),
{
    let len = s.unicode_len();
    let mut i: usize = 0;
    while i < len
        invariant
            i <= len,
            len == s@.len(),
            out@ == old(out)@ + pct_encode(s@.take(i as int)),
        decreases len - i,
    {
        let c = s.get_char(i);
        let u = c as u32;
        proof {
            vstd::utf8::char_is_scalar(c);
        }
        if is_unreserved_x(c) {
            push_char(out, c);
            proof {
                assert(out@ =~= old(out)@ + pct_encode(s@.take(i as int)) + pct_char(c));
            }
        } else if u < 0x80 {
            push_pct_byte(out, u);
            proof {
                assert(out@ =~= old(out)@ + pct_encode(s@.take(i as int)) + pct_char(c));
            }
        } else if u < 0x800 {
            push_pct_byte(out, 0xC0 + u / 64);
            push_pct_byte(out, 0x80 + u % 64);
            proof {
                assert(out@ =~= old(out)@ + pct_encode(s@.take(i as int)) + pct_char(c));
            }
        } else if u < 0x10000 {
            push_pct_byte(out, 0xE0 + u / 4096);
            push_pct_byte(out, 0x80 + (u / 64) % 64);
            push_pct_byte(out, 0x80 + u % 64);
            proof {
                assert(out@ =~= old(out)@ + pct_encode(s@.take(i as int)) + pct_char(c));
            }
        } else {
            push_pct_byte(out, 0xF0 + u / 262144);
            push_pct_byte(out, 0x80 + (u / 4096) % 64);
            push_pct_byte(out, 0x80 + (u / 64) % 64);
            push_pct_byte(out, 0x80 + u % 64);
            proof {
                assert(out@ =~= old(out)@ + pct_encode(s@.take(i as int)) + pct_char(c));
            }
        }
        proof {
            assert(s@.take(i + 1) =~= s@.take(i as int).push(s@[i as int]));
            lemma_pct_snoc(s@.take(i as int), s@[i as int]);
            assert(out@ =~= old(out)@ + pct_encode(s@.take(i + 1)));
        }
        i = i + 1;
    }
    proof {
        assert(s@.take(len as int) =~= s@);
    }
}

// ---------------------------------------------------------------------------
// What each request reads as.
// ---------------------------------------------------------------------------
/// The fixed prefix of every endpoint.
pub open spec fn api_prefix() -> Seq<char> {
    "https://api.airtable.com/v0/"@
}

/// The list endpoint, with its fixed page bound of one hundred rows.
pub open spec fn list_url_view(base: Seq<char>, table: Seq<char>) -> Seq<char> {
    api_prefix() + base + "/"@ + table + "/?maxRecords=100"@
}

/// The search formula around an escaped query.
pub open spec fn search_formula_view(query: Seq<char>) -> Seq<char> {
    "SEARCH(\""@ + escape_string(query) + "\", slug)"@
}

/// The filtered-list endpoint: the list endpoint plus the percent-encoded
/// search formula.
pub open spec fn find_url_view(base: Seq<char>, table: Seq<char>, query: Seq<char>) -> Seq<char> {
    list_url_view(base, table) + "&filterByFormula="@ + pct_encode(search_formula_view(query))
}

/// The create endpoint.
pub open spec fn create_url_view(base: Seq<char>, table: Seq<char>) -> Seq<char> {
    api_prefix() + base + "/"@ + table + "/"@
}

/// The authorization header value.
pub open spec fn bearer_view(token: Seq<char>) -> Seq<char> {
    "Bearer "@ + token
}

// ---------------------------------------------------------------------------
// The client.
// ---------------------------------------------------------------------------
/// The record client: holds the configuration, shapes requests, and
/// interprets response bodies. Stateless across calls.
#[derive(Debug, Clone)]
pub struct AirtableClient {
    config: AirtableConfig,
}

impl AirtableClient {
    /// The configuration this client was built from.
    pub closed spec fn spec_config(&self) -> AirtableConfig {
        self.config
    }

    /// Build a client over a resolved configuration.
    pub fn new(config: AirtableConfig) -> (r: AirtableClient)
        ensures
            r.spec_config() == config,
    {
        AirtableClient { config }
    }

    /// Borrow the configuration.
    pub fn config(&self) -> (r: &AirtableConfig)
        ensures
            *r == self.spec_config(),
    {
        &self.config
    }

    /// The URL of the list operation.
    pub fn list_url(&self) -> (r: String)
        ensures
            r@ == list_url_view(self.spec_config().base@, self.spec_config().table@),
    {
        let mut out = String::from_str("https://api.airtable.com/v0/");
        out.append(self.config.base.as_str());
        out.append("/");
        out.append(self.config.table.as_str());
        out.append("/?maxRecords=100");
        out
    }

    /// The URL of the filtered-list operation behind `find_by_slug`: the
    /// query is formula-escaped and percent-encoded before it is embedded.
    pub fn find_url(&self, query: &str) -> (r: String)
        ensures
            r@ == find_url_view(
                self.spec_config().base@,
                self.spec_config().table@,
                query@,
            ),
    {
        let mut formula = String::from_str("SEARCH(\"");
        crate::codec::append_escaped(&mut formula, query);
        formula.append("\", slug)");
        proof {
            assert(formula@ =~= search_formula_view(query@));
        }
        let mut out = self.list_url();
        out.append("&filterByFormula=");
        append_pct(&mut out, formula.as_str());
        proof {
            assert(out@ =~= find_url_view(
                self.spec_config().base@,
                self.spec_config().table@,
                query@,
            ));
        }
        out
    }

    /// The URL of the create operation.
    pub fn create_url(&self) -> (r: String)
        ensures
            r@ == create_url_view(self.spec_config().base@, self.spec_config().table@),
    {
        let mut out = String::from_str("https://api.airtable.com/v0/");
        out.append(self.config.base.as_str());
        out.append("/");
        out.append(self.config.table.as_str());
        out.append("/");
        out
    }

    /// The authorization header value carrying the bearer credential.
    pub fn authorization(&self) -> (r: String)
        ensures
            r@ == bearer_view(self.spec_config().secret_token@),
    {
        let mut out = String::from_str("Bearer ");
        out.append(self.config.secret_token.as_str());
        out
    }
}

/// The JSON body of a create request: an envelope holding exactly the one
/// record to create.
pub fn create_body(slug: &str, target: &str) -> (r: String)
    ensures
        r@ == encode_envelope_view(
            seq![RecordView { slug: slug@, target: target@ }],
        ),
{
    let mut records: Vec<Record> = Vec::new();
    records.push(Record::new(String::from_str(slug), String::from_str(target)));
    let req = AirtableRequest { records };
    proof {
        assert(req@ =~= seq![RecordView { slug: slug@, target: target@ }]);
    }
    encode_request(&req)
}

/// What the list operation makes of a response body: every record of the
/// decoded envelope, in the order the backend sent them, or the
/// malformed-payload failure.
pub fn interpret_list_body(body: &str) -> (r: Result<Vec<Record>, ClientError>)
    ensures
        r is Ok <==> spec_parse_envelope(body@) is Some,
        r matches Ok(v) ==> spec_parse_envelope(body@) == Some(records_view(v@)),
        r is Err ==> r->Err_0 == ClientError::ParseError(ParseFailure::Malformed),
{
    match decode_envelope(body) {
        Ok(resp) => {
            proof {
                assert(resp@ =~= records_view(resp.records@));
            }
            Ok(resp.records)
        },
        Err(_) => Err(ClientError::ParseError(ParseFailure::Malformed)),
    }
}

/// What `find_by_slug` and `create` make of a response body, which they
/// interpret identically: the first record of the decoded envelope; the
/// not-found-shaped payload failure when the envelope holds zero records,
/// never a success with a default record; the malformed-payload failure
/// when the body does not decode.
pub fn interpret_record_body(body: &str) -> (r: Result<Record, ClientError>)
    ensures
        r is Ok <==> spec_parse_envelope(body@) is Some && spec_parse_envelope(body@)->0.len()
            > 0,
        r matches Ok(rec) ==> rec@ == spec_parse_envelope(body@)->0[0],
        spec_parse_envelope(body@) is None ==> r == Err::<Record, ClientError>(
            ClientError::ParseError(ParseFailure::Malformed),
        ),
        spec_parse_envelope(body@) is Some && spec_parse_envelope(body@)->0.len() == 0 ==> r
            == Err::<Record, ClientError>(ClientError::ParseError(ParseFailure::NotFound)),
{
    match decode_envelope(body) {
        Err(_) => Err(ClientError::ParseError(ParseFailure::Malformed)),
        Ok(resp) => {
            let mut records = resp.records;
            if records.len() == 0 {
                Err(ClientError::ParseError(ParseFailure::NotFound))
            } else {
                let rec = records.remove(0);
                Ok(rec)
            }
        },
    }
}

} // verus!
