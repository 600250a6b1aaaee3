//! Configuration: the three settings every request needs.
//!
//! Resolution itself is pure: explicit values and ambient (environment)
//! values come in as plain `Option<String>`s, so the precedence rule can be
//! stated and checked here while the binary around the library does the
//! actual environment lookup.

use vstd::prelude::*;

verus! {

/// The immutable bundle of settings the record client works from:
/// a bearer credential, a collection (base) id and a table id.
#[derive(Debug, Clone)]
pub struct AirtableConfig {
    pub secret_token: String,
    pub base: String,
    pub table: String,
}

/// Which required setting was absent from both the explicit input and the
/// ambient values. Resolution reports the first gap in field order.
#[derive(Debug, Clone, PartialEq, Eq, Structural)]
pub enum MissingSetting {
    SecretToken,
    Base,
    Table,
}

impl MissingSetting {
    /// The environment variable that would have supplied the setting,
    /// for a startup diagnostic.
    pub fn variable_name(&self) -> (r: &'static str)
        ensures
            *self == MissingSetting::SecretToken ==> r@ == "AIRTABLE_SECRET_TOKEN"@,
            *self == MissingSetting::Base ==> r@ == "AIRTABLE_BASE"@,
            *self == MissingSetting::Table ==> r@ == "AIRTABLE_TABLE"@,
    {
        match self {
            MissingSetting::SecretToken => "AIRTABLE_SECRET_TOKEN",
            MissingSetting::Base => "AIRTABLE_BASE",
            MissingSetting::Table => "AIRTABLE_TABLE",
        }
    }
}

impl AirtableConfig {
    /// Bundle three already-resolved settings.
    pub fn new(secret_token: String, base: String, table: String) -> (r: AirtableConfig)
        ensures
            r.secret_token@ == secret_token@,
            r.base@ == base@,
            r.table@ == table@,
    {
        AirtableConfig { secret_token, base, table }
    }

    /// Resolve the configuration from explicit overrides and ambient
    /// (environment) values. Per field, an explicit value always wins; the
    /// ambient value is the fallback; if both are absent the whole
    /// resolution fails, naming the first missing setting in field order.
    pub fn resolve(
        secret_token: Option<String>,
        base: Option<String>,
        table: Option<String>,
        ambient_secret_token: Option<String>,
        ambient_base: Option<String>,
        ambient_table: Option<String>,
    ) -> (r: Result<AirtableConfig, MissingSetting>)
        ensures
            r is Ok <==> (secret_token is Some || ambient_secret_token is Some)
                && (base is Some || ambient_base is Some)
                && (table is Some || ambient_table is Some),
            r is Ok ==> r->Ok_0.secret_token@ == resolved_view(secret_token, ambient_secret_token),
            r is Ok ==> r->Ok_0.base@ == resolved_view(base, ambient_base),
            r is Ok ==> r->Ok_0.table@ == resolved_view(table, ambient_table),
            r is Err ==> (r->Err_0 == MissingSetting::SecretToken <==> secret_token is None
                && ambient_secret_token is None),
            r is Err && r->Err_0 != MissingSetting::SecretToken ==> (r->Err_0
                == MissingSetting::Base <==> base is None && ambient_base is None),
            r is Err && r->Err_0 == MissingSetting::Table ==> table is None
                && ambient_table is None,
    {
        let secret_token = match resolve_setting(secret_token, ambient_secret_token) {
            Some(v) => v,
            None => {
                return Err(MissingSetting::SecretToken);
            },
        };
        let base = match resolve_setting(base, ambient_base) {
            Some(v) => v,
            None => {
                return Err(MissingSetting::Base);
            },
        };
        let table = match resolve_setting(table, ambient_table) {
            Some(v) => v,
            None => {
                return Err(MissingSetting::Table);
            },
        };
        Ok(AirtableConfig { secret_token, base, table })
    }
}

/// What a resolved setting reads as: the explicit value if one was given,
/// otherwise the ambient one.
pub open spec fn resolved_view(explicit: Option<String>, ambient: Option<String>) -> Seq<char> {
    if explicit is Some {
        explicit->0@
    } else {
        ambient->0@
    }
}

/// One setting's resolution: explicit wins, ambient is the fallback.
pub fn resolve_setting(explicit: Option<String>, ambient: Option<String>) -> (r: Option<String>)
    ensures
        r is Some <==> explicit is Some || ambient is Some,
        r is Some ==> r->0@ == resolved_view(explicit, ambient),
{
    match explicit {
        Some(v) => Some(v),
        None => ambient,
    }
}

/// Explicit values screen the ambient ones off completely: with all three
/// overrides present, the result never depends on what the ambient values
/// are, and each field reads back the override exactly.
pub proof fn lemma_explicit_overrides_ignore_ambient(
    secret_token: String,
    base: String,
    table: String,
    ambient_a: (Option<String>, Option<String>, Option<String>),
    ambient_b: (Option<String>, Option<String>, Option<String>),
)
    ensures
        resolved_view(Some(secret_token), ambient_a.0) == resolved_view(
            Some(secret_token),
            ambient_b.0,
        ),
        resolved_view(Some(base), ambient_a.1) == resolved_view(Some(base), ambient_b.1),
        resolved_view(Some(table), ambient_a.2) == resolved_view(Some(table), ambient_b.2),
        resolved_view(Some(secret_token), ambient_a.0) == secret_token@,
{
}

} // verus!
