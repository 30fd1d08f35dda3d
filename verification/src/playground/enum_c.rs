use crate::text::str_eq;
use vstd::prelude::*;
use vstd::string::*;

verus! {

/// A closed set of database providers.
#[derive(PartialEq, Eq, Debug, Clone, Copy, Structural)]
pub enum DbProvider {
    Postgres,
    MySQL,
    SQLite,
}

/// What `str::to_lowercase` of the standard library makes of a text: each
/// character in lower case, as the Unicode database has it.
pub uninterp spec fn lowercased(text: Seq<char>) -> Seq<char>;

/// `str::to_lowercase` of the standard library. The result is named, not
/// described: the lower case of a character is a matter of the Unicode
/// database.
#[verifier::external_body]
fn to_lowercase(text: &str) -> (lowered: String)
    ensures
        lowered@ == lowercased(text@),
{
    text.to_lowercase()
}

/// The label of a provider.
pub open spec fn provider_label(provider: DbProvider) -> Seq<char> {
    match provider {
        DbProvider::Postgres => "postgres"@,
        DbProvider::MySQL => "mysql"@,
        DbProvider::SQLite => "sqlite"@,
    }
}

/// The provider with the label `label`, if there is one.
pub open spec fn provider_labelled(label: Seq<char>) -> Option<DbProvider> {
    if label == "postgres"@ {
        Some(DbProvider::Postgres)
    } else if label == "mysql"@ {
        Some(DbProvider::MySQL)
    } else if label == "sqlite"@ {
        Some(DbProvider::SQLite)
    } else {
        None
    }
}

/// The message for a label that names no provider.
pub open spec fn unknown_provider(label: Seq<char>) -> Seq<char> {
    "Unknown database provider: "@ + label
}

/// The label of `provider`.
pub fn enum_to_string(provider: DbProvider) -> (label: String)
    ensures
        label@ == provider_label(provider),
{
    String::from_str(
        match provider {
            DbProvider::Postgres => "postgres",
            DbProvider::MySQL => "mysql",
            DbProvider::SQLite => "sqlite",
        },
    )
}

/// The provider whose label is `lowered`, the label `label` in lower case;
/// or the error that names `label` as it was given.
pub fn provider_from_lowercase(lowered: &str, label: &str) -> (provider: Result<DbProvider, String>)
    ensures
        match provider_labelled(lowered@) {
            Some(expected) => provider == Ok::<DbProvider, String>(expected),
            None => provider matches Err(message) && message@ == unknown_provider(label@),
        },
{
    if str_eq(lowered, "postgres") {
        Ok(DbProvider::Postgres)
    } else if str_eq(lowered, "mysql") {
        Ok(DbProvider::MySQL)
    } else if str_eq(lowered, "sqlite") {
        Ok(DbProvider::SQLite)
    } else {
        let mut message = String::from_str("Unknown database provider: ");
        message.append(label);
        Err(message)
    }
}

impl DbProvider {
    /// The provider with the label `s`, whatever the case of its letters.
    pub fn from_label(s: &str) -> (provider: Result<DbProvider, String>)
        ensures
            match provider_labelled(lowercased(s@)) {
                Some(expected) => provider == Ok::<DbProvider, String>(expected),
                None => provider matches Err(message) && message@ == unknown_provider(s@),
            },
    {
        let lowered = to_lowercase(s);
        provider_from_lowercase(lowered.as_str(), s)
    }
}

impl std::str::FromStr for DbProvider {
    type Err = String;

    fn from_str(s: &str) -> (provider: Result<Self, Self::Err>)
        ensures
            match provider_labelled(lowercased(s@)) {
                Some(expected) => provider == Ok::<DbProvider, String>(expected),
                None => provider matches Err(message) && message@ == unknown_provider(s@),
            },
    {
        DbProvider::from_label(s)
    }
}

/// The provider with the label `label`, whatever the case of its letters.
pub fn enum_from_string(label: String) -> (provider: Result<DbProvider, String>)
    ensures
        match provider_labelled(lowercased(label@)) {
            Some(expected) => provider == Ok::<DbProvider, String>(expected),
            None => provider matches Err(message) && message@ == unknown_provider(label@),
        },
{
    DbProvider::from_label(label.as_str())
}

} // verus!
