//! The database backends that a datasource can name, each with its rule for
//! connection URLs.

use crate::text::{concat3, starts_with, str_eq};
use vstd::prelude::*;
use vstd::string::*;

verus! {

/// A supported database backend.
#[derive(Debug, Clone, Copy, PartialEq, Eq, Structural)]
pub enum Connector {
    PostgresConnector,
    MySQLConnector,
}

/// The backend that a provider string names, if it names one.
pub open spec fn connector_named(provider: Seq<char>) -> Option<Connector> {
    if provider == "postgres"@ {
        Some(Connector::PostgresConnector)
    } else if provider == "mysql"@ {
        Some(Connector::MySQLConnector)
    } else {
        None
    }
}

/// The message for a URL that does not begin with `prefix`.
pub open spec fn url_prefix_message(prefix: Seq<char>) -> Seq<char> {
    "The URL must start with the `"@ + prefix + "` protocol."@
}

impl Connector {
    /// What a connection URL for the backend begins with.
    pub open spec fn url_prefix(self) -> Seq<char> {
        match self {
            Connector::PostgresConnector => "postgres://"@,
            Connector::MySQLConnector => "mysql://"@,
        }
    }

    /// What validating `url` for the backend gives: nothing, or the message
    /// that names the prefix the backend expects.
    pub open spec fn url_verdict(self, url: Seq<char>) -> Result<(), Seq<char>> {
        if self.url_prefix().is_prefix_of(url) {
            Ok(())
        } else {
            Err(url_prefix_message(self.url_prefix()))
        }
    }

    pub fn new(provider: &str) -> (connector: Option<Connector>)
        ensures
            connector == connector_named(provider@),
    {
        if str_eq(provider, "postgres") {
            Some(Connector::PostgresConnector)
        } else if str_eq(provider, "mysql") {
            Some(Connector::MySQLConnector)
        } else {
            None
        }
    }

    /// The prefix of connection URLs for the backend.
    pub fn expected_prefix(&self) -> (prefix: &'static str)
        ensures
            prefix@ == self.url_prefix(),
    {
        match self {
            Connector::PostgresConnector => "postgres://",
            Connector::MySQLConnector => "mysql://",
        }
    }

    /// Accepts a URL that begins with the prefix of the backend. Any other
    /// is refused with a message that names the prefix.
    pub fn validate_url(&self, url: &str) -> (verdict: Result<(), String>)
        ensures
            match verdict {
                Ok(()) => self.url_verdict(url@) == Ok::<(), Seq<char>>(()),
                Err(message) => self.url_verdict(url@) == Err::<(), Seq<char>>(message@),
            },
    {
        let expected_prefix = self.expected_prefix();
        if starts_with(url, expected_prefix) {
            Ok(())
        } else {
            Err(concat3("The URL must start with the `", expected_prefix, "` protocol."))
        }
    }
}

} // verus!
