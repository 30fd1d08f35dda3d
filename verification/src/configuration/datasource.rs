use crate::ast::render::{string_literal, string_literal_text};
use crate::configuration::string_from_env::{optional_text, EnvString, StringFromEnvVar};
use crate::connector::Connector;
use crate::diagnostics::collection::Findings;
use crate::diagnostics::error::{environment_message, source_validation_message, Problem};
use crate::diagnostics::{Diagnostics, SchemaError};
use crate::span::Span;
use crate::text::{concat3, trim, trimmed};
use vstd::prelude::*;
use vstd::string::*;

verus! {

/// What a [`Datasource`] holds.
pub ghost struct DatasourceView {
    pub name: Seq<char>,
    pub provider: Seq<char>,
    pub url: EnvString,
    pub url_span: Span,
    pub documentation: Option<Seq<char>>,
    pub connector: Connector,
}

/// A datasource of a schema, as loaded from its block. It has no `Debug`:
/// its URL may hold a password. [`Datasource::describe`] writes it out
/// without the URL.
pub struct Datasource {
    pub name: String,
    /// The provider string
    pub provider: String,
    pub url: StringFromEnvVar,
    pub url_span: Span,
    pub documentation: Option<String>,
    /// The connector of the provider.
    pub active_connector: Connector,
}

impl View for Datasource {
    type V = DatasourceView;

    open spec fn view(&self) -> DatasourceView {
        DatasourceView {
            name: self.name@,
            provider: self.provider@,
            url: self.url@,
            url_span: self.url_span,
            documentation: optional_text(self.documentation),
            connector: self.active_connector,
        }
    }
}

/// A datasource written out for debugging: its name, its provider and its
/// documentation, and a placeholder where the URL and the connector stand.
pub open spec fn described(datasource: DatasourceView) -> Seq<char> {
    "Datasource { name: "@ + string_literal_text(datasource.name) + ", provider: "@
        + string_literal_text(datasource.provider) + ", url: \"<url>\", documentation: "@
        + match datasource.documentation {
        Some(text) => "Some("@ + string_literal_text(text) + ")"@,
        None => "None"@,
    } + ", active_connector: \"...\" }"@
}

/// Why a URL could not be had.
#[derive(Debug)]
pub enum UrlValidationError {
    EmptyUrlValue,
    EmptyEnvValue(String),
    NoEnvValue(String),
    NoUrlOrEnv,
}

/// What a [`UrlValidationError`] holds.
pub ghost enum UrlProblem {
    EmptyUrlValue,
    EmptyEnvValue(Seq<char>),
    NoEnvValue(Seq<char>),
    NoUrlOrEnv,
}

impl View for UrlValidationError {
    type V = UrlProblem;

    open spec fn view(&self) -> UrlProblem {
        match self {
            UrlValidationError::EmptyUrlValue => UrlProblem::EmptyUrlValue,
            UrlValidationError::EmptyEnvValue(name) => UrlProblem::EmptyEnvValue(name@),
            UrlValidationError::NoEnvValue(name) => UrlProblem::NoEnvValue(name@),
            UrlValidationError::NoUrlOrEnv => UrlProblem::NoUrlOrEnv,
        }
    }
}

/// A text is blank when nothing is left of it once white space is trimmed.
pub open spec fn blank(text: Seq<char>) -> bool {
    trimmed(text).len() == 0
}

/// The text that is to be the URL of a descriptor, where the environment
/// answered `looked_up` for its variable: the literal value if there is one,
/// else what the environment answered.
pub open spec fn candidate(url: EnvString, looked_up: Option<Seq<char>>) -> Option<Seq<char>> {
    match url.value {
        Some(literal) => Some(literal),
        None => match url.from_env_var {
            Some(_) => looked_up,
            None => None,
        },
    }
}

/// The URL that a descriptor gives, where the environment answered
/// `looked_up` for its variable (`None`: the variable is not set) and the
/// candidate is blank or not, as `candidate_blank` says. A literal value
/// goes before the variable.
pub open spec fn url_choice(
    url: EnvString,
    looked_up: Option<Seq<char>>,
    candidate_blank: bool,
) -> Result<Seq<char>, UrlProblem> {
    match url.value {
        Some(literal) => if candidate_blank {
            Err(UrlProblem::EmptyUrlValue)
        } else {
            Ok(literal)
        },
        None => match url.from_env_var {
            Some(variable) => match looked_up {
                Some(found) => if candidate_blank {
                    Err(UrlProblem::EmptyEnvValue(variable))
                } else {
                    Ok(found)
                },
                None => Err(UrlProblem::NoEnvValue(variable)),
            },
            None => Err(UrlProblem::NoUrlOrEnv),
        },
    }
}

/// The URL that a descriptor gives, where the environment answered
/// `looked_up` for its variable. A candidate that is blank is refused.
pub open spec fn url_from(url: EnvString, looked_up: Option<Seq<char>>) -> Result<
    Seq<char>,
    UrlProblem,
> {
    url_choice(
        url,
        looked_up,
        match candidate(url, looked_up) {
            Some(text) => blank(text),
            None => false,
        },
    )
}

/// Whether the environment is asked when the URL of a descriptor is loaded.
pub open spec fn asks_environment(url: EnvString) -> bool {
    url.value is None && url.from_env_var is Some
}

/// The error that is reported for a URL that could not be had.
pub open spec fn url_problem_report(datasource: DatasourceView, problem: UrlProblem) -> Problem {
    match problem {
        UrlProblem::EmptyEnvValue(variable) => Problem {
            span: datasource.url_span,
            message: source_validation_message(
                "You must provide a nonempty URL. The environment variable `"@ + variable
                    + "` resolved to an empty string."@,
                datasource.name,
            ),
        },
        UrlProblem::NoEnvValue(variable) => Problem {
            span: datasource.url_span,
            message: environment_message(variable),
        },
        _ => Problem {
            span: datasource.url_span,
            message: source_validation_message("You must provide a nonempty URL"@, datasource.name),
        },
    }
}

/// The URL of a datasource before it is validated, or the error reported.
pub open spec fn raw_url_outcome(datasource: DatasourceView, looked_up: Option<Seq<char>>) -> Result<
    Seq<char>,
    Problem,
> {
    match url_from(datasource.url, looked_up) {
        Ok(url) => Ok(url),
        Err(problem) => Err(url_problem_report(datasource, problem)),
    }
}

/// The error for a URL that the connector of the datasource refuses.
pub open spec fn refused_url_report(datasource: DatasourceView, reason: Seq<char>) -> Problem {
    Problem {
        span: datasource.url_span,
        message: source_validation_message("the URL "@ + reason, datasource.name),
    }
}

/// The validated URL of a datasource, or the error reported.
pub open spec fn url_outcome(datasource: DatasourceView, looked_up: Option<Seq<char>>) -> Result<
    Seq<char>,
    Problem,
> {
    match raw_url_outcome(datasource, looked_up) {
        Ok(url) => match datasource.connector.url_verdict(url) {
            Ok(_) => Ok(url),
            Err(reason) => Err(refused_url_report(datasource, reason)),
        },
        Err(problem) => Err(problem),
    }
}

/// Whether `result` is what `expected` says: the URL, or diagnostics that
/// hold the one error and nothing else.
pub open spec fn reports(result: Result<String, Diagnostics>, expected: Result<Seq<char>, Problem>) -> bool {
    match expected {
        Ok(url) => result matches Ok(found) && found@ == url,
        Err(problem) => result matches Err(diagnostics) && diagnostics@ == (Findings {
            errors: seq![problem],
            warnings: Seq::empty(),
        }),
    }
}

/// The URL that a descriptor gives, where the environment answered
/// `looked_up` for its variable and the candidate is blank or not, as
/// `candidate_blank` says.
pub fn url_from_checked(
    url: &StringFromEnvVar,
    looked_up: Option<String>,
    candidate_blank: bool,
) -> (result: Result<String, UrlValidationError>)
    ensures
        match url_choice(url@, optional_text(looked_up), candidate_blank) {
            Ok(expected) => result matches Ok(found) && found@ == expected,
            Err(problem) => result matches Err(error) && error@ == problem,
        },
{
    match &url.value {
        Some(lit) => {
            if candidate_blank {
                Err(UrlValidationError::EmptyUrlValue)
            } else {
                Ok(lit.clone())
            }
        },
        None => match &url.from_env_var {
            Some(env_var) => match looked_up {
                Some(var) => {
                    if candidate_blank {
                        Err(UrlValidationError::EmptyEnvValue(env_var.clone()))
                    } else {
                        Ok(var)
                    }
                },
                None => Err(UrlValidationError::NoEnvValue(env_var.clone())),
            },
            None => Err(UrlValidationError::NoUrlOrEnv),
        },
    }
}

/// The URL that a descriptor gives, where the environment answered
/// `looked_up` for its variable.
pub fn url_from_lookup(url: &StringFromEnvVar, looked_up: Option<String>) -> (result: Result<
    String,
    UrlValidationError,
>)
    ensures
        match url_from(url@, optional_text(looked_up)) {
            Ok(expected) => result matches Ok(found) && found@ == expected,
            Err(problem) => result matches Err(error) && error@ == problem,
        },
{
    let candidate_blank = match &url.value {
        Some(lit) => trim(lit.as_str()).is_empty(),
        None => match (&url.from_env_var, &looked_up) {
            (Some(_), Some(var)) => trim(var.as_str()).is_empty(),
            _ => false,
        },
    };
    url_from_checked(url, looked_up, candidate_blank)
}

/// The URL that a descriptor gives. The environment is asked only where the
/// descriptor has no literal value and names a variable.
pub fn from_url<F: Fn(&str) -> Option<String>>(url: &StringFromEnvVar, env: F) -> (result: Result<
    String,
    UrlValidationError,
>)
    requires
        forall|name: &str| call_requires(env, (name,)),
    ensures
        !asks_environment(url@) ==> match url_from(url@, None) {
            Ok(expected) => result matches Ok(found) && found@ == expected,
            Err(problem) => result matches Err(error) && error@ == problem,
        },
        asks_environment(url@) ==> exists|name: &str, looked_up: Option<String>|
            name@ == url@.from_env_var->0 && call_ensures(env, (name,), looked_up) && match url_from(
                url@,
                optional_text(looked_up),
            ) {
                Ok(expected) => result matches Ok(found) && found@ == expected,
                Err(problem) => result matches Err(error) && error@ == problem,
            },
{
    let asks = url.value.is_none() && url.from_env_var.is_some();
    if asks {
        let name: &str = match &url.from_env_var {
            Some(env_var) => env_var.as_str(),
            None => "",
        };
        let looked_up = env(name);
        let result = url_from_lookup(url, looked_up);
        result
    } else {
        url_from_lookup(url, None)
    }
}

impl Datasource {
    pub fn new(
        name: String,
        provider: String,
        url: StringFromEnvVar,
        url_span: Span,
        documentation: Option<String>,
        active_connector: Connector,
    ) -> (datasource: Datasource)
        ensures
            datasource@ == (DatasourceView {
                name: name@,
                provider: provider@,
                url: url@,
                url_span,
                documentation: optional_text(documentation),
                connector: active_connector,
            }),
    {
        Datasource { name, provider, url, url_span, documentation, active_connector }
    }

    /// The datasource written out for debugging, without its URL.
    pub fn describe(&self) -> (text: String)
        ensures
            text@ == described(self@),
    {
        let mut text = String::from_str("Datasource { name: ");
        text.append(string_literal(self.name.as_str()).as_str());
        text.append(", provider: ");
        text.append(string_literal(self.provider.as_str()).as_str());
        text.append(", url: \"<url>\", documentation: ");
        match &self.documentation {
            Some(documentation) => {
                text.append("Some(");
                text.append(string_literal(documentation.as_str()).as_str());
                text.append(")");
            },
            None => {
                text.append("None");
            },
        }
        text.append(", active_connector: \"...\" }");
        proof {
            assert(text@ =~= described(self@));
        }
        text
    }

    /// The diagnostics for a URL that could not be had.
    fn report_url_problem(&self, error: UrlValidationError) -> (diagnostics: Diagnostics)
        ensures
            diagnostics@ == (Findings {
                errors: seq![url_problem_report(self@, error@)],
                warnings: Seq::empty(),
            }),
    {
        let error = match error {
            UrlValidationError::EmptyEnvValue(env_var) => {
                let msg = concat3(
                    "You must provide a nonempty URL. The environment variable `",
                    env_var.as_str(),
                    "` resolved to an empty string.",
                );
                SchemaError::new_source_validation_error(
                    msg.as_str(),
                    self.name.as_str(),
                    self.url_span,
                )
            },
            UrlValidationError::NoEnvValue(env_var) => {
                SchemaError::new_environment_functional_evaluation_error(env_var, self.url_span)
            },
            _ => {
                let msg = "You must provide a nonempty URL";
                SchemaError::new_source_validation_error(msg, self.name.as_str(), self.url_span)
            },
        };
        Diagnostics::from_error(error)
    }

    /// The URL behind `url`, checked against the rule of the connector.
    fn validated(&self, url: String) -> (result: Result<String, Diagnostics>)
        ensures
            reports(
                result,
                match self@.connector.url_verdict(url@) {
                    Ok(_) => Ok(url@),
                    Err(reason) => Err(refused_url_report(self@, reason)),
                },
            ),
    {
        match self.active_connector.validate_url(url.as_str()) {
            Ok(()) => Ok(url),
            Err(err_str) => {
                let mut reason = String::from_str("the URL ");
                reason.append(err_str.as_str());
                Err(
                    Diagnostics::from_error(
                        SchemaError::new_source_validation_error(
                            reason.as_str(),
                            self.name.as_str(),
                            self.url_span,
                        ),
                    ),
                )
            },
        }
    }

    /// The validated URL of the datasource, where the environment answered
    /// `looked_up` for its variable.
    pub fn url_with_lookup(&self, looked_up: Option<String>) -> (result: Result<
        String,
        Diagnostics,
    >)
        ensures
            reports(result, url_outcome(self@, optional_text(looked_up))),
    {
        match url_from_lookup(&self.url, looked_up) {
            Ok(url) => self.validated(url),
            Err(error) => Err(self.report_url_problem(error)),
        }
    }

    /// Load the database URL: resolve the environment variable where the URL
    /// is left to one, and validate the URL for the connector.
    pub fn load_url<F: Fn(&str) -> Option<String>>(&self, env: F) -> (result: Result<
        String,
        Diagnostics,
    >)
        requires
            forall|name: &str| call_requires(env, (name,)),
            self@.url.value is Some || self@.url.from_env_var is Some,
        ensures
            !asks_environment(self@.url) ==> reports(result, url_outcome(self@, None)),
            asks_environment(self@.url) ==> exists|name: &str, looked_up: Option<String>|
                name@ == self@.url.from_env_var->0 && call_ensures(env, (name,), looked_up)
                    && reports(result, url_outcome(self@, optional_text(looked_up))),
    {
        match self.load_url_no_validation(env) {
            Ok(url) => self.validated(url),
            Err(diagnostics) => Err(diagnostics),
        }
    }

    /// Load the database URL and resolve the environment variable where the
    /// URL is left to one, without validating the URL.
    pub fn load_url_no_validation<F: Fn(&str) -> Option<String>>(&self, env: F) -> (result: Result<
        String,
        Diagnostics,
    >)
        requires
            forall|name: &str| call_requires(env, (name,)),
            self@.url.value is Some || self@.url.from_env_var is Some,
        ensures
            !asks_environment(self@.url) ==> reports(result, raw_url_outcome(self@, None)),
            asks_environment(self@.url) ==> exists|name: &str, looked_up: Option<String>|
                name@ == self@.url.from_env_var->0 && call_ensures(env, (name,), looked_up)
                    && reports(result, raw_url_outcome(self@, optional_text(looked_up))),
    {
        match from_url(&self.url, env) {
            Ok(url) => Ok(url),
            Err(error) => Err(self.report_url_problem(error)),
        }
    }

    /// Same as [`Datasource::load_url`]. The directory of the configuration
    /// is taken and not used.
    pub fn load_url_with_config_dir<F: Fn(&str) -> Option<String>>(
        &self,
        _config_dir: &str,
        env: F,
    ) -> (result: Result<String, Diagnostics>)
        requires
            forall|name: &str| call_requires(env, (name,)),
            self@.url.value is Some || self@.url.from_env_var is Some,
        ensures
            !asks_environment(self@.url) ==> reports(result, url_outcome(self@, None)),
            asks_environment(self@.url) ==> exists|name: &str, looked_up: Option<String>|
                name@ == self@.url.from_env_var->0 && call_ensures(env, (name,), looked_up)
                    && reports(result, url_outcome(self@, optional_text(looked_up))),
    {
        self.load_url(env)
    }

    /// Whether the datasource names a provider.
    pub fn provider_defined(&self) -> (defined: bool)
        ensures
            defined == (self@.provider.len() > 0),
    {
        !self.provider.as_str().is_empty()
    }

    /// Whether the URL of the datasource has a place in the text.
    pub fn url_defined(&self) -> (defined: bool)
        ensures
            defined == (self@.url_span.end > self@.url_span.start),
    {
        self.url_span.end > self.url_span.start
    }
}

} // verus!
