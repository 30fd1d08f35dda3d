use crate::configuration::datasource::{
    asks_environment, url_outcome, Datasource, DatasourceView,
};
use crate::configuration::string_from_env::{optional_text, EnvString};
use crate::diagnostics::collection::Findings;
use crate::diagnostics::error::{validation_message, Problem};
use crate::diagnostics::{Diagnostics, SchemaError, SchemaWarning};
use crate::span::Span;
use crate::text::str_eq;
use vstd::prelude::*;
use vstd::string::*;

verus! {

/// The validated configuration of a schema.
pub struct Configuration {
    pub datasources: Vec<Datasource>,
    pub warnings: Vec<SchemaWarning>,
}

/// The names and URLs of a list of overrides.
pub open spec fn overrides_view(url_overrides: Seq<(String, String)>) -> Seq<(Seq<char>, Seq<char>)> {
    url_overrides.map_values(|pair: (String, String)| (pair.0@, pair.1@))
}

/// The URL of the first override, from index `from` on, for the name `name`.
pub open spec fn override_for(
    overrides: Seq<(Seq<char>, Seq<char>)>,
    name: Seq<char>,
    from: int,
) -> Option<Seq<char>>
    decreases overrides.len() - from,
{
    if from < 0 || from >= overrides.len() {
        None
    } else if overrides[from].0 == name {
        Some(overrides[from].1)
    } else {
        override_for(overrides, name, from + 1)
    }
}

/// A datasource with its URL replaced by the override for its name, if
/// there is one: the override becomes the value, and the environment
/// variable is forgotten.
pub open spec fn overridden(
    datasource: DatasourceView,
    overrides: Seq<(Seq<char>, Seq<char>)>,
) -> DatasourceView {
    match override_for(overrides, datasource.name, 0) {
        Some(url) => DatasourceView {
            url: EnvString { from_env_var: None, value: Some(url) },
            ..datasource
        },
        None => datasource,
    }
}

/// A datasource with `value` as the value of its URL.
pub open spec fn with_value(datasource: DatasourceView, value: Option<Seq<char>>) -> DatasourceView {
    DatasourceView { url: EnvString { value, ..datasource.url }, ..datasource }
}

/// How the resolution leaves a datasource on which it did not fail. An
/// override goes before everything else. Without one, a URL that is left to
/// an environment variable is loaded through `env`; where that fails and
/// failures are ignored, the URL stays without a value.
pub open spec fn resolved<F: Fn(&str) -> Option<String>>(
    before: DatasourceView,
    after: DatasourceView,
    overrides: Seq<(Seq<char>, Seq<char>)>,
    env: F,
    ignore_env_errors: bool,
) -> bool {
    let start = overridden(before, overrides);
    if asks_environment(start.url) {
        exists|name: &str, looked_up: Option<String>|
            name@ == start.url.from_env_var->0 && #[trigger] call_ensures(env, (name,), looked_up)
                && match url_outcome(start, optional_text(looked_up)) {
                Ok(url) => after == with_value(start, Some(url)),
                Err(_) => ignore_env_errors && after == start,
            }
    } else {
        after == start
    }
}

/// How the resolution fails on a datasource: the URL is left to an
/// environment variable, loading it through `env` fails, and the failure is
/// what the resolution returns.
pub open spec fn fails<F: Fn(&str) -> Option<String>>(
    before: DatasourceView,
    failure: Findings,
    overrides: Seq<(Seq<char>, Seq<char>)>,
    env: F,
) -> bool {
    let start = overridden(before, overrides);
    asks_environment(start.url) && start == before && exists|name: &str, looked_up: Option<String>|
        name@ == start.url.from_env_var->0 && #[trigger] call_ensures(env, (name,), looked_up)
            && match url_outcome(start, optional_text(looked_up)) {
            Ok(_) => false,
            Err(problem) => failure == (Findings { errors: seq![problem], warnings: Seq::empty() }),
        }
}

/// An override decides the URL of a datasource: where the resolution did not
/// fail on a datasource that has an override, the override is its URL,
/// whatever the environment answers and whether failures are ignored or not.
pub proof fn lemma_override_wins<F: Fn(&str) -> Option<String>>(
    before: DatasourceView,
    after: DatasourceView,
    overrides: Seq<(Seq<char>, Seq<char>)>,
    env: F,
    ignore_env_errors: bool,
    url: Seq<char>,
)
    requires
        resolved(before, after, overrides, env, ignore_env_errors),
        override_for(overrides, before.name, 0) == Some(url),
    ensures
        after == (DatasourceView {
            url: EnvString { from_env_var: None, value: Some(url) },
            ..before
        }),
{
}

/// The resolution does not fail on a datasource that has an override.
pub proof fn lemma_override_never_fails<F: Fn(&str) -> Option<String>>(
    before: DatasourceView,
    failure: Findings,
    overrides: Seq<(Seq<char>, Seq<char>)>,
    env: F,
)
    requires
        override_for(overrides, before.name, 0) is Some,
    ensures
        !fails(before, failure, overrides, env),
{
}

/// The URL of the first override for the datasource `name`.
fn find_override<'a>(url_overrides: &'a [(String, String)], name: &str) -> (found: Option<&'a String>)
    ensures
        match found {
            Some(url) => override_for(overrides_view(url_overrides@), name@, 0) == Some(url@),
            None => override_for(overrides_view(url_overrides@), name@, 0) is None,
        },
{
    let ghost overrides = overrides_view(url_overrides@);
    let mut i: usize = 0;
    while i < url_overrides.len()
        invariant
            i <= url_overrides@.len(),
            overrides == overrides_view(url_overrides@),
            override_for(overrides, name@, 0) == override_for(overrides, name@, i as int),
        decreases url_overrides@.len() - i,
    {
        let pair = &url_overrides[i];
        assert(overrides[i as int] == (pair.0@, pair.1@));
        if str_eq(pair.0.as_str(), name) {
            return Some(&pair.1);
        }
        i += 1;
    }
    None
}

/// Resolves the URL of one datasource.
fn resolve_one<F: Fn(&str) -> Option<String>>(
    datasource: &mut Datasource,
    url_overrides: &[(String, String)],
    env: F,
    ignore_env_errors: bool,
) -> (result: Result<(), Diagnostics>)
    requires
        forall|name: &str| call_requires(env, (name,)),
    ensures
        match result {
            Ok(()) => resolved(
                old(datasource)@,
                final(datasource)@,
                overrides_view(url_overrides@),
                env,
                ignore_env_errors,
            ),
            Err(failure) => !ignore_env_errors && final(datasource)@ == old(datasource)@ && fails(
                old(datasource)@,
                failure@,
                overrides_view(url_overrides@),
                env,
            ),
        },
{
    match find_override(url_overrides, datasource.name.as_str()) {
        Some(url) => {
            datasource.url.value = Some(url.clone());
            datasource.url.from_env_var = None;
        },
        None => {},
    }
    if datasource.url.from_env_var.is_some() && datasource.url.value.is_none() {
        match datasource.load_url(env) {
            Ok(url) => {
                datasource.url.value = Some(url);
            },
            Err(error) => {
                if ignore_env_errors {
                    datasource.url.value = None;
                } else {
                    return Err(error);
                }
            },
        }
    }
    Ok(())
}

impl Configuration {
    /// An error unless the configuration holds at least one datasource.
    pub fn validate_that_one_datasource_is_provided(&self) -> (result: Result<(), Diagnostics>)
        ensures
            self.datasources@.len() > 0 ==> result is Ok,
            self.datasources@.len() == 0 ==> (result matches Err(diagnostics) && diagnostics@ == Findings {
                errors: seq![
                    Problem {
                        span: Span { start: 0, end: 0 },
                        message: validation_message(
                            "You defined no datasource. You must define exactly one datasource."@,
                        ),
                    },
                ],
                warnings: Seq::empty(),
            }),
    {
        if self.datasources.is_empty() {
            Err(
                Diagnostics::from_error(
                    SchemaError::new_validation_error(
                        "You defined no datasource. You must define exactly one datasource.",
                        Span::new(0, 0),
                    ),
                ),
            )
        } else {
            Ok(())
        }
    }

    /// Resolves the URLs of the datasources, one after the other, and stops
    /// at the first that fails.
    fn resolve_datasource_urls<F: Fn(&str) -> Option<String> + Copy>(
        &mut self,
        url_overrides: &[(String, String)],
        env: F,
        ignore_env_errors: bool,
    ) -> (result: Result<(), Diagnostics>)
        requires
            forall|name: &str| call_requires(env, (name,)),
        ensures
            final(self).datasources@.len() == old(self).datasources@.len(),
            final(self).warnings == old(self).warnings,
            match result {
                Ok(()) => forall|i: int|
                    0 <= i < old(self).datasources@.len() ==> resolved(
                        (#[trigger] old(self).datasources@[i])@,
                        final(self).datasources@[i]@,
                        overrides_view(url_overrides@),
                        env,
                        ignore_env_errors,
                    ),
                Err(failure) => !ignore_env_errors && exists|k: int|
                    0 <= k < old(self).datasources@.len() && fails(
                        (#[trigger] old(self).datasources@[k])@,
                        failure@,
                        overrides_view(url_overrides@),
                        env,
                    ) && (forall|i: int|
                        0 <= i < k ==> resolved(
                            (#[trigger] old(self).datasources@[i])@,
                            final(self).datasources@[i]@,
                            overrides_view(url_overrides@),
                            env,
                            ignore_env_errors,
                        )) && (forall|i: int|
                        k <= i < old(self).datasources@.len() ==> (#[trigger] final(self).datasources@[i])@ == old(self).datasources@[i]@),
            },
    {
        let mut i: usize = 0;
        while i < self.datasources.len()
            invariant
                forall|name: &str| call_requires(env, (name,)),
                i <= self.datasources@.len(),
                self.datasources@.len() == old(self).datasources@.len(),
                self.warnings == old(self).warnings,
                forall|j: int|
                    0 <= j < i ==> resolved(
                        (#[trigger] old(self).datasources@[j])@,
                        self.datasources@[j]@,
                        overrides_view(url_overrides@),
                        env,
                        ignore_env_errors,
                    ),
                forall|j: int|
                    i <= j < self.datasources@.len() ==> (#[trigger] self.datasources@[j])@ == old(self).datasources@[j]@,
            decreases self.datasources@.len() - i,
        {
            let ghost before = self.datasources@;
            let datasource = &mut self.datasources[i];
            match resolve_one(datasource, url_overrides, env, ignore_env_errors) {
                Ok(()) => {},
                Err(failure) => {
                    return Err(failure);
                },
            }
            i += 1;
        }
        Ok(())
    }

    /// Resolve the URLs of the datasources, for a caller that can go on
    /// without a URL: with `ignore_env_errors`, a URL that cannot be loaded
    /// from the environment stays without a value.
    pub fn resolve_datasource_urls_query_engine<F: Fn(&str) -> Option<String> + Copy>(
        &mut self,
        url_overrides: &[(String, String)],
        env: F,
        ignore_env_errors: bool,
    ) -> (result: Result<(), Diagnostics>)
        requires
            forall|name: &str| call_requires(env, (name,)),
        ensures
            final(self).datasources@.len() == old(self).datasources@.len(),
            final(self).warnings == old(self).warnings,
            match result {
                Ok(()) => forall|i: int|
                    0 <= i < old(self).datasources@.len() ==> resolved(
                        (#[trigger] old(self).datasources@[i])@,
                        final(self).datasources@[i]@,
                        overrides_view(url_overrides@),
                        env,
                        ignore_env_errors,
                    ),
                Err(failure) => !ignore_env_errors && exists|k: int|
                    0 <= k < old(self).datasources@.len() && fails(
                        (#[trigger] old(self).datasources@[k])@,
                        failure@,
                        overrides_view(url_overrides@),
                        env,
                    ) && (forall|i: int|
                        0 <= i < k ==> resolved(
                            (#[trigger] old(self).datasources@[i])@,
                            final(self).datasources@[i]@,
                            overrides_view(url_overrides@),
                            env,
                            ignore_env_errors,
                        )) && (forall|i: int|
                        k <= i < old(self).datasources@.len() ==> (#[trigger] final(self).datasources@[i])@ == old(self).datasources@[i]@),
            },
    {
        self.resolve_datasource_urls(url_overrides, env, ignore_env_errors)
    }

    /// Resolve the URLs of the datasources, for a caller that needs every
    /// URL: a URL that cannot be loaded from the environment is an error.
    pub fn resolve_datasource_urls_prisma_fmt<F: Fn(&str) -> Option<String> + Copy>(
        &mut self,
        url_overrides: &[(String, String)],
        env: F,
    ) -> (result: Result<(), Diagnostics>)
        requires
            forall|name: &str| call_requires(env, (name,)),
        ensures
            final(self).datasources@.len() == old(self).datasources@.len(),
            final(self).warnings == old(self).warnings,
            match result {
                Ok(()) => forall|i: int|
                    0 <= i < old(self).datasources@.len() ==> resolved(
                        (#[trigger] old(self).datasources@[i])@,
                        final(self).datasources@[i]@,
                        overrides_view(url_overrides@),
                        env,
                        false,
                    ),
                Err(failure) => exists|k: int|
                    0 <= k < old(self).datasources@.len() && fails(
                        (#[trigger] old(self).datasources@[k])@,
                        failure@,
                        overrides_view(url_overrides@),
                        env,
                    ) && (forall|i: int|
                        0 <= i < k ==> resolved(
                            (#[trigger] old(self).datasources@[i])@,
                            final(self).datasources@[i]@,
                            overrides_view(url_overrides@),
                            env,
                            false,
                        )) && (forall|i: int|
                        k <= i < old(self).datasources@.len() ==> (#[trigger] final(self).datasources@[i])@ == old(self).datasources@[i]@),
            },
    {
        self.resolve_datasource_urls(url_overrides, env, false)
    }
}

} // verus!
