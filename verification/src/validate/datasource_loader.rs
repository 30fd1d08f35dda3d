use crate::ast::config::{ConfigBlockProperty, PropertyView};
use crate::ast::expression::{Expression, ExpressionView};
use crate::ast::source_config::{SourceConfig, SourceConfigView};
use crate::ast::top::TopView;
use crate::ast::SchemaAst;
use crate::coerce_expression::string_opt;
use crate::configuration::datasource::{Datasource, DatasourceView};
use crate::configuration::string_from_env::{env_string_of, StringFromEnvVar};
use crate::connector::{connector_named, Connector};
use crate::diagnostics::error::{
    missing_value_message, property_not_known_message, provider_not_known_message,
    source_validation_message, Problem,
};
use crate::diagnostics::{Diagnostics, SchemaError};
use crate::text::str_eq;
use vstd::prelude::*;
use vstd::string::*;

verus! {

/// The first of the properties, from index `from` on, that has no value.
pub open spec fn first_without_value(properties: Seq<PropertyView>, from: int) -> Option<int>
    decreases properties.len() - from,
{
    if from < 0 || from >= properties.len() {
        None
    } else if properties[from].value is None {
        Some(from)
    } else {
        first_without_value(properties, from + 1)
    }
}

/// The last of the first `n` properties that has the name `name`: where a
/// name stands twice, the later property counts.
pub open spec fn last_named(properties: Seq<PropertyView>, name: Seq<char>, n: int) -> Option<int>
    decreases n,
{
    if n <= 0 || n > properties.len() {
        None
    } else if properties[n - 1].name.name == name {
        Some(n - 1)
    } else {
        last_named(properties, name, n - 1)
    }
}

/// Whether the property at index `i` is reported as unknown: it is neither
/// the provider nor the URL, and no later property has its name.
pub open spec fn is_unknown(properties: Seq<PropertyView>, i: int) -> bool {
    let name = properties[i].name.name;
    name != "provider"@ && name != "url"@ && last_named(properties, name, properties.len() as int)
        == Some(i)
}

/// The errors for the unknown properties among the first `n`, in the order
/// of the text.
pub open spec fn unknown_reports(properties: Seq<PropertyView>, n: int) -> Seq<Problem>
    decreases n,
{
    if n <= 0 || n > properties.len() {
        Seq::empty()
    } else if is_unknown(properties, n - 1) {
        unknown_reports(properties, n - 1).push(
            Problem {
                span: properties[n - 1].span,
                message: property_not_known_message(properties[n - 1].name.name),
            },
        )
    } else {
        unknown_reports(properties, n - 1)
    }
}

/// The error for an argument that a datasource block lacks.
pub open spec fn argument_missing(source: SourceConfigView, argument: Seq<char>) -> Problem {
    Problem {
        span: source.span,
        message: "Argument \""@ + argument + "\" is missing in data source block \""@
            + source.name.name + "\"."@,
    }
}

/// What loading the provider of a block gives, from the expression of its
/// `provider` property: the provider string and its connector, or the error
/// reported.
pub open spec fn provider_of(source: SourceConfigView, provider: ExpressionView) -> Result<
    (Seq<char>, Connector),
    Problem,
> {
    match provider {
        ExpressionView::Function(_, _, span) => if provider.is_env() {
            Err(
                Problem {
                    span: source.span,
                    message: "A datasource must not use the env() function in the provider argument."@,
                },
            )
        } else {
            Err(
                Problem {
                    span,
                    message: source_validation_message(
                        "The provider argument in a datasource must be a string literal"@,
                        source.name.name,
                    ),
                },
            )
        },
        ExpressionView::StringValue(text, span) => if text.len() == 0 {
            Err(
                Problem {
                    span,
                    message: source_validation_message(
                        "The provider argument in a datasource must not be empty"@,
                        source.name.name,
                    ),
                },
            )
        } else {
            match connector_named(text) {
                Some(connector) => Ok((text, connector)),
                None => Err(Problem { span, message: provider_not_known_message(text) }),
            }
        },
    }
}

/// What loading a datasource block gives: the datasource, if the block is
/// valid, and the errors reported. A block that is not valid gives exactly
/// one error, for the first rule that it breaks.
pub open spec fn lifted(source: SourceConfigView) -> (Option<DatasourceView>, Seq<Problem>) {
    let properties = source.properties;
    let count = properties.len() as int;
    match first_without_value(properties, 0) {
        Some(i) => (
            None,
            seq![
                Problem {
                    span: source.span,
                    message: missing_value_message(
                        properties[i].name.name,
                        source.name.name,
                        "datasource"@,
                    ),
                },
            ],
        ),
        None => match last_named(properties, "provider"@, count) {
            None => (None, seq![argument_missing(source, "provider"@)]),
            Some(p) => match provider_of(source, properties[p].value->0) {
                Err(problem) => (None, seq![problem]),
                Ok((provider, connector)) => match last_named(properties, "url"@, count) {
                    None => (None, seq![argument_missing(source, "url"@)]),
                    Some(u) => match env_string_of(properties[u].value->0) {
                        Err(problem) => (None, seq![problem]),
                        Ok(url) => (
                            Some(
                                DatasourceView {
                                    name: source.name.name,
                                    provider,
                                    url,
                                    url_span: properties[u].value->0.span(),
                                    documentation: source.documentation,
                                    connector,
                                },
                            ),
                            unknown_reports(properties, count),
                        ),
                    },
                },
            },
        },
    }
}

/// The datasources that the first `n` items of a schema give.
pub open spec fn lifted_sources(tops: Seq<TopView>, n: int) -> Seq<DatasourceView>
    decreases n,
{
    if n <= 0 || n > tops.len() {
        Seq::empty()
    } else {
        match lifted(tops[n - 1].source()).0 {
            Some(datasource) => lifted_sources(tops, n - 1).push(datasource),
            None => lifted_sources(tops, n - 1),
        }
    }
}

/// The errors reported while the first `n` items of a schema are loaded.
pub open spec fn lifted_reports(tops: Seq<TopView>, n: int) -> Seq<Problem>
    decreases n,
{
    if n <= 0 || n > tops.len() {
        Seq::empty()
    } else {
        lifted_reports(tops, n - 1) + lifted(tops[n - 1].source()).1
    }
}

/// The error that flags a block of a schema with several datasources.
pub open spec fn several_sources(source: SourceConfigView) -> Problem {
    Problem {
        span: source.span,
        message: source_validation_message(
            "You defined more than one datasource. This is not allowed yet because support for multiple databases has not been implemented yet."@,
            source.name.name,
        ),
    }
}

/// One error for each of the first `n` blocks: that the schema has several
/// datasources.
pub open spec fn several_sources_reports(tops: Seq<TopView>, n: int) -> Seq<Problem> {
    Seq::new(
        if 0 <= n <= tops.len() {
            n as nat
        } else {
            0
        },
        |i: int| several_sources(tops[i].source()),
    )
}

/// All errors that loading the datasources of a schema reports: those of
/// the blocks, in the order of the text, and then, where the schema holds
/// more than one block, one for each block.
pub open spec fn loading_reports(tops: Seq<TopView>) -> Seq<Problem> {
    if tops.len() > 1 {
        lifted_reports(tops, tops.len() as int) + several_sources_reports(tops, tops.len() as int)
    } else {
        lifted_reports(tops, tops.len() as int)
    }
}

/// In a schema with two or more datasource blocks every block is flagged:
/// the errors reported end with one error for each block, in the order of
/// the text, that says that more than one datasource is defined.
pub proof fn lemma_every_block_flagged(tops: Seq<TopView>)
    requires
        tops.len() >= 2,
    ensures
        loading_reports(tops).len() >= tops.len(),
        forall|i: int|
            0 <= i < tops.len() ==> loading_reports(tops)[loading_reports(tops).len() - tops.len()
                + i] == several_sources((#[trigger] tops[i]).source()),
{
}

/// The index of the last property with the name `name`.
fn find_last_named(properties: &Vec<ConfigBlockProperty>, name: &str) -> (found: Option<usize>)
    ensures
        match found {
            Some(i) => last_named(
                properties@.map_values(|p: ConfigBlockProperty| p@),
                name@,
                properties@.len() as int,
            ) == Some(i as int) && i < properties@.len(),
            None => last_named(
                properties@.map_values(|p: ConfigBlockProperty| p@),
                name@,
                properties@.len() as int,
            ) is None,
        },
{
    let ghost views = properties@.map_values(|p: ConfigBlockProperty| p@);
    let mut n: usize = properties.len();
    while n > 0
        invariant
            n <= properties@.len(),
            views == properties@.map_values(|p: ConfigBlockProperty| p@),
            last_named(views, name@, properties@.len() as int) == last_named(views, name@, n as int),
        decreases n,
    {
        assert(views[n - 1] == properties@[n - 1]@);
        if str_eq(properties[n - 1].name.name.as_str(), name) {
            return Some(n - 1);
        }
        n -= 1;
    }
    None
}

/// Loads the provider of a block from the expression of its `provider`
/// property.
fn lift_provider<'a>(
    ast_source: &SourceConfig,
    provider_arg: &'a Expression,
    diagnostics: &mut Diagnostics,
) -> (loaded: Option<(&'a str, Connector)>)
    ensures
        final(diagnostics)@.warnings == old(diagnostics)@.warnings,
        match provider_of(ast_source@, provider_arg@) {
            Ok((provider, connector)) => loaded matches Some(pair) && pair.0@ == provider && pair.1
                == connector && final(diagnostics)@ == old(diagnostics)@,
            Err(problem) => loaded is None && final(diagnostics)@.errors == old(diagnostics)@.errors.push(problem),
        },
{
    let source_name = ast_source.name.name.as_str();
    if provider_arg.is_env_expression() {
        diagnostics.push_error(
            SchemaError::new_functional_evaluation_error(
                "A datasource must not use the env() function in the provider argument.",
                ast_source.span,
            ),
        );
        return None;
    }
    let provider = match string_opt(provider_arg) {
        Some(provider) => {
            if provider.is_empty() {
                diagnostics.push_error(
                    SchemaError::new_source_validation_error(
                        "The provider argument in a datasource must not be empty",
                        source_name,
                        provider_arg.span(),
                    ),
                );
                return None;
            }
            provider
        },
        None => {
            diagnostics.push_error(
                SchemaError::new_source_validation_error(
                    "The provider argument in a datasource must be a string literal",
                    source_name,
                    provider_arg.span(),
                ),
            );
            return None;
        },
    };
    match Connector::new(provider) {
        Some(c) => Some((provider, c)),
        None => {
            diagnostics.push_error(
                SchemaError::new_datasource_provider_not_known_error(provider, provider_arg.span()),
            );
            None
        },
    }
}

/// Reports the properties of a block that are neither its provider nor its
/// URL, each name once.
fn report_unknown_properties(ast_source: &SourceConfig, diagnostics: &mut Diagnostics)
    ensures
        final(diagnostics)@.warnings == old(diagnostics)@.warnings,
        final(diagnostics)@.errors == old(diagnostics)@.errors + unknown_reports(
            ast_source@.properties,
            ast_source@.properties.len() as int,
        ),
{
    let ghost properties = ast_source@.properties;
    let mut i: usize = 0;
    proof {
        assert(diagnostics@.errors =~= old(diagnostics)@.errors + unknown_reports(properties, 0));
    }
    while i < ast_source.properties.len()
        invariant
            i <= ast_source.properties@.len(),
            properties == ast_source@.properties,
            diagnostics@.warnings == old(diagnostics)@.warnings,
            diagnostics@.errors == old(diagnostics)@.errors + unknown_reports(properties, i as int),
        decreases ast_source.properties@.len() - i,
    {
        let property = &ast_source.properties[i];
        let name = property.name.name.as_str();
        assert(properties[i as int] == property@);
        if !str_eq(name, "provider") && !str_eq(name, "url") {
            let last = find_last_named(&ast_source.properties, name);
            match last {
                Some(k) => {
                    if k == i {
                        diagnostics.push_error(
                            SchemaError::new_property_not_known_error(name, property.span),
                        );
                    }
                },
                None => {},
            }
        }
        i += 1;
        proof {
            assert(diagnostics@.errors =~= old(diagnostics)@.errors + unknown_reports(
                properties,
                i as int,
            ));
        }
    }
}

/// The first property of a block that has no value.
fn find_without_value(ast_source: &SourceConfig) -> (found: Option<usize>)
    ensures
        match found {
            Some(i) => first_without_value(ast_source@.properties, 0) == Some(i as int) && i
                < ast_source@.properties.len(),
            None => first_without_value(ast_source@.properties, 0) is None && forall|k: int|
                0 <= k < ast_source@.properties.len() ==> (
                #[trigger] ast_source@.properties[k]).value is Some,
        },
{
    let ghost properties = ast_source@.properties;
    let mut i: usize = 0;
    while i < ast_source.properties.len()
        invariant
            i <= ast_source.properties@.len(),
            properties == ast_source@.properties,
            first_without_value(properties, 0) == first_without_value(properties, i as int),
            forall|k: int| 0 <= k < i ==> (#[trigger] properties[k]).value is Some,
        decreases ast_source.properties@.len() - i,
    {
        assert(properties[i as int] == ast_source.properties@[i as int]@);
        if ast_source.properties[i].value.is_none() {
            return Some(i);
        }
        i += 1;
    }
    None
}

/// Loads one datasource block. A valid block gives its datasource, and an
/// error for each property that is not known; any other block gives no
/// datasource and the error for the first rule that it breaks.
pub fn lift_datasource(ast_source: &SourceConfig, diagnostics: &mut Diagnostics) -> (datasource:
    Option<Datasource>)
    ensures
        final(diagnostics)@.warnings == old(diagnostics)@.warnings,
        final(diagnostics)@.errors == old(diagnostics)@.errors + lifted(ast_source@).1,
        match lifted(ast_source@).0 {
            Some(expected) => datasource matches Some(found) && found@ == expected,
            None => datasource is None,
        },
{
    let source_name = ast_source.name.name.as_str();
    let ghost properties = ast_source@.properties;
    match find_without_value(ast_source) {
        Some(i) => {
            diagnostics.push_error(
                SchemaError::new_config_property_missing_value_error(
                    ast_source.properties[i].name.name.as_str(),
                    source_name,
                    "datasource",
                    ast_source.span,
                ),
            );
            proof {
                assert(properties[i as int] == ast_source.properties@[i as int]@);
                assert(diagnostics@.errors =~= old(diagnostics)@.errors + lifted(ast_source@).1);
            }
            return None;
        },
        None => {},
    }
    let provider_index = match find_last_named(&ast_source.properties, "provider") {
        Some(p) => p,
        None => {
            diagnostics.push_error(
                SchemaError::new_source_argument_not_found_error(
                    "provider",
                    source_name,
                    ast_source.span,
                ),
            );
            proof {
                assert(diagnostics@.errors =~= old(diagnostics)@.errors + lifted(ast_source@).1);
            }
            return None;
        },
    };
    assert(properties[provider_index as int] == ast_source.properties@[provider_index as int]@);
    let provider_arg: &Expression = match &ast_source.properties[provider_index].value {
        Some(expression) => expression,
        None => {
            return None;
        },
    };
    let (provider, active_connector) = match lift_provider(ast_source, provider_arg, diagnostics) {
        Some(pair) => pair,
        None => {
            proof {
                assert(diagnostics@.errors =~= old(diagnostics)@.errors + lifted(ast_source@).1);
            }
            return None;
        },
    };
    let url_index = match find_last_named(&ast_source.properties, "url") {
        Some(u) => u,
        None => {
            diagnostics.push_error(
                SchemaError::new_source_argument_not_found_error("url", source_name, ast_source.span),
            );
            proof {
                assert(diagnostics@.errors =~= old(diagnostics)@.errors + lifted(ast_source@).1);
            }
            return None;
        },
    };
    assert(properties[url_index as int] == ast_source.properties@[url_index as int]@);
    let url_arg: &Expression = match &ast_source.properties[url_index].value {
        Some(expression) => expression,
        None => {
            return None;
        },
    };
    let url = match StringFromEnvVar::coerce(url_arg, diagnostics) {
        Some(url) => url,
        None => {
            proof {
                assert(diagnostics@.errors =~= old(diagnostics)@.errors + lifted(ast_source@).1);
            }
            return None;
        },
    };
    let url_span = url_arg.span();
    let documentation = match ast_source.documentation() {
        Some(text) => Some(String::from_str(text)),
        None => None,
    };
    report_unknown_properties(ast_source, diagnostics);
    Some(
        Datasource::new(
            String::from_str(source_name),
            String::from_str(provider),
            url,
            url_span,
            documentation,
            active_connector,
        ),
    )
}

/// Loads all datasources of a schema. Where the schema holds more than one
/// datasource block, every block is flagged with an error of its own.
pub fn load_datasources_from_ast(ast_schema: &SchemaAst, diagnostics: &mut Diagnostics) -> (sources:
    Vec<Datasource>)
    ensures
        sources@.map_values(|d: Datasource| d@) == lifted_sources(
            ast_schema@,
            ast_schema@.len() as int,
        ),
        final(diagnostics)@.warnings == old(diagnostics)@.warnings,
        final(diagnostics)@.errors == old(diagnostics)@.errors + loading_reports(ast_schema@),
{
    let mut sources: Vec<Datasource> = Vec::new();
    let blocks = ast_schema.sources();
    let ghost tops = ast_schema@;
    let mut i: usize = 0;
    proof {
        assert(sources@.map_values(|d: Datasource| d@) =~= lifted_sources(tops, 0));
        assert(diagnostics@.errors =~= old(diagnostics)@.errors + lifted_reports(tops, 0));
    }
    while i < blocks.len()
        invariant
            i <= blocks@.len(),
            tops == ast_schema@,
            blocks@.len() == tops.len(),
            forall|k: int| 0 <= k < blocks@.len() ==> (#[trigger] blocks@[k])@ == tops[k].source(),
            sources@.map_values(|d: Datasource| d@) == lifted_sources(tops, i as int),
            diagnostics@.warnings == old(diagnostics)@.warnings,
            diagnostics@.errors == old(diagnostics)@.errors + lifted_reports(tops, i as int),
        decreases blocks@.len() - i,
    {
        let ghost before = sources@.map_values(|d: Datasource| d@);
        match lift_datasource(blocks[i], diagnostics) {
            Some(source) => {
                sources.push(source);
                proof {
                    assert(sources@.map_values(|d: Datasource| d@) =~= before.push(source@));
                }
            },
            None => {},
        }
        i += 1;
        proof {
            assert(diagnostics@.errors =~= old(diagnostics)@.errors + lifted_reports(tops, i as int));
        }
    }
    if blocks.len() > 1 {
        let mut j: usize = 0;
        let ghost loaded = diagnostics@.errors;
        proof {
            assert(diagnostics@.errors =~= loaded + several_sources_reports(tops, 0));
        }
        while j < blocks.len()
            invariant
                j <= blocks@.len(),
                blocks@.len() == tops.len(),
                forall|k: int|
                    0 <= k < blocks@.len() ==> (#[trigger] blocks@[k])@ == tops[k].source(),
                diagnostics@.warnings == old(diagnostics)@.warnings,
                diagnostics@.errors == loaded + several_sources_reports(tops, j as int),
            decreases blocks@.len() - j,
        {
            let src = blocks[j];
            diagnostics.push_error(
                SchemaError::new_source_validation_error(
                    "You defined more than one datasource. This is not allowed yet because support for multiple databases has not been implemented yet.",
                    src.name.name.as_str(),
                    src.span,
                ),
            );
            j += 1;
            proof {
                assert(diagnostics@.errors =~= loaded + several_sources_reports(tops, j as int));
            }
        }
        proof {
            assert(diagnostics@.errors =~= old(diagnostics)@.errors + loading_reports(tops));
        }
    }
    sources
}

} // verus!
