//! A front end for datasource configuration text: parsing, position queries,
//! diagnostics and validated configuration.

pub mod ast;
pub mod coerce_expression;
pub mod configuration;
pub mod connector;
pub mod diagnostics;
pub mod host;
pub mod js_error;
pub mod parser;
pub mod playground;
pub mod span;
pub mod text;
pub mod validate;

pub use crate::configuration::{Configuration, Datasource, StringFromEnvVar};

use crate::ast::top::TopView;
use crate::ast::SchemaAst;
use crate::configuration::datasource::DatasourceView;
use crate::diagnostics::collection::{layouts, Findings};
use crate::diagnostics::error::Problem;
use crate::diagnostics::paint::{flattened, painted_as};
use crate::diagnostics::pretty_print::Severity;
use crate::diagnostics::{Diagnostics, SchemaWarning};
use crate::parser::parse_schema::{
    lemma_tree_of_text, schema_outcome, unclosed_block, valid_blocks_from,
};
use crate::text::utf8_len;
use crate::validate::datasource_loader::{
    lemma_every_block_flagged, lifted_sources, load_datasources_from_ast, loading_reports,
    several_sources,
};
use vstd::prelude::*;

verus! {

/// A schema with all that validating it gave: the configuration, as far as
/// it could be loaded, and the diagnostics.
pub struct ValidatedSchema {
    pub configuration: Configuration,
    pub diagnostics: Diagnostics,
}

impl ValidatedSchema {
    /// The schema written out for debugging: a placeholder, since a schema
    /// may hold the password of a database.
    pub fn describe(&self) -> (text: &'static str)
        ensures
            text@ == "<Prisma schema>"@,
    {
        "<Prisma schema>"
    }
}

/// The top-level items that parsing a text gives: none where the text ends
/// inside a datasource block.
pub open spec fn parsed_tops(text: Seq<char>) -> Seq<TopView> {
    match schema_outcome(text) {
        Some(outcome) => outcome.tops,
        None => Seq::empty(),
    }
}

/// The errors that parsing a text reports.
pub open spec fn parse_reports(text: Seq<char>) -> Seq<Problem> {
    match schema_outcome(text) {
        Some(outcome) => outcome.reports,
        None => seq![unclosed_block(text)],
    }
}

/// All errors that validating a text reports: those of the parser, then
/// those of loading the datasources.
pub open spec fn validation_reports(text: Seq<char>) -> Seq<Problem> {
    parse_reports(text) + loading_reports(parsed_tops(text))
}

/// The datasources that a text gives.
pub open spec fn datasources_of(text: Seq<char>) -> Seq<DatasourceView> {
    lifted_sources(parsed_tops(text), parsed_tops(text).len() as int)
}

/// In a text with two or more datasource blocks every block is flagged: the
/// errors of validating it end with one error for each block, in the order
/// of the text, that says that more than one datasource is defined. The
/// text has to fit the machine, and no datasource block in it is left
/// open.
pub proof fn lemma_several_blocks_are_flagged(text: Seq<char>)
    requires
        utf8_len(text) <= usize::MAX,
        schema_outcome(text) is Some,
        valid_blocks_from(text, 0) >= 2,
    ensures
        parsed_tops(text).len() == valid_blocks_from(text, 0),
        validation_reports(text).len() >= parsed_tops(text).len(),
        forall|i: int|
            0 <= i < parsed_tops(text).len() ==> validation_reports(text)[validation_reports(
                text,
            ).len() - parsed_tops(text).len() + i] == several_sources(
                (#[trigger] parsed_tops(text)[i]).source(),
            ),
{
    lemma_tree_of_text(text);
    lemma_every_block_flagged(parsed_tops(text));
}

/// What a list of warnings says.
pub open spec fn warning_views(warnings: Seq<SchemaWarning>) -> Seq<Problem> {
    warnings.map_values(|w: SchemaWarning| w@)
}

/// What a list of datasources holds.
pub open spec fn datasource_views(datasources: Seq<Datasource>) -> Seq<DatasourceView> {
    datasources.map_values(|d: Datasource| d@)
}

fn clone_warnings(warnings: &[SchemaWarning]) -> (copies: Vec<SchemaWarning>)
    ensures
        warning_views(copies@) == warning_views(warnings@),
{
    let mut copies: Vec<SchemaWarning> = Vec::new();
    let mut i: usize = 0;
    while i < warnings.len()
        invariant
            i <= warnings@.len(),
            copies@.len() == i,
            forall|k: int| 0 <= k < i ==> (#[trigger] copies@[k])@ == warnings@[k]@,
        decreases warnings@.len() - i,
    {
        copies.push(warnings[i].clone());
        i += 1;
    }
    proof {
        assert(warning_views(copies@) =~= warning_views(warnings@));
    }
    copies
}

/// Loads the configuration of a parsed schema, and adds the errors found to
/// `diagnostics`. The configuration takes the warnings gathered so far
/// along.
pub fn validate_configuration(schema_ast: &SchemaAst, diagnostics: &mut Diagnostics) -> (configuration:
    Configuration)
    ensures
        datasource_views(configuration.datasources@) == lifted_sources(
            schema_ast@,
            schema_ast@.len() as int,
        ),
        warning_views(configuration.warnings@) == old(diagnostics)@.warnings,
        final(diagnostics)@.warnings == old(diagnostics)@.warnings,
        final(diagnostics)@.errors == old(diagnostics)@.errors + loading_reports(schema_ast@),
{
    let datasources = load_datasources_from_ast(schema_ast, diagnostics);
    let warnings = clone_warnings(diagnostics.warnings());
    Configuration { datasources, warnings }
}

/// Parses and validates a schema. It takes in what it can, and returns it
/// with every error found: nothing is given up at the first error.
pub fn validate(file: &str) -> (schema: ValidatedSchema)
    ensures
        schema.diagnostics@ == (Findings {
            errors: validation_reports(file@),
            warnings: Seq::empty(),
        }),
        datasource_views(schema.configuration.datasources@) == datasources_of(file@),
        schema.configuration.warnings@.len() == 0,
{
    let mut diagnostics = Diagnostics::new();
    let ast = crate::parser::parse_schema(file, &mut diagnostics);
    let configuration = validate_configuration(&ast, &mut diagnostics);
    proof {
        assert(diagnostics@.errors =~= validation_reports(file@));
        assert(warning_views(configuration.warnings@).len() == 0);
    }
    ValidatedSchema { diagnostics, configuration }
}

/// Parses and validates a schema. A schema with errors gives the errors as
/// text, laid out against the schema under the file name `schema.prisma`.
pub fn parse_schema(file: &str) -> (result: Result<ValidatedSchema, String>)
    ensures
        match result {
            Ok(schema) => validation_reports(file@).len() == 0 && schema.diagnostics@ == (Findings {
                errors: Seq::empty(),
                warnings: Seq::empty(),
            }) && datasource_views(schema.configuration.datasources@) == datasources_of(file@),
            Err(text) => validation_reports(file@).len() > 0 && exists|painted: Seq<Seq<char>>|
                painted_as(
                    layouts(
                        validation_reports(file@),
                        "schema.prisma"@,
                        file@,
                        Severity::Error,
                        validation_reports(file@).len() as int,
                    ),
                    painted,
                ) && text@ == flattened(painted),
        },
{
    let mut schema = validate(file);
    match schema.diagnostics.to_result() {
        Ok(()) => {
            proof {
                assert(schema.diagnostics@.errors =~= Seq::<Problem>::empty());
            }
            Ok(schema)
        },
        Err(err) => {
            let text = err.to_pretty_string("schema.prisma", file);
            proof {
                let painted = choose|painted: Seq<Seq<char>>|
                    painted_as(
                        layouts(
                            err@.errors,
                            "schema.prisma"@,
                            file@,
                            Severity::Error,
                            err@.errors.len() as int,
                        ),
                        painted,
                    ) && text@ == flattened(painted);
                assert(painted_as(
                    layouts(
                        validation_reports(file@),
                        "schema.prisma"@,
                        file@,
                        Severity::Error,
                        validation_reports(file@).len() as int,
                    ),
                    painted,
                ));
            }
            Err(text)
        },
    }
}

/// Loads the configuration of a schema. A schema with errors gives the
/// diagnostics.
pub fn parse_configuration(schema: &str) -> (result: Result<Configuration, Diagnostics>)
    ensures
        match result {
            Ok(configuration) => validation_reports(schema@).len() == 0 && datasource_views(
                configuration.datasources@,
            ) == datasources_of(schema@),
            Err(diagnostics) => validation_reports(schema@).len() > 0 && diagnostics@ == (Findings {
                errors: validation_reports(schema@),
                warnings: Seq::empty(),
            }),
        },
{
    let mut diagnostics = Diagnostics::default();
    let ast = crate::parser::parse_schema(schema, &mut diagnostics);
    let out = validate_configuration(&ast, &mut diagnostics);
    proof {
        assert(diagnostics@.errors =~= validation_reports(schema@));
    }
    match diagnostics.to_result() {
        Ok(()) => Ok(out),
        Err(found) => Err(found),
    }
}

} // verus!
