//! Declarative datamodels: from source text to a validated datamodel, and
//! from there to tables and migrations.

pub mod ast;
pub mod configuration;
pub mod convert;
pub mod dml;
pub mod errors;
pub mod first;
pub mod gather;
pub mod idm;
pub mod migration;
pub mod order;
pub mod parser;
pub mod peg;
pub mod text;
pub mod validator;

use crate::configuration::{load_sources, source_errors};
use crate::errors::{ErrorCollection, ErrorView};
use crate::parser::parsed;
use crate::validator::lift::{lift, lifted};
use crate::validator::resolve::{check_references, unresolved};
use crate::validator::standardise::{completed, named, standardise};
use crate::validator::validate::{validation_errors, Validator};
use vstd::prelude::*;

verus! {

/// Whether `result` is what reading the source text `input` gives.
///
/// A text that cannot be parsed gives the diagnostic of the parser. Where
/// datasources are not declared as they have to be, or else where
/// directives cannot be applied, their diagnostics are given. Else the
/// datamodel that the text declares is held to the rules of validation, and
/// what they find is given, or else the fields that refer to no model. A
/// datamodel that passes all of this is given with a name for every
/// relation and with every field that was missing to lead back.
pub open spec fn is_read(input: Seq<char>, result: Result<dml::Datamodel, ErrorCollection>) -> bool {
    match parsed(input) {
        Err(e) => result matches Err(errors) && errors@ == seq![e],
        Ok(tree_view) => if source_errors(tree_view).len() > 0 {
            result matches Err(errors) && errors@ == source_errors(tree_view)
        } else if lifted(tree_view).1.len() > 0 {
            result matches Err(errors) && errors@ == lifted(tree_view).1
        } else {
            exists|tree: ast::Datamodel, declared: dml::Datamodel|
                #![trigger validation_errors(&tree, &declared)]
                {
                    &&& tree@ == tree_view
                    &&& declared@ == lifted(tree_view).0
                    &&& if validation_errors(&tree, &declared).len() > 0 {
                        result matches Err(errors) && errors@ == validation_errors(
                            &tree,
                            &declared,
                        )
                    } else if unresolved(&tree, &declared).len() > 0 {
                        result matches Err(errors) && errors@ == unresolved(&tree, &declared)
                    } else {
                        result matches Ok(datamodel) && exists|with_names: dml::Datamodel|
                            with_names@ == named(declared@) && datamodel@ == #[trigger] completed(
                                &with_names,
                            )
                    }
                }
        },
    }
}

/// Reads a source text: parses it, builds the datamodel that it declares,
/// validates it and completes it, see [`is_read`].
pub fn parse(datamodel_string: &str) -> (result: Result<dml::Datamodel, ErrorCollection>)
    ensures
        is_read(datamodel_string@, result),
{
    let tree = match parser::parse(datamodel_string) {
        Ok(tree) => tree,
        Err(e) => {
            let mut errors = ErrorCollection::new();
            errors.push(e);
            assert(errors@ =~= seq![e@]);
            return Err(errors);
        },
    };
    if let Err(errors) = load_sources(&tree) {
        return Err(errors);
    }
    let mut datamodel = match lift(&tree) {
        Ok(datamodel) => datamodel,
        Err(errors) => {
            return Err(errors);
        },
    };
    let ghost declared = datamodel;
    let validator = Validator::new();
    if let Err(errors) = validator.validate(&tree, &mut datamodel) {
        return Err(errors);
    }
    if let Err(errors) = check_references(&tree, &datamodel) {
        return Err(errors);
    }
    standardise(&mut datamodel);
    Ok(datamodel)
}

} // verus!
