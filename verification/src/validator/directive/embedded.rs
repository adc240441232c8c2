//! The `@@embedded` directive.

use crate::ast;
use crate::dml;
use crate::errors::ValidationError;
use crate::validator::directive::{Args, DirectiveValidator};
use vstd::prelude::*;

verus! {

/// The `@@embedded` directive: the records of the model are kept inside the
/// records that own them.
pub struct EmbeddedDirectiveValidator {}

/// `model` after `@@embedded` was applied to it.
pub open spec fn embedded_applied(model: dml::Model) -> dml::Model {
    dml::Model { is_embedded: true, ..model }
}

/// What `@@embedded` is written as: its name, and no arguments. A directive
/// that is written stands nowhere in a source text.
pub open spec fn embedded_directive() -> ast::DirectiveView {
    ast::DirectiveView {
        name: "embedded"@,
        arguments: Seq::empty(),
        span: ast::Span { start: 0, end: 0 },
    }
}

/// The directive that `model` is written with: `@@embedded` if it is
/// embedded, and else none.
pub open spec fn embedded_serialized(model: dml::Model) -> Option<ast::DirectiveView> {
    if model.is_embedded {
        Some(embedded_directive())
    } else {
        None
    }
}

impl DirectiveValidator<dml::Model> for EmbeddedDirectiveValidator {
    fn directive_name(&self) -> (name: &'static str)
        ensures
            name@ == embedded_directive().name,
    {
        "embedded"
    }

    /// Marks the model as embedded, whatever the arguments are.
    fn validate_and_apply(&self, _args: &mut Args, obj: &mut dml::Model) -> (result: Result<
        (),
        ValidationError,
    >)
        ensures
            result is Ok,
            *final(obj) == embedded_applied(*old(obj)),
            *final(_args) == *old(_args),
    {
        obj.is_embedded = true;
        Ok(())
    }

    fn serialize(&self, model: &dml::Model, _datamodel: &dml::Datamodel) -> (result: Result<
        Option<ast::Directive>,
        ValidationError,
    >)
        ensures
            result matches Ok(written),
            match result->Ok_0 {
                Some(directive) => embedded_serialized(*model) == Some(directive@),
                None => embedded_serialized(*model) is None,
            },
    {
        if model.is_embedded {
            let directive = ast::Directive::new(self.directive_name(), Vec::new());
            assert(directive@.arguments =~= Seq::empty());
            return Ok(Some(directive));
        }
        Ok(None)
    }
}

/// Applying `@@embedded` and writing the model again gives a directive
/// that says what was said: it has the name and the arguments of `given`, a
/// directive `@@embedded` without arguments anywhere in a source text.
pub proof fn lemma_embedded_round_trip(given: ast::DirectiveView, model: dml::Model)
    requires
        given.name == "embedded"@,
        given.arguments.len() == 0,
    ensures
        embedded_serialized(embedded_applied(model)) matches Some(written) && written.name
            == given.name && written.arguments == given.arguments,
{
    assert(given.arguments =~= Seq::empty());
}

} // verus!
