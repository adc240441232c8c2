//! From source text to syntax tree.

pub mod grammar;
pub mod tree;

use crate::ast::{Datamodel, Span, TopView};
use crate::errors::{ErrorView, ValidationError};
use crate::first::{first_where, lemma_first_where, lemma_first_where_is};
use crate::parser::grammar::{
    build_grammar, datamodel_grammar, display_name, rule_name, start, start_expression,
    LEGACY_COLON, LEGACY_LIST_TYPE, LEGACY_REQUIRED_TYPE, MAX_DEPTH, MODEL_DECLARATION,
    TYPE_KEYWORD,
};
use crate::parser::tree::{span_at, tree_of, Reader};
use crate::peg;
use crate::peg::{ParseError, ParseErrorView, Token};
use crate::text::owned;
use vstd::prelude::*;
use vstd::string::*;

verus! {

/// The message for a list type in square brackets.
pub const LEGACY_LIST: &'static str =
    "To specify a list, please use `Type[]` instead of `[Type]`.";

/// The message for a colon after a field's name.
pub const LEGACY_FIELD_COLON: &'static str = "Field declarations don't require a `:`.";

/// The message for a type followed by `!`.
pub const LEGACY_REQUIRED: &'static str =
    "Fields are required by default, `!` is no longer required.";

/// The message for a model declared with the keyword `type`.
pub const LEGACY_MODEL: &'static str =
    "Model declarations have to be indicated with the `model` keyword.";

/// Whether token `i` stands for a notation of an earlier version of the
/// language: a colon after a field's name, a type followed by `!`, a list
/// type in square brackets, or the keyword `type` at the head of a model.
pub open spec fn is_legacy_at(tokens: Seq<Token>, i: int) -> bool {
    let rule = tokens[i].rule;
    ||| rule == LEGACY_COLON
    ||| rule == LEGACY_REQUIRED_TYPE
    ||| rule == LEGACY_LIST_TYPE
    ||| (rule == TYPE_KEYWORD && i > 0 && tokens[i - 1].rule == MODEL_DECLARATION)
}

/// What is said of the notation of an earlier version that `rule` matches.
pub open spec fn legacy_message(rule: usize) -> Seq<char> {
    if rule == LEGACY_LIST_TYPE {
        LEGACY_LIST@
    } else if rule == LEGACY_COLON {
        LEGACY_FIELD_COLON@
    } else if rule == LEGACY_REQUIRED_TYPE {
        LEGACY_REQUIRED@
    } else {
        LEGACY_MODEL@
    }
}

/// The diagnostic for the first notation of an earlier version among
/// `tokens`, if there is any.
pub open spec fn legacy_error(tokens: Seq<Token>) -> Option<ErrorView> {
    match first_where(tokens.len() as int, |i: int| is_legacy_at(tokens, i)) {
        Some(i) => Some(
            ErrorView::LegacyParser {
                message: legacy_message(tokens[i].rule),
                span: span_at(tokens, i as usize),
            },
        ),
        None => None,
    }
}

/// What `rules` are called in diagnostics, without those that are never
/// named there.
pub open spec fn names_of(rules: Seq<usize>) -> Seq<Seq<char>>
    decreases rules.len(),
{
    if rules.len() == 0 {
        Seq::empty()
    } else {
        let rest = names_of(rules.drop_last());
        if display_name(rules.last()).len() > 0 {
            rest.push(display_name(rules.last()))
        } else {
            rest
        }
    }
}

/// The diagnostic for a text of `len` bytes that was not parsed. A text
/// that does not follow the grammar gives what was expected at the place
/// where it stops to do so. A text that is nested too deeply gives a
/// diagnostic for the whole text that expects nothing.
pub open spec fn syntax_error(error: ParseErrorView, len: nat) -> ErrorView {
    match error {
        ParseErrorView::NoMatch { pos, expected } => ErrorView::Parser {
            expected_tokens: names_of(expected),
            span: Span { start: pos as usize, end: pos as usize },
        },
        ParseErrorView::TooDeep => ErrorView::Parser {
            expected_tokens: Seq::empty(),
            span: Span { start: 0, end: len as usize },
        },
    }
}

/// What parsing the source text `input` gives: its syntax tree, or the
/// diagnostic for the first place at which it does not follow the grammar,
/// or else for the first notation of an earlier version of the language.
pub open spec fn parsed(input: Seq<char>) -> Result<Seq<TopView>, ErrorView> {
    let bytes = vstd::utf8::encode_utf8(input);
    match peg::spec_parse(datamodel_grammar(), bytes, start(), MAX_DEPTH as nat) {
        Ok(tokens) => match legacy_error(tokens) {
            Some(error) => Err(error),
            None => Ok(tree_of(input, tokens)),
        },
        Err(error) => Err(syntax_error(error, bytes.len())),
    }
}

/// The diagnostic for a text that was not parsed, see [`syntax_error`].
fn to_syntax_error(error: &ParseError, len: usize) -> (diagnostic: ValidationError)
    ensures
        diagnostic@ == syntax_error(error@, len as nat),
{
    match error {
        ParseError::NoMatch { pos, expected } => {
            let mut names: Vec<String> = Vec::new();
            let mut i: usize = 0;
            assert(expected@.subrange(0, 0) =~= Seq::<usize>::empty());
            assert(names.deep_view() =~= Seq::<Seq<char>>::empty());
            while i < expected.len()
                invariant
                    i <= expected@.len(),
                    names.deep_view() == names_of(expected@.subrange(0, i as int)),
                decreases expected@.len() - i,
            {
                proof {
                    assert(expected@.subrange(0, i + 1).drop_last() =~= expected@.subrange(
                        0,
                        i as int,
                    ));
                }
                let name = rule_name(expected[i]);
                if !name.is_empty() {
                    let ghost before = names.deep_view();
                    names.push(owned(name));
                    assert(names.deep_view() =~= before.push(name@));
                }
                i += 1;
            }
            assert(expected@.subrange(0, i as int) =~= expected@);
            ValidationError::ParserError { expected_tokens: names, span: Span::new(*pos, *pos) }
        },
        ParseError::TooDeep => {
            let names: Vec<String> = Vec::new();
            assert(names.deep_view() =~= Seq::<Seq<char>>::empty());
            ValidationError::ParserError { expected_tokens: names, span: Span::new(0, len) }
        },
    }
}

/// The diagnostic for the first notation of an earlier version among
/// `tokens`, see [`legacy_error`].
fn find_legacy(tokens: &Vec<Token>) -> (error: Option<ValidationError>)
    ensures
        match error {
            Some(e) => legacy_error(tokens@) == Some(e@),
            None => legacy_error(tokens@) is None,
        },
{
    let ghost legacy = |i: int| is_legacy_at(tokens@, i);
    let mut i: usize = 0;
    while i < tokens.len()
        invariant
            i <= tokens@.len(),
            legacy == (|i: int| is_legacy_at(tokens@, i)),
            forall|j: int| 0 <= j < i ==> !#[trigger] legacy(j),
        decreases tokens@.len() - i,
    {
        let rule = tokens[i].rule;
        let message = if rule == LEGACY_LIST_TYPE {
            Some(LEGACY_LIST)
        } else if rule == LEGACY_COLON {
            Some(LEGACY_FIELD_COLON)
        } else if rule == LEGACY_REQUIRED_TYPE {
            Some(LEGACY_REQUIRED)
        } else if rule == TYPE_KEYWORD && i > 0 && tokens[i - 1].rule == MODEL_DECLARATION {
            Some(LEGACY_MODEL)
        } else {
            None
        };
        if let Some(message) = message {
            proof {
                assert(legacy(i as int));
                lemma_first_where_is(tokens@.len() as int, legacy, i as int);
            }
            return Some(
                ValidationError::new_legacy_parser_error(
                    message,
                    Span::new(tokens[i].start, tokens[i].end),
                ),
            );
        }
        assert(!legacy(i as int));
        i += 1;
    }
    proof {
        lemma_first_where(tokens@.len() as int, legacy);
    }
    None
}

/// Parses the source text `input`, see [`parsed`].
pub fn parse(input: &str) -> (result: Result<Datamodel, ValidationError>)
    ensures
        match result {
            Ok(tree) => parsed(input@) matches Ok(t) && t == tree@,
            Err(error) => parsed(input@) matches Err(e) && e == error@,
        },
{
    let grammar = build_grammar();
    let bytes = input.as_bytes();
    match grammar.parse(bytes, start_expression(), MAX_DEPTH) {
        Ok(tokens) => match find_legacy(&tokens) {
            Some(error) => Err(error),
            None => {
                let reader = Reader { input, tokens: &tokens };
                Ok(reader.tree())
            },
        },
        Err(error) => Err(to_syntax_error(&error, bytes.len())),
    }
}

} // verus!
