//! The grammar of datamodel source texts.
//!
//! The grammar is built once per parse. Every rule has a number, by which
//! tokens and failures name it, and an expression that calls it; the bodies
//! of the rules follow.

use crate::peg::{Expr, Grammar, GrammarView, RuleKind};
use vstd::prelude::*;
use vstd::string::*;

verus! {

/// The end of the input.
pub const EOI: usize = 0;

/// The brace that opens a block.
pub const BLOCK_OPEN: usize = 1;

/// The brace that closes a block.
pub const BLOCK_CLOSE: usize = 2;

/// The keyword `model`.
pub const MODEL_KEYWORD: usize = 3;

/// The keyword `type`.
pub const TYPE_KEYWORD: usize = 4;

/// The keyword `enum`.
pub const ENUM_KEYWORD: usize = 5;

/// The keyword `generator`.
pub const GENERATOR_KEYWORD: usize = 6;

/// The keyword `datasource`, or `source` for short.
pub const SOURCE_KEYWORD: usize = 7;

/// A colon between a field's name and its type, as earlier versions of the
/// language had it.
pub const LEGACY_COLON: usize = 8;

/// A name: a letter or digit, then letters, digits, `_` and `-`.
pub const IDENTIFIER: usize = 9;

/// A number: an optional `-`, digits, and optionally a `.` and more digits.
pub const NUMERIC_LITERAL: usize = 10;

/// What stands between the quotes of a string: any bytes but a backslash, a
/// quote and the end of a line, and any byte after a backslash.
pub const STRING_CONTENT: usize = 11;

/// A string in double quotes.
pub const STRING_LITERAL: usize = 12;

/// `true` or `false`, not followed by more of a name.
pub const BOOLEAN_LITERAL: usize = 13;

/// A constant: a letter, then letters, digits and `_`.
pub const CONSTANT_LITERAL: usize = 14;

/// A call: a name and its arguments in parentheses.
pub const FUNCTION: usize = 15;

/// A list of expressions in square brackets.
pub const ARRAY_EXPRESSION: usize = 16;

/// A list, a call or a literal.
pub const EXPRESSION: usize = 17;

/// The name of an argument.
pub const ARGUMENT_NAME: usize = 18;

/// The value of an argument.
pub const ARGUMENT_VALUE: usize = 19;

/// A named argument: `name: value`.
pub const ARGUMENT: usize = 20;

/// The arguments of a directive in parentheses: only the first may be unnamed.
pub const DIRECTIVE_ARGUMENTS: usize = 21;

/// The name of a directive, with the name of a datasource and a `.` before it
/// where the datasource brings the directive.
pub const DIRECTIVE_NAME: usize = 22;

/// A directive: its name, and its arguments if it has any.
pub const DIRECTIVE: usize = 23;

/// A directive on a model, after `@@`.
pub const BLOCK_LEVEL_DIRECTIVE: usize = 24;

/// A type that is named and nothing else: a required field.
pub const BASE_TYPE: usize = 25;

/// A type followed by `[]`: a list.
pub const LIST_TYPE: usize = 26;

/// A type followed by `?`: an optional field.
pub const OPTIONAL_TYPE: usize = 27;

/// A type followed by `!`, as earlier versions of the language had it.
pub const LEGACY_REQUIRED_TYPE: usize = 28;

/// A type in square brackets, as earlier versions of the language had it.
pub const LEGACY_LIST_TYPE: usize = 29;

/// The type of a field, in any of its notations.
pub const FIELD_TYPE: usize = 30;

/// A field: its name, its type and its directives.
pub const FIELD_DECLARATION: usize = 31;

/// A type alias: `type Name = Type` and its directives.
pub const TYPE_DECLARATION: usize = 32;

/// A model: the keyword, its name, directives if any, and its fields and
/// directives in braces. The keyword `type` is read too, as earlier versions of
/// the language had it.
pub const MODEL_DECLARATION: usize = 33;

/// A value of an enum: an upper-case letter, then upper-case letters, digits
/// and `_`.
pub const ENUM_FIELD_DECLARATION: usize = 34;

/// An enum: the keyword, its name, and its values in braces.
pub const ENUM_DECLARATION: usize = 35;

/// A property of a configuration block: `name = value`.
pub const KEY_VALUE: usize = 36;

/// A datasource: the keyword, its name, and its properties in braces.
pub const SOURCE_BLOCK: usize = 37;

/// A generator: the keyword, its name, and its properties in braces.
pub const GENERATOR_BLOCK: usize = 38;

/// A whole source text: declarations from its start to its end.
pub const DATAMODEL: usize = 39;

/// The number of rules.
pub const RULE_COUNT: usize = 40;

/// The index of the expression that matches a lower-case letter.
pub const LOWER: usize = 0;

/// The index of the expression that matches an upper-case letter.
pub const UPPER: usize = 1;

/// The index of the expression that matches a digit.
pub const DIGIT: usize = 2;

/// The index of the expression that matches a letter.
pub const LETTER: usize = 3;

/// The index of the expression that matches a letter or a digit.
pub const ALNUM: usize = 4;

/// The index of the expression that calls the first rule. The expressions
/// that call the other rules follow in the order of the rules.
pub const FIRST_CALL: usize = 5;

/// How many rules may be entered inside one another.
pub const MAX_DEPTH: usize = 128;

/// The index of the expression that calls `rule`.
pub open spec fn call_of(rule: usize) -> usize {
    (FIRST_CALL + rule) as usize
}

/// The index of the expression that calls `rule`.
fn call(rule: usize) -> (index: usize)
    requires
        rule < RULE_COUNT,
    ensures
        index == call_of(rule),
{
    FIRST_CALL + rule
}

impl GrammarView {
    /// The grammar with one more expression that matches `first`, then
    /// `second`, and the index of that expression.
    pub open spec fn sequence(self, first: usize, second: usize) -> (GrammarView, usize) {
        self.add(Expr::Sequence { first, second })
    }

    /// The grammar with the expressions that match `parts` one after
    /// another, and the index of the expression that matches them all. One
    /// part is its own sequence.
    pub open spec fn sequence_of(self, parts: Seq<usize>) -> (GrammarView, usize)
        decreases parts.len(),
    {
        if parts.len() == 0 {
            (self, 0)
        } else if parts.len() == 1 {
            (self, parts[0])
        } else {
            let (grammar, rest) = self.sequence_of(parts.drop_first());
            grammar.sequence(parts[0], rest)
        }
    }

    /// The grammar with one more expression that matches `first`, or else
    /// `second`, and the index of that expression.
    pub open spec fn choice(self, first: usize, second: usize) -> (GrammarView, usize) {
        self.add(Expr::Choice { first, second })
    }

    /// The grammar with the expressions that match the first of
    /// `alternatives` that matches, and the index of the expression that
    /// tries them all. One alternative is its own choice.
    pub open spec fn choice_of(self, alternatives: Seq<usize>) -> (GrammarView, usize)
        decreases alternatives.len(),
    {
        if alternatives.len() == 0 {
            (self, 0)
        } else if alternatives.len() == 1 {
            (self, alternatives[0])
        } else {
            let (grammar, rest) = self.choice_of(alternatives.drop_first());
            grammar.choice(alternatives[0], rest)
        }
    }
}

impl Grammar {
    /// Adds the expressions that match `parts` one after another, see
    /// [`GrammarView::sequence_of`].
    pub fn sequence_of(&mut self, parts: Vec<usize>) -> (index: usize)
        ensures
            (final(self)@, index) == old(self)@.sequence_of(parts@),
    {
        if parts.len() == 0 {
            return 0;
        }
        let mut i: usize = parts.len() - 1;
        let mut index = parts[i];
        proof {
            assert(parts@.subrange(i as int, parts@.len() as int).len() == 1);
        }
        while i > 0
            invariant
                i < parts@.len(),
                (self@, index) == old(self)@.sequence_of(
                    parts@.subrange(i as int, parts@.len() as int),
                ),
            decreases i,
        {
            i -= 1;
            proof {
                let tail = parts@.subrange(i as int, parts@.len() as int);
                assert(tail.drop_first() =~= parts@.subrange(i + 1, parts@.len() as int));
            }
            index = self.add(Expr::Sequence { first: parts[i], second: index });
        }
        assert(parts@.subrange(0, parts@.len() as int) =~= parts@);
        index
    }

    /// Adds the expressions that match the first of `alternatives` that
    /// matches, see [`GrammarView::choice_of`].
    pub fn choice_of(&mut self, alternatives: Vec<usize>) -> (index: usize)
        ensures
            (final(self)@, index) == old(self)@.choice_of(alternatives@),
    {
        if alternatives.len() == 0 {
            return 0;
        }
        let mut i: usize = alternatives.len() - 1;
        let mut index = alternatives[i];
        proof {
            assert(alternatives@.subrange(i as int, alternatives@.len() as int).len() == 1);
        }
        while i > 0
            invariant
                i < alternatives@.len(),
                (self@, index) == old(self)@.choice_of(
                    alternatives@.subrange(i as int, alternatives@.len() as int),
                ),
            decreases i,
        {
            i -= 1;
            proof {
                let tail = alternatives@.subrange(i as int, alternatives@.len() as int);
                assert(tail.drop_first() =~= alternatives@.subrange(
                    i + 1,
                    alternatives@.len() as int,
                ));
            }
            index = self.add(Expr::Choice { first: alternatives[i], second: index });
        }
        assert(alternatives@.subrange(0, alternatives@.len() as int) =~= alternatives@);
        index
    }
}

/// The kind of rule number `rule`.
pub open spec fn kind_of(rule: usize) -> RuleKind {
    if rule == BLOCK_OPEN
        || rule == BLOCK_CLOSE
        || rule == MODEL_KEYWORD
        || rule == TYPE_KEYWORD
        || rule == ENUM_KEYWORD
        || rule == GENERATOR_KEYWORD
        || rule == SOURCE_KEYWORD
        || rule == LEGACY_COLON
        || rule == IDENTIFIER
        || rule == NUMERIC_LITERAL
        || rule == STRING_CONTENT
        || rule == BOOLEAN_LITERAL
        || rule == CONSTANT_LITERAL
        || rule == ARGUMENT_NAME
        || rule == DIRECTIVE_NAME
        || rule == ENUM_FIELD_DECLARATION {
        RuleKind::Atomic
    } else if rule == STRING_LITERAL {
        RuleKind::Compound
    } else {
        RuleKind::Normal
    }
}

/// The kind of rule number `rule`.
pub fn rule_kind(rule: usize) -> (kind: RuleKind)
    ensures
        kind == kind_of(rule),
{
    if rule == BLOCK_OPEN
        || rule == BLOCK_CLOSE
        || rule == MODEL_KEYWORD
        || rule == TYPE_KEYWORD
        || rule == ENUM_KEYWORD
        || rule == GENERATOR_KEYWORD
        || rule == SOURCE_KEYWORD
        || rule == LEGACY_COLON
        || rule == IDENTIFIER
        || rule == NUMERIC_LITERAL
        || rule == STRING_CONTENT
        || rule == BOOLEAN_LITERAL
        || rule == CONSTANT_LITERAL
        || rule == ARGUMENT_NAME
        || rule == DIRECTIVE_NAME
        || rule == ENUM_FIELD_DECLARATION {
        RuleKind::Atomic
    } else if rule == STRING_LITERAL {
        RuleKind::Compound
    } else {
        RuleKind::Normal
    }
}

/// The grammar with the first `count` rules declared and none defined.
pub open spec fn declared(count: nat) -> GrammarView
    decreases count,
{
    if count == 0 {
        GrammarView::empty()
    } else {
        declared((count - 1) as nat).declare(kind_of((count - 1) as usize))
    }
}

/// The grammar `grammar` with the expressions that call the first `count`
/// rules.
pub open spec fn with_calls(grammar: GrammarView, count: nat) -> GrammarView
    decreases count,
{
    if count == 0 {
        grammar
    } else {
        with_calls(grammar, (count - 1) as nat).add(Expr::Call { rule: (count - 1) as usize }).0
    }
}

/// The grammar with all rules declared, and with the expressions that all
/// rules share: those for the classes of bytes, and those that call the
/// rules.
pub open spec fn foundation() -> GrammarView {
    let grammar = declared(RULE_COUNT as nat);
    let grammar = grammar.add(Expr::Range { low: 97, high: 122 }).0;
    let grammar = grammar.add(Expr::Range { low: 65, high: 90 }).0;
    let grammar = grammar.add(Expr::Range { low: 48, high: 57 }).0;
    let grammar = grammar.add(Expr::Choice { first: LOWER, second: UPPER }).0;
    let grammar = grammar.add(Expr::Choice { first: LETTER, second: DIGIT }).0;
    with_calls(grammar, RULE_COUNT as nat)
}

/// Builds [`foundation`].
pub fn build_foundation() -> (grammar: Grammar)
    ensures
        grammar@ == foundation(),
{
    let mut grammar = Grammar::new();
    let mut rule: usize = 0;
    while rule < RULE_COUNT
        invariant
            rule <= RULE_COUNT,
            grammar@ == declared(rule as nat),
        decreases RULE_COUNT - rule,
    {
        grammar.declare(rule_kind(rule));
        rule += 1;
    }
    grammar.add(Expr::Range { low: 97, high: 122 });
    grammar.add(Expr::Range { low: 65, high: 90 });
    grammar.add(Expr::Range { low: 48, high: 57 });
    grammar.add(Expr::Choice { first: LOWER, second: UPPER });
    grammar.add(Expr::Choice { first: LETTER, second: DIGIT });
    let ghost classes = grammar@;
    rule = 0;
    while rule < RULE_COUNT
        invariant
            rule <= RULE_COUNT,
            grammar@ == with_calls(classes, rule as nat),
        decreases RULE_COUNT - rule,
    {
        grammar.add(Expr::Call { rule });
        rule += 1;
    }
    grammar
}

/// `grammar` with the body of [`EOI`]. The end of the input.
pub open spec fn with_eoi(grammar: GrammarView) -> GrammarView {
    let (grammar, end) = grammar.add(Expr::EndOfInput);
    grammar.define(EOI, end)
}

/// Defines [`EOI`], see [`with_eoi`].
fn define_eoi(grammar: &mut Grammar)
    ensures
        final(grammar)@ == with_eoi(old(grammar)@),
{
    let end = grammar.add(Expr::EndOfInput);
    grammar.define(EOI, end);
}

/// `grammar` with the body of [`BLOCK_OPEN`]. The brace that opens a block.
pub open spec fn with_block_open(grammar: GrammarView) -> GrammarView {
    let (grammar, brace) = grammar.add_literal("{".spec_bytes());
    grammar.define(BLOCK_OPEN, brace)
}

/// Defines [`BLOCK_OPEN`], see [`with_block_open`].
fn define_block_open(grammar: &mut Grammar)
    ensures
        final(grammar)@ == with_block_open(old(grammar)@),
{
    let brace = grammar.add_literal("{");
    grammar.define(BLOCK_OPEN, brace);
}

/// `grammar` with the body of [`BLOCK_CLOSE`]. The brace that closes a block.
pub open spec fn with_block_close(grammar: GrammarView) -> GrammarView {
    let (grammar, brace) = grammar.add_literal("}".spec_bytes());
    grammar.define(BLOCK_CLOSE, brace)
}

/// Defines [`BLOCK_CLOSE`], see [`with_block_close`].
fn define_block_close(grammar: &mut Grammar)
    ensures
        final(grammar)@ == with_block_close(old(grammar)@),
{
    let brace = grammar.add_literal("}");
    grammar.define(BLOCK_CLOSE, brace);
}

/// `grammar` with the body of [`MODEL_KEYWORD`]. The keyword `model`.
pub open spec fn with_model_keyword(grammar: GrammarView) -> GrammarView {
    let (grammar, keyword) = grammar.add_literal("model".spec_bytes());
    grammar.define(MODEL_KEYWORD, keyword)
}

/// Defines [`MODEL_KEYWORD`], see [`with_model_keyword`].
fn define_model_keyword(grammar: &mut Grammar)
    ensures
        final(grammar)@ == with_model_keyword(old(grammar)@),
{
    let keyword = grammar.add_literal("model");
    grammar.define(MODEL_KEYWORD, keyword);
}

/// `grammar` with the body of [`TYPE_KEYWORD`]. The keyword `type`.
pub open spec fn with_type_keyword(grammar: GrammarView) -> GrammarView {
    let (grammar, keyword) = grammar.add_literal("type".spec_bytes());
    grammar.define(TYPE_KEYWORD, keyword)
}

/// Defines [`TYPE_KEYWORD`], see [`with_type_keyword`].
fn define_type_keyword(grammar: &mut Grammar)
    ensures
        final(grammar)@ == with_type_keyword(old(grammar)@),
{
    let keyword = grammar.add_literal("type");
    grammar.define(TYPE_KEYWORD, keyword);
}

/// `grammar` with the body of [`ENUM_KEYWORD`]. The keyword `enum`.
pub open spec fn with_enum_keyword(grammar: GrammarView) -> GrammarView {
    let (grammar, keyword) = grammar.add_literal("enum".spec_bytes());
    grammar.define(ENUM_KEYWORD, keyword)
}

/// Defines [`ENUM_KEYWORD`], see [`with_enum_keyword`].
fn define_enum_keyword(grammar: &mut Grammar)
    ensures
        final(grammar)@ == with_enum_keyword(old(grammar)@),
{
    let keyword = grammar.add_literal("enum");
    grammar.define(ENUM_KEYWORD, keyword);
}

/// `grammar` with the body of [`GENERATOR_KEYWORD`]. The keyword `generator`.
pub open spec fn with_generator_keyword(grammar: GrammarView) -> GrammarView {
    let (grammar, keyword) = grammar.add_literal("generator".spec_bytes());
    grammar.define(GENERATOR_KEYWORD, keyword)
}

/// Defines [`GENERATOR_KEYWORD`], see [`with_generator_keyword`].
fn define_generator_keyword(grammar: &mut Grammar)
    ensures
        final(grammar)@ == with_generator_keyword(old(grammar)@),
{
    let keyword = grammar.add_literal("generator");
    grammar.define(GENERATOR_KEYWORD, keyword);
}

/// `grammar` with the body of [`SOURCE_KEYWORD`]. The keyword `datasource`, or
/// `source` for short.
pub open spec fn with_source_keyword(grammar: GrammarView) -> GrammarView {
    let (grammar, long) = grammar.add_literal("datasource".spec_bytes());
    let (grammar, short) = grammar.add_literal("source".spec_bytes());
    let (grammar, keyword) = grammar.choice_of(seq![long, short]);
    grammar.define(SOURCE_KEYWORD, keyword)
}

/// Defines [`SOURCE_KEYWORD`], see [`with_source_keyword`].
fn define_source_keyword(grammar: &mut Grammar)
    ensures
        final(grammar)@ == with_source_keyword(old(grammar)@),
{
    let long = grammar.add_literal("datasource");
    let short = grammar.add_literal("source");
    let keyword = grammar.choice_of(vec![long, short]);
    grammar.define(SOURCE_KEYWORD, keyword);
}

/// `grammar` with the body of [`LEGACY_COLON`]. A colon between a field's name
/// and its type, as earlier versions of the language had it.
pub open spec fn with_legacy_colon(grammar: GrammarView) -> GrammarView {
    let (grammar, colon) = grammar.add_literal(":".spec_bytes());
    grammar.define(LEGACY_COLON, colon)
}

/// Defines [`LEGACY_COLON`], see [`with_legacy_colon`].
fn define_legacy_colon(grammar: &mut Grammar)
    ensures
        final(grammar)@ == with_legacy_colon(old(grammar)@),
{
    let colon = grammar.add_literal(":");
    grammar.define(LEGACY_COLON, colon);
}

/// `grammar` with the body of [`IDENTIFIER`]. A name: a letter or digit, then
/// letters, digits, `_` and `-`.
pub open spec fn with_identifier(grammar: GrammarView) -> GrammarView {
    let (grammar, underscore) = grammar.add_literal("_".spec_bytes());
    let (grammar, hyphen) = grammar.add_literal("-".spec_bytes());
    let (grammar, later) = grammar.choice_of(seq![underscore, hyphen, ALNUM]);
    let (grammar, rest) = grammar.add(Expr::Repeat { inner: later });
    let (grammar, name) = grammar.sequence_of(seq![ALNUM, rest]);
    grammar.define(IDENTIFIER, name)
}

/// Defines [`IDENTIFIER`], see [`with_identifier`].
fn define_identifier(grammar: &mut Grammar)
    ensures
        final(grammar)@ == with_identifier(old(grammar)@),
{
    let underscore = grammar.add_literal("_");
    let hyphen = grammar.add_literal("-");
    let later = grammar.choice_of(vec![underscore, hyphen, ALNUM]);
    let rest = grammar.add(Expr::Repeat { inner: later });
    let name = grammar.sequence_of(vec![ALNUM, rest]);
    grammar.define(IDENTIFIER, name);
}

/// `grammar` with the body of [`NUMERIC_LITERAL`]. A number: an optional `-`,
/// digits, and optionally a `.` and more digits.
pub open spec fn with_numeric_literal(grammar: GrammarView) -> GrammarView {
    let (grammar, minus) = grammar.add_literal("-".spec_bytes());
    let (grammar, sign) = grammar.add(Expr::Optional { inner: minus });
    let (grammar, whole) = grammar.add(Expr::RepeatOnce { inner: DIGIT });
    let (grammar, point) = grammar.add_literal(".".spec_bytes());
    let (grammar, digits) = grammar.add(Expr::RepeatOnce { inner: DIGIT });
    let (grammar, decimals) = grammar.sequence_of(seq![point, digits]);
    let (grammar, fraction) = grammar.add(Expr::Optional { inner: decimals });
    let (grammar, number) = grammar.sequence_of(seq![sign, whole, fraction]);
    grammar.define(NUMERIC_LITERAL, number)
}

/// Defines [`NUMERIC_LITERAL`], see [`with_numeric_literal`].
fn define_numeric_literal(grammar: &mut Grammar)
    ensures
        final(grammar)@ == with_numeric_literal(old(grammar)@),
{
    let minus = grammar.add_literal("-");
    let sign = grammar.add(Expr::Optional { inner: minus });
    let whole = grammar.add(Expr::RepeatOnce { inner: DIGIT });
    let point = grammar.add_literal(".");
    let digits = grammar.add(Expr::RepeatOnce { inner: DIGIT });
    let decimals = grammar.sequence_of(vec![point, digits]);
    let fraction = grammar.add(Expr::Optional { inner: decimals });
    let number = grammar.sequence_of(vec![sign, whole, fraction]);
    grammar.define(NUMERIC_LITERAL, number);
}

/// `grammar` with the body of [`STRING_CONTENT`]. What stands between the
/// quotes of a string: any bytes but a backslash, a quote and the end of a
/// line, and any byte after a backslash.
pub open spec fn with_string_content(grammar: GrammarView) -> GrammarView {
    let (grammar, backslash) = grammar.add_literal("\\".spec_bytes());
    let (grammar, quote) = grammar.add_literal("\"".spec_bytes());
    let (grammar, feed) = grammar.add_literal("\n".spec_bytes());
    let (grammar, ret) = grammar.add_literal("\r".spec_bytes());
    let (grammar, special) = grammar.choice_of(seq![backslash, quote, feed, ret]);
    let (grammar, plain) = grammar.add(Expr::Not { inner: special });
    let (grammar, byte) = grammar.add(Expr::Any);
    let (grammar, raw) = grammar.sequence_of(seq![plain, byte]);
    let (grammar, escaped) = grammar.sequence_of(seq![backslash, byte]);
    let (grammar, unit) = grammar.choice_of(seq![raw, escaped]);
    let (grammar, content) = grammar.add(Expr::Repeat { inner: unit });
    grammar.define(STRING_CONTENT, content)
}

/// Defines [`STRING_CONTENT`], see [`with_string_content`].
fn define_string_content(grammar: &mut Grammar)
    ensures
        final(grammar)@ == with_string_content(old(grammar)@),
{
    let backslash = grammar.add_literal("\\");
    let quote = grammar.add_literal("\"");
    let feed = grammar.add_literal("\n");
    let ret = grammar.add_literal("\r");
    let special = grammar.choice_of(vec![backslash, quote, feed, ret]);
    let plain = grammar.add(Expr::Not { inner: special });
    let byte = grammar.add(Expr::Any);
    let raw = grammar.sequence_of(vec![plain, byte]);
    let escaped = grammar.sequence_of(vec![backslash, byte]);
    let unit = grammar.choice_of(vec![raw, escaped]);
    let content = grammar.add(Expr::Repeat { inner: unit });
    grammar.define(STRING_CONTENT, content);
}

/// `grammar` with the body of [`STRING_LITERAL`]. A string in double quotes.
pub open spec fn with_string_literal(grammar: GrammarView) -> GrammarView {
    let (grammar, quote) = grammar.add_literal("\"".spec_bytes());
    let (grammar, string) = grammar.sequence_of(seq![quote, call_of(STRING_CONTENT), quote]);
    grammar.define(STRING_LITERAL, string)
}

/// Defines [`STRING_LITERAL`], see [`with_string_literal`].
fn define_string_literal(grammar: &mut Grammar)
    ensures
        final(grammar)@ == with_string_literal(old(grammar)@),
{
    let quote = grammar.add_literal("\"");
    let string = grammar.sequence_of(vec![quote, call(STRING_CONTENT), quote]);
    grammar.define(STRING_LITERAL, string);
}

/// `grammar` with the body of [`BOOLEAN_LITERAL`]. `true` or `false`, not
/// followed by more of a name.
pub open spec fn with_boolean_literal(grammar: GrammarView) -> GrammarView {
    let (grammar, yes) = grammar.add_literal("true".spec_bytes());
    let (grammar, no) = grammar.add_literal("false".spec_bytes());
    let (grammar, word) = grammar.choice_of(seq![yes, no]);
    let (grammar, underscore) = grammar.add_literal("_".spec_bytes());
    let (grammar, hyphen) = grammar.add_literal("-".spec_bytes());
    let (grammar, more) = grammar.choice_of(seq![underscore, hyphen, ALNUM]);
    let (grammar, ends) = grammar.add(Expr::Not { inner: more });
    let (grammar, boolean) = grammar.sequence_of(seq![word, ends]);
    grammar.define(BOOLEAN_LITERAL, boolean)
}

/// Defines [`BOOLEAN_LITERAL`], see [`with_boolean_literal`].
fn define_boolean_literal(grammar: &mut Grammar)
    ensures
        final(grammar)@ == with_boolean_literal(old(grammar)@),
{
    let yes = grammar.add_literal("true");
    let no = grammar.add_literal("false");
    let word = grammar.choice_of(vec![yes, no]);
    let underscore = grammar.add_literal("_");
    let hyphen = grammar.add_literal("-");
    let more = grammar.choice_of(vec![underscore, hyphen, ALNUM]);
    let ends = grammar.add(Expr::Not { inner: more });
    let boolean = grammar.sequence_of(vec![word, ends]);
    grammar.define(BOOLEAN_LITERAL, boolean);
}

/// `grammar` with the body of [`CONSTANT_LITERAL`]. A constant: a letter, then
/// letters, digits and `_`.
pub open spec fn with_constant_literal(grammar: GrammarView) -> GrammarView {
    let (grammar, underscore) = grammar.add_literal("_".spec_bytes());
    let (grammar, later) = grammar.choice_of(seq![underscore, ALNUM]);
    let (grammar, rest) = grammar.add(Expr::Repeat { inner: later });
    let (grammar, constant) = grammar.sequence_of(seq![LETTER, rest]);
    grammar.define(CONSTANT_LITERAL, constant)
}

/// Defines [`CONSTANT_LITERAL`], see [`with_constant_literal`].
fn define_constant_literal(grammar: &mut Grammar)
    ensures
        final(grammar)@ == with_constant_literal(old(grammar)@),
{
    let underscore = grammar.add_literal("_");
    let later = grammar.choice_of(vec![underscore, ALNUM]);
    let rest = grammar.add(Expr::Repeat { inner: later });
    let constant = grammar.sequence_of(vec![LETTER, rest]);
    grammar.define(CONSTANT_LITERAL, constant);
}

/// `grammar` with the body of [`FUNCTION`]. A call: a name and its arguments in
/// parentheses.
pub open spec fn with_function(grammar: GrammarView) -> GrammarView {
    let (grammar, open) = grammar.add_literal("(".spec_bytes());
    let (grammar, comma) = grammar.add_literal(",".spec_bytes());
    let (grammar, close) = grammar.add_literal(")".spec_bytes());
    let (grammar, further) = grammar.sequence_of(seq![comma, call_of(ARGUMENT_VALUE)]);
    let (grammar, others) = grammar.add(Expr::Repeat { inner: further });
    let (grammar, some) = grammar.sequence_of(seq![call_of(ARGUMENT_VALUE), others]);
    let (grammar, arguments) = grammar.add(Expr::Optional { inner: some });
    let (grammar, call) = grammar.sequence_of(seq![call_of(IDENTIFIER), open, arguments, close]);
    grammar.define(FUNCTION, call)
}

/// Defines [`FUNCTION`], see [`with_function`].
fn define_function(grammar: &mut Grammar)
    ensures
        final(grammar)@ == with_function(old(grammar)@),
{
    let open = grammar.add_literal("(");
    let comma = grammar.add_literal(",");
    let close = grammar.add_literal(")");
    let further = grammar.sequence_of(vec![comma, call(ARGUMENT_VALUE)]);
    let others = grammar.add(Expr::Repeat { inner: further });
    let some = grammar.sequence_of(vec![call(ARGUMENT_VALUE), others]);
    let arguments = grammar.add(Expr::Optional { inner: some });
    let call = grammar.sequence_of(vec![call(IDENTIFIER), open, arguments, close]);
    grammar.define(FUNCTION, call);
}

/// `grammar` with the body of [`ARRAY_EXPRESSION`]. A list of expressions in
/// square brackets.
pub open spec fn with_array_expression(grammar: GrammarView) -> GrammarView {
    let (grammar, open) = grammar.add_literal("[".spec_bytes());
    let (grammar, comma) = grammar.add_literal(",".spec_bytes());
    let (grammar, close) = grammar.add_literal("]".spec_bytes());
    let (grammar, further) = grammar.sequence_of(seq![comma, call_of(EXPRESSION)]);
    let (grammar, others) = grammar.add(Expr::Repeat { inner: further });
    let (grammar, some) = grammar.sequence_of(seq![call_of(EXPRESSION), others]);
    let (grammar, items) = grammar.add(Expr::Optional { inner: some });
    let (grammar, array) = grammar.sequence_of(seq![open, items, close]);
    grammar.define(ARRAY_EXPRESSION, array)
}

/// Defines [`ARRAY_EXPRESSION`], see [`with_array_expression`].
fn define_array_expression(grammar: &mut Grammar)
    ensures
        final(grammar)@ == with_array_expression(old(grammar)@),
{
    let open = grammar.add_literal("[");
    let comma = grammar.add_literal(",");
    let close = grammar.add_literal("]");
    let further = grammar.sequence_of(vec![comma, call(EXPRESSION)]);
    let others = grammar.add(Expr::Repeat { inner: further });
    let some = grammar.sequence_of(vec![call(EXPRESSION), others]);
    let items = grammar.add(Expr::Optional { inner: some });
    let array = grammar.sequence_of(vec![open, items, close]);
    grammar.define(ARRAY_EXPRESSION, array);
}

/// `grammar` with the body of [`EXPRESSION`]. A list, a call or a literal.
pub open spec fn with_expression(grammar: GrammarView) -> GrammarView {
    let (grammar, expression) = grammar.choice_of(
        seq![
            call_of(ARRAY_EXPRESSION),
            call_of(FUNCTION),
            call_of(NUMERIC_LITERAL),
            call_of(STRING_LITERAL),
            call_of(BOOLEAN_LITERAL),
            call_of(CONSTANT_LITERAL),
        ],
    );
    grammar.define(EXPRESSION, expression)
}

/// Defines [`EXPRESSION`], see [`with_expression`].
fn define_expression(grammar: &mut Grammar)
    ensures
        final(grammar)@ == with_expression(old(grammar)@),
{
    let expression = grammar.choice_of(
        vec![
            call(ARRAY_EXPRESSION),
            call(FUNCTION),
            call(NUMERIC_LITERAL),
            call(STRING_LITERAL),
            call(BOOLEAN_LITERAL),
            call(CONSTANT_LITERAL),
        ],
    );
    grammar.define(EXPRESSION, expression);
}

/// `grammar` with the body of [`ARGUMENT_NAME`]. The name of an argument.
pub open spec fn with_argument_name(grammar: GrammarView) -> GrammarView {
    let (grammar, name) = grammar.sequence_of(seq![call_of(IDENTIFIER)]);
    grammar.define(ARGUMENT_NAME, name)
}

/// Defines [`ARGUMENT_NAME`], see [`with_argument_name`].
fn define_argument_name(grammar: &mut Grammar)
    ensures
        final(grammar)@ == with_argument_name(old(grammar)@),
{
    let name = grammar.sequence_of(vec![call(IDENTIFIER)]);
    grammar.define(ARGUMENT_NAME, name);
}

/// `grammar` with the body of [`ARGUMENT_VALUE`]. The value of an argument.
pub open spec fn with_argument_value(grammar: GrammarView) -> GrammarView {
    let (grammar, value) = grammar.sequence_of(seq![call_of(EXPRESSION)]);
    grammar.define(ARGUMENT_VALUE, value)
}

/// Defines [`ARGUMENT_VALUE`], see [`with_argument_value`].
fn define_argument_value(grammar: &mut Grammar)
    ensures
        final(grammar)@ == with_argument_value(old(grammar)@),
{
    let value = grammar.sequence_of(vec![call(EXPRESSION)]);
    grammar.define(ARGUMENT_VALUE, value);
}

/// `grammar` with the body of [`ARGUMENT`]. A named argument: `name: value`.
pub open spec fn with_argument(grammar: GrammarView) -> GrammarView {
    let (grammar, colon) = grammar.add_literal(":".spec_bytes());
    let (grammar, argument) = grammar.sequence_of(
        seq![
            call_of(ARGUMENT_NAME),
            colon,
            call_of(ARGUMENT_VALUE),
        ],
    );
    grammar.define(ARGUMENT, argument)
}

/// Defines [`ARGUMENT`], see [`with_argument`].
fn define_argument(grammar: &mut Grammar)
    ensures
        final(grammar)@ == with_argument(old(grammar)@),
{
    let colon = grammar.add_literal(":");
    let argument = grammar.sequence_of(vec![call(ARGUMENT_NAME), colon, call(ARGUMENT_VALUE)]);
    grammar.define(ARGUMENT, argument);
}

/// `grammar` with the body of [`DIRECTIVE_ARGUMENTS`]. The arguments of a
/// directive in parentheses: only the first may be unnamed.
pub open spec fn with_directive_arguments(grammar: GrammarView) -> GrammarView {
    let (grammar, open) = grammar.add_literal("(".spec_bytes());
    let (grammar, comma) = grammar.add_literal(",".spec_bytes());
    let (grammar, close) = grammar.add_literal(")".spec_bytes());
    let (grammar, leading) = grammar.choice_of(seq![call_of(ARGUMENT), call_of(ARGUMENT_VALUE)]);
    let (grammar, further) = grammar.sequence_of(seq![comma, call_of(ARGUMENT)]);
    let (grammar, others) = grammar.add(Expr::Repeat { inner: further });
    let (grammar, some) = grammar.sequence_of(seq![leading, others]);
    let (grammar, arguments) = grammar.add(Expr::Optional { inner: some });
    let (grammar, list) = grammar.sequence_of(seq![open, arguments, close]);
    grammar.define(DIRECTIVE_ARGUMENTS, list)
}

/// Defines [`DIRECTIVE_ARGUMENTS`], see [`with_directive_arguments`].
fn define_directive_arguments(grammar: &mut Grammar)
    ensures
        final(grammar)@ == with_directive_arguments(old(grammar)@),
{
    let open = grammar.add_literal("(");
    let comma = grammar.add_literal(",");
    let close = grammar.add_literal(")");
    let leading = grammar.choice_of(vec![call(ARGUMENT), call(ARGUMENT_VALUE)]);
    let further = grammar.sequence_of(vec![comma, call(ARGUMENT)]);
    let others = grammar.add(Expr::Repeat { inner: further });
    let some = grammar.sequence_of(vec![leading, others]);
    let arguments = grammar.add(Expr::Optional { inner: some });
    let list = grammar.sequence_of(vec![open, arguments, close]);
    grammar.define(DIRECTIVE_ARGUMENTS, list);
}

/// `grammar` with the body of [`DIRECTIVE_NAME`]. The name of a directive, with
/// the name of a datasource and a `.` before it where the datasource brings the
/// directive.
pub open spec fn with_directive_name(grammar: GrammarView) -> GrammarView {
    let (grammar, dot) = grammar.add_literal(".".spec_bytes());
    let (grammar, scoped) = grammar.sequence_of(seq![call_of(IDENTIFIER), dot]);
    let (grammar, scope) = grammar.add(Expr::Optional { inner: scoped });
    let (grammar, name) = grammar.sequence_of(seq![scope, call_of(IDENTIFIER)]);
    grammar.define(DIRECTIVE_NAME, name)
}

/// Defines [`DIRECTIVE_NAME`], see [`with_directive_name`].
fn define_directive_name(grammar: &mut Grammar)
    ensures
        final(grammar)@ == with_directive_name(old(grammar)@),
{
    let dot = grammar.add_literal(".");
    let scoped = grammar.sequence_of(vec![call(IDENTIFIER), dot]);
    let scope = grammar.add(Expr::Optional { inner: scoped });
    let name = grammar.sequence_of(vec![scope, call(IDENTIFIER)]);
    grammar.define(DIRECTIVE_NAME, name);
}

/// `grammar` with the body of [`DIRECTIVE`]. A directive: its name, and its
/// arguments if it has any.
pub open spec fn with_directive(grammar: GrammarView) -> GrammarView {
    let (grammar, with_arguments) = grammar.sequence_of(
        seq![
            call_of(DIRECTIVE_NAME),
            call_of(DIRECTIVE_ARGUMENTS),
        ],
    );
    let (grammar, directive) = grammar.choice_of(seq![with_arguments, call_of(DIRECTIVE_NAME)]);
    grammar.define(DIRECTIVE, directive)
}

/// Defines [`DIRECTIVE`], see [`with_directive`].
fn define_directive(grammar: &mut Grammar)
    ensures
        final(grammar)@ == with_directive(old(grammar)@),
{
    let with_arguments = grammar.sequence_of(vec![call(DIRECTIVE_NAME), call(DIRECTIVE_ARGUMENTS)]);
    let directive = grammar.choice_of(vec![with_arguments, call(DIRECTIVE_NAME)]);
    grammar.define(DIRECTIVE, directive);
}

/// `grammar` with the body of [`BLOCK_LEVEL_DIRECTIVE`]. A directive on a
/// model, after `@@`.
pub open spec fn with_block_level_directive(grammar: GrammarView) -> GrammarView {
    let (grammar, marker) = grammar.add_literal("@@".spec_bytes());
    let (grammar, directive) = grammar.sequence_of(seq![marker, call_of(DIRECTIVE)]);
    grammar.define(BLOCK_LEVEL_DIRECTIVE, directive)
}

/// Defines [`BLOCK_LEVEL_DIRECTIVE`], see [`with_block_level_directive`].
fn define_block_level_directive(grammar: &mut Grammar)
    ensures
        final(grammar)@ == with_block_level_directive(old(grammar)@),
{
    let marker = grammar.add_literal("@@");
    let directive = grammar.sequence_of(vec![marker, call(DIRECTIVE)]);
    grammar.define(BLOCK_LEVEL_DIRECTIVE, directive);
}

/// `grammar` with the body of [`BASE_TYPE`]. A type that is named and nothing
/// else: a required field.
pub open spec fn with_base_type(grammar: GrammarView) -> GrammarView {
    let (grammar, base) = grammar.sequence_of(seq![call_of(IDENTIFIER)]);
    grammar.define(BASE_TYPE, base)
}

/// Defines [`BASE_TYPE`], see [`with_base_type`].
fn define_base_type(grammar: &mut Grammar)
    ensures
        final(grammar)@ == with_base_type(old(grammar)@),
{
    let base = grammar.sequence_of(vec![call(IDENTIFIER)]);
    grammar.define(BASE_TYPE, base);
}

/// `grammar` with the body of [`LIST_TYPE`]. A type followed by `[]`: a list.
pub open spec fn with_list_type(grammar: GrammarView) -> GrammarView {
    let (grammar, brackets) = grammar.add_literal("[]".spec_bytes());
    let (grammar, list) = grammar.sequence_of(seq![call_of(IDENTIFIER), brackets]);
    grammar.define(LIST_TYPE, list)
}

/// Defines [`LIST_TYPE`], see [`with_list_type`].
fn define_list_type(grammar: &mut Grammar)
    ensures
        final(grammar)@ == with_list_type(old(grammar)@),
{
    let brackets = grammar.add_literal("[]");
    let list = grammar.sequence_of(vec![call(IDENTIFIER), brackets]);
    grammar.define(LIST_TYPE, list);
}

/// `grammar` with the body of [`OPTIONAL_TYPE`]. A type followed by `?`: an
/// optional field.
pub open spec fn with_optional_type(grammar: GrammarView) -> GrammarView {
    let (grammar, mark) = grammar.add_literal("?".spec_bytes());
    let (grammar, optional) = grammar.sequence_of(seq![call_of(IDENTIFIER), mark]);
    grammar.define(OPTIONAL_TYPE, optional)
}

/// Defines [`OPTIONAL_TYPE`], see [`with_optional_type`].
fn define_optional_type(grammar: &mut Grammar)
    ensures
        final(grammar)@ == with_optional_type(old(grammar)@),
{
    let mark = grammar.add_literal("?");
    let optional = grammar.sequence_of(vec![call(IDENTIFIER), mark]);
    grammar.define(OPTIONAL_TYPE, optional);
}

/// `grammar` with the body of [`LEGACY_REQUIRED_TYPE`]. A type followed by `!`,
/// as earlier versions of the language had it.
pub open spec fn with_legacy_required_type(grammar: GrammarView) -> GrammarView {
    let (grammar, mark) = grammar.add_literal("!".spec_bytes());
    let (grammar, required) = grammar.sequence_of(seq![call_of(IDENTIFIER), mark]);
    grammar.define(LEGACY_REQUIRED_TYPE, required)
}

/// Defines [`LEGACY_REQUIRED_TYPE`], see [`with_legacy_required_type`].
fn define_legacy_required_type(grammar: &mut Grammar)
    ensures
        final(grammar)@ == with_legacy_required_type(old(grammar)@),
{
    let mark = grammar.add_literal("!");
    let required = grammar.sequence_of(vec![call(IDENTIFIER), mark]);
    grammar.define(LEGACY_REQUIRED_TYPE, required);
}

/// `grammar` with the body of [`LEGACY_LIST_TYPE`]. A type in square brackets,
/// as earlier versions of the language had it.
pub open spec fn with_legacy_list_type(grammar: GrammarView) -> GrammarView {
    let (grammar, open) = grammar.add_literal("[".spec_bytes());
    let (grammar, close) = grammar.add_literal("]".spec_bytes());
    let (grammar, list) = grammar.sequence_of(seq![open, call_of(IDENTIFIER), close]);
    grammar.define(LEGACY_LIST_TYPE, list)
}

/// Defines [`LEGACY_LIST_TYPE`], see [`with_legacy_list_type`].
fn define_legacy_list_type(grammar: &mut Grammar)
    ensures
        final(grammar)@ == with_legacy_list_type(old(grammar)@),
{
    let open = grammar.add_literal("[");
    let close = grammar.add_literal("]");
    let list = grammar.sequence_of(vec![open, call(IDENTIFIER), close]);
    grammar.define(LEGACY_LIST_TYPE, list);
}

/// `grammar` with the body of [`FIELD_TYPE`]. The type of a field, in any of
/// its notations.
pub open spec fn with_field_type(grammar: GrammarView) -> GrammarView {
    let (grammar, field_type) = grammar.choice_of(
        seq![
            call_of(LEGACY_REQUIRED_TYPE),
            call_of(LEGACY_LIST_TYPE),
            call_of(LIST_TYPE),
            call_of(OPTIONAL_TYPE),
            call_of(BASE_TYPE),
        ],
    );
    grammar.define(FIELD_TYPE, field_type)
}

/// Defines [`FIELD_TYPE`], see [`with_field_type`].
fn define_field_type(grammar: &mut Grammar)
    ensures
        final(grammar)@ == with_field_type(old(grammar)@),
{
    let field_type = grammar.choice_of(
        vec![
            call(LEGACY_REQUIRED_TYPE),
            call(LEGACY_LIST_TYPE),
            call(LIST_TYPE),
            call(OPTIONAL_TYPE),
            call(BASE_TYPE),
        ],
    );
    grammar.define(FIELD_TYPE, field_type);
}

/// `grammar` with the body of [`FIELD_DECLARATION`]. A field: its name, its
/// type and its directives.
pub open spec fn with_field_declaration(grammar: GrammarView) -> GrammarView {
    let (grammar, colon) = grammar.add(Expr::Optional { inner: call_of(LEGACY_COLON) });
    let (grammar, marker) = grammar.add_literal("@".spec_bytes());
    let (grammar, directive) = grammar.sequence_of(seq![marker, call_of(DIRECTIVE)]);
    let (grammar, directives) = grammar.add(Expr::RepeatOnce { inner: directive });
    let (grammar, annotated) = grammar.sequence_of(seq![call_of(FIELD_TYPE), directives]);
    let (grammar, typed) = grammar.choice_of(seq![annotated, call_of(FIELD_TYPE)]);
    let (grammar, field) = grammar.sequence_of(seq![call_of(IDENTIFIER), colon, typed]);
    grammar.define(FIELD_DECLARATION, field)
}

/// Defines [`FIELD_DECLARATION`], see [`with_field_declaration`].
fn define_field_declaration(grammar: &mut Grammar)
    ensures
        final(grammar)@ == with_field_declaration(old(grammar)@),
{
    let colon = grammar.add(Expr::Optional { inner: call(LEGACY_COLON) });
    let marker = grammar.add_literal("@");
    let directive = grammar.sequence_of(vec![marker, call(DIRECTIVE)]);
    let directives = grammar.add(Expr::RepeatOnce { inner: directive });
    let annotated = grammar.sequence_of(vec![call(FIELD_TYPE), directives]);
    let typed = grammar.choice_of(vec![annotated, call(FIELD_TYPE)]);
    let field = grammar.sequence_of(vec![call(IDENTIFIER), colon, typed]);
    grammar.define(FIELD_DECLARATION, field);
}

/// `grammar` with the body of [`TYPE_DECLARATION`]. A type alias: `type Name =
/// Type` and its directives.
pub open spec fn with_type_declaration(grammar: GrammarView) -> GrammarView {
    let (grammar, equals) = grammar.add_literal("=".spec_bytes());
    let (grammar, marker) = grammar.add_literal("@".spec_bytes());
    let (grammar, directive) = grammar.sequence_of(seq![marker, call_of(DIRECTIVE)]);
    let (grammar, directives) = grammar.add(Expr::RepeatOnce { inner: directive });
    let (grammar, annotated) = grammar.sequence_of(seq![call_of(BASE_TYPE), directives]);
    let (grammar, aliased) = grammar.choice_of(seq![annotated, call_of(BASE_TYPE)]);
    let (grammar, alias) = grammar.sequence_of(
        seq![
            call_of(TYPE_KEYWORD),
            call_of(IDENTIFIER),
            equals,
            aliased,
        ],
    );
    grammar.define(TYPE_DECLARATION, alias)
}

/// Defines [`TYPE_DECLARATION`], see [`with_type_declaration`].
fn define_type_declaration(grammar: &mut Grammar)
    ensures
        final(grammar)@ == with_type_declaration(old(grammar)@),
{
    let equals = grammar.add_literal("=");
    let marker = grammar.add_literal("@");
    let directive = grammar.sequence_of(vec![marker, call(DIRECTIVE)]);
    let directives = grammar.add(Expr::RepeatOnce { inner: directive });
    let annotated = grammar.sequence_of(vec![call(BASE_TYPE), directives]);
    let aliased = grammar.choice_of(vec![annotated, call(BASE_TYPE)]);
    let alias = grammar.sequence_of(vec![call(TYPE_KEYWORD), call(IDENTIFIER), equals, aliased]);
    grammar.define(TYPE_DECLARATION, alias);
}

/// `grammar` with the body of [`MODEL_DECLARATION`]. A model: the keyword, its
/// name, directives if any, and its fields and directives in braces. The
/// keyword `type` is read too, as earlier versions of the language had it.
pub open spec fn with_model_declaration(grammar: GrammarView) -> GrammarView {
    let (grammar, keyword) = grammar.choice_of(seq![call_of(MODEL_KEYWORD), call_of(TYPE_KEYWORD)]);
    let (grammar, marker) = grammar.add_literal("@@".spec_bytes());
    let (grammar, early) = grammar.sequence_of(seq![marker, call_of(DIRECTIVE)]);
    let (grammar, header) = grammar.add(Expr::Repeat { inner: early });
    let (grammar, member) = grammar.choice_of(
        seq![
            call_of(FIELD_DECLARATION),
            call_of(BLOCK_LEVEL_DIRECTIVE),
        ],
    );
    let (grammar, members) = grammar.add(Expr::Repeat { inner: member });
    let (grammar, model) = grammar.sequence_of(
        seq![
            keyword,
            call_of(IDENTIFIER),
            header,
            call_of(BLOCK_OPEN),
            members,
            call_of(BLOCK_CLOSE),
        ],
    );
    grammar.define(MODEL_DECLARATION, model)
}

/// Defines [`MODEL_DECLARATION`], see [`with_model_declaration`].
fn define_model_declaration(grammar: &mut Grammar)
    ensures
        final(grammar)@ == with_model_declaration(old(grammar)@),
{
    let keyword = grammar.choice_of(vec![call(MODEL_KEYWORD), call(TYPE_KEYWORD)]);
    let marker = grammar.add_literal("@@");
    let early = grammar.sequence_of(vec![marker, call(DIRECTIVE)]);
    let header = grammar.add(Expr::Repeat { inner: early });
    let member = grammar.choice_of(vec![call(FIELD_DECLARATION), call(BLOCK_LEVEL_DIRECTIVE)]);
    let members = grammar.add(Expr::Repeat { inner: member });
    let model = grammar.sequence_of(
        vec![
            keyword,
            call(IDENTIFIER),
            header,
            call(BLOCK_OPEN),
            members,
            call(BLOCK_CLOSE),
        ],
    );
    grammar.define(MODEL_DECLARATION, model);
}

/// `grammar` with the body of [`ENUM_FIELD_DECLARATION`]. A value of an enum:
/// an upper-case letter, then upper-case letters, digits and `_`.
pub open spec fn with_enum_field_declaration(grammar: GrammarView) -> GrammarView {
    let (grammar, underscore) = grammar.add_literal("_".spec_bytes());
    let (grammar, later) = grammar.choice_of(seq![underscore, UPPER, DIGIT]);
    let (grammar, rest) = grammar.add(Expr::Repeat { inner: later });
    let (grammar, value) = grammar.sequence_of(seq![UPPER, rest]);
    grammar.define(ENUM_FIELD_DECLARATION, value)
}

/// Defines [`ENUM_FIELD_DECLARATION`], see [`with_enum_field_declaration`].
fn define_enum_field_declaration(grammar: &mut Grammar)
    ensures
        final(grammar)@ == with_enum_field_declaration(old(grammar)@),
{
    let underscore = grammar.add_literal("_");
    let later = grammar.choice_of(vec![underscore, UPPER, DIGIT]);
    let rest = grammar.add(Expr::Repeat { inner: later });
    let value = grammar.sequence_of(vec![UPPER, rest]);
    grammar.define(ENUM_FIELD_DECLARATION, value);
}

/// `grammar` with the body of [`ENUM_DECLARATION`]. An enum: the keyword, its
/// name, and its values in braces.
pub open spec fn with_enum_declaration(grammar: GrammarView) -> GrammarView {
    let (grammar, values) = grammar.add(Expr::Repeat { inner: call_of(ENUM_FIELD_DECLARATION) });
    let (grammar, declaration) = grammar.sequence_of(
        seq![
            call_of(ENUM_KEYWORD),
            call_of(IDENTIFIER),
            call_of(BLOCK_OPEN),
            values,
            call_of(BLOCK_CLOSE),
        ],
    );
    grammar.define(ENUM_DECLARATION, declaration)
}

/// Defines [`ENUM_DECLARATION`], see [`with_enum_declaration`].
fn define_enum_declaration(grammar: &mut Grammar)
    ensures
        final(grammar)@ == with_enum_declaration(old(grammar)@),
{
    let values = grammar.add(Expr::Repeat { inner: call(ENUM_FIELD_DECLARATION) });
    let declaration = grammar.sequence_of(
        vec![
            call(ENUM_KEYWORD),
            call(IDENTIFIER),
            call(BLOCK_OPEN),
            values,
            call(BLOCK_CLOSE),
        ],
    );
    grammar.define(ENUM_DECLARATION, declaration);
}

/// `grammar` with the body of [`KEY_VALUE`]. A property of a configuration
/// block: `name = value`.
pub open spec fn with_key_value(grammar: GrammarView) -> GrammarView {
    let (grammar, equals) = grammar.add_literal("=".spec_bytes());
    let (grammar, property) = grammar.sequence_of(
        seq![
            call_of(IDENTIFIER),
            equals,
            call_of(EXPRESSION),
        ],
    );
    grammar.define(KEY_VALUE, property)
}

/// Defines [`KEY_VALUE`], see [`with_key_value`].
fn define_key_value(grammar: &mut Grammar)
    ensures
        final(grammar)@ == with_key_value(old(grammar)@),
{
    let equals = grammar.add_literal("=");
    let property = grammar.sequence_of(vec![call(IDENTIFIER), equals, call(EXPRESSION)]);
    grammar.define(KEY_VALUE, property);
}

/// `grammar` with the body of [`SOURCE_BLOCK`]. A datasource: the keyword, its
/// name, and its properties in braces.
pub open spec fn with_source_block(grammar: GrammarView) -> GrammarView {
    let (grammar, properties) = grammar.add(Expr::Repeat { inner: call_of(KEY_VALUE) });
    let (grammar, block) = grammar.sequence_of(
        seq![
            call_of(SOURCE_KEYWORD),
            call_of(IDENTIFIER),
            call_of(BLOCK_OPEN),
            properties,
            call_of(BLOCK_CLOSE),
        ],
    );
    grammar.define(SOURCE_BLOCK, block)
}

/// Defines [`SOURCE_BLOCK`], see [`with_source_block`].
fn define_source_block(grammar: &mut Grammar)
    ensures
        final(grammar)@ == with_source_block(old(grammar)@),
{
    let properties = grammar.add(Expr::Repeat { inner: call(KEY_VALUE) });
    let block = grammar.sequence_of(
        vec![
            call(SOURCE_KEYWORD),
            call(IDENTIFIER),
            call(BLOCK_OPEN),
            properties,
            call(BLOCK_CLOSE),
        ],
    );
    grammar.define(SOURCE_BLOCK, block);
}

/// `grammar` with the body of [`GENERATOR_BLOCK`]. A generator: the keyword,
/// its name, and its properties in braces.
pub open spec fn with_generator_block(grammar: GrammarView) -> GrammarView {
    let (grammar, properties) = grammar.add(Expr::Repeat { inner: call_of(KEY_VALUE) });
    let (grammar, block) = grammar.sequence_of(
        seq![
            call_of(GENERATOR_KEYWORD),
            call_of(IDENTIFIER),
            call_of(BLOCK_OPEN),
            properties,
            call_of(BLOCK_CLOSE),
        ],
    );
    grammar.define(GENERATOR_BLOCK, block)
}

/// Defines [`GENERATOR_BLOCK`], see [`with_generator_block`].
fn define_generator_block(grammar: &mut Grammar)
    ensures
        final(grammar)@ == with_generator_block(old(grammar)@),
{
    let properties = grammar.add(Expr::Repeat { inner: call(KEY_VALUE) });
    let block = grammar.sequence_of(
        vec![
            call(GENERATOR_KEYWORD),
            call(IDENTIFIER),
            call(BLOCK_OPEN),
            properties,
            call(BLOCK_CLOSE),
        ],
    );
    grammar.define(GENERATOR_BLOCK, block);
}

/// `grammar` with the body of [`DATAMODEL`]. A whole source text: declarations
/// from its start to its end.
pub open spec fn with_datamodel(grammar: GrammarView) -> GrammarView {
    let (grammar, start) = grammar.add(Expr::StartOfInput);
    let (grammar, declaration) = grammar.choice_of(
        seq![
            call_of(MODEL_DECLARATION),
            call_of(ENUM_DECLARATION),
            call_of(SOURCE_BLOCK),
            call_of(GENERATOR_BLOCK),
            call_of(TYPE_DECLARATION),
        ],
    );
    let (grammar, declarations) = grammar.add(Expr::Repeat { inner: declaration });
    let (grammar, text) = grammar.sequence_of(seq![start, declarations, call_of(EOI)]);
    grammar.define(DATAMODEL, text)
}

/// Defines [`DATAMODEL`], see [`with_datamodel`].
fn define_datamodel(grammar: &mut Grammar)
    ensures
        final(grammar)@ == with_datamodel(old(grammar)@),
{
    let start = grammar.add(Expr::StartOfInput);
    let declaration = grammar.choice_of(
        vec![
            call(MODEL_DECLARATION),
            call(ENUM_DECLARATION),
            call(SOURCE_BLOCK),
            call(GENERATOR_BLOCK),
            call(TYPE_DECLARATION),
        ],
    );
    let declarations = grammar.add(Expr::Repeat { inner: declaration });
    let text = grammar.sequence_of(vec![start, declarations, call(EOI)]);
    grammar.define(DATAMODEL, text);
}

/// `grammar` with the bodies of the rules for keywords, punctuation and names.
pub open spec fn with_tokens(grammar: GrammarView) -> GrammarView {
    let grammar = with_eoi(grammar);
    let grammar = with_block_open(grammar);
    let grammar = with_block_close(grammar);
    let grammar = with_model_keyword(grammar);
    let grammar = with_type_keyword(grammar);
    let grammar = with_enum_keyword(grammar);
    let grammar = with_generator_keyword(grammar);
    let grammar = with_source_keyword(grammar);
    let grammar = with_legacy_colon(grammar);
    let grammar = with_identifier(grammar);
    grammar
}

/// Defines the rules for keywords, punctuation and names.
fn define_tokens(grammar: &mut Grammar)
    ensures
        final(grammar)@ == with_tokens(old(grammar)@),
{
    define_eoi(grammar);
    define_block_open(grammar);
    define_block_close(grammar);
    define_model_keyword(grammar);
    define_type_keyword(grammar);
    define_enum_keyword(grammar);
    define_generator_keyword(grammar);
    define_source_keyword(grammar);
    define_legacy_colon(grammar);
    define_identifier(grammar);
}

/// `grammar` with the bodies of the rules for literals and expressions.
pub open spec fn with_expressions(grammar: GrammarView) -> GrammarView {
    let grammar = with_numeric_literal(grammar);
    let grammar = with_string_content(grammar);
    let grammar = with_string_literal(grammar);
    let grammar = with_boolean_literal(grammar);
    let grammar = with_constant_literal(grammar);
    let grammar = with_function(grammar);
    let grammar = with_array_expression(grammar);
    let grammar = with_expression(grammar);
    grammar
}

/// Defines the rules for literals and expressions.
fn define_expressions(grammar: &mut Grammar)
    ensures
        final(grammar)@ == with_expressions(old(grammar)@),
{
    define_numeric_literal(grammar);
    define_string_content(grammar);
    define_string_literal(grammar);
    define_boolean_literal(grammar);
    define_constant_literal(grammar);
    define_function(grammar);
    define_array_expression(grammar);
    define_expression(grammar);
}

/// `grammar` with the bodies of the rules for arguments and directives.
pub open spec fn with_directives(grammar: GrammarView) -> GrammarView {
    let grammar = with_argument_name(grammar);
    let grammar = with_argument_value(grammar);
    let grammar = with_argument(grammar);
    let grammar = with_directive_arguments(grammar);
    let grammar = with_directive_name(grammar);
    let grammar = with_directive(grammar);
    let grammar = with_block_level_directive(grammar);
    grammar
}

/// Defines the rules for arguments and directives.
fn define_directives(grammar: &mut Grammar)
    ensures
        final(grammar)@ == with_directives(old(grammar)@),
{
    define_argument_name(grammar);
    define_argument_value(grammar);
    define_argument(grammar);
    define_directive_arguments(grammar);
    define_directive_name(grammar);
    define_directive(grammar);
    define_block_level_directive(grammar);
}

/// `grammar` with the bodies of the rules for types and fields.
pub open spec fn with_fields(grammar: GrammarView) -> GrammarView {
    let grammar = with_base_type(grammar);
    let grammar = with_list_type(grammar);
    let grammar = with_optional_type(grammar);
    let grammar = with_legacy_required_type(grammar);
    let grammar = with_legacy_list_type(grammar);
    let grammar = with_field_type(grammar);
    let grammar = with_field_declaration(grammar);
    grammar
}

/// Defines the rules for types and fields.
fn define_fields(grammar: &mut Grammar)
    ensures
        final(grammar)@ == with_fields(old(grammar)@),
{
    define_base_type(grammar);
    define_list_type(grammar);
    define_optional_type(grammar);
    define_legacy_required_type(grammar);
    define_legacy_list_type(grammar);
    define_field_type(grammar);
    define_field_declaration(grammar);
}

/// `grammar` with the bodies of the rules for declarations.
pub open spec fn with_declarations(grammar: GrammarView) -> GrammarView {
    let grammar = with_type_declaration(grammar);
    let grammar = with_model_declaration(grammar);
    let grammar = with_enum_field_declaration(grammar);
    let grammar = with_enum_declaration(grammar);
    let grammar = with_key_value(grammar);
    let grammar = with_source_block(grammar);
    let grammar = with_generator_block(grammar);
    let grammar = with_datamodel(grammar);
    grammar
}

/// Defines the rules for declarations.
fn define_declarations(grammar: &mut Grammar)
    ensures
        final(grammar)@ == with_declarations(old(grammar)@),
{
    define_type_declaration(grammar);
    define_model_declaration(grammar);
    define_enum_field_declaration(grammar);
    define_enum_declaration(grammar);
    define_key_value(grammar);
    define_source_block(grammar);
    define_generator_block(grammar);
    define_datamodel(grammar);
}

/// The grammar of datamodel source texts.
pub open spec fn datamodel_grammar() -> GrammarView {
    with_declarations(with_fields(with_directives(with_expressions(with_tokens(foundation())))))
}

/// The expression that a whole source text is matched against: the call of
/// [`DATAMODEL`].
pub open spec fn start() -> usize {
    call_of(DATAMODEL)
}

/// The expression that a whole source text is matched against, see
/// [`start`].
pub fn start_expression() -> (index: usize)
    ensures
        index == start(),
{
    call(DATAMODEL)
}

/// Builds the grammar of datamodel source texts.
pub fn build_grammar() -> (grammar: Grammar)
    ensures
        grammar@ == datamodel_grammar(),
{
    let mut grammar = build_foundation();
    define_tokens(&mut grammar);
    define_expressions(&mut grammar);
    define_directives(&mut grammar);
    define_fields(&mut grammar);
    define_declarations(&mut grammar);
    grammar
}

/// What rule number `rule` is called in diagnostics. A rule that is never
/// named there has the empty name.
pub open spec fn display_name(rule: usize) -> Seq<char> {
    if rule == EOI {
        "end of input"@
    } else if rule == BLOCK_OPEN {
        "Start of block (\"{\")"@
    } else if rule == BLOCK_CLOSE {
        "End of block (\"}\")"@
    } else if rule == MODEL_KEYWORD {
        "\"model\" keyword"@
    } else if rule == TYPE_KEYWORD {
        "\"type\" keyword"@
    } else if rule == ENUM_KEYWORD {
        "\"enum\" keyword"@
    } else if rule == GENERATOR_KEYWORD {
        "\"generator\" keyword"@
    } else if rule == SOURCE_KEYWORD {
        "\"source\" keyword"@
    } else if rule == LEGACY_COLON {
        ""@
    } else if rule == IDENTIFIER {
        "alphanumeric identifier"@
    } else if rule == NUMERIC_LITERAL {
        "numeric literal"@
    } else if rule == STRING_CONTENT {
        "string contents"@
    } else if rule == STRING_LITERAL {
        "string literal"@
    } else if rule == BOOLEAN_LITERAL {
        "boolean literal"@
    } else if rule == CONSTANT_LITERAL {
        "constant literal"@
    } else if rule == FUNCTION {
        "function expression"@
    } else if rule == ARRAY_EXPRESSION {
        "array"@
    } else if rule == EXPRESSION {
        "expression"@
    } else if rule == ARGUMENT_NAME {
        "argument name"@
    } else if rule == ARGUMENT_VALUE {
        "argument value"@
    } else if rule == ARGUMENT {
        "argument"@
    } else if rule == DIRECTIVE_ARGUMENTS {
        "attribute arguments"@
    } else if rule == DIRECTIVE_NAME {
        "directive name"@
    } else if rule == DIRECTIVE {
        "directive"@
    } else if rule == BLOCK_LEVEL_DIRECTIVE {
        "@@ directive"@
    } else if rule == BASE_TYPE {
        "type"@
    } else if rule == LIST_TYPE {
        "list type"@
    } else if rule == OPTIONAL_TYPE {
        "optional type"@
    } else if rule == LEGACY_REQUIRED_TYPE {
        "type"@
    } else if rule == LEGACY_LIST_TYPE {
        "type"@
    } else if rule == FIELD_TYPE {
        "field type"@
    } else if rule == FIELD_DECLARATION {
        "field declaration"@
    } else if rule == TYPE_DECLARATION {
        "type declaration"@
    } else if rule == MODEL_DECLARATION {
        "model declaration"@
    } else if rule == ENUM_FIELD_DECLARATION {
        "enum field declaration"@
    } else if rule == ENUM_DECLARATION {
        "enum declaration"@
    } else if rule == KEY_VALUE {
        "configuration property"@
    } else if rule == SOURCE_BLOCK {
        "source definition"@
    } else if rule == GENERATOR_BLOCK {
        "generator definition"@
    } else if rule == DATAMODEL {
        "datamodel declaration"@
    } else {
        ""@
    }
}

/// What rule number `rule` is called in diagnostics.
pub fn rule_name(rule: usize) -> (name: &'static str)
    ensures
        name@ == display_name(rule),
{
    if rule == EOI {
        "end of input"
    } else if rule == BLOCK_OPEN {
        "Start of block (\"{\")"
    } else if rule == BLOCK_CLOSE {
        "End of block (\"}\")"
    } else if rule == MODEL_KEYWORD {
        "\"model\" keyword"
    } else if rule == TYPE_KEYWORD {
        "\"type\" keyword"
    } else if rule == ENUM_KEYWORD {
        "\"enum\" keyword"
    } else if rule == GENERATOR_KEYWORD {
        "\"generator\" keyword"
    } else if rule == SOURCE_KEYWORD {
        "\"source\" keyword"
    } else if rule == LEGACY_COLON {
        ""
    } else if rule == IDENTIFIER {
        "alphanumeric identifier"
    } else if rule == NUMERIC_LITERAL {
        "numeric literal"
    } else if rule == STRING_CONTENT {
        "string contents"
    } else if rule == STRING_LITERAL {
        "string literal"
    } else if rule == BOOLEAN_LITERAL {
        "boolean literal"
    } else if rule == CONSTANT_LITERAL {
        "constant literal"
    } else if rule == FUNCTION {
        "function expression"
    } else if rule == ARRAY_EXPRESSION {
        "array"
    } else if rule == EXPRESSION {
        "expression"
    } else if rule == ARGUMENT_NAME {
        "argument name"
    } else if rule == ARGUMENT_VALUE {
        "argument value"
    } else if rule == ARGUMENT {
        "argument"
    } else if rule == DIRECTIVE_ARGUMENTS {
        "attribute arguments"
    } else if rule == DIRECTIVE_NAME {
        "directive name"
    } else if rule == DIRECTIVE {
        "directive"
    } else if rule == BLOCK_LEVEL_DIRECTIVE {
        "@@ directive"
    } else if rule == BASE_TYPE {
        "type"
    } else if rule == LIST_TYPE {
        "list type"
    } else if rule == OPTIONAL_TYPE {
        "optional type"
    } else if rule == LEGACY_REQUIRED_TYPE {
        "type"
    } else if rule == LEGACY_LIST_TYPE {
        "type"
    } else if rule == FIELD_TYPE {
        "field type"
    } else if rule == FIELD_DECLARATION {
        "field declaration"
    } else if rule == TYPE_DECLARATION {
        "type declaration"
    } else if rule == MODEL_DECLARATION {
        "model declaration"
    } else if rule == ENUM_FIELD_DECLARATION {
        "enum field declaration"
    } else if rule == ENUM_DECLARATION {
        "enum declaration"
    } else if rule == KEY_VALUE {
        "configuration property"
    } else if rule == SOURCE_BLOCK {
        "source definition"
    } else if rule == GENERATOR_BLOCK {
        "generator definition"
    } else if rule == DATAMODEL {
        "datamodel declaration"
    } else {
        ""
    }
}

} // verus!
