use datamodel::ast::{
    Argument, ConfigBlock, Datamodel, Directive, Enum, EnumValue, Field, FieldArity, Model, Span,
    Top, Value,
};
use datamodel::errors::ValidationError;
use datamodel::parser::parse;
use datamodel::peg::{Atomicity, Expr, Grammar, ParseError, RuleKind, State, Token};

fn span_of(text: &str, part: &str) -> Span {
    let start = text.find(part).unwrap();
    Span::new(start, start + part.len())
}

#[test]
fn an_empty_text_has_no_declarations() {
    assert_eq!(parse(""), Ok(Datamodel { models: vec![] }));
    assert_eq!(parse("  \n\t // nothing here\n"), Ok(Datamodel { models: vec![] }));
}

#[test]
fn a_model_is_read_with_fields_and_directives() {
    let text = "model User {\n  id Int @id\n  name String? @map(name: \"user_name\") // the name\n  tags String[]\n  @@map(\"users\")\n}";
    let tree = parse(text).unwrap();
    assert_eq!(
        tree,
        Datamodel {
            models: vec![Top::Model(Model {
                name: "User".to_string(),
                fields: vec![
                    Field {
                        name: "id".to_string(),
                        field_type: "Int".to_string(),
                        field_type_span: span_of(text, "Int"),
                        arity: FieldArity::Required,
                        directives: vec![Directive {
                            name: "id".to_string(),
                            arguments: vec![],
                            span: Span::new(23, 25),
                        }],
                        span: span_of(text, "id Int @id"),
                    },
                    Field {
                        name: "name".to_string(),
                        field_type: "String".to_string(),
                        field_type_span: span_of(text, "String"),
                        arity: FieldArity::Optional,
                        directives: vec![Directive {
                            name: "map".to_string(),
                            arguments: vec![Argument {
                                name: "name".to_string(),
                                value: Value::StringValue(
                                    "user_name".to_string(),
                                    span_of(text, "\"user_name\""),
                                ),
                                span: span_of(text, "name: \"user_name\""),
                            }],
                            span: span_of(text, "map(name: \"user_name\")"),
                        }],
                        span: span_of(text, "name String? @map(name: \"user_name\")"),
                    },
                    Field {
                        name: "tags".to_string(),
                        field_type: "String".to_string(),
                        field_type_span: Span::new(
                            text.find("tags String").unwrap() + 5,
                            text.find("tags String").unwrap() + 11
                        ),
                        arity: FieldArity::List,
                        directives: vec![],
                        span: span_of(text, "tags String[]"),
                    },
                ],
                directives: vec![Directive {
                    name: "map".to_string(),
                    arguments: vec![Argument {
                        name: "".to_string(),
                        value: Value::StringValue("users".to_string(), span_of(text, "\"users\"")),
                        span: span_of(text, "\"users\""),
                    }],
                    span: span_of(text, "map(\"users\")"),
                }],
                span: Span::new(0, text.len()),
            })],
        }
    );
}

#[test]
fn enums_blocks_and_aliases_are_read() {
    let text = "enum Role { ADMIN USER_2 }\ngenerator js { output = \"./client\" flags = [1, -2.5, true, env(\"X\")] }\ntype Id = String @id";
    let tree = parse(text).unwrap();
    assert_eq!(tree.models.len(), 3);
    assert_eq!(
        tree.models[0],
        Top::Enum(Enum {
            name: "Role".to_string(),
            values: vec![
                EnumValue {
                    name: "ADMIN".to_string(),
                    span: span_of(text, "ADMIN")
                },
                EnumValue {
                    name: "USER_2".to_string(),
                    span: span_of(text, "USER_2")
                },
            ],
            span: span_of(text, "enum Role { ADMIN USER_2 }"),
        })
    );
    match &tree.models[1] {
        Top::Generator(ConfigBlock {
            name, properties, ..
        }) => {
            assert_eq!(name, "js");
            assert_eq!(properties.len(), 2);
            assert_eq!(properties[0].name, "output");
            assert_eq!(
                properties[1].value,
                Value::Array(
                    vec![
                        Value::NumericValue("1".to_string(), span_of(text, "1")),
                        Value::NumericValue("-2.5".to_string(), span_of(text, "-2.5")),
                        Value::BooleanValue("true".to_string(), span_of(text, "true")),
                        Value::Function(
                            "env".to_string(),
                            vec![Value::StringValue("X".to_string(), span_of(text, "\"X\""))],
                            span_of(text, "env(\"X\")")
                        ),
                    ],
                    span_of(text, "[1, -2.5, true, env(\"X\")]")
                )
            );
        }
        other => panic!("{:?} is no generator", other),
    }
    match &tree.models[2] {
        Top::Type(alias) => {
            assert_eq!(alias.name, "Id");
            assert_eq!(alias.field_type, "String");
            assert_eq!(alias.arity, FieldArity::Required);
            assert_eq!(alias.directives.len(), 1);
        }
        other => panic!("{:?} is no alias", other),
    }
}

#[test]
fn strings_hold_what_stands_between_their_quotes() {
    let text = "model A { f String @default(\"grüß \\\"dich\\\" // no comment\") }";
    let tree = parse(text).unwrap();
    match &tree.models[0] {
        Top::Model(model) => {
            assert_eq!(
                model.fields[0].directives[0].arguments[0].value,
                Value::StringValue(
                    "grüß \\\"dich\\\" // no comment".to_string(),
                    span_of(text, "\"grüß \\\"dich\\\" // no comment\"")
                )
            );
        }
        other => panic!("{:?} is no model", other),
    }
}

#[test]
fn the_first_place_that_breaks_the_grammar_is_reported() {
    let text = "model A { id Int @id(";
    assert_eq!(
        parse(text),
        Err(ValidationError::new_parser_error(
            &vec!["argument value", "argument"],
            Span::new(21, 21)
        ))
    );
}

#[test]
fn a_text_that_is_nested_too_deeply_is_refused() {
    let mut text = "generator g { x = ".to_string();
    for _ in 0..70 {
        text.push('[');
    }
    text.push('1');
    for _ in 0..70 {
        text.push(']');
    }
    text.push_str(" }");
    assert_eq!(
        parse(&text),
        Err(ValidationError::ParserError {
            expected_tokens: vec![],
            span: Span::new(0, text.len())
        })
    );
    let shallow = "generator g { x = [[[[[[[[[[1]]]]]]]]]] }";
    assert!(parse(shallow).is_ok());
}

/// The grammar `list = { "(" ~ (item ~ ("," ~ item)*)? ~ ")" }` with the
/// atomic rule `item = @{ 'a'..'z'+ }`.
fn list_grammar() -> (Grammar, usize) {
    let mut grammar = Grammar::new();
    grammar.declare(RuleKind::Normal);
    grammar.declare(RuleKind::Atomic);
    let letter = grammar.add(Expr::Range { low: 97, high: 122 });
    let letters = grammar.add(Expr::RepeatOnce { inner: letter });
    grammar.define(1, letters);
    let item = grammar.add(Expr::Call { rule: 1 });
    let open = grammar.add_literal("(");
    let comma = grammar.add_literal(",");
    let close = grammar.add_literal(")");
    let further = grammar.add(Expr::Sequence {
        first: comma,
        second: item,
    });
    let others = grammar.add(Expr::Repeat { inner: further });
    let some = grammar.add(Expr::Sequence {
        first: item,
        second: others,
    });
    let items = grammar.add(Expr::Optional { inner: some });
    let tail = grammar.add(Expr::Sequence {
        first: items,
        second: close,
    });
    let list = grammar.add(Expr::Sequence {
        first: open,
        second: tail,
    });
    grammar.define(0, list);
    let start = grammar.add(Expr::Call { rule: 0 });
    (grammar, start)
}

#[test]
fn the_engine_records_the_rules_that_match() {
    let (grammar, start) = list_grammar();
    assert_eq!(
        grammar.parse(b"( ab , c // d\n )", start, 10),
        Ok(vec![
            Token {
                rule: 0,
                start: 0,
                end: 16,
                size: 3
            },
            Token {
                rule: 1,
                start: 2,
                end: 4,
                size: 1
            },
            Token {
                rule: 1,
                start: 7,
                end: 8,
                size: 1
            },
        ])
    );
    assert_eq!(
        grammar.parse(b"()", start, 10),
        Ok(vec![Token {
            rule: 0,
            start: 0,
            end: 2,
            size: 1
        }])
    );
}

#[test]
fn the_engine_reports_the_rules_that_failed_rightmost() {
    let (grammar, start) = list_grammar();
    assert_eq!(
        grammar.parse(b"(a, 1)", start, 10),
        Err(ParseError::NoMatch {
            pos: 4,
            expected: vec![1]
        })
    );
    assert_eq!(
        grammar.parse(b"x", start, 10),
        Err(ParseError::NoMatch {
            pos: 0,
            expected: vec![0]
        })
    );
    assert_eq!(grammar.parse(b"(a)", start, 0), Err(ParseError::TooDeep));
    assert_eq!(grammar.parse(b"(a)", start, 1), Err(ParseError::TooDeep));
    assert!(grammar.parse(b"(a)", start, 2).is_ok());
}

#[test]
fn an_expression_that_names_later_parts_matches_nothing() {
    let mut grammar = Grammar::new();
    let broken = grammar.add(Expr::Optional { inner: 5 });
    let mut state = State::new();
    assert_eq!(grammar.eval(b"abc", broken, Atomicity::Normal, 3, &mut state), false);
    assert_eq!(state.pos, 0);
    assert_eq!(grammar.eval(b"abc", 17, Atomicity::Normal, 3, &mut state), false);
    let missing = grammar.add(Expr::Call { rule: 3 });
    assert_eq!(grammar.eval(b"abc", missing, Atomicity::Normal, 3, &mut state), false);
}

#[test]
fn lookahead_and_ends_consume_nothing() {
    let mut grammar = Grammar::new();
    let a = grammar.add_literal("a");
    let not_a = grammar.add(Expr::Not { inner: a });
    let any = grammar.add(Expr::Any);
    let other = grammar.add(Expr::Sequence {
        first: not_a,
        second: any,
    });
    let end = grammar.add(Expr::EndOfInput);
    let start = grammar.add(Expr::StartOfInput);
    let mut state = State::new();
    assert!(grammar.eval(b"ba", start, Atomicity::Atomic, 1, &mut state));
    assert!(!grammar.eval(b"ba", end, Atomicity::Atomic, 1, &mut state));
    assert!(grammar.eval(b"ba", other, Atomicity::Atomic, 1, &mut state));
    assert_eq!(state.pos, 1);
    assert!(!grammar.eval(b"ba", other, Atomicity::Atomic, 1, &mut state));
    assert_eq!(state.pos, 1);
    assert!(!grammar.eval(b"ba", start, Atomicity::Atomic, 1, &mut state));
    assert!(grammar.eval(b"ba", a, Atomicity::Atomic, 1, &mut state));
    assert!(grammar.eval(b"ba", end, Atomicity::Atomic, 1, &mut state));
    assert!(!grammar.eval(b"ba", any, Atomicity::Atomic, 1, &mut state));
    assert_eq!(state.pos, 2);
    assert_eq!(state.tokens, vec![]);
}
