use rmatrix::config_parser::ConfigParser;
use rmatrix::diag::ConfigErr;
use rmatrix::grammar::ErrKind;
use rmatrix::value::{ConfigParam, ConfigVal};

#[derive(Debug, PartialEq)]
enum V {
    Num(f32),
    Tuple(Vec<V>),
    Range(Box<V>, Box<V>),
    Bool(bool),
    Nil,
}

fn v(c: &ConfigVal) -> V {
    match c {
        ConfigVal::Num(text) => V::Num(text.parse().unwrap_or_default()),
        ConfigVal::Tuple(items) => V::Tuple(items.iter().map(v).collect()),
        ConfigVal::Range(a, b) => V::Range(Box::new(v(a)), Box::new(v(b))),
        ConfigVal::Bool(b) => V::Bool(*b),
        ConfigVal::Nil => V::Nil,
    }
}

fn nums(ns: &[f32]) -> V {
    V::Tuple(ns.iter().map(|n| V::Num(*n)).collect())
}

fn statement(r: Option<Result<ConfigParam, ConfigErr>>) -> (String, V) {
    match r {
        Some(Ok(param)) => {
            let (name, val) = param.split();
            (name, v(&val))
        }
        other => panic!("expected a statement, found {:?}", other),
    }
}

fn failure(r: Option<Result<ConfigParam, ConfigErr>>) -> ConfigErr {
    match r {
        Some(Err(e)) => e,
        other => panic!("expected a diagnostic, found {:?}", other),
    }
}

fn all(text: &str) -> Vec<String> {
    let mut parser = ConfigParser::new(text);
    let mut out = Vec::new();
    while let Some(r) = parser.parse() {
        out.push(match r {
            Ok(param) => format!("{:?}", param),
            Err(e) => e.to_string(),
        });
        assert!(out.len() <= text.len() + 1);
    }
    out
}

#[test]
fn recovery_after_missing_value() {
    let mut parser = ConfigParser::new("bad ::\nfoo :: 1\n");
    let e = failure(parser.parse());
    assert_eq!(e.kind(), ErrKind::MissingValue);
    assert_eq!(e.message(), "error on line: 1, column: 6. Expected value.");
    assert_eq!(statement(parser.parse()), ("foo".to_string(), V::Num(1.0)));
    assert!(parser.parse().is_none());
}

#[test]
fn number_range() {
    let mut parser = ConfigParser::new("speed :: 1..3\n");
    assert_eq!(
        statement(parser.parse()),
        ("speed".to_string(), V::Range(Box::new(V::Num(1.0)), Box::new(V::Num(3.0))))
    );
    assert!(parser.parse().is_none());
}

#[test]
fn number_range_keeps_fractions() {
    let mut parser = ConfigParser::new("k :: 0.5 .. 1.25");
    assert_eq!(
        statement(parser.parse()),
        ("k".to_string(), V::Range(Box::new(V::Num(0.5)), Box::new(V::Num(1.25))))
    );
    assert!(parser.parse().is_none());
}

#[test]
fn tuple_of_numbers() {
    let mut parser = ConfigParser::new("color :: (0, 255, 0)\n");
    assert_eq!(statement(parser.parse()), ("color".to_string(), nums(&[0.0, 255.0, 0.0])));
    assert!(parser.parse().is_none());
}

#[test]
fn tuple_range() {
    let mut parser = ConfigParser::new("color :: (0,0,0)..(0,255,0)\n");
    assert_eq!(
        statement(parser.parse()),
        (
            "color".to_string(),
            V::Range(Box::new(nums(&[0.0, 0.0, 0.0])), Box::new(nums(&[0.0, 255.0, 0.0])))
        )
    );
    assert!(parser.parse().is_none());
}

#[test]
fn nested_tuple() {
    let mut parser = ConfigParser::new("t :: ( (1 , 2), true, nil, 3..4 )\n");
    assert_eq!(
        statement(parser.parse()),
        (
            "t".to_string(),
            V::Tuple(vec![
                nums(&[1.0, 2.0]),
                V::Bool(true),
                V::Nil,
                V::Range(Box::new(V::Num(3.0)), Box::new(V::Num(4.0))),
            ])
        )
    );
    assert!(parser.parse().is_none());
}

#[test]
fn comment_then_literal() {
    let mut parser = ConfigParser::new("# note\nbold :: true\n");
    assert_eq!(statement(parser.parse()), ("bold".to_string(), V::Bool(true)));
    assert!(parser.parse().is_none());
}

#[test]
fn literals() {
    let mut parser = ConfigParser::new("a :: false\nb :: nil\nc :: Nil\nd :: NIL\ne :: nIl\nf :: True\n");
    assert_eq!(statement(parser.parse()), ("a".to_string(), V::Bool(false)));
    assert_eq!(statement(parser.parse()), ("b".to_string(), V::Nil));
    assert_eq!(statement(parser.parse()), ("c".to_string(), V::Nil));
    let e = failure(parser.parse());
    assert_eq!(e.kind(), ErrKind::MissingValue);
    assert_eq!(e.message(), "error on line: 4, column: 5. Expected value.");
    let e = failure(parser.parse());
    assert_eq!(e.message(), "error on line: 5, column: 5. Expected value.");
    let e = failure(parser.parse());
    assert_eq!(e.message(), "error on line: 6, column: 5. Expected value.");
    assert!(parser.parse().is_none());
}

#[test]
fn value_missing_at_end_of_line() {
    let mut parser = ConfigParser::new("x ::\n");
    let e = failure(parser.parse());
    assert_eq!(e.kind(), ErrKind::MissingValue);
    assert!(e.message().contains("Expected value"));
    assert_eq!(e.line(), 1);
    assert_eq!(e.line_offset(), 0);
    assert_eq!(e.offset(), Some(4));
    assert_eq!(
        e.to_string(),
        "error on line: 1, column: 4. Expected value.\n1 | x ::\n    ^^^^^\n"
    );
    assert!(parser.parse().is_none());
}

#[test]
fn value_missing_at_end_of_text() {
    let mut parser = ConfigParser::new("a :: 1\nx :: ");
    assert_eq!(statement(parser.parse()), ("a".to_string(), V::Num(1.0)));
    let e = failure(parser.parse());
    assert_eq!(e.kind(), ErrKind::MissingValue);
    assert_eq!(e.message(), "error on line: 2. Expected value but found end of line.");
    assert_eq!(e.line(), 2);
    assert_eq!(e.line_offset(), 7);
    assert_eq!(e.offset(), None);
    assert_eq!(
        e.to_string(),
        "error on line: 2. Expected value but found end of line.\n2 | x :: \n    ^^^^^^\n"
    );
    assert!(parser.parse().is_none());
}

#[test]
fn malformed_tuple_gives_up_the_line() {
    let mut parser = ConfigParser::new("c :: (1, 2\n");
    let e = failure(parser.parse());
    assert_eq!(e.kind(), ErrKind::MalformedTuple);
    assert_eq!(e.message(), "error on line: 1, column: 10. Expected `,` or `)`.");
    assert_eq!(e.offset(), Some(10));
    assert!(parser.parse().is_none());
}

#[test]
fn malformed_tuple_costs_one_statement() {
    let mut parser = ConfigParser::new("c :: (1, 2\nfoo :: 1\n");
    let e = failure(parser.parse());
    assert_eq!(e.kind(), ErrKind::MalformedTuple);
    assert_eq!(statement(parser.parse()), ("foo".to_string(), V::Num(1.0)));
    assert!(parser.parse().is_none());
}

#[test]
fn malformed_tuple_separator() {
    let mut parser = ConfigParser::new("c :: (1 2)\nd :: ()\n");
    let e = failure(parser.parse());
    assert_eq!(e.kind(), ErrKind::MalformedTuple);
    assert_eq!(e.message(), "error on line: 1, column: 8. Expected `,` or `)`.");
    let e = failure(parser.parse());
    assert_eq!(e.kind(), ErrKind::MissingValue);
    assert_eq!(e.message(), "error on line: 2, column: 6. Expected value.");
    assert!(parser.parse().is_none());
}

#[test]
fn tuple_range_needs_a_second_tuple() {
    let mut parser = ConfigParser::new("c :: (1)..2\nd :: (1)..");
    let e = failure(parser.parse());
    assert_eq!(e.kind(), ErrKind::MalformedTuple);
    assert_eq!(e.message(), "error on line: 1, column: 10. Expected `(`.");
    let e = failure(parser.parse());
    assert_eq!(e.kind(), ErrKind::MalformedTuple);
    assert_eq!(e.message(), "error on line: 2, column: 10. Expected `(`.");
    assert_eq!(e.offset(), None);
    assert!(parser.parse().is_none());
}

#[test]
fn missing_assignment_operator() {
    let mut parser = ConfigParser::new("x :\nfoo :: 1\ny = 2\nz");
    let e = failure(parser.parse());
    assert_eq!(e.kind(), ErrKind::MissingAssignmentOperator);
    assert_eq!(e.message(), "error on line: 1, column: 3. Expected `::`.");
    assert_eq!(e.to_string(), "error on line: 1, column: 3. Expected `::`.\n1 | x :\n    ^^^^\n");
    assert_eq!(statement(parser.parse()), ("foo".to_string(), V::Num(1.0)));
    let e = failure(parser.parse());
    assert_eq!(e.kind(), ErrKind::MissingAssignmentOperator);
    assert_eq!(e.message(), "error on line: 3, column: 2. Expected `::`.");
    assert_eq!(e.offset(), Some(15));
    let e = failure(parser.parse());
    assert_eq!(e.kind(), ErrKind::MissingAssignmentOperator);
    assert_eq!(e.message(), "error on line: 4, column: 1. Expected `::`.");
    assert_eq!(e.offset(), None);
    assert!(parser.parse().is_none());
}

#[test]
fn missing_variable_name() {
    let mut parser = ConfigParser::new("  :: 1\nok :: 2\n");
    let e = failure(parser.parse());
    assert_eq!(e.kind(), ErrKind::MissingVariableName);
    assert_eq!(e.message(), "error on line: 1, column: 2. Expected `variable name`.");
    assert_eq!(
        e.to_string(),
        "error on line: 1, column: 2. Expected `variable name`.\n1 |   :: 1\n    ^^^\n"
    );
    assert_eq!(statement(parser.parse()), ("ok".to_string(), V::Num(2.0)));
    assert!(parser.parse().is_none());
}

#[test]
fn one_statement_per_line() {
    let text = "speed :: 1..3\nlength :: 5..20\ncolor :: (0, 255, 0)\nis_bold :: true\nhead_color :: nil\n  utf8 :: false \n";
    let mut parser = ConfigParser::new(text);
    let names = ["speed", "length", "color", "is_bold", "head_color", "utf8"];
    for name in names {
        let (found, _) = statement(parser.parse());
        assert_eq!(found, name);
    }
    assert!(parser.parse().is_none());
    assert!(parser.parse().is_none());
}

#[test]
fn comments_and_blank_lines_yield_nothing() {
    assert!(ConfigParser::new("").parse().is_none());
    assert!(ConfigParser::new("\n\n   \n").parse().is_none());
    assert!(ConfigParser::new("# one\n\n  # two\n\t\n# three").parse().is_none());
    assert_eq!(all("# one\n\na :: 1\n  # two\n\nb :: 2\n# three").len(), 2);
}

#[test]
fn same_text_same_outcomes() {
    let text = "a :: 1\nbad ::\n# c\nt :: (1, 2\nr :: (1,2)..(3,4)\nx y\n";
    let first = all(text);
    let second = all(text);
    assert_eq!(first.len(), 5);
    assert_eq!(first, second);
}

#[test]
fn names_are_kept_as_written() {
    let mut parser = ConfigParser::new("Head_Color-2 :: 1\n");
    assert_eq!(statement(parser.parse()), ("Head_Color-2".to_string(), V::Num(1.0)));
}

#[test]
fn number_at_end_of_text() {
    let mut parser = ConfigParser::new("a :: 12.5");
    assert_eq!(statement(parser.parse()), ("a".to_string(), V::Num(12.5)));
    assert!(parser.parse().is_none());
}

#[test]
fn number_text_is_kept() {
    let mut parser = ConfigParser::new("a :: 007.50\nb :: .\nc :: 1.2.3\n");
    match parser.parse() {
        Some(Ok(param)) => match param.split() {
            (name, ConfigVal::Num(text)) => {
                assert_eq!(name, "a");
                assert_eq!(text, "007.50");
            }
            other => panic!("{:?}", other),
        },
        other => panic!("{:?}", other),
    }
    assert_eq!(statement(parser.parse()), ("b".to_string(), V::Num(0.0)));
    assert_eq!(statement(parser.parse()), ("c".to_string(), V::Num(1.2)));
    let e = failure(parser.parse());
    assert_eq!(e.kind(), ErrKind::MissingVariableName);
    assert_eq!(e.message(), "error on line: 3, column: 8. Expected `variable name`.");
    assert!(parser.parse().is_none());
}

#[test]
fn range_with_empty_ends() {
    let mut parser = ConfigParser::new("a :: 1..x\nb :: ..3\n");
    assert_eq!(
        statement(parser.parse()),
        ("a".to_string(), V::Range(Box::new(V::Num(1.0)), Box::new(V::Num(0.0))))
    );
    let e = failure(parser.parse());
    assert_eq!(e.kind(), ErrKind::MissingAssignmentOperator);
    assert_eq!(
        statement(parser.parse()),
        ("b".to_string(), V::Range(Box::new(V::Num(0.0)), Box::new(V::Num(3.0))))
    );
    assert!(parser.parse().is_none());
}

#[test]
fn columns_count_bytes_and_carets_count_characters() {
    let mut parser = ConfigParser::new("ok :: 1\n\u{e9}t\u{e9} :: ?\n");
    assert_eq!(statement(parser.parse()), ("ok".to_string(), V::Num(1.0)));
    let e = failure(parser.parse());
    assert_eq!(e.line(), 2);
    assert_eq!(e.line_offset(), 8);
    assert_eq!(e.offset(), Some(17));
    assert_eq!(e.message(), "error on line: 2, column: 9. Expected value.");
    assert_eq!(
        e.to_string(),
        "error on line: 2, column: 9. Expected value.\n2 | \u{e9}t\u{e9} :: ?\n    ^^^^^^^^\n"
    );
}

#[test]
fn line_numbers_with_two_digits() {
    let text = "\n\n\n\n\n\n\n\n\n\n\nx :: ?\n";
    let e = failure(ConfigParser::new(text).parse());
    assert_eq!(e.line(), 12);
    assert_eq!(
        e.to_string(),
        "error on line: 12, column: 5. Expected value.\n12 | x :: ?\n     ^^^^^^\n"
    );
}

#[test]
fn trailing_text_is_read_as_the_next_statement() {
    let mut parser = ConfigParser::new("a :: 1 b :: 2\n");
    assert_eq!(statement(parser.parse()), ("a".to_string(), V::Num(1.0)));
    assert_eq!(statement(parser.parse()), ("b".to_string(), V::Num(2.0)));
    assert!(parser.parse().is_none());
}

#[test]
fn carriage_returns_are_whitespace() {
    let mut parser = ConfigParser::new("a :: 1\r\nb :: (1,\r\n");
    assert_eq!(statement(parser.parse()), ("a".to_string(), V::Num(1.0)));
    let e = failure(parser.parse());
    assert_eq!(e.kind(), ErrKind::MissingValue);
    assert_eq!(e.message(), "error on line: 2, column: 9. Expected value.");
    assert!(parser.parse().is_none());
}

#[test]
fn values_are_copied_whole() {
    let mut parser = ConfigParser::new("t :: ((1, 2.5)..(3, 4), true, nil)\n");
    let param = match parser.parse() {
        Some(Ok(param)) => param,
        other => panic!("{:?}", other),
    };
    let copy = param.clone();
    let (name, val) = param.split();
    let (copy_name, copy_val) = copy.split();
    assert_eq!(name, copy_name);
    assert_eq!(v(&val), v(&copy_val));
    assert_eq!(
        v(&copy_val.clone()),
        V::Tuple(vec![
            V::Range(Box::new(nums(&[1.0, 2.5])), Box::new(nums(&[3.0, 4.0]))),
            V::Bool(true),
            V::Nil,
        ])
    );
}

#[test]
fn a_reader_is_made_for_any_text_that_fits() {
    let mut parser = ConfigParser::try_new("a :: 1").expect("the text fits");
    assert_eq!(statement(parser.parse()), ("a".to_string(), V::Num(1.0)));
    assert!(ConfigParser::try_new("").expect("the text fits").parse().is_none());
}
