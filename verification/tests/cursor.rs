use rmatrix::config_parser::ConfigParser;
use rmatrix::grammar::ErrKind;
use rmatrix::text::{
    chars_of, ends_name, is_decimal_digit, is_inline_whitespace, is_whitespace, push_decimal,
    push_decimal_pad, push_range, push_repeat, utf8_width,
};
use rmatrix::value::ConfigVal;

#[test]
fn whitespace_is_the_unicode_property() {
    for code in 0u32..=0x10FFFF {
        if let Some(c) = char::from_u32(code) {
            assert_eq!(is_whitespace(c), c.is_whitespace(), "{:x}", code);
            assert_eq!(is_inline_whitespace(c), c.is_whitespace() && c != '\n');
            assert_eq!(is_decimal_digit(c), c.is_digit(10));
            assert_eq!(utf8_width(c), c.len_utf8());
        }
    }
}

#[test]
fn name_delimiters() {
    for c in [' ', '\t', '\n', ':', '.', ',', ';', '\u{3000}'] {
        assert!(ends_name(c));
    }
    for c in ['a', '_', '-', '(', ')', '#', '0', '\u{e9}'] {
        assert!(!ends_name(c));
    }
}

#[test]
fn decimal_text() {
    for n in [0usize, 1, 9, 10, 11, 99, 100, 101, 12345, usize::MAX] {
        let mut out = String::from("n=");
        push_decimal(&mut out, n);
        assert_eq!(out, format!("n={}", n));
        let mut pad = String::from("|");
        push_decimal_pad(&mut pad, ' ', n);
        assert_eq!(pad.len(), 1 + format!("{}", n).len());
    }
}

#[test]
fn repeats_and_ranges() {
    let mut out = String::from("a");
    push_repeat(&mut out, '^', 3);
    push_repeat(&mut out, '-', 0);
    assert_eq!(out, "a^^^");
    let v = chars_of("h\u{e9}llo");
    assert_eq!(v, vec!['h', '\u{e9}', 'l', 'l', 'o']);
    push_range(&mut out, &v, 1, 4);
    assert_eq!(out, "a^^^\u{e9}ll");
}

#[test]
fn peek_and_advance() {
    let mut parser = ConfigParser::new("\u{e9}\nb");
    assert_eq!(parser.peek(), Some((0, '\u{e9}')));
    assert_eq!(parser.peek(), Some((0, '\u{e9}')));
    assert_eq!(parser.advance(), Some((0, '\u{e9}')));
    assert_eq!(parser.advance(), Some((2, '\n')));
    assert_eq!(parser.peek(), Some((3, 'b')));
    let e = parser.make_err(ErrKind::MissingValue, "here".to_string());
    assert_eq!(e.line(), 2);
    assert_eq!(e.line_offset(), 3);
    assert_eq!(e.offset(), Some(3));
    assert_eq!(e.to_string(), "here\n2 | b\n    ^\n");
    assert_eq!(parser.advance(), Some((3, 'b')));
    assert_eq!(parser.advance(), None);
    assert_eq!(parser.peek(), None);
}

#[test]
fn skip_while_and_lookahead() {
    let mut parser = ConfigParser::new("  \n\t true..");
    parser.skip(is_whitespace);
    assert_eq!(parser.peek(), Some((5, 't')));
    assert!(parser.maybe("true"));
    assert!(parser.maybe(""));
    assert!(!parser.maybe("truth"));
    assert!(!parser.maybe("true..."));
    assert!(!parser.at_range());
    assert_eq!(parser.peek(), Some((5, 't')));
    parser.skip_n(4);
    assert!(parser.at_range());
    assert!(parser.maybe(".."));
    parser.skip(|c| c == '.');
    assert_eq!(parser.peek(), None);
    parser.skip_n(3);
    assert_eq!(parser.peek(), None);
}

#[test]
fn skip_inline_stays_on_the_line() {
    let mut parser = ConfigParser::new(" \t\r\n x");
    parser.skip_inline();
    assert_eq!(parser.peek(), Some((3, '\n')));
    parser.skip_inline();
    assert_eq!(parser.peek(), Some((3, '\n')));
}

#[test]
fn to_new_line_passes_the_line_break() {
    let mut parser = ConfigParser::new("abc\ndef");
    parser.to_new_line();
    assert_eq!(parser.peek(), Some((4, 'd')));
    let e = parser.error_at(ErrKind::MalformedTuple, "`x`");
    assert_eq!(e.message(), "error on line: 2, column: 0. Expected `x`.");
    parser.to_new_line();
    assert_eq!(parser.peek(), None);
    parser.to_new_line();
    assert_eq!(parser.peek(), None);
}

#[test]
fn need_stops_at_the_first_difference() {
    let mut parser = ConfigParser::new("::=");
    assert!(parser.need("::", ErrKind::MissingAssignmentOperator).is_ok());
    assert_eq!(parser.peek(), Some((2, '=')));
    let e = parser.need("==", ErrKind::MissingAssignmentOperator).unwrap_err();
    assert_eq!(e.message(), "error on line: 1, column: 3. Expected `==`.");
    assert_eq!(e.offset(), None);
    assert_eq!(parser.peek(), None);
    let mut parser = ConfigParser::new(":\n:");
    let e = parser.need("::", ErrKind::MissingAssignmentOperator).unwrap_err();
    assert_eq!(e.message(), "error on line: 1, column: 1. Expected `::`.");
    assert_eq!(e.offset(), Some(1));
    assert_eq!(parser.peek(), Some((1, '\n')));
}

#[test]
fn parts_of_a_statement() {
    let mut parser = ConfigParser::new("name:: 12.5.(1)");
    assert_eq!(parser.parse_variable().unwrap(), "name");
    assert!(parser.parse_variable().is_err());
    parser.skip_n(3);
    match parser.parse_num() {
        ConfigVal::Num(text) => assert_eq!(text, "12.5"),
        other => panic!("{:?}", other),
    }
    match parser.parse_num() {
        ConfigVal::Num(text) => assert_eq!(text, "."),
        other => panic!("{:?}", other),
    }
    match parser.parse_value() {
        Ok(ConfigVal::Tuple(items)) => assert_eq!(items.len(), 1),
        other => panic!("{:?}", other),
    }
    let e = parser.parse_tuple().unwrap_err();
    assert_eq!(e.kind(), ErrKind::MalformedTuple);
    assert_eq!(e.message(), "error on line: 1, column: 15. Expected `(`.");
    let e = parser.parse_value().unwrap_err();
    assert_eq!(e.kind(), ErrKind::MissingValue);
}

#[test]
fn lines_and_offsets_follow_the_cursor() {
    let mut parser = ConfigParser::new("a\n\u{e9}b\n\nc");
    assert_eq!((parser.line(), parser.line_offset(), parser.offset()), (1, 0, 0));
    parser.skip_n(1);
    assert_eq!((parser.line(), parser.line_offset(), parser.offset()), (1, 0, 1));
    parser.skip_n(1);
    assert_eq!((parser.line(), parser.line_offset(), parser.offset()), (2, 2, 2));
    parser.skip_n(2);
    assert_eq!((parser.line(), parser.line_offset(), parser.offset()), (2, 2, 5));
    assert!(!parser.maybe("\n\nd"));
    assert_eq!((parser.line(), parser.line_offset(), parser.offset()), (2, 2, 5));
    parser.skip(|c| c == '\n');
    assert_eq!((parser.line(), parser.line_offset(), parser.offset()), (4, 7, 7));
    parser.to_new_line();
    assert_eq!((parser.line(), parser.line_offset(), parser.offset()), (4, 7, 8));
}
