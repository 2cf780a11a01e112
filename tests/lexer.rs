use risp::{from_str, BasicType, FloatOps, NumericType, OperatorType, Token, TokenStream};

struct Ieee;

impl FloatOps for Ieee {
    fn from_decimal(&self, text: &str) -> u64 {
        text.parse::<f64>().unwrap_or(f64::NAN).to_bits()
    }

    fn from_integer(&self, i: i64) -> u64 {
        (i as f64).to_bits()
    }

    fn add(&self, a: u64, b: u64) -> u64 {
        (f64::from_bits(a) + f64::from_bits(b)).to_bits()
    }

    fn sub(&self, a: u64, b: u64) -> u64 {
        (f64::from_bits(a) - f64::from_bits(b)).to_bits()
    }

    fn mul(&self, a: u64, b: u64) -> u64 {
        (f64::from_bits(a) * f64::from_bits(b)).to_bits()
    }

    fn div(&self, a: u64, b: u64) -> u64 {
        (f64::from_bits(a) / f64::from_bits(b)).to_bits()
    }

    fn render(&self, a: u64) -> String {
        format!("{:?}", f64::from_bits(a))
    }
}

fn tokens(src: &str) -> Vec<Token> {
    let mut stream = TokenStream::new(src);
    stream.collect_tokens(&Ieee)
}

fn integer(i: i64) -> Token {
    Token::Literal(BasicType::Number(NumericType::Integer(i)))
}

fn float(x: f64) -> Token {
    Token::Literal(BasicType::Number(NumericType::Floating(x.to_bits())))
}

#[test]
fn keywords_map_to_operators() {
    assert_eq!(from_str("+"), Some(OperatorType::Add));
    assert_eq!(from_str("<="), Some(OperatorType::LtEq));
    assert_eq!(from_str("even?"), Some(OperatorType::IsEven));
    assert_eq!(from_str("lambda"), Some(OperatorType::Lambda));
    assert_eq!(from_str("define"), Some(OperatorType::Define));
    assert_eq!(from_str("lambd"), None);
    assert_eq!(from_str("%"), None);
    assert_eq!(from_str("null?"), None);
    assert_eq!(from_str(""), None);
}

#[test]
fn parentheses_are_their_own_tokens() {
    assert_eq!(
        tokens("(+ 1 7)"),
        vec![Token::LParen, Token::Operator(OperatorType::Add), integer(1), integer(7), Token::RParen]
    );
}

#[test]
fn blank_space_of_all_kinds_is_skipped() {
    assert_eq!(tokens(" \t(\n* 2\r\n3 ) "), vec![Token::LParen, Token::Operator(OperatorType::Mul), integer(2), integer(3), Token::RParen]);
    assert_eq!(tokens("   "), vec![]);
}

#[test]
fn booleans_and_characters() {
    assert_eq!(
        tokens("#t #f #\\ #\\a #\\space #\\newline"),
        vec![
            Token::Literal(BasicType::Boolean(true)),
            Token::Literal(BasicType::Boolean(false)),
            Token::Literal(BasicType::Character(' ')),
            Token::Literal(BasicType::Character('a')),
            Token::Literal(BasicType::Character(' ')),
            Token::Literal(BasicType::Character('\n')),
        ]
    );
    assert_eq!(tokens("#\\tab"), vec![Token::Invalid]);
}

#[test]
fn strings_run_to_the_closing_quote() {
    assert_eq!(tokens("\"a (b) c\" x"), vec![Token::Literal(BasicType::Text("a (b) c".to_string())), Token::Symbol("x".to_string())]);
    assert_eq!(tokens("\"say \\\"hi\\\"\""), vec![Token::Literal(BasicType::Text("say \\\"hi\\\"".to_string()))]);
    assert_eq!(tokens("\"open"), vec![Token::Invalid]);
}

#[test]
fn symbols() {
    assert_eq!(
        tokens("abc _x *y Zed"),
        vec![
            Token::Symbol("abc".to_string()),
            Token::Symbol("_x".to_string()),
            Token::Symbol("*y".to_string()),
            Token::Symbol("Zed".to_string()),
        ]
    );
}

#[test]
fn numbers_by_their_shape() {
    assert_eq!(tokens("42"), vec![integer(42)]);
    assert_eq!(tokens("-42"), vec![integer(-42)]);
    assert_eq!(tokens("2.5"), vec![float(2.5)]);
    assert_eq!(tokens("-0.5"), vec![float(-0.5)]);
    assert_eq!(tokens(".5"), vec![float(0.5)]);
    assert_eq!(tokens("3."), vec![float(3.0)]);
    assert_eq!(tokens("-"), vec![Token::Operator(OperatorType::Sub)]);
    assert_eq!(tokens("1-2"), vec![Token::Invalid]);
    assert_eq!(tokens("1.2.3"), vec![Token::Invalid]);
    assert_eq!(tokens("--1"), vec![Token::Invalid]);
    assert_eq!(tokens("."), vec![Token::Invalid]);
    assert_eq!(tokens("12#"), vec![Token::Invalid]);
}

#[test]
fn number_suffixes_force_the_reading() {
    assert_eq!(tokens("5i"), vec![integer(5)]);
    assert_eq!(tokens("-5i"), vec![integer(-5)]);
    assert_eq!(tokens("5u"), vec![integer(5)]);
    assert_eq!(tokens("-5u"), vec![Token::Invalid]);
    assert_eq!(tokens("5f"), vec![float(5.0)]);
    assert_eq!(tokens("2.5f"), vec![float(2.5)]);
    assert_eq!(tokens("2.5i"), vec![Token::Invalid]);
    assert_eq!(tokens("5if"), vec![Token::Invalid]);
    assert_eq!(tokens("5i3"), vec![Token::Invalid]);
}

#[test]
fn integer_range_limits() {
    assert_eq!(tokens("9223372036854775807"), vec![integer(i64::MAX)]);
    assert_eq!(tokens("-9223372036854775808"), vec![integer(i64::MIN)]);
    assert_eq!(tokens("9223372036854775808"), vec![Token::Invalid]);
    assert_eq!(tokens("-9223372036854775809"), vec![Token::Invalid]);
}

#[test]
fn dangling_parentheses_are_split_off() {
    assert_eq!(tokens("7)"), vec![integer(7), Token::RParen]);
    assert_eq!(tokens("x))"), vec![Token::Symbol("x".to_string()), Token::RParen, Token::RParen]);
}

#[test]
fn words_outside_the_table() {
    assert_eq!(tokens("null?"), vec![Token::Symbol("null?".to_string())]);
    assert_eq!(tokens("%"), vec![Token::Invalid]);
}

#[test]
fn refused_words_are_not_consumed() {
    assert_eq!(TokenStream::new("\"abc").next_token_type(&Ieee), (Some(Token::Invalid), 0));
    assert_eq!(TokenStream::new("12#").next_token_type(&Ieee), (Some(Token::Invalid), 0));
    assert_eq!(TokenStream::new("5if").next_token_type(&Ieee), (Some(Token::Invalid), 0));
    assert_eq!(TokenStream::new("1-2").next_token_type(&Ieee), (Some(Token::Invalid), 3));
}

#[test]
fn collection_stops_at_the_first_invalid_token() {
    assert_eq!(tokens("( 1-2 x"), vec![Token::LParen, Token::Invalid]);
    assert_eq!(tokens("\"open x"), vec![Token::Invalid]);
}

#[test]
fn next_and_peek() {
    let mut stream = TokenStream::new("  ( x");
    assert_eq!(stream.peek(&Ieee), Some(Token::LParen));
    assert_eq!(stream.index, 2);
    assert_eq!(stream.next(&Ieee), Some(Token::LParen));
    assert_eq!(stream.next(&Ieee), Some(Token::Symbol("x".to_string())));
    assert_eq!(stream.next(&Ieee), None);
    let at_space = TokenStream::new(" x");
    assert_eq!(at_space.next_token_type(&Ieee), (Some(Token::Whitespace), 1));
}
