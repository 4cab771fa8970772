use css_length::calc::Calc;
use css_length::length::{Length, LengthOrNumber};
use css_length::length_percentage::{LengthPercentage, LengthPercentageOrAuto};
use css_length::number::Number;
use css_length::percentage::Percentage;
use css_length::text::{matches_keyword, to_ascii_lower};
use css_length::token::{new_error_for_next_token, ParseError, ParseErrorKind, Token};
use css_length::units::{AbsoluteLength, RelativeLength};

fn num(micros: i64) -> Number {
    Number::from_micros(micros)
}

fn px(micros: i64) -> Length {
    Length::Absolute(AbsoluteLength::Px(num(micros)))
}

fn em(micros: i64) -> Length {
    Length::Relative(RelativeLength::Em(num(micros)))
}

fn dim(micros: i64, unit: &str) -> Token {
    Token::Dimension(num(micros), unit.to_string())
}

fn calc() -> Token {
    Token::Function("calc".to_string())
}

fn unexpected(position: usize) -> ParseError {
    ParseError { kind: ParseErrorKind::UnexpectedToken, position }
}

fn end(position: usize) -> ParseError {
    ParseError { kind: ParseErrorKind::EndOfInput, position }
}

#[test]
fn keywords_match_in_any_case() {
    assert!(matches_keyword("auto", "auto"));
    assert!(matches_keyword("AuTo", "auto"));
    assert!(!matches_keyword("auto", "AUTO"));
    assert!(!matches_keyword("aut", "auto"));
    assert!(!matches_keyword("autos", "auto"));
    assert!(matches_keyword("", ""));
    assert!(!matches_keyword("\u{212a}", "k"));
    assert_eq!(to_ascii_lower('Q'), 'q');
    assert_eq!(to_ascii_lower('q'), 'q');
    assert_eq!(to_ascii_lower('@'), '@');
    assert_eq!(to_ascii_lower('['), '[');
    assert_eq!(to_ascii_lower('\u{c9}'), '\u{c9}');
}

#[test]
fn a_dimension_in_a_known_unit_is_a_literal() {
    assert_eq!(Length::from_dimension(num(5), "px"), Some(px(5)));
    assert_eq!(Length::from_dimension(num(5), "EM"), Some(em(5)));
    assert_eq!(Length::from_dimension(num(5), "Vh"), Some(Length::Relative(RelativeLength::Vh(num(5)))));
    assert_eq!(Length::from_dimension(num(5), "deg"), None);
    assert_eq!(Length::from_token(&dim(1, "mm")), Some(Length::Absolute(AbsoluteLength::Mm(num(1)))));
    assert_eq!(Length::from_token(&Token::Number(num(9))), Some(px(9)));
    assert_eq!(Length::from_token(&Token::Percentage(num(9))), None);
    assert_eq!(Length::from_token(&Token::Ident("px".to_string())), None);
}

#[test]
fn a_literal_takes_one_token() {
    let tokens = vec![dim(2_000_000, "px"), dim(1_000_000, "em")];
    assert_eq!(Length::parse(&tokens, 0), Ok((px(2_000_000), 1)));
    assert_eq!(Length::parse(&tokens, 1), Ok((em(1_000_000), 2)));
    assert_eq!(Length::parse(&tokens, 2), Err(end(2)));
    assert_eq!(Length::parse(&tokens, 9), Err(end(9)));
}

#[test]
fn a_bare_number_is_pixels() {
    let tokens = vec![Token::Number(num(3_000_000))];
    assert_eq!(Length::parse(&tokens, 0), Ok((px(3_000_000), 1)));
}

#[test]
fn an_unknown_unit_is_an_unexpected_token() {
    let tokens = vec![dim(1_000_000, "px"), dim(1_000_000, "furlong")];
    assert_eq!(Length::parse(&tokens, 1), Err(unexpected(1)));
    let tokens = vec![Token::Ident("auto".to_string())];
    assert_eq!(Length::parse(&tokens, 0), Err(unexpected(0)));
    let tokens = vec![Token::Percentage(num(1)), Token::Other, Token::CloseParenthesis, Token::Delim('+')];
    assert_eq!(Length::parse(&tokens, 0), Err(unexpected(0)));
    assert_eq!(Length::parse(&tokens, 1), Err(unexpected(1)));
    assert_eq!(Length::parse(&tokens, 2), Err(unexpected(2)));
    assert_eq!(Length::parse(&tokens, 3), Err(unexpected(3)));
    assert_eq!(Length::parse(&[], 0), Err(end(0)));
}

#[test]
fn errors_for_the_next_token() {
    let tokens = vec![Token::Other];
    assert_eq!(new_error_for_next_token(&tokens, 0), unexpected(0));
    assert_eq!(new_error_for_next_token(&tokens, 1), end(1));
}

#[test]
fn calc_of_one_literal_is_the_literal() {
    let tokens = vec![calc(), dim(2_000_000, "px"), Token::CloseParenthesis];
    let direct = vec![dim(2_000_000, "px")];
    assert_eq!(Length::parse(&tokens, 0), Ok((px(2_000_000), 3)));
    assert_eq!(Length::parse(&tokens, 0).unwrap().0, Length::parse(&direct, 0).unwrap().0);
    assert_eq!(Length::parse_calc(&tokens, 0), Ok((Calc::Value(Box::new(px(2_000_000))), 3)));
}

#[test]
fn calc_is_found_in_any_case_and_nested() {
    let tokens = vec![
        Token::Function("CALC".to_string()),
        Token::Function("Calc".to_string()),
        dim(1_000_000, "vw"),
        Token::CloseParenthesis,
        Token::CloseParenthesis,
        dim(1, "px"),
    ];
    assert_eq!(Length::parse(&tokens, 0), Ok((Length::Relative(RelativeLength::Vw(num(1_000_000))), 5)));
    assert_eq!(Length::parse(&tokens, 1), Ok((Length::Relative(RelativeLength::Vw(num(1_000_000))), 4)));
}

#[test]
fn calc_sums_fold_as_they_are_read() {
    let tokens = vec![
        calc(),
        dim(1_000_000, "px"),
        Token::Delim('+'),
        dim(2_000_000, "px"),
        Token::Delim('+'),
        dim(1_000_000, "in"),
        Token::CloseParenthesis,
    ];
    assert_eq!(Length::parse(&tokens, 0), Ok((px(99_000_000), 7)));
    assert_eq!(Length::parse_sum(&tokens, 1), Ok((px(99_000_000), 6)));
}

#[test]
fn calc_keeps_what_does_not_fold() {
    let tokens = vec![
        calc(),
        dim(1_000_000, "em"),
        Token::Delim('-'),
        dim(2_000_000, "px"),
        Token::CloseParenthesis,
    ];
    let expected = Length::Calc(Calc::Sum(
        Box::new(Calc::Value(Box::new(em(1_000_000)))),
        Box::new(Calc::Value(Box::new(px(-2_000_000)))),
    ));
    assert_eq!(Length::parse(&tokens, 0), Ok((expected.clone(), 5)));
    assert_eq!(expected.to_css_string(), "calc(1em - 2px)");
    let tokens = vec![
        calc(),
        dim(1_000_000, "px"),
        Token::Delim('+'),
        dim(1_000_000, "em"),
        Token::Delim('-'),
        dim(1_000_000, "px"),
        Token::CloseParenthesis,
    ];
    assert_eq!(Length::parse(&tokens, 0), Ok((em(1_000_000), 7)));
}

#[test]
fn a_broken_calc_fails_where_it_began() {
    let tokens = vec![calc(), dim(1_000_000, "px"), Token::Delim('+'), Token::CloseParenthesis];
    assert_eq!(Length::parse(&tokens, 0), Err(unexpected(0)));
    assert_eq!(Length::parse_calc(&tokens, 0), Err(unexpected(3)));
    let tokens = vec![calc(), dim(1_000_000, "px")];
    assert_eq!(Length::parse(&tokens, 0), Err(unexpected(0)));
    assert_eq!(Length::parse_calc(&tokens, 0), Err(end(2)));
    let tokens = vec![calc(), dim(1_000_000, "px"), dim(1_000_000, "px"), Token::CloseParenthesis];
    assert_eq!(Length::parse_calc(&tokens, 0), Err(unexpected(2)));
    let tokens = vec![Token::Function("min".to_string()), dim(1_000_000, "px"), Token::CloseParenthesis];
    assert_eq!(Length::parse_calc(&tokens, 0), Err(unexpected(0)));
    assert_eq!(Length::parse_calc(&tokens, 3), Err(end(3)));
    let tokens = vec![calc(), Token::Percentage(num(500_000)), Token::CloseParenthesis];
    assert_eq!(Length::parse(&tokens, 0), Err(unexpected(0)));
    assert_eq!(Length::parse_sum(&tokens, 3), Err(end(3)));
}

#[test]
fn length_or_number_takes_a_number_as_a_number() {
    let tokens = vec![Token::Number(num(3_000_000)), dim(3_000_000, "px")];
    assert_eq!(LengthOrNumber::parse(&tokens, 0), Ok((LengthOrNumber::Number(num(3_000_000)), 1)));
    assert_eq!(LengthOrNumber::parse(&tokens, 1), Ok((LengthOrNumber::Length(px(3_000_000)), 2)));
    assert_eq!(LengthOrNumber::parse(&tokens, 2), Err(end(2)));
    let tokens = vec![Token::Percentage(num(1))];
    assert_eq!(LengthOrNumber::parse(&tokens, 0), Err(unexpected(0)));
    let tokens = vec![calc(), Token::Number(num(1_000_000)), Token::CloseParenthesis];
    assert_eq!(LengthOrNumber::parse(&tokens, 0), Ok((LengthOrNumber::Length(px(1_000_000)), 3)));
}

#[test]
fn length_percentage_tries_calc_then_length_then_percentage() {
    let tokens = vec![dim(1_000_000, "px"), Token::Percentage(num(500_000)), Token::Ident("auto".to_string())];
    assert_eq!(LengthPercentage::parse(&tokens, 0), Ok((LengthPercentage::Length(px(1_000_000)), 1)));
    assert_eq!(
        LengthPercentage::parse(&tokens, 1),
        Ok((LengthPercentage::Percentage(Percentage(num(500_000))), 2))
    );
    assert_eq!(LengthPercentage::parse(&tokens, 2), Err(unexpected(2)));
    assert_eq!(LengthPercentage::parse(&tokens, 3), Err(end(3)));
    assert_eq!(Percentage::from_token(&tokens[1]), Some(Percentage(num(500_000))));
    assert_eq!(Percentage::from_token(&tokens[0]), None);
}

#[test]
fn length_percentage_calc_mixes_both_kinds() {
    let tokens = vec![
        calc(),
        Token::Percentage(num(500_000)),
        Token::Delim('+'),
        dim(1_000_000, "px"),
        Token::Delim('+'),
        Token::Percentage(num(250_000)),
        Token::Delim('-'),
        dim(3_000_000, "px"),
        Token::CloseParenthesis,
    ];
    let expected = LengthPercentage::Calc(Calc::Sum(
        Box::new(Calc::Value(Box::new(LengthPercentage::Percentage(Percentage(num(750_000)))))),
        Box::new(Calc::Value(Box::new(LengthPercentage::Length(px(-2_000_000))))),
    ));
    assert_eq!(LengthPercentage::parse(&tokens, 0), Ok((expected.clone(), 9)));
    assert_eq!(expected.to_css_string(), "calc(75% - 2px)");
    let tokens = vec![calc(), Token::Percentage(num(500_000)), Token::CloseParenthesis];
    assert_eq!(
        LengthPercentage::parse(&tokens, 0),
        Ok((LengthPercentage::Percentage(Percentage(num(500_000))), 3))
    );
    assert_eq!(
        LengthPercentage::parse_calc(&tokens, 0),
        Ok((Calc::Value(Box::new(LengthPercentage::Percentage(Percentage(num(500_000))))), 3))
    );
    assert_eq!(LengthPercentage::parse_sum(&tokens, 1), Ok((LengthPercentage::Percentage(Percentage(num(500_000))), 2)));
}

#[test]
fn auto_is_a_keyword_in_any_case() {
    let tokens = vec![
        Token::Ident("auto".to_string()),
        Token::Ident("AUTO".to_string()),
        Token::Ident("none".to_string()),
        dim(1_000_000, "px"),
        Token::Percentage(num(1_000_000)),
    ];
    assert_eq!(LengthPercentageOrAuto::parse(&tokens, 0), Ok((LengthPercentageOrAuto::Auto, 1)));
    assert_eq!(LengthPercentageOrAuto::parse(&tokens, 1), Ok((LengthPercentageOrAuto::Auto, 2)));
    assert_eq!(LengthPercentageOrAuto::parse(&tokens, 2), Err(unexpected(2)));
    assert_eq!(
        LengthPercentageOrAuto::parse(&tokens, 3),
        Ok((LengthPercentageOrAuto::LengthPercentage(LengthPercentage::Length(px(1_000_000))), 4))
    );
    assert_eq!(
        LengthPercentageOrAuto::parse(&tokens, 4),
        Ok((
            LengthPercentageOrAuto::LengthPercentage(LengthPercentage::Percentage(Percentage(num(1_000_000)))),
            5
        ))
    );
    assert_eq!(LengthPercentageOrAuto::parse(&tokens, 5), Err(end(5)));
}
