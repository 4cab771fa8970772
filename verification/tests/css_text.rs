use css_length::calc::Calc;
use css_length::length::{Length, LengthOrNumber};
use css_length::length_percentage::{LengthPercentage, LengthPercentageOrAuto};
use css_length::number::Number;
use css_length::percentage::Percentage;
use css_length::token::{ParseError, ParseErrorKind, Token};
use css_length::units::{AbsoluteLength, RelativeLength};
use cssparser::{Parser, ParserInput};

fn number(value: f32) -> Number {
    Number::from_binary32(value.to_bits())
}

fn collect<'i, 't>(input: &mut Parser<'i, 't>, out: &mut Vec<Token>) {
    loop {
        let token = match input.next() {
            Ok(token) => token.clone(),
            Err(_) => return,
        };
        match token {
            cssparser::Token::Number { value, .. } => out.push(Token::Number(number(value))),
            cssparser::Token::Dimension { value, unit, .. } => {
                out.push(Token::Dimension(number(value), unit.to_string()))
            }
            cssparser::Token::Percentage { unit_value, .. } => out.push(Token::Percentage(number(unit_value))),
            cssparser::Token::Ident(name) => out.push(Token::Ident(name.to_string())),
            cssparser::Token::Delim(c) => out.push(Token::Delim(c)),
            cssparser::Token::CloseParenthesis => out.push(Token::CloseParenthesis),
            cssparser::Token::Function(name) => {
                out.push(Token::Function(name.to_string()));
                let inner: Result<(), cssparser::ParseError<'i, ()>> = input.parse_nested_block(|block| {
                    collect(block, out);
                    Ok(())
                });
                assert!(inner.is_ok());
                out.push(Token::CloseParenthesis);
            }
            cssparser::Token::Comment(_) | cssparser::Token::WhiteSpace(_) => {}
            _ => out.push(Token::Other),
        }
    }
}

fn tokens(text: &str) -> Vec<Token> {
    let mut input = ParserInput::new(text);
    let mut parser = Parser::new(&mut input);
    let mut out = Vec::new();
    collect(&mut parser, &mut out);
    out
}

fn length(text: &str) -> Result<Length, ParseError> {
    let tokens = tokens(text);
    Length::parse(&tokens, 0).map(|(value, next)| {
        assert_eq!(next, tokens.len());
        value
    })
}

fn px(micros: i64) -> Length {
    Length::Absolute(AbsoluteLength::Px(Number::from_micros(micros)))
}

fn round_trips(value: Length) {
    let text = value.to_css_string();
    assert_eq!(length(&text), Ok(value), "through {:?}", text);
}

#[test]
fn text_becomes_the_tokens_of_a_value() {
    assert_eq!(
        tokens("calc( 1.5px + 50% ) auto /* no */ 3"),
        vec![
            Token::Function("calc".to_string()),
            Token::Dimension(Number::from_micros(1_500_000), "px".to_string()),
            Token::Delim('+'),
            Token::Percentage(Number::from_micros(500_000)),
            Token::CloseParenthesis,
            Token::Ident("auto".to_string()),
            Token::Number(Number::from_micros(3_000_000)),
        ]
    );
}

#[test]
fn literals_of_every_unit_round_trip() {
    for micros in [1i64, -1, 500_000, -500_000, 1_000_000, 2_000_000, -12_345_678, 96_000_000, 1_234_567, 4_096_500_000] {
        let v = Number::from_micros(micros);
        round_trips(Length::Absolute(AbsoluteLength::Px(v)));
        round_trips(Length::Absolute(AbsoluteLength::In(v)));
        round_trips(Length::Absolute(AbsoluteLength::Cm(v)));
        round_trips(Length::Absolute(AbsoluteLength::Mm(v)));
        round_trips(Length::Absolute(AbsoluteLength::Q(v)));
        round_trips(Length::Absolute(AbsoluteLength::Pt(v)));
        round_trips(Length::Absolute(AbsoluteLength::Pc(v)));
        round_trips(Length::Relative(RelativeLength::Em(v)));
        round_trips(Length::Relative(RelativeLength::Ex(v)));
        round_trips(Length::Relative(RelativeLength::Ch(v)));
        round_trips(Length::Relative(RelativeLength::Rem(v)));
        round_trips(Length::Relative(RelativeLength::Vw(v)));
        round_trips(Length::Relative(RelativeLength::Vh(v)));
        round_trips(Length::Relative(RelativeLength::Vmin(v)));
        round_trips(Length::Relative(RelativeLength::Vmax(v)));
    }
}

#[test]
fn zero_round_trips_in_pixels_only() {
    round_trips(px(0));
    assert_eq!(Length::Relative(RelativeLength::Em(Number::zero())).to_css_string(), "0");
    assert_eq!(length("0"), Ok(px(0)));
}

#[test]
fn calc_of_a_literal_reads_as_the_literal() {
    assert_eq!(length("calc(2px)"), length("2px"));
    assert_eq!(length("calc(2px)"), Ok(px(2_000_000)));
    assert_eq!(length("CALC( calc(.5EM) )"), Ok(Length::Relative(RelativeLength::Em(Number::from_micros(500_000)))));
}

#[test]
fn sums_round_trip_through_text() {
    let value = px(1_000_000).add(Length::Relative(RelativeLength::Em(Number::from_micros(-2_500_000))));
    assert_eq!(value.to_css_string(), "calc(1px - 2.5em)");
    round_trips(value);
    assert_eq!(length("calc(1in + 1px + 1em)"), Ok(px(97_000_000).add(Length::Relative(RelativeLength::Em(Number::from_int(1))))));
    assert_eq!(length("calc(1px + 2px)"), Ok(px(3_000_000)));
}

#[test]
fn text_that_is_no_length_is_refused() {
    assert_eq!(length("1furlong"), Err(ParseError { kind: ParseErrorKind::UnexpectedToken, position: 0 }));
    assert_eq!(length("50%"), Err(ParseError { kind: ParseErrorKind::UnexpectedToken, position: 0 }));
    assert_eq!(length(""), Err(ParseError { kind: ParseErrorKind::EndOfInput, position: 0 }));
    assert_eq!(length("calc(1px +)"), Err(ParseError { kind: ParseErrorKind::UnexpectedToken, position: 0 }));
}

#[test]
fn a_number_is_never_read_as_a_length() {
    let three = tokens("3");
    assert_eq!(
        LengthOrNumber::parse(&three, 0),
        Ok((LengthOrNumber::Number(Number::from_int(3)), 1))
    );
    let three_px = tokens("3px");
    assert_eq!(LengthOrNumber::parse(&three_px, 0), Ok((LengthOrNumber::Length(px(3_000_000)), 1)));
}

#[test]
fn length_percentage_and_auto_from_text() {
    let t = tokens("calc(100% - 10px)");
    let expected = LengthPercentage::Calc(Calc::Sum(
        Box::new(Calc::Value(Box::new(LengthPercentage::Percentage(Percentage(Number::from_int(1)))))),
        Box::new(Calc::Value(Box::new(LengthPercentage::Length(px(-10_000_000))))),
    ));
    assert_eq!(LengthPercentage::parse(&t, 0), Ok((expected.clone(), t.len())));
    assert_eq!(expected.to_css_string(), "calc(100% - 10px)");
    let t = tokens("Auto");
    assert_eq!(LengthPercentageOrAuto::parse(&t, 0), Ok((LengthPercentageOrAuto::Auto, 1)));
    let t = tokens("12.5%");
    assert_eq!(
        LengthPercentageOrAuto::parse(&t, 0),
        Ok((
            LengthPercentageOrAuto::LengthPercentage(LengthPercentage::Percentage(Percentage(Number::from_micros(125_000)))),
            1
        ))
    );
}
