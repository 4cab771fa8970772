//! What holds of adding, scaling, reading and writing, for all values.

use crate::calc::Calc;
use crate::length::Length;
use crate::length_percentage::LengthPercentage;
use crate::number::Number;
use crate::percentage::Percentage;
use crate::token::Token;
use crate::units::{AbsoluteLength, RelativeLength};
use vstd::prelude::*;

verus! {

/// The expression that holds `first` and `second` as its two leaves.
pub open spec fn sum_of(first: Length, second: Length) -> Length {
    Length::Calc(
        Calc::Sum(Box::new(Calc::Value(Box::new(first))), Box::new(Calc::Value(Box::new(second)))),
    )
}

/// The order in which two literals that do not fold stand in their sum: a
/// negative literal before a positive one changes places with it.
pub open spec fn in_order(a: Length, b: Length) -> (Length, Length) {
    if a.is_negative_literal() && b.is_positive_literal() {
        (b, a)
    } else {
        (a, b)
    }
}

/// Whether `token` is the token that the text of the literal `l` is read
/// as: the number zero for a bare `0`, otherwise the dimension of its
/// magnitude and unit.
pub open spec fn written_as(l: Length, token: Token) -> bool {
    match l {
        Length::Absolute(a) => if a.value()@ == 0 {
            token == Token::Number(a.value())
        } else {
            token matches Token::Dimension(v, unit) && v == a.value() && unit@ == a.suffix()
        },
        Length::Relative(r) => if r.value()@ == 0 {
            token == Token::Number(r.value())
        } else {
            token matches Token::Dimension(v, unit) && v == r.value() && unit@ == r.suffix()
        },
        Length::Calc(_) => false,
    }
}

/// A magnitude in pixels is its own measure in pixels.
pub proof fn lemma_pixels_are_pixels(v: Number)
    ensures
        AbsoluteLength::Px(v).px_value() == v,
{
    assert(v.mul_ratio_spec(1, 1) == v);
}

/// Two absolute lengths of different units add as their measures in pixels
/// do, and in either order to the same length.
pub proof fn lemma_absolute_sum_in_pixels(a: AbsoluteLength, b: AbsoluteLength)
    requires
        !a.same_unit(b),
    ensures
        Length::Absolute(a).add_spec(Length::Absolute(b)) == Length::Absolute(
            AbsoluteLength::Px(a.px_value()),
        ).add_spec(Length::Absolute(AbsoluteLength::Px(b.px_value()))),
        Length::Absolute(a).add_spec(Length::Absolute(b)) == Length::Absolute(b).add_spec(
            Length::Absolute(a),
        ),
{
    lemma_pixels_are_pixels(a.px_value());
    lemma_pixels_are_pixels(b.px_value());
}

/// Two relative lengths of one unit add to one literal of that unit with
/// the sum of the magnitudes. Two of different units, neither of them zero,
/// add to an expression that holds both as leaves, in order.
pub proof fn lemma_relative_sum(a: RelativeLength, b: RelativeLength)
    ensures
        a.same_unit(b) ==> Length::Relative(a).add_spec(Length::Relative(b)) == Length::Relative(
            a.with_value(a.value().add_spec(b.value())),
        ),
        !a.same_unit(b) && a.value()@ != 0 && b.value()@ != 0 ==> Length::Relative(a).add_spec(
            Length::Relative(b),
        ) == sum_of(
            in_order(Length::Relative(a), Length::Relative(b)).0,
            in_order(Length::Relative(a), Length::Relative(b)).1,
        ),
{
}

/// A zero literal added to a value that it does not fold with leaves the
/// value as it is, whether the value is a literal or an expression.
pub proof fn lemma_zero_plus_unfolded(zero: Length, x: Length)
    requires
        zero.is_zero_literal(),
        zero.fold_spec(x) is None,
    ensures
        zero.add_spec(x) == x,
{
}

/// A value, literal or expression, to which a zero literal is added that
/// does not fold with it, stays as it is, unless it is a zero literal
/// itself.
pub proof fn lemma_unfolded_plus_zero(x: Length, zero: Length)
    requires
        zero.is_zero_literal(),
        x.fold_spec(zero) is None,
        !x.is_zero_literal(),
    ensures
        x.add_spec(zero) == x,
{
}

/// A literal and a zero literal of the same unit add to the literal, in
/// either order; so do a literal in pixels and a zero in any absolute unit.
pub proof fn lemma_literal_plus_zero_folded(x: Length, zero: Length)
    requires
        zero.is_zero_literal(),
        match (x, zero) {
            (Length::Absolute(a), Length::Absolute(z)) => a.same_unit(z) || a is Px,
            (Length::Relative(a), Length::Relative(z)) => a.same_unit(z),
            _ => false,
        },
    ensures
        x.add_spec(zero) == x,
        zero.add_spec(x) == x,
{
    match (x, zero) {
        (Length::Absolute(a), Length::Absolute(z)) => {
            lemma_pixels_are_pixels(a.value());
            assert(z.px_value()@ == 0);
        },
        _ => {},
    }
}

/// Two literals that do not fold, and are not both above or both below
/// zero, add in either order to values with the same text.
pub proof fn lemma_sum_text_commutes(a: Length, b: Length)
    requires
        a.literal_value() is Some,
        b.literal_value() is Some,
        a.fold_spec(b) is None,
        !(a.is_positive_literal() && b.is_positive_literal()),
        !(a.is_negative_literal() && b.is_negative_literal()),
    ensures
        a.add_spec(b).css_text() == b.add_spec(a).css_text(),
{
    assert(b.fold_spec(a) is None);
}

/// The token that the text of a literal is read as is read back as that
/// literal, unless the literal is a zero in another unit than pixels, whose
/// text is a bare `0`.
pub proof fn lemma_literal_round_trip(l: Length, token: Token)
    requires
        written_as(l, token),
        !l.is_zero_literal() || l is Absolute && l->Absolute_0 is Px,
    ensures
        Length::parse_spec(seq![token], 0) == Ok::<(Length, usize), crate::token::ParseError>(
            (l, 1usize),
        ),
{
    let tokens = seq![token];
    assert(tokens[0] == token);
    assert(Length::parse_calc_spec(tokens, 0) is Err);
    if !l.is_zero_literal() {
        let unit = token->Dimension_1@;
        assert(crate::text::lowered(unit) =~= unit);
    }
}

/// A `calc(` expression that holds one literal reads as that literal: no
/// tree is left around it.
pub proof fn lemma_calc_of_one_literal(tokens: Seq<Token>, pos: usize, l: Length)
    requires
        pos + 3 <= tokens.len() <= usize::MAX,
        tokens[pos as int] matches Token::Function(name) && crate::text::lowered(name@) == seq![
            'c',
            'a',
            'l',
            'c',
        ],
        Length::from_token_spec(tokens[pos + 1]) == Some(l),
        tokens[pos + 2] is CloseParenthesis,
    ensures
        Length::parse_spec(tokens, pos) == Ok::<(Length, usize), crate::token::ParseError>(
            (l, (pos + 3) as usize),
        ),
        Length::parse_spec(tokens, (pos + 1) as usize) == Ok::<
            (Length, usize),
            crate::token::ParseError,
        >((l, (pos + 2) as usize)),
{
    let inner = (pos + 1) as usize;
    let close = (pos + 2) as usize;
    assert(Length::parse_calc_spec(tokens, inner) is Err);
    assert(Length::parse_spec(tokens, inner) == Ok::<(Length, usize), crate::token::ParseError>(
        (l, close),
    ));
    assert(Length::parse_sum_rest_spec(tokens, close, l) == Ok::<
        (Length, usize),
        crate::token::ParseError,
    >((l, close)));
    assert(Length::parse_sum_spec(tokens, inner) == Ok::<(Length, usize), crate::token::ParseError>(
        (l, close),
    ));
}

/// An absolute and a relative length never fold: neither zero, they add to
/// an expression that holds both as leaves, in order.
pub proof fn lemma_absolute_relative_never_fold(a: AbsoluteLength, r: RelativeLength)
    ensures
        Length::Absolute(a).fold_spec(Length::Relative(r)) is None,
        Length::Relative(r).fold_spec(Length::Absolute(a)) is None,
        a.value()@ != 0 && r.value()@ != 0 ==> Length::Absolute(a).add_spec(Length::Relative(r))
            == sum_of(
            in_order(Length::Absolute(a), Length::Relative(r)).0,
            in_order(Length::Absolute(a), Length::Relative(r)).1,
        ),
{
}

/// Scaling an expression scales both children of each sum and keeps the
/// shape of the tree.
pub proof fn lemma_scale_keeps_shape(x: Length, factor: Number)
    ensures
        x.scale_spec(factor).leaves() == x.leaves(),
        x.scale_spec(factor).nodes() == x.nodes(),
        x matches Length::Calc(Calc::Sum(l, r)) ==> x.scale_spec(factor) == Length::Calc(
            Calc::Sum(Box::new((*l).scale_spec(factor)), Box::new((*r).scale_spec(factor))),
        ),
    decreases x,
{
    match x {
        Length::Calc(t) => lemma_scale_tree_keeps_shape(t, factor),
        _ => {},
    }
}

/// Scaling a tree keeps its shape.
pub proof fn lemma_scale_tree_keeps_shape(t: Calc<Length>, factor: Number)
    ensures
        t.scale_spec(factor).leaves() == t.leaves(),
        t.scale_spec(factor).nodes() == t.nodes(),
    decreases t,
{
    match t {
        Calc::Value(v) => lemma_scale_keeps_shape(*v, factor),
        Calc::Sum(a, b) => {
            lemma_scale_tree_keeps_shape(*a, factor);
            lemma_scale_tree_keeps_shape(*b, factor);
        },
    }
}

/// Two percentages always fold, into the percentage of the sum of their
/// ratios. A length and a percentage never fold.
pub proof fn lemma_percentage_folds(p: Percentage, q: Percentage, l: Length)
    ensures
        LengthPercentage::Percentage(p).add_spec(LengthPercentage::Percentage(q))
            == LengthPercentage::Percentage(p.add_spec(q)),
        LengthPercentage::Length(l).fold_spec(LengthPercentage::Percentage(p)) is None,
        LengthPercentage::Percentage(p).fold_spec(LengthPercentage::Length(l)) is None,
{
}

/// Two lengths add as a length or percentage just as they add as lengths,
/// wherever they fold.
pub proof fn lemma_lengths_fold_as_lengths(a: Length, b: Length)
    requires
        a.fold_spec(b) is Some,
    ensures
        LengthPercentage::Length(a).add_spec(LengthPercentage::Length(b))
            == LengthPercentage::Length(a.add_spec(b)),
{
}

} // verus!
