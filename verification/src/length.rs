//! Lengths: literals in an absolute or a relative unit, and sums of them.

use crate::calc::Calc;
use crate::number::{number_text, ordering_of, Number};
use crate::text::{lowered, matches_keyword};
use crate::token::{error_at, new_error_for_next_token, ParseError, ParseErrorKind, Token};
use crate::units::{AbsoluteLength, RelativeLength};
use core::cmp::Ordering;
use vstd::prelude::*;

verus! {

/// A length: a literal, or an expression over lengths.
#[derive(Debug, PartialEq, Eq)]
pub enum Length {
    Absolute(AbsoluteLength),
    Relative(RelativeLength),
    Calc(Calc<Length>),
}

/// A length, or a number without a unit.
#[derive(Debug, PartialEq, Eq)]
pub enum LengthOrNumber {
    Length(Length),
    Number(Number),
}

/// The text of a dimension: a bare `0` where the magnitude is zero,
/// otherwise the shortest text of the magnitude and after it the unit.
pub open spec fn dimension_text(value: Number, unit: Seq<char>) -> Seq<char> {
    if value@ == 0 {
        seq!['0']
    } else {
        number_text(value@) + unit
    }
}

/// The factor that turns a magnitude into its negation.
pub open spec fn minus_one() -> Number {
    Number { micros: -1_000_000i64 }
}

fn write_dimension(value: Number, unit: &str, dest: &mut String)
    ensures
        final(dest)@ == old(dest)@ + dimension_text(value, unit@),
{
    if value.is_zero() {
        proof {
            reveal_strlit("0");
        }
        dest.append("0");
        assert(dest@ =~= old(dest)@ + dimension_text(value, unit@));
    } else {
        value.to_css(dest);
        dest.append(unit);
        assert(dest@ =~= old(dest)@ + dimension_text(value, unit@));
    }
}

impl Calc<Length> {
    /// How many lengths the tree holds at its leaves, each counted with the
    /// leaves of its own.
    pub open spec fn leaves(self) -> nat
        decreases self,
    {
        match self {
            Calc::Value(v) => (*v).leaves(),
            Calc::Sum(a, b) => (*a).leaves() + (*b).leaves(),
        }
    }

    /// How many nodes the tree has, those inside its leaves included.
    pub open spec fn nodes(self) -> nat
        decreases self,
    {
        match self {
            Calc::Value(v) => 1 + (*v).nodes(),
            Calc::Sum(a, b) => 1 + (*a).nodes() + (*b).nodes(),
        }
    }

    /// Whether every leaf of the tree is a literal.
    pub open spec fn has_literal_leaves(self) -> bool
        decreases self,
    {
        match self {
            Calc::Value(v) => !(*v is Calc),
            Calc::Sum(a, b) => (*a).has_literal_leaves() && (*b).has_literal_leaves(),
        }
    }

    /// Scaling keeps the leaves literals.
    pub proof fn lemma_scale_keeps_literal_leaves(self, factor: Number)
        requires
            self.has_literal_leaves(),
        ensures
            self.scale_spec(factor).has_literal_leaves(),
        decreases self,
    {
        match self {
            Calc::Value(v) => {
                assert(!((*v).scale_spec(factor) is Calc));
            },
            Calc::Sum(a, b) => {
                (*a).lemma_scale_keeps_literal_leaves(factor);
                (*b).lemma_scale_keeps_literal_leaves(factor);
            },
        }
    }

    /// The tree with every literal in it multiplied by `factor`: the shape
    /// stays.
    pub open spec fn scale_spec(self, factor: Number) -> Calc<Length>
        decreases self,
    {
        match self {
            Calc::Value(v) => Calc::Value(Box::new((*v).scale_spec(factor))),
            Calc::Sum(a, b) => Calc::Sum(
                Box::new((*a).scale_spec(factor)),
                Box::new((*b).scale_spec(factor)),
            ),
        }
    }

    /// The text of the tree inside `calc(` and `)`: the leaves in order,
    /// joined by ` + `, or by ` - ` before a negative literal, which is then
    /// written without its sign.
    pub open spec fn css_text(self) -> Seq<char>
        decreases self,
    {
        match self {
            Calc::Value(v) => (*v).css_text(),
            Calc::Sum(a, b) => match *b {
                Calc::Value(v) if (*v).is_negative_literal() => (*a).css_text() + seq![' ', '-', ' ']
                    + (*v).scale_spec(minus_one()).literal_text(),
                _ => (*a).css_text() + seq![' ', '+', ' '] + (*b).css_text(),
            },
        }
    }

    /// A copy of the tree.
    pub fn duplicate(&self) -> (r: Calc<Length>)
        ensures
            r == *self,
        decreases *self,
    {
        match self {
            Calc::Value(v) => Calc::Value(Box::new((**v).duplicate())),
            Calc::Sum(a, b) => Calc::Sum(Box::new((**a).duplicate()), Box::new((**b).duplicate())),
        }
    }

    /// The tree with every literal in it multiplied by `factor`.
    pub fn scale(self, factor: Number) -> (r: Calc<Length>)
        ensures
            r == self.scale_spec(factor),
        decreases self,
    {
        match self {
            Calc::Value(v) => Calc::Value(Box::new((*v).scale(factor))),
            Calc::Sum(a, b) => Calc::Sum(Box::new((*a).scale(factor)), Box::new((*b).scale(factor))),
        }
    }

    /// Appends the text of the tree, as it stands inside `calc(` and `)`, to
    /// `dest`.
    pub fn to_css(&self, dest: &mut String)
        ensures
            final(dest)@ == old(dest)@ + self.css_text(),
        decreases *self,
    {
        match self {
            Calc::Value(v) => (**v).to_css(dest),
            Calc::Sum(a, b) => {
                (**a).to_css(dest);
                match &**b {
                    Calc::Value(v) if (**v).is_negative() => {
                        proof {
                            reveal_strlit(" - ");
                        }
                        dest.append(" - ");
                        let flipped = (**v).duplicate().scale(Number::from_int(-1));
                        flipped.write_literal(dest);
                        assert(dest@ =~= old(dest)@ + self.css_text());
                    },
                    _ => {
                        proof {
                            reveal_strlit(" + ");
                        }
                        dest.append(" + ");
                        (**b).to_css(dest);
                        assert(dest@ =~= old(dest)@ + self.css_text());
                    },
                }
            },
        }
    }
}

impl Clone for Calc<Length> {
    fn clone(&self) -> (r: Self)
        ensures
            r == *self,
    {
        self.duplicate()
    }
}

impl Clone for Length {
    fn clone(&self) -> (r: Self)
        ensures
            r == *self,
    {
        self.duplicate()
    }
}

impl Length {
    /// The magnitude of a literal; an expression has none.
    pub open spec fn literal_value(self) -> Option<Number> {
        match self {
            Length::Absolute(a) => Some(a.value()),
            Length::Relative(r) => Some(r.value()),
            Length::Calc(_) => None,
        }
    }

    /// Whether this is a literal of magnitude zero. An expression never is:
    /// what it amounts to is not known without evaluating it.
    pub open spec fn is_zero_literal(self) -> bool {
        self.literal_value() matches Some(v) && v@ == 0
    }

    /// Whether this is a literal of magnitude below zero.
    pub open spec fn is_negative_literal(self) -> bool {
        self.literal_value() matches Some(v) && v@ < 0
    }

    /// Whether this is a literal of magnitude above zero.
    pub open spec fn is_positive_literal(self) -> bool {
        self.literal_value() matches Some(v) && v@ > 0
    }

    /// Whether the length is a literal, or an expression over literals: no
    /// leaf of its tree is an expression again.
    pub open spec fn is_flat(self) -> bool {
        match self {
            Length::Calc(t) => t.has_literal_leaves(),
            _ => true,
        }
    }

    /// The text of a literal: its magnitude and unit, or a bare `0`.
    pub open spec fn literal_text(self) -> Seq<char> {
        match self {
            Length::Absolute(a) => dimension_text(a.value(), a.suffix()),
            Length::Relative(r) => dimension_text(r.value(), r.suffix()),
            Length::Calc(_) => Seq::empty(),
        }
    }

    /// The CSS text of the length: that of a literal, or `calc(`, the text
    /// of the tree and `)`.
    pub open spec fn css_text(self) -> Seq<char>
        decreases self,
    {
        match self {
            Length::Calc(t) => seq!['c', 'a', 'l', 'c', '('] + t.css_text() + seq![')'],
            literal => literal.literal_text(),
        }
    }

    /// How many literals the length holds: one, or the leaves of its tree.
    pub open spec fn leaves(self) -> nat
        decreases self,
    {
        match self {
            Length::Calc(t) => t.leaves(),
            _ => 1,
        }
    }

    /// How many nodes the length has: one, and those of its tree.
    pub open spec fn nodes(self) -> nat
        decreases self,
    {
        match self {
            Length::Calc(t) => 1 + t.nodes(),
            _ => 1,
        }
    }

    /// The tree of an expression, or a literal wrapped as a leaf.
    pub open spec fn into_calc_spec(self) -> Calc<Length> {
        match self {
            Length::Calc(t) => t,
            literal => Calc::Value(Box::new(literal)),
        }
    }

    /// The magnitude in pixels of an absolute literal.
    pub open spec fn to_px_spec(self) -> Option<Number> {
        match self {
            Length::Absolute(a) => Some(a.px_value()),
            _ => None,
        }
    }

    /// The length with every literal in it multiplied by `factor`: the shape
    /// of an expression stays.
    pub open spec fn scale_spec(self, factor: Number) -> Length
        decreases self,
    {
        match self {
            Length::Absolute(a) => Length::Absolute(a.scale_spec(factor)),
            Length::Relative(r) => Length::Relative(r.scale_spec(factor)),
            Length::Calc(t) => Length::Calc(t.scale_spec(factor)),
        }
    }

    /// What two lengths that do not fold into one are built into.
    ///
    /// A zero literal is left out and the other operand returned as it is.
    /// Of two literals, a negative one before a positive one changes places
    /// with it. Two expressions are joined as trees; an expression that is
    /// one wrapped length is taken for that length; any other pair becomes a
    /// sum of both, a literal wrapped as a leaf.
    pub open spec fn build_spec(self, other: Length) -> Length
        decreases self.nodes() + other.nodes(),
    {
        if self.is_zero_literal() {
            other
        } else if other.is_zero_literal() {
            self
        } else {
            let swap = self.is_negative_literal() && other.is_positive_literal();
            let first = if swap { other } else { self };
            let second = if swap { self } else { other };
            match (first, second) {
                (Length::Calc(a), Length::Calc(b)) => Length::Calc(a.add_spec(b)),
                (Length::Calc(Calc::Value(a)), b) => (*a).build_spec(b),
                (a, Length::Calc(Calc::Value(b))) => a.build_spec(*b),
                (a, b) => Length::Calc(
                    Calc::Sum(Box::new(a.into_calc_spec()), Box::new(b.into_calc_spec())),
                ),
            }
        }
    }

    /// The single length that two lengths fold into, if their units allow it.
    ///
    /// Two absolute literals always fold, two relative literals if they
    /// share their unit, an absolute and a relative literal never. A wrapped
    /// length folds as the length itself. Against a sum the other operand is
    /// folded into the left child, else into the right child, and whichever
    /// it folded into is then added to the child that was left alone.
    ///
    /// The test on the leaves of the folded part holds always (see
    /// `lemma_fold_shrinks`): it is what lets the definition go on with its
    /// own result.
    pub open spec fn fold_spec(self, other: Length) -> Option<Length>
        decreases self.leaves() + other.leaves(), self.nodes() + other.nodes(), 0nat,
    {
        match (self, other) {
            (Length::Absolute(a), Length::Absolute(b)) => Some(Length::Absolute(a.add_spec(b))),
            (Length::Relative(a), Length::Relative(b)) => match a.fold_spec(b) {
                Some(r) => Some(Length::Relative(r)),
                None => None,
            },
            (Length::Calc(Calc::Value(v)), o) => (*v).fold_spec(o),
            (o, Length::Calc(Calc::Value(v))) => o.fold_spec(*v),
            (Length::Calc(Calc::Sum(l, r)), o) => match Length::Calc(*l).fold_spec(o) {
                Some(res) => if res.leaves() < (*l).leaves() + o.leaves() {
                    Some(res.add_spec(Length::Calc(*r)))
                } else {
                    None
                },
                None => match Length::Calc(*r).fold_spec(o) {
                    Some(res) => if res.leaves() < (*r).leaves() + o.leaves() {
                        Some(Length::Calc(*l).add_spec(res))
                    } else {
                        None
                    },
                    None => None,
                },
            },
            (o, Length::Calc(Calc::Sum(l, r))) => match o.fold_spec(Length::Calc(*l)) {
                Some(res) => if res.leaves() < o.leaves() + (*l).leaves() {
                    Some(res.add_spec(Length::Calc(*r)))
                } else {
                    None
                },
                None => match o.fold_spec(Length::Calc(*r)) {
                    Some(res) => if res.leaves() < o.leaves() + (*r).leaves() {
                        Some(Length::Calc(*l).add_spec(res))
                    } else {
                        None
                    },
                    None => None,
                },
            },
            _ => None,
        }
    }

    /// The sum of two lengths: what they fold into, or else what they are
    /// built into.
    pub open spec fn add_spec(self, other: Length) -> Length
        decreases self.leaves() + other.leaves(), self.nodes() + other.nodes(), 1nat,
    {
        match self.fold_spec(other) {
            Some(r) => r,
            None => self.build_spec(other),
        }
    }

    /// Wrapping a literal as a leaf keeps the count of literals.
    pub proof fn lemma_into_calc_leaves(self)
        ensures
            self.into_calc_spec().leaves() == self.leaves(),
    {
        match self {
            Length::Calc(t) => {},
            literal => {
                assert(Calc::Value(Box::new(literal)).leaves() == literal.leaves());
            },
        }
    }

    /// What two lengths are built into holds no more literals than the two
    /// together.
    pub proof fn lemma_build_leaves(self, other: Length)
        ensures
            self.build_spec(other).leaves() <= self.leaves() + other.leaves(),
        decreases self.nodes() + other.nodes(),
    {
        if !self.is_zero_literal() && !other.is_zero_literal() {
            let swap = self.is_negative_literal() && other.is_positive_literal();
            let first = if swap { other } else { self };
            let second = if swap { self } else { other };
            match (first, second) {
                (Length::Calc(a), Length::Calc(b)) => {
                    assert(a.add_spec(b).leaves() == a.leaves() + b.leaves());
                },
                (Length::Calc(Calc::Value(a)), b) => {
                    (*a).lemma_build_leaves(b);
                },
                (a, Length::Calc(Calc::Value(b))) => {
                    a.lemma_build_leaves(*b);
                },
                (a, b) => {
                    a.lemma_into_calc_leaves();
                    b.lemma_into_calc_leaves();
                    let sum = Calc::Sum(Box::new(a.into_calc_spec()), Box::new(b.into_calc_spec()));
                    assert(sum.leaves() == a.leaves() + b.leaves());
                },
            }
        }
    }

    /// What two lengths fold into holds fewer literals than the two
    /// together: a fold joins at least two literals into one.
    pub proof fn lemma_fold_shrinks(self, other: Length)
        ensures
            self.fold_spec(other) matches Some(r) ==> r.leaves() < self.leaves() + other.leaves(),
        decreases self.leaves() + other.leaves(), self.nodes() + other.nodes(), 0nat,
    {
        match (self, other) {
            (Length::Absolute(a), Length::Absolute(b)) => {},
            (Length::Relative(a), Length::Relative(b)) => {},
            (Length::Calc(Calc::Value(v)), o) => {
                (*v).lemma_fold_shrinks(o);
            },
            (o, Length::Calc(Calc::Value(v))) => {
                o.lemma_fold_shrinks(*v);
            },
            (Length::Calc(Calc::Sum(l, r)), o) => {
                let left = Length::Calc(*l);
                let right = Length::Calc(*r);
                left.lemma_fold_shrinks(o);
                match left.fold_spec(o) {
                    Some(res) => {
                        res.lemma_add_leaves(right);
                    },
                    None => {
                        right.lemma_fold_shrinks(o);
                        match right.fold_spec(o) {
                            Some(res) => {
                                left.lemma_add_leaves(res);
                            },
                            None => {},
                        }
                    },
                }
            },
            (o, Length::Calc(Calc::Sum(l, r))) => {
                let left = Length::Calc(*l);
                let right = Length::Calc(*r);
                o.lemma_fold_shrinks(left);
                match o.fold_spec(left) {
                    Some(res) => {
                        res.lemma_add_leaves(right);
                    },
                    None => {
                        o.lemma_fold_shrinks(right);
                        match o.fold_spec(right) {
                            Some(res) => {
                                left.lemma_add_leaves(res);
                            },
                            None => {},
                        }
                    },
                }
            },
            _ => {},
        }
    }

    /// How a value folds into a sum on its left, said without the test on
    /// the leaves: into the left child, and the right child is added to the
    /// result; else into the right child, and the result is added to the
    /// left child; else not at all.
    pub proof fn lemma_fold_into_sum(l: Calc<Length>, r: Calc<Length>, other: Length)
        requires
            !(other matches Length::Calc(Calc::Value(_))),
        ensures
            Length::Calc(Calc::Sum(Box::new(l), Box::new(r))).fold_spec(other) == match Length::Calc(
                l,
            ).fold_spec(other) {
                Some(res) => Some(res.add_spec(Length::Calc(r))),
                None => match Length::Calc(r).fold_spec(other) {
                    Some(res) => Some(Length::Calc(l).add_spec(res)),
                    None => None,
                },
            },
    {
        Length::Calc(l).lemma_fold_shrinks(other);
        Length::Calc(r).lemma_fold_shrinks(other);
    }

    /// How a literal folds into a sum on its right, said without the test on
    /// the leaves.
    pub proof fn lemma_fold_literal_into_sum(self, l: Calc<Length>, r: Calc<Length>)
        requires
            !(self is Calc),
        ensures
            self.fold_spec(Length::Calc(Calc::Sum(Box::new(l), Box::new(r)))) == match self.fold_spec(
                Length::Calc(l),
            ) {
                Some(res) => Some(res.add_spec(Length::Calc(r))),
                None => match self.fold_spec(Length::Calc(r)) {
                    Some(res) => Some(Length::Calc(l).add_spec(res)),
                    None => None,
                },
            },
    {
        self.lemma_fold_shrinks(Length::Calc(l));
        self.lemma_fold_shrinks(Length::Calc(r));
    }

    /// The sum of two lengths holds no more literals than the two together.
    pub proof fn lemma_add_leaves(self, other: Length)
        ensures
            self.add_spec(other).leaves() <= self.leaves() + other.leaves(),
        decreases self.leaves() + other.leaves(), self.nodes() + other.nodes(), 1nat,
    {
        self.lemma_fold_shrinks(other);
        self.lemma_build_leaves(other);
    }

    /// The literal of magnitude `value` in the unit named `unit`, in any mix
    /// of upper and lower case, if `unit` names one of the fifteen units.
    pub open spec fn from_dimension_spec(value: Number, unit: Seq<char>) -> Option<Length> {
        match AbsoluteLength::from_unit_spec(value, unit) {
            Some(a) => Some(Length::Absolute(a)),
            None => match RelativeLength::from_unit_spec(value, unit) {
                Some(r) => Some(Length::Relative(r)),
                None => None,
            },
        }
    }

    /// The literal that one token stands for: a dimension in a known unit,
    /// or a bare number, which is taken as pixels.
    pub open spec fn from_token_spec(token: Token) -> Option<Length> {
        match token {
            Token::Dimension(value, unit) => Length::from_dimension_spec(value, unit@),
            Token::Number(value) => Some(Length::Absolute(AbsoluteLength::Px(value))),
            _ => None,
        }
    }

    /// What reading a length at `pos` gives: the value and the position
    /// after it, or the error.
    ///
    /// A `calc(` expression is tried first. If it is a single length, that
    /// length is the result, without a tree around it. If there is no such
    /// expression at `pos`, the token there must be a literal.
    pub open spec fn parse_spec(tokens: Seq<Token>, pos: usize) -> Result<(Length, usize), ParseError>
        decreases tokens.len() - pos, 1nat,
        when tokens.len() <= usize::MAX
    {
        if pos >= tokens.len() {
            Err(ParseError { kind: ParseErrorKind::EndOfInput, position: pos })
        } else {
            match Length::parse_calc_spec(tokens, pos) {
                Ok((tree, next)) => match tree {
                    Calc::Value(v) => Ok((*v, next)),
                    _ => Ok((Length::Calc(tree), next)),
                },
                Err(_) => match Length::from_token_spec(tokens[pos as int]) {
                    Some(literal) => Ok((literal, (pos + 1) as usize)),
                    None => Err(ParseError { kind: ParseErrorKind::UnexpectedToken, position: pos }),
                },
            }
        }
    }

    /// What reading a `calc(` expression at `pos` gives: the function token
    /// `calc` in any case, a sum, and `)`. The tree is that of the sum, a
    /// literal wrapped as a leaf.
    pub open spec fn parse_calc_spec(tokens: Seq<Token>, pos: usize) -> Result<
        (Calc<Length>, usize),
        ParseError,
    >
        decreases tokens.len() - pos, 0nat,
        when tokens.len() <= usize::MAX
    {
        if pos < tokens.len() && (tokens[pos as int] matches Token::Function(name) && lowered(name@)
            == seq!['c', 'a', 'l', 'c']) {
            match Length::parse_sum_spec(tokens, (pos + 1) as usize) {
                Ok((value, next)) => if next < tokens.len() && tokens[next as int]
                    is CloseParenthesis {
                    Ok((value.into_calc_spec(), (next + 1) as usize))
                } else {
                    Err(error_at(tokens, next))
                },
                Err(e) => Err(e),
            }
        } else {
            Err(error_at(tokens, pos))
        }
    }

    /// What reading a sum at `pos` gives: a first length, and as many more
    /// as follow, each after a `+` or a `-`. The value is the sum of them
    /// all, taken from the left.
    pub open spec fn parse_sum_spec(tokens: Seq<Token>, pos: usize) -> Result<
        (Length, usize),
        ParseError,
    >
        decreases tokens.len() - pos, 2nat,
        when tokens.len() <= usize::MAX
    {
        match Length::parse_spec(tokens, pos) {
            Ok((first, next)) => if pos < next <= tokens.len() {
                Length::parse_sum_rest_spec(tokens, next, first)
            } else {
                Err(error_at(tokens, pos))
            },
            Err(e) => Err(e),
        }
    }

    /// What reading the rest of a sum at `pos` gives, where the lengths read
    /// so far add up to `acc`. A length after `-` is subtracted: it is added
    /// with its sign changed.
    ///
    /// The tests on the position after a length, here and in the reading of
    /// a sum, hold always (see `lemma_parse_advances`): a length takes at
    /// least one token.
    pub open spec fn parse_sum_rest_spec(tokens: Seq<Token>, pos: usize, acc: Length) -> Result<
        (Length, usize),
        ParseError,
    >
        decreases tokens.len() - pos, 0nat,
        when tokens.len() <= usize::MAX
    {
        if pos < tokens.len() && (tokens[pos as int].is_delim('+') || tokens[pos as int].is_delim(
            '-',
        )) {
            match Length::parse_spec(tokens, (pos + 1) as usize) {
                Ok((term, next)) => if pos < next <= tokens.len() {
                    let signed = if tokens[pos as int].is_delim('-') {
                        term.scale_spec(minus_one())
                    } else {
                        term
                    };
                    Length::parse_sum_rest_spec(tokens, next, acc.add_spec(signed))
                } else {
                    Err(error_at(tokens, pos))
                },
                Err(e) => Err(e),
            }
        } else {
            Ok((acc, pos))
        }
    }

    /// Reading a length takes at least one token and does not go past the
    /// end.
    pub proof fn lemma_parse_advances(tokens: Seq<Token>, pos: usize)
        requires
            tokens.len() <= usize::MAX,
        ensures
            Length::parse_spec(tokens, pos) matches Ok((_, next)) ==> pos < next <= tokens.len(),
        decreases tokens.len() - pos, 1nat,
    {
        if pos < tokens.len() {
            Length::lemma_parse_calc_advances(tokens, pos);
        }
    }

    /// Reading a `calc(` expression takes at least one token and does not go
    /// past the end.
    pub proof fn lemma_parse_calc_advances(tokens: Seq<Token>, pos: usize)
        requires
            tokens.len() <= usize::MAX,
        ensures
            Length::parse_calc_spec(tokens, pos) matches Ok((_, next)) ==> pos < next
                <= tokens.len(),
        decreases tokens.len() - pos, 0nat,
    {
        if pos < tokens.len() {
            Length::lemma_parse_sum_advances(tokens, (pos + 1) as usize);
        }
    }

    /// Reading a sum takes at least one token and does not go past the end.
    pub proof fn lemma_parse_sum_advances(tokens: Seq<Token>, pos: usize)
        requires
            tokens.len() <= usize::MAX,
        ensures
            Length::parse_sum_spec(tokens, pos) matches Ok((_, next)) ==> pos < next
                <= tokens.len(),
        decreases tokens.len() - pos, 2nat,
    {
        Length::lemma_parse_advances(tokens, pos);
        match Length::parse_spec(tokens, pos) {
            Ok((first, next)) => {
                if pos < next <= tokens.len() {
                    Length::lemma_parse_sum_rest_advances(tokens, next, first);
                }
            },
            Err(e) => {},
        }
    }

    /// What reading a sum gives, said without the test on the position: the
    /// first length, and the rest of the sum read after it.
    pub proof fn lemma_parse_sum_unfolds(tokens: Seq<Token>, pos: usize)
        requires
            tokens.len() <= usize::MAX,
        ensures
            Length::parse_sum_spec(tokens, pos) == match Length::parse_spec(tokens, pos) {
                Ok((first, next)) => Length::parse_sum_rest_spec(tokens, next, first),
                Err(e) => Err(e),
            },
    {
        Length::lemma_parse_advances(tokens, pos);
    }

    /// Reading the rest of a sum does not go back, nor past the end.
    pub proof fn lemma_parse_sum_rest_advances(tokens: Seq<Token>, pos: usize, acc: Length)
        requires
            pos <= tokens.len() <= usize::MAX,
        ensures
            Length::parse_sum_rest_spec(tokens, pos, acc) matches Ok((_, next)) ==> pos <= next
                <= tokens.len(),
        decreases tokens.len() - pos, 0nat,
    {
        if pos < tokens.len() && (tokens[pos as int].is_delim('+') || tokens[pos as int].is_delim(
            '-',
        )) {
            Length::lemma_parse_advances(tokens, (pos + 1) as usize);
            match Length::parse_spec(tokens, (pos + 1) as usize) {
                Ok((term, next)) => {
                    if pos < next <= tokens.len() {
                        let signed = if tokens[pos as int].is_delim('-') {
                            term.scale_spec(minus_one())
                        } else {
                            term
                        };
                        Length::lemma_parse_sum_rest_advances(tokens, next, acc.add_spec(signed));
                    }
                },
                Err(e) => {},
            }
        }
    }

    /// Scaling a flat length gives a flat length.
    pub proof fn lemma_scale_flat(self, factor: Number)
        requires
            self.is_flat(),
        ensures
            self.scale_spec(factor).is_flat(),
    {
        match self {
            Length::Calc(t) => t.lemma_scale_keeps_literal_leaves(factor),
            _ => {},
        }
    }

    /// What two flat lengths are built into is flat.
    pub proof fn lemma_build_flat(self, other: Length)
        requires
            self.is_flat(),
            other.is_flat(),
        ensures
            self.build_spec(other).is_flat(),
        decreases self.nodes() + other.nodes(),
    {
        if !self.is_zero_literal() && !other.is_zero_literal() {
            let swap = self.is_negative_literal() && other.is_positive_literal();
            let first = if swap { other } else { self };
            let second = if swap { self } else { other };
            match (first, second) {
                (Length::Calc(a), Length::Calc(b)) => {
                    assert(a.add_spec(b).has_literal_leaves());
                },
                (Length::Calc(Calc::Value(a)), b) => {
                    (*a).lemma_build_flat(b);
                },
                (a, Length::Calc(Calc::Value(b))) => {
                    a.lemma_build_flat(*b);
                },
                (a, b) => {
                    let sum = Calc::Sum(Box::new(a.into_calc_spec()), Box::new(b.into_calc_spec()));
                    assert(a.into_calc_spec().has_literal_leaves());
                    assert(b.into_calc_spec().has_literal_leaves());
                    assert(sum.has_literal_leaves());
                },
            }
        }
    }

    /// What two flat lengths fold into is flat.
    pub proof fn lemma_fold_flat(self, other: Length)
        requires
            self.is_flat(),
            other.is_flat(),
        ensures
            self.fold_spec(other) matches Some(r) ==> r.is_flat(),
        decreases self.leaves() + other.leaves(), self.nodes() + other.nodes(), 0nat,
    {
        match (self, other) {
            (Length::Absolute(a), Length::Absolute(b)) => {},
            (Length::Relative(a), Length::Relative(b)) => {},
            (Length::Calc(Calc::Value(v)), o) => {
                (*v).lemma_fold_flat(o);
            },
            (o, Length::Calc(Calc::Value(v))) => {
                o.lemma_fold_flat(*v);
            },
            (Length::Calc(Calc::Sum(l, r)), o) => {
                let left = Length::Calc(*l);
                let right = Length::Calc(*r);
                left.lemma_fold_flat(o);
                left.lemma_fold_shrinks(o);
                match left.fold_spec(o) {
                    Some(res) => {
                        res.lemma_add_flat(right);
                    },
                    None => {
                        right.lemma_fold_flat(o);
                        right.lemma_fold_shrinks(o);
                        match right.fold_spec(o) {
                            Some(res) => {
                                left.lemma_add_flat(res);
                            },
                            None => {},
                        }
                    },
                }
            },
            (o, Length::Calc(Calc::Sum(l, r))) => {
                let left = Length::Calc(*l);
                let right = Length::Calc(*r);
                o.lemma_fold_flat(left);
                o.lemma_fold_shrinks(left);
                match o.fold_spec(left) {
                    Some(res) => {
                        res.lemma_add_flat(right);
                    },
                    None => {
                        o.lemma_fold_flat(right);
                        o.lemma_fold_shrinks(right);
                        match o.fold_spec(right) {
                            Some(res) => {
                                left.lemma_add_flat(res);
                            },
                            None => {},
                        }
                    },
                }
            },
            _ => {},
        }
    }

    /// The sum of two flat lengths is flat.
    pub proof fn lemma_add_flat(self, other: Length)
        requires
            self.is_flat(),
            other.is_flat(),
        ensures
            self.add_spec(other).is_flat(),
        decreases self.leaves() + other.leaves(), self.nodes() + other.nodes(), 1nat,
    {
        self.lemma_fold_flat(other);
        self.lemma_build_flat(other);
    }

    /// A length that is read is flat, and never a tree of one leaf: where a
    /// `calc(` expression comes to a single length, that length is the
    /// result.
    pub proof fn lemma_parse_flat(tokens: Seq<Token>, pos: usize)
        requires
            tokens.len() <= usize::MAX,
        ensures
            Length::parse_spec(tokens, pos) matches Ok((v, _)) ==> v.is_flat() && !(v matches Length::Calc(
                Calc::Value(_),
            )),
        decreases tokens.len() - pos, 1nat,
    {
        if pos < tokens.len() {
            Length::lemma_parse_calc_flat(tokens, pos);
        }
    }

    /// The tree of a `calc(` expression that is read has literals for its
    /// leaves.
    pub proof fn lemma_parse_calc_flat(tokens: Seq<Token>, pos: usize)
        requires
            tokens.len() <= usize::MAX,
        ensures
            Length::parse_calc_spec(tokens, pos) matches Ok((t, _)) ==> t.has_literal_leaves(),
        decreases tokens.len() - pos, 0nat,
    {
        if pos < tokens.len() {
            Length::lemma_parse_sum_flat(tokens, (pos + 1) as usize);
        }
    }

    /// A sum that is read is flat.
    pub proof fn lemma_parse_sum_flat(tokens: Seq<Token>, pos: usize)
        requires
            tokens.len() <= usize::MAX,
        ensures
            Length::parse_sum_spec(tokens, pos) matches Ok((v, _)) ==> v.is_flat(),
        decreases tokens.len() - pos, 2nat,
    {
        Length::lemma_parse_flat(tokens, pos);
        match Length::parse_spec(tokens, pos) {
            Ok((first, next)) => {
                if pos < next <= tokens.len() {
                    Length::lemma_parse_sum_rest_flat(tokens, next, first);
                }
            },
            Err(e) => {},
        }
    }

    /// The rest of a sum that is read, added to a flat length, is flat.
    pub proof fn lemma_parse_sum_rest_flat(tokens: Seq<Token>, pos: usize, acc: Length)
        requires
            pos <= tokens.len() <= usize::MAX,
            acc.is_flat(),
        ensures
            Length::parse_sum_rest_spec(tokens, pos, acc) matches Ok((v, _)) ==> v.is_flat(),
        decreases tokens.len() - pos, 0nat,
    {
        if pos < tokens.len() && (tokens[pos as int].is_delim('+') || tokens[pos as int].is_delim(
            '-',
        )) {
            Length::lemma_parse_flat(tokens, (pos + 1) as usize);
            match Length::parse_spec(tokens, (pos + 1) as usize) {
                Ok((term, next)) => {
                    if pos < next <= tokens.len() {
                        term.lemma_scale_flat(minus_one());
                        let signed = if tokens[pos as int].is_delim('-') {
                            term.scale_spec(minus_one())
                        } else {
                            term
                        };
                        acc.lemma_add_flat(signed);
                        Length::lemma_parse_sum_rest_flat(tokens, next, acc.add_spec(signed));
                    }
                },
                Err(e) => {},
            }
        }
    }

    /// A copy of the length.
    pub fn duplicate(&self) -> (r: Length)
        ensures
            r == *self,
        decreases *self,
    {
        match self {
            Length::Absolute(a) => Length::Absolute(*a),
            Length::Relative(r) => Length::Relative(*r),
            Length::Calc(t) => Length::Calc(t.duplicate()),
        }
    }

    /// The zero length, in pixels.
    pub fn zero() -> (r: Length)
        ensures
            r == Length::Absolute(AbsoluteLength::Px(Number { micros: 0 })),
    {
        Length::Absolute(AbsoluteLength::Px(Number::zero()))
    }

    /// The length of `px` pixels.
    pub fn px(px: Number) -> (r: Length)
        ensures
            r == Length::Absolute(AbsoluteLength::Px(px)),
    {
        Length::Absolute(AbsoluteLength::Px(px))
    }

    /// The magnitude in pixels of an absolute literal; nothing for a
    /// relative literal or an expression.
    pub fn to_px(&self) -> (r: Option<Number>)
        ensures
            r == self.to_px_spec(),
    {
        match self {
            Length::Absolute(a) => Some(a.to_px()),
            _ => None,
        }
    }

    /// The tree of an expression, or a literal wrapped as a leaf.
    pub fn into_calc(self) -> (r: Calc<Length>)
        ensures
            r == self.into_calc_spec(),
    {
        match self {
            Length::Calc(t) => t,
            literal => Calc::Value(Box::new(literal)),
        }
    }

    /// The expression with the tree `tree`.
    pub fn from_calc(tree: Calc<Length>) -> (r: Length)
        ensures
            r == Length::Calc(tree),
    {
        Length::Calc(tree)
    }

    /// Whether this is a literal of magnitude exactly `other`. An expression
    /// equals no number.
    pub fn eq_number(&self, other: Number) -> (r: bool)
        ensures
            r == (self.literal_value() == Some(other)),
    {
        match self {
            Length::Absolute(a) => a.eq_number(other),
            Length::Relative(a) => a.eq_number(other),
            Length::Calc(_) => false,
        }
    }

    /// How the magnitude of a literal stands to `other`. An expression is
    /// not ordered against a number.
    pub fn partial_cmp_number(&self, other: Number) -> (r: Option<Ordering>)
        ensures
            r == match self.literal_value() {
                Some(v) => Some(ordering_of(v@, other@)),
                None => None,
            },
    {
        match self {
            Length::Absolute(a) => a.partial_cmp_number(other),
            Length::Relative(a) => a.partial_cmp_number(other),
            Length::Calc(_) => None,
        }
    }

    /// The length with every literal in it multiplied by `factor`.
    pub fn scale(self, factor: Number) -> (r: Length)
        ensures
            r == self.scale_spec(factor),
        decreases self,
    {
        match self {
            Length::Absolute(a) => Length::Absolute(a.scale(factor)),
            Length::Relative(a) => Length::Relative(a.scale(factor)),
            Length::Calc(t) => Length::Calc(t.scale(factor)),
        }
    }

    /// What two lengths that do not fold into one are built into.
    pub fn build(self, other: Length) -> (r: Length)
        ensures
            r == self.build_spec(other),
        decreases self.nodes() + other.nodes(),
    {
        if self.eq_number(Number::zero()) {
            return other;
        }
        if other.eq_number(Number::zero()) {
            return self;
        }
        let swap = self.is_negative() && other.is_positive();
        let (first, second) = if swap {
            (other, self)
        } else {
            (self, other)
        };
        match (first, second) {
            (Length::Calc(a), Length::Calc(b)) => Length::Calc(a.add(b)),
            (Length::Calc(Calc::Value(a)), b) => (*a).build(b),
            (a, Length::Calc(Calc::Value(b))) => a.build(*b),
            (a, b) => Length::Calc(Calc::Sum(Box::new(a.into_calc()), Box::new(b.into_calc()))),
        }
    }

    /// The single length that two lengths fold into, if their units allow
    /// it; neither operand is changed.
    pub fn fold(&self, other: &Length) -> (r: Option<Length>)
        ensures
            r == self.fold_spec(*other),
        decreases self.leaves() + other.leaves(), self.nodes() + other.nodes(), 0nat,
    {
        match (self, other) {
            (Length::Absolute(a), Length::Absolute(b)) => Some(Length::Absolute(a.add(*b))),
            (Length::Relative(a), Length::Relative(b)) => match a.fold(b) {
                Some(res) => Some(Length::Relative(res)),
                None => None,
            },
            (Length::Calc(Calc::Value(v)), o) => (**v).fold(o),
            (o, Length::Calc(Calc::Value(v))) => o.fold(&**v),
            (Length::Calc(Calc::Sum(l, r)), o) => {
                let left = Length::Calc((**l).duplicate());
                proof {
                    left.lemma_fold_shrinks(*o);
                }
                match left.fold(o) {
                    Some(res) => Some(res.add(Length::Calc((**r).duplicate()))),
                    None => {
                        let right = Length::Calc((**r).duplicate());
                        proof {
                            right.lemma_fold_shrinks(*o);
                        }
                        match right.fold(o) {
                            Some(res) => Some(left.add(res)),
                            None => None,
                        }
                    },
                }
            },
            (o, Length::Calc(Calc::Sum(l, r))) => {
                let left = Length::Calc((**l).duplicate());
                proof {
                    o.lemma_fold_shrinks(left);
                }
                match o.fold(&left) {
                    Some(res) => Some(res.add(Length::Calc((**r).duplicate()))),
                    None => {
                        let right = Length::Calc((**r).duplicate());
                        proof {
                            o.lemma_fold_shrinks(right);
                        }
                        match o.fold(&right) {
                            Some(res) => Some(left.add(res)),
                            None => None,
                        }
                    },
                }
            },
            _ => None,
        }
    }

    /// The sum of two lengths: one literal where their units allow it,
    /// otherwise an expression that holds both.
    pub fn add(self, other: Length) -> (r: Length)
        ensures
            r == self.add_spec(other),
        decreases self.leaves() + other.leaves(), self.nodes() + other.nodes(), 1nat,
    {
        match self.fold(&other) {
            Some(res) => res,
            None => self.build(other),
        }
    }

    /// Whether this is a literal of magnitude below zero.
    pub fn is_negative(&self) -> (r: bool)
        ensures
            r == self.is_negative_literal(),
    {
        matches!(self.partial_cmp_number(Number::zero()), Some(Ordering::Less))
    }

    /// Whether this is a literal of magnitude above zero.
    pub fn is_positive(&self) -> (r: bool)
        ensures
            r == self.is_positive_literal(),
    {
        matches!(self.partial_cmp_number(Number::zero()), Some(Ordering::Greater))
    }

    /// Appends the shortest CSS text of the length to `dest`.
    ///
    /// A literal of magnitude zero is a bare `0`. Any other literal is its
    /// magnitude, without a zero before the decimal point and without a
    /// point where the fraction is zero, and its unit. An expression is the
    /// text of its tree inside `calc(` and `)`.
    pub fn to_css(&self, dest: &mut String)
        ensures
            final(dest)@ == old(dest)@ + self.css_text(),
        decreases *self,
    {
        match self {
            Length::Calc(t) => {
                proof {
                    reveal_strlit("calc(");
                    reveal_strlit(")");
                }
                dest.append("calc(");
                t.to_css(dest);
                dest.append(")");
                assert(dest@ =~= old(dest)@ + self.css_text());
            },
            literal => literal.write_literal(dest),
        }
    }

    fn write_literal(&self, dest: &mut String)
        requires
            !(self is Calc),
        ensures
            final(dest)@ == old(dest)@ + self.literal_text(),
    {
        match self {
            Length::Absolute(a) => {
                let (value, unit) = a.to_unit_value();
                write_dimension(value, unit, dest);
            },
            Length::Relative(r) => {
                let (value, unit) = r.to_unit_value();
                write_dimension(value, unit, dest);
            },
            Length::Calc(_) => {},
        }
    }

    /// The shortest CSS text of the length.
    pub fn to_css_string(&self) -> (r: String)
        ensures
            r@ == self.css_text(),
    {
        let mut dest = String::new();
        self.to_css(&mut dest);
        assert(dest@ =~= self.css_text());
        dest
    }

    /// The literal of magnitude `value` in the unit named `unit`, if `unit`
    /// names one of the fifteen units.
    pub fn from_dimension(value: Number, unit: &str) -> (r: Option<Length>)
        ensures
            r == Length::from_dimension_spec(value, unit@),
    {
        match AbsoluteLength::from_unit(value, unit) {
            Some(a) => Some(Length::Absolute(a)),
            None => match RelativeLength::from_unit(value, unit) {
                Some(r) => Some(Length::Relative(r)),
                None => None,
            },
        }
    }

    /// The literal that one token stands for, if it stands for one.
    pub fn from_token(token: &Token) -> (r: Option<Length>)
        ensures
            r == Length::from_token_spec(*token),
    {
        match token {
            Token::Dimension(value, unit) => Length::from_dimension(*value, unit.as_str()),
            Token::Number(value) => Some(Length::px(*value)),
            _ => None,
        }
    }

    /// Reads a length at `pos`: a `calc(` expression, or else a literal.
    ///
    /// Returns the length and the position after it. A token that is no
    /// literal, a dimension in an unknown unit among them, is an unexpected
    /// token at `pos`; no token at all is the end of input at `pos`.
    pub fn parse(tokens: &[Token], pos: usize) -> (r: Result<(Length, usize), ParseError>)
        ensures
            r == Length::parse_spec(tokens@, pos),
            r matches Ok((v, next)) ==> pos < next <= tokens@.len() && v.is_flat() && !(v matches Length::Calc(
                Calc::Value(_),
            )),
        decreases tokens@.len() - pos, 1nat,
    {
        if pos >= tokens.len() {
            return Err(ParseError { kind: ParseErrorKind::EndOfInput, position: pos });
        }
        proof {
            Length::lemma_parse_flat(tokens@, pos);
        }
        match Length::parse_calc(tokens, pos) {
            Ok((tree, next)) => match tree {
                Calc::Value(v) => Ok((*v, next)),
                other => Ok((Length::Calc(other), next)),
            },
            Err(_) => match Length::from_token(&tokens[pos]) {
                Some(literal) => Ok((literal, pos + 1)),
                None => Err(ParseError { kind: ParseErrorKind::UnexpectedToken, position: pos }),
            },
        }
    }

    /// Reads a `calc(` expression over lengths at `pos`.
    pub fn parse_calc(tokens: &[Token], pos: usize) -> (r: Result<(Calc<Length>, usize), ParseError>)
        ensures
            r == Length::parse_calc_spec(tokens@, pos),
            r matches Ok((_, next)) ==> pos < next <= tokens@.len(),
        decreases tokens@.len() - pos, 0nat,
    {
        if pos >= tokens.len() {
            return Err(new_error_for_next_token(tokens, pos));
        }
        let open = match &tokens[pos] {
            Token::Function(name) => {
                proof {
                    reveal_strlit("calc");
                    assert("calc"@ =~= seq!['c', 'a', 'l', 'c']);
                }
                matches_keyword(name.as_str(), "calc")
            },
            _ => false,
        };
        if !open {
            return Err(new_error_for_next_token(tokens, pos));
        }
        match Length::parse_sum(tokens, pos + 1) {
            Ok((value, next)) => if next < tokens.len() && matches!(
                tokens[next],
                Token::CloseParenthesis
            ) {
                Ok((value.into_calc(), next + 1))
            } else {
                Err(new_error_for_next_token(tokens, next))
            },
            Err(e) => Err(e),
        }
    }

    /// Reads a sum of lengths at `pos`.
    pub fn parse_sum(tokens: &[Token], pos: usize) -> (r: Result<(Length, usize), ParseError>)
        ensures
            r == Length::parse_sum_spec(tokens@, pos),
            r matches Ok((_, next)) ==> pos < next <= tokens@.len(),
        decreases tokens@.len() - pos, 2nat,
    {
        if pos >= tokens.len() {
            return Err(ParseError { kind: ParseErrorKind::EndOfInput, position: pos });
        }
        match Length::parse(tokens, pos) {
            Ok((first, next)) => Length::parse_sum_rest(tokens, next, first),
            Err(e) => Err(e),
        }
    }

    fn parse_sum_rest(tokens: &[Token], pos: usize, acc: Length) -> (r: Result<
        (Length, usize),
        ParseError,
    >)
        requires
            pos <= tokens@.len(),
        ensures
            r == Length::parse_sum_rest_spec(tokens@, pos, acc),
            r matches Ok((_, next)) ==> pos <= next <= tokens@.len(),
        decreases tokens@.len() - pos, 0nat,
    {
        if pos >= tokens.len() {
            return Ok((acc, pos));
        }
        let minus = match &tokens[pos] {
            Token::Delim(c) => {
                if *c == '+' {
                    false
                } else if *c == '-' {
                    true
                } else {
                    return Ok((acc, pos));
                }
            },
            _ => {
                return Ok((acc, pos));
            },
        };
        match Length::parse(tokens, pos + 1) {
            Ok((term, next)) => {
                let signed = if minus {
                    term.scale(Number::from_int(-1))
                } else {
                    term
                };
                Length::parse_sum_rest(tokens, next, acc.add(signed))
            },
            Err(e) => Err(e),
        }
    }
}

impl Clone for LengthOrNumber {
    fn clone(&self) -> (r: Self)
        ensures
            r == *self,
    {
        match self {
            LengthOrNumber::Length(l) => LengthOrNumber::Length(l.duplicate()),
            LengthOrNumber::Number(n) => LengthOrNumber::Number(*n),
        }
    }
}

impl LengthOrNumber {
    /// The CSS text: that of the length, or the shortest text of the number.
    pub open spec fn css_text(self) -> Seq<char> {
        match self {
            LengthOrNumber::Length(l) => l.css_text(),
            LengthOrNumber::Number(n) => number_text(n@),
        }
    }

    /// What reading at `pos` gives: a number token is a number, never a
    /// length in pixels; anything else must be a length.
    pub open spec fn parse_spec(tokens: Seq<Token>, pos: usize) -> Result<
        (LengthOrNumber, usize),
        ParseError,
    > {
        if pos < tokens.len() && tokens[pos as int] is Number {
            Ok((LengthOrNumber::Number(tokens[pos as int]->Number_0), (pos + 1) as usize))
        } else {
            match Length::parse_spec(tokens, pos) {
                Ok((l, next)) => Ok((LengthOrNumber::Length(l), next)),
                Err(_) => Err(error_at(tokens, pos)),
            }
        }
    }

    /// Reads a number, or else a length, at `pos`.
    ///
    /// Where neither is there, the error is an unexpected token at `pos`, or
    /// the end of input at `pos` if no token is left.
    pub fn parse(tokens: &[Token], pos: usize) -> (r: Result<(LengthOrNumber, usize), ParseError>)
        ensures
            r == LengthOrNumber::parse_spec(tokens@, pos),
            r matches Ok((_, next)) ==> pos < next <= tokens@.len(),
    {
        if pos < tokens.len() {
            match &tokens[pos] {
                Token::Number(n) => {
                    return Ok((LengthOrNumber::Number(*n), pos + 1));
                },
                _ => {},
            }
        }
        match Length::parse(tokens, pos) {
            Ok((l, next)) => Ok((LengthOrNumber::Length(l), next)),
            Err(_) => Err(new_error_for_next_token(tokens, pos)),
        }
    }

    /// Appends the CSS text to `dest`.
    pub fn to_css(&self, dest: &mut String)
        ensures
            final(dest)@ == old(dest)@ + self.css_text(),
    {
        match self {
            LengthOrNumber::Length(l) => l.to_css(dest),
            LengthOrNumber::Number(n) => n.to_css(dest),
        }
    }
}

} // verus!
