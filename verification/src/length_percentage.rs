//! Values that are a length, a percentage, or a sum of both kinds.

use crate::calc::Calc;
use crate::length::{minus_one, Length};
use crate::number::{ordering_of, Number};
use crate::percentage::Percentage;
use crate::text::{lowered, matches_keyword};
use crate::token::{error_at, new_error_for_next_token, ParseError, Token};
use core::cmp::Ordering;
use vstd::prelude::*;

verus! {

/// A length, a percentage, or an expression over both.
#[derive(Debug, PartialEq, Eq)]
pub enum LengthPercentage {
    Length(Length),
    Percentage(Percentage),
    Calc(Calc<LengthPercentage>),
}

/// A length or percentage, or the keyword `auto`.
#[derive(Debug, PartialEq, Eq)]
pub enum LengthPercentageOrAuto {
    Auto,
    LengthPercentage(LengthPercentage),
}

impl Calc<LengthPercentage> {
    /// How many values the tree holds at its leaves, each counted with the
    /// leaves of its own.
    pub open spec fn leaves(self) -> nat
        decreases self,
    {
        match self {
            Calc::Value(v) => (*v).leaves(),
            Calc::Sum(a, b) => (*a).leaves() + (*b).leaves(),
        }
    }

    /// How many nodes the tree has, those inside its leaves included.
    pub open spec fn nodes(self) -> nat
        decreases self,
    {
        match self {
            Calc::Value(v) => 1 + (*v).nodes(),
            Calc::Sum(a, b) => 1 + (*a).nodes() + (*b).nodes(),
        }
    }

    /// Whether every leaf of the tree is a literal.
    pub open spec fn has_literal_leaves(self) -> bool
        decreases self,
    {
        match self {
            Calc::Value(v) => !(*v is Calc),
            Calc::Sum(a, b) => (*a).has_literal_leaves() && (*b).has_literal_leaves(),
        }
    }

    /// Scaling keeps the leaves literals.
    pub proof fn lemma_scale_keeps_literal_leaves(self, factor: Number)
        requires
            self.has_literal_leaves(),
        ensures
            self.scale_spec(factor).has_literal_leaves(),
        decreases self,
    {
        match self {
            Calc::Value(v) => {
                assert(!((*v).scale_spec(factor) is Calc));
            },
            Calc::Sum(a, b) => {
                (*a).lemma_scale_keeps_literal_leaves(factor);
                (*b).lemma_scale_keeps_literal_leaves(factor);
            },
        }
    }

    /// The tree with every literal in it multiplied by `factor`: the shape
    /// stays.
    pub open spec fn scale_spec(self, factor: Number) -> Calc<LengthPercentage>
        decreases self,
    {
        match self {
            Calc::Value(v) => Calc::Value(Box::new((*v).scale_spec(factor))),
            Calc::Sum(a, b) => Calc::Sum(
                Box::new((*a).scale_spec(factor)),
                Box::new((*b).scale_spec(factor)),
            ),
        }
    }

    /// The text of the tree inside `calc(` and `)`: the leaves in order,
    /// joined by ` + `, or by ` - ` before a negative literal, which is then
    /// written without its sign.
    pub open spec fn css_text(self) -> Seq<char>
        decreases self,
    {
        match self {
            Calc::Value(v) => (*v).css_text(),
            Calc::Sum(a, b) => match *b {
                Calc::Value(v) if (*v).is_negative_literal() => (*a).css_text() + seq![' ', '-', ' ']
                    + (*v).scale_spec(minus_one()).literal_text(),
                _ => (*a).css_text() + seq![' ', '+', ' '] + (*b).css_text(),
            },
        }
    }

    /// A copy of the tree.
    pub fn duplicate(&self) -> (r: Calc<LengthPercentage>)
        ensures
            r == *self,
        decreases *self,
    {
        match self {
            Calc::Value(v) => Calc::Value(Box::new((**v).duplicate())),
            Calc::Sum(a, b) => Calc::Sum(Box::new((**a).duplicate()), Box::new((**b).duplicate())),
        }
    }

    /// The tree with every literal in it multiplied by `factor`.
    pub fn scale(self, factor: Number) -> (r: Calc<LengthPercentage>)
        ensures
            r == self.scale_spec(factor),
        decreases self,
    {
        match self {
            Calc::Value(v) => Calc::Value(Box::new((*v).scale(factor))),
            Calc::Sum(a, b) => Calc::Sum(Box::new((*a).scale(factor)), Box::new((*b).scale(factor))),
        }
    }

    /// Appends the text of the tree, as it stands inside `calc(` and `)`, to
    /// `dest`.
    pub fn to_css(&self, dest: &mut String)
        ensures
            final(dest)@ == old(dest)@ + self.css_text(),
        decreases *self,
    {
        match self {
            Calc::Value(v) => (**v).to_css(dest),
            Calc::Sum(a, b) => {
                (**a).to_css(dest);
                match &**b {
                    Calc::Value(v) if (**v).is_negative() => {
                        proof {
                            reveal_strlit(" - ");
                        }
                        dest.append(" - ");
                        let flipped = (**v).duplicate().scale(Number::from_int(-1));
                        flipped.write_literal(dest);
                        assert(dest@ =~= old(dest)@ + self.css_text());
                    },
                    _ => {
                        proof {
                            reveal_strlit(" + ");
                        }
                        dest.append(" + ");
                        (**b).to_css(dest);
                        assert(dest@ =~= old(dest)@ + self.css_text());
                    },
                }
            },
        }
    }
}

impl Clone for Calc<LengthPercentage> {
    fn clone(&self) -> (r: Self)
        ensures
            r == *self,
    {
        self.duplicate()
    }
}

impl Clone for LengthPercentage {
    fn clone(&self) -> (r: Self)
        ensures
            r == *self,
    {
        self.duplicate()
    }
}

impl LengthPercentage {
    /// The magnitude of a literal; an expression has none.
    pub open spec fn literal_value(self) -> Option<Number> {
        match self {
            LengthPercentage::Length(l) => l.literal_value(),
            LengthPercentage::Percentage(p) => Some(p.0),
            LengthPercentage::Calc(_) => None,
        }
    }

    /// Whether this is a literal of magnitude zero. An expression never is:
    /// what it amounts to is not known without evaluating it.
    pub open spec fn is_zero_literal(self) -> bool {
        self.literal_value() matches Some(v) && v@ == 0
    }

    /// Whether this is a literal of magnitude below zero.
    pub open spec fn is_negative_literal(self) -> bool {
        self.literal_value() matches Some(v) && v@ < 0
    }

    /// Whether this is a literal of magnitude above zero.
    pub open spec fn is_positive_literal(self) -> bool {
        self.literal_value() matches Some(v) && v@ > 0
    }

    /// Whether the value is a literal, or an expression over literals: no
    /// leaf of its tree is an expression again.
    pub open spec fn is_flat(self) -> bool {
        match self {
            LengthPercentage::Calc(t) => t.has_literal_leaves(),
            _ => true,
        }
    }

    /// The text of a literal: that of the length or of the percentage.
    pub open spec fn literal_text(self) -> Seq<char> {
        match self {
            LengthPercentage::Length(l) => l.literal_text(),
            LengthPercentage::Percentage(p) => p.css_text(),
            LengthPercentage::Calc(_) => Seq::empty(),
        }
    }

    /// The CSS text of the value: that of a literal, or `calc(`, the text
    /// of the tree and `)`.
    pub open spec fn css_text(self) -> Seq<char>
        decreases self,
    {
        match self {
            LengthPercentage::Length(l) => l.css_text(),
            LengthPercentage::Percentage(p) => p.css_text(),
            LengthPercentage::Calc(t) => seq!['c', 'a', 'l', 'c', '('] + t.css_text() + seq![')'],
        }
    }

    /// How many literals the value holds: one, or the leaves of its tree.
    pub open spec fn leaves(self) -> nat
        decreases self,
    {
        match self {
            LengthPercentage::Calc(t) => t.leaves(),
            _ => 1,
        }
    }

    /// How many nodes the value has: one, and those of its tree.
    pub open spec fn nodes(self) -> nat
        decreases self,
    {
        match self {
            LengthPercentage::Calc(t) => 1 + t.nodes(),
            _ => 1,
        }
    }

    /// The tree of an expression, or a literal wrapped as a leaf.
    pub open spec fn into_calc_spec(self) -> Calc<LengthPercentage> {
        match self {
            LengthPercentage::Calc(t) => t,
            literal => Calc::Value(Box::new(literal)),
        }
    }

    /// The value with every literal in it multiplied by `factor`: the shape
    /// of an expression stays.
    pub open spec fn scale_spec(self, factor: Number) -> LengthPercentage
        decreases self,
    {
        match self {
            LengthPercentage::Length(l) => LengthPercentage::Length(l.scale_spec(factor)),
            LengthPercentage::Percentage(p) => LengthPercentage::Percentage(p.scale_spec(factor)),
            LengthPercentage::Calc(t) => LengthPercentage::Calc(t.scale_spec(factor)),
        }
    }

    /// What two values that do not fold into one are built into.
    ///
    /// A zero literal is left out and the other operand returned as it is.
    /// Of two literals, a negative one before a positive one changes places
    /// with it. Two expressions are joined as trees; an expression that is
    /// one wrapped value is taken for that value; any other pair becomes a
    /// sum of both, a literal wrapped as a leaf.
    pub open spec fn build_spec(self, other: LengthPercentage) -> LengthPercentage
        decreases self.nodes() + other.nodes(),
    {
        if self.is_zero_literal() {
            other
        } else if other.is_zero_literal() {
            self
        } else {
            let swap = self.is_negative_literal() && other.is_positive_literal();
            let first = if swap { other } else { self };
            let second = if swap { self } else { other };
            match (first, second) {
                (LengthPercentage::Calc(a), LengthPercentage::Calc(b)) => LengthPercentage::Calc(a.add_spec(b)),
                (LengthPercentage::Calc(Calc::Value(a)), b) => (*a).build_spec(b),
                (a, LengthPercentage::Calc(Calc::Value(b))) => a.build_spec(*b),
                (a, b) => LengthPercentage::Calc(
                    Calc::Sum(Box::new(a.into_calc_spec()), Box::new(b.into_calc_spec())),
                ),
            }
        }
    }

    /// The single value that two values fold into, if their units allow it.
    ///
    /// Two lengths fold where they fold as lengths, two percentages always,
    /// a length and a percentage never. A wrapped value folds as the value
    /// itself. Against a sum the other operand is folded into the left
    /// child, else into the right child, and whichever it folded into is
    /// then added to the child that was left alone.
    ///
    /// The test on the leaves of the folded part holds always (see
    /// `lemma_fold_shrinks`): it is what lets the definition go on with its
    /// own result.
    pub open spec fn fold_spec(self, other: LengthPercentage) -> Option<LengthPercentage>
        decreases self.leaves() + other.leaves(), self.nodes() + other.nodes(), 0nat,
    {
        match (self, other) {
            (LengthPercentage::Length(a), LengthPercentage::Length(b)) => match a.fold_spec(b) {
                Some(r) => Some(LengthPercentage::Length(r)),
                None => None,
            },
            (LengthPercentage::Percentage(a), LengthPercentage::Percentage(b)) => Some(
                LengthPercentage::Percentage(a.add_spec(b)),
            ),
            (LengthPercentage::Calc(Calc::Value(v)), o) => (*v).fold_spec(o),
            (o, LengthPercentage::Calc(Calc::Value(v))) => o.fold_spec(*v),
            (LengthPercentage::Calc(Calc::Sum(l, r)), o) => match LengthPercentage::Calc(*l).fold_spec(o) {
                Some(res) => if res.leaves() < (*l).leaves() + o.leaves() {
                    Some(res.add_spec(LengthPercentage::Calc(*r)))
                } else {
                    None
                },
                None => match LengthPercentage::Calc(*r).fold_spec(o) {
                    Some(res) => if res.leaves() < (*r).leaves() + o.leaves() {
                        Some(LengthPercentage::Calc(*l).add_spec(res))
                    } else {
                        None
                    },
                    None => None,
                },
            },
            (o, LengthPercentage::Calc(Calc::Sum(l, r))) => match o.fold_spec(LengthPercentage::Calc(*l)) {
                Some(res) => if res.leaves() < o.leaves() + (*l).leaves() {
                    Some(res.add_spec(LengthPercentage::Calc(*r)))
                } else {
                    None
                },
                None => match o.fold_spec(LengthPercentage::Calc(*r)) {
                    Some(res) => if res.leaves() < o.leaves() + (*r).leaves() {
                        Some(LengthPercentage::Calc(*l).add_spec(res))
                    } else {
                        None
                    },
                    None => None,
                },
            },
            _ => None,
        }
    }

    /// The sum of two values: what they fold into, or else what they are
    /// built into.
    pub open spec fn add_spec(self, other: LengthPercentage) -> LengthPercentage
        decreases self.leaves() + other.leaves(), self.nodes() + other.nodes(), 1nat,
    {
        match self.fold_spec(other) {
            Some(r) => r,
            None => self.build_spec(other),
        }
    }

    /// Wrapping a literal as a leaf keeps the count of literals.
    pub proof fn lemma_into_calc_leaves(self)
        ensures
            self.into_calc_spec().leaves() == self.leaves(),
    {
        match self {
            LengthPercentage::Calc(t) => {},
            literal => {
                assert(Calc::Value(Box::new(literal)).leaves() == literal.leaves());
            },
        }
    }

    /// What two values are built into holds no more literals than the two
    /// together.
    pub proof fn lemma_build_leaves(self, other: LengthPercentage)
        ensures
            self.build_spec(other).leaves() <= self.leaves() + other.leaves(),
        decreases self.nodes() + other.nodes(),
    {
        if !self.is_zero_literal() && !other.is_zero_literal() {
            let swap = self.is_negative_literal() && other.is_positive_literal();
            let first = if swap { other } else { self };
            let second = if swap { self } else { other };
            match (first, second) {
                (LengthPercentage::Calc(a), LengthPercentage::Calc(b)) => {
                    assert(a.add_spec(b).leaves() == a.leaves() + b.leaves());
                },
                (LengthPercentage::Calc(Calc::Value(a)), b) => {
                    (*a).lemma_build_leaves(b);
                },
                (a, LengthPercentage::Calc(Calc::Value(b))) => {
                    a.lemma_build_leaves(*b);
                },
                (a, b) => {
                    a.lemma_into_calc_leaves();
                    b.lemma_into_calc_leaves();
                    let sum = Calc::Sum(Box::new(a.into_calc_spec()), Box::new(b.into_calc_spec()));
                    assert(sum.leaves() == a.leaves() + b.leaves());
                },
            }
        }
    }

    /// What two values fold into holds fewer literals than the two
    /// together: a fold joins at least two literals into one.
    pub proof fn lemma_fold_shrinks(self, other: LengthPercentage)
        ensures
            self.fold_spec(other) matches Some(r) ==> r.leaves() < self.leaves() + other.leaves(),
        decreases self.leaves() + other.leaves(), self.nodes() + other.nodes(), 0nat,
    {
        match (self, other) {
            (LengthPercentage::Length(a), LengthPercentage::Length(b)) => {},
            (LengthPercentage::Percentage(a), LengthPercentage::Percentage(b)) => {},
            (LengthPercentage::Calc(Calc::Value(v)), o) => {
                (*v).lemma_fold_shrinks(o);
            },
            (o, LengthPercentage::Calc(Calc::Value(v))) => {
                o.lemma_fold_shrinks(*v);
            },
            (LengthPercentage::Calc(Calc::Sum(l, r)), o) => {
                let left = LengthPercentage::Calc(*l);
                let right = LengthPercentage::Calc(*r);
                left.lemma_fold_shrinks(o);
                match left.fold_spec(o) {
                    Some(res) => {
                        res.lemma_add_leaves(right);
                    },
                    None => {
                        right.lemma_fold_shrinks(o);
                        match right.fold_spec(o) {
                            Some(res) => {
                                left.lemma_add_leaves(res);
                            },
                            None => {},
                        }
                    },
                }
            },
            (o, LengthPercentage::Calc(Calc::Sum(l, r))) => {
                let left = LengthPercentage::Calc(*l);
                let right = LengthPercentage::Calc(*r);
                o.lemma_fold_shrinks(left);
                match o.fold_spec(left) {
                    Some(res) => {
                        res.lemma_add_leaves(right);
                    },
                    None => {
                        o.lemma_fold_shrinks(right);
                        match o.fold_spec(right) {
                            Some(res) => {
                                left.lemma_add_leaves(res);
                            },
                            None => {},
                        }
                    },
                }
            },
            _ => {},
        }
    }

    /// How a value folds into a sum on its left, said without the test on
    /// the leaves: into the left child, and the right child is added to the
    /// result; else into the right child, and the result is added to the
    /// left child; else not at all.
    pub proof fn lemma_fold_into_sum(l: Calc<LengthPercentage>, r: Calc<LengthPercentage>, other: LengthPercentage)
        requires
            !(other matches LengthPercentage::Calc(Calc::Value(_))),
        ensures
            LengthPercentage::Calc(Calc::Sum(Box::new(l), Box::new(r))).fold_spec(other) == match LengthPercentage::Calc(
                l,
            ).fold_spec(other) {
                Some(res) => Some(res.add_spec(LengthPercentage::Calc(r))),
                None => match LengthPercentage::Calc(r).fold_spec(other) {
                    Some(res) => Some(LengthPercentage::Calc(l).add_spec(res)),
                    None => None,
                },
            },
    {
        LengthPercentage::Calc(l).lemma_fold_shrinks(other);
        LengthPercentage::Calc(r).lemma_fold_shrinks(other);
    }

    /// How a literal folds into a sum on its right, said without the test on
    /// the leaves.
    pub proof fn lemma_fold_literal_into_sum(self, l: Calc<LengthPercentage>, r: Calc<LengthPercentage>)
        requires
            !(self is Calc),
        ensures
            self.fold_spec(LengthPercentage::Calc(Calc::Sum(Box::new(l), Box::new(r)))) == match self.fold_spec(
                LengthPercentage::Calc(l),
            ) {
                Some(res) => Some(res.add_spec(LengthPercentage::Calc(r))),
                None => match self.fold_spec(LengthPercentage::Calc(r)) {
                    Some(res) => Some(LengthPercentage::Calc(l).add_spec(res)),
                    None => None,
                },
            },
    {
        self.lemma_fold_shrinks(LengthPercentage::Calc(l));
        self.lemma_fold_shrinks(LengthPercentage::Calc(r));
    }

    /// The sum of two values holds no more literals than the two together.
    pub proof fn lemma_add_leaves(self, other: LengthPercentage)
        ensures
            self.add_spec(other).leaves() <= self.leaves() + other.leaves(),
        decreases self.leaves() + other.leaves(), self.nodes() + other.nodes(), 1nat,
    {
        self.lemma_fold_shrinks(other);
        self.lemma_build_leaves(other);
    }

    /// What reading a value at `pos` gives: the value and the position
    /// after it, or the error.
    ///
    /// A `calc(` expression is tried first. If it is a single value, that
    /// value is the result, without a tree around it. If there is no such
    /// expression at `pos`, a length is tried, and then a percentage.
    pub open spec fn parse_spec(tokens: Seq<Token>, pos: usize) -> Result<(LengthPercentage, usize), ParseError>
        decreases tokens.len() - pos, 1nat,
        when tokens.len() <= usize::MAX
    {
        if pos >= tokens.len() {
            Err(error_at(tokens, pos))
        } else {
            match LengthPercentage::parse_calc_spec(tokens, pos) {
                Ok((tree, next)) => match tree {
                    Calc::Value(v) => Ok((*v, next)),
                    _ => Ok((LengthPercentage::Calc(tree), next)),
                },
                Err(_) => match Length::parse_spec(tokens, pos) {
                    Ok((length, next)) => Ok((LengthPercentage::Length(length), next)),
                    Err(_) => match Percentage::from_token_spec(tokens[pos as int]) {
                        Some(percentage) => Ok((LengthPercentage::Percentage(percentage), (pos + 1) as usize)),
                        None => Err(error_at(tokens, pos)),
                    },
                },
            }
        }
    }

    /// What reading a `calc(` expression at `pos` gives: the function token
    /// `calc` in any case, a sum, and `)`. The tree is that of the sum, a
    /// literal wrapped as a leaf.
    pub open spec fn parse_calc_spec(tokens: Seq<Token>, pos: usize) -> Result<
        (Calc<LengthPercentage>, usize),
        ParseError,
    >
        decreases tokens.len() - pos, 0nat,
        when tokens.len() <= usize::MAX
    {
        if pos < tokens.len() && (tokens[pos as int] matches Token::Function(name) && lowered(name@)
            == seq!['c', 'a', 'l', 'c']) {
            match LengthPercentage::parse_sum_spec(tokens, (pos + 1) as usize) {
                Ok((value, next)) => if next < tokens.len() && tokens[next as int]
                    is CloseParenthesis {
                    Ok((value.into_calc_spec(), (next + 1) as usize))
                } else {
                    Err(error_at(tokens, next))
                },
                Err(e) => Err(e),
            }
        } else {
            Err(error_at(tokens, pos))
        }
    }

    /// What reading a sum at `pos` gives: a first value, and as many more
    /// as follow, each after a `+` or a `-`. The value is the sum of them
    /// all, taken from the left.
    pub open spec fn parse_sum_spec(tokens: Seq<Token>, pos: usize) -> Result<
        (LengthPercentage, usize),
        ParseError,
    >
        decreases tokens.len() - pos, 2nat,
        when tokens.len() <= usize::MAX
    {
        match LengthPercentage::parse_spec(tokens, pos) {
            Ok((first, next)) => if pos < next <= tokens.len() {
                LengthPercentage::parse_sum_rest_spec(tokens, next, first)
            } else {
                Err(error_at(tokens, pos))
            },
            Err(e) => Err(e),
        }
    }

    /// What reading the rest of a sum at `pos` gives, where the values read
    /// so far add up to `acc`. A value after `-` is subtracted: it is added
    /// with its sign changed.
    ///
    /// The tests on the position after a value, here and in the reading of
    /// a sum, hold always (see `lemma_parse_advances`): a value takes at
    /// least one token.
    pub open spec fn parse_sum_rest_spec(tokens: Seq<Token>, pos: usize, acc: LengthPercentage) -> Result<
        (LengthPercentage, usize),
        ParseError,
    >
        decreases tokens.len() - pos, 0nat,
        when tokens.len() <= usize::MAX
    {
        if pos < tokens.len() && (tokens[pos as int].is_delim('+') || tokens[pos as int].is_delim(
            '-',
        )) {
            match LengthPercentage::parse_spec(tokens, (pos + 1) as usize) {
                Ok((term, next)) => if pos < next <= tokens.len() {
                    let signed = if tokens[pos as int].is_delim('-') {
                        term.scale_spec(minus_one())
                    } else {
                        term
                    };
                    LengthPercentage::parse_sum_rest_spec(tokens, next, acc.add_spec(signed))
                } else {
                    Err(error_at(tokens, pos))
                },
                Err(e) => Err(e),
            }
        } else {
            Ok((acc, pos))
        }
    }

    /// Reading a value takes at least one token and does not go past the
    /// end.
    pub proof fn lemma_parse_advances(tokens: Seq<Token>, pos: usize)
        requires
            tokens.len() <= usize::MAX,
        ensures
            LengthPercentage::parse_spec(tokens, pos) matches Ok((_, next)) ==> pos < next <= tokens.len(),
        decreases tokens.len() - pos, 1nat,
    {
        if pos < tokens.len() {
            LengthPercentage::lemma_parse_calc_advances(tokens, pos);
            Length::lemma_parse_advances(tokens, pos);
        }
    }

    /// Reading a `calc(` expression takes at least one token and does not go
    /// past the end.
    pub proof fn lemma_parse_calc_advances(tokens: Seq<Token>, pos: usize)
        requires
            tokens.len() <= usize::MAX,
        ensures
            LengthPercentage::parse_calc_spec(tokens, pos) matches Ok((_, next)) ==> pos < next
                <= tokens.len(),
        decreases tokens.len() - pos, 0nat,
    {
        if pos < tokens.len() {
            LengthPercentage::lemma_parse_sum_advances(tokens, (pos + 1) as usize);
        }
    }

    /// Reading a sum takes at least one token and does not go past the end.
    pub proof fn lemma_parse_sum_advances(tokens: Seq<Token>, pos: usize)
        requires
            tokens.len() <= usize::MAX,
        ensures
            LengthPercentage::parse_sum_spec(tokens, pos) matches Ok((_, next)) ==> pos < next
                <= tokens.len(),
        decreases tokens.len() - pos, 2nat,
    {
        LengthPercentage::lemma_parse_advances(tokens, pos);
        match LengthPercentage::parse_spec(tokens, pos) {
            Ok((first, next)) => {
                if pos < next <= tokens.len() {
                    LengthPercentage::lemma_parse_sum_rest_advances(tokens, next, first);
                }
            },
            Err(e) => {},
        }
    }

    /// What reading a sum gives, said without the test on the position: the
    /// first value, and the rest of the sum read after it.
    pub proof fn lemma_parse_sum_unfolds(tokens: Seq<Token>, pos: usize)
        requires
            tokens.len() <= usize::MAX,
        ensures
            LengthPercentage::parse_sum_spec(tokens, pos) == match LengthPercentage::parse_spec(tokens, pos) {
                Ok((first, next)) => LengthPercentage::parse_sum_rest_spec(tokens, next, first),
                Err(e) => Err(e),
            },
    {
        LengthPercentage::lemma_parse_advances(tokens, pos);
    }

    /// Reading the rest of a sum does not go back, nor past the end.
    pub proof fn lemma_parse_sum_rest_advances(tokens: Seq<Token>, pos: usize, acc: LengthPercentage)
        requires
            pos <= tokens.len() <= usize::MAX,
        ensures
            LengthPercentage::parse_sum_rest_spec(tokens, pos, acc) matches Ok((_, next)) ==> pos <= next
                <= tokens.len(),
        decreases tokens.len() - pos, 0nat,
    {
        if pos < tokens.len() && (tokens[pos as int].is_delim('+') || tokens[pos as int].is_delim(
            '-',
        )) {
            LengthPercentage::lemma_parse_advances(tokens, (pos + 1) as usize);
            match LengthPercentage::parse_spec(tokens, (pos + 1) as usize) {
                Ok((term, next)) => {
                    if pos < next <= tokens.len() {
                        let signed = if tokens[pos as int].is_delim('-') {
                            term.scale_spec(minus_one())
                        } else {
                            term
                        };
                        LengthPercentage::lemma_parse_sum_rest_advances(tokens, next, acc.add_spec(signed));
                    }
                },
                Err(e) => {},
            }
        }
    }

    /// Scaling a flat value gives a flat value.
    pub proof fn lemma_scale_flat(self, factor: Number)
        requires
            self.is_flat(),
        ensures
            self.scale_spec(factor).is_flat(),
    {
        match self {
            LengthPercentage::Calc(t) => t.lemma_scale_keeps_literal_leaves(factor),
            _ => {},
        }
    }

    /// What two flat values are built into is flat.
    pub proof fn lemma_build_flat(self, other: LengthPercentage)
        requires
            self.is_flat(),
            other.is_flat(),
        ensures
            self.build_spec(other).is_flat(),
        decreases self.nodes() + other.nodes(),
    {
        if !self.is_zero_literal() && !other.is_zero_literal() {
            let swap = self.is_negative_literal() && other.is_positive_literal();
            let first = if swap { other } else { self };
            let second = if swap { self } else { other };
            match (first, second) {
                (LengthPercentage::Calc(a), LengthPercentage::Calc(b)) => {
                    assert(a.add_spec(b).has_literal_leaves());
                },
                (LengthPercentage::Calc(Calc::Value(a)), b) => {
                    (*a).lemma_build_flat(b);
                },
                (a, LengthPercentage::Calc(Calc::Value(b))) => {
                    a.lemma_build_flat(*b);
                },
                (a, b) => {
                    let sum = Calc::Sum(Box::new(a.into_calc_spec()), Box::new(b.into_calc_spec()));
                    assert(a.into_calc_spec().has_literal_leaves());
                    assert(b.into_calc_spec().has_literal_leaves());
                    assert(sum.has_literal_leaves());
                },
            }
        }
    }

    /// What two flat values fold into is flat.
    pub proof fn lemma_fold_flat(self, other: LengthPercentage)
        requires
            self.is_flat(),
            other.is_flat(),
        ensures
            self.fold_spec(other) matches Some(r) ==> r.is_flat(),
        decreases self.leaves() + other.leaves(), self.nodes() + other.nodes(), 0nat,
    {
        match (self, other) {
            (LengthPercentage::Length(a), LengthPercentage::Length(b)) => {},
            (LengthPercentage::Percentage(a), LengthPercentage::Percentage(b)) => {},
            (LengthPercentage::Calc(Calc::Value(v)), o) => {
                (*v).lemma_fold_flat(o);
            },
            (o, LengthPercentage::Calc(Calc::Value(v))) => {
                o.lemma_fold_flat(*v);
            },
            (LengthPercentage::Calc(Calc::Sum(l, r)), o) => {
                let left = LengthPercentage::Calc(*l);
                let right = LengthPercentage::Calc(*r);
                left.lemma_fold_flat(o);
                left.lemma_fold_shrinks(o);
                match left.fold_spec(o) {
                    Some(res) => {
                        res.lemma_add_flat(right);
                    },
                    None => {
                        right.lemma_fold_flat(o);
                        right.lemma_fold_shrinks(o);
                        match right.fold_spec(o) {
                            Some(res) => {
                                left.lemma_add_flat(res);
                            },
                            None => {},
                        }
                    },
                }
            },
            (o, LengthPercentage::Calc(Calc::Sum(l, r))) => {
                let left = LengthPercentage::Calc(*l);
                let right = LengthPercentage::Calc(*r);
                o.lemma_fold_flat(left);
                o.lemma_fold_shrinks(left);
                match o.fold_spec(left) {
                    Some(res) => {
                        res.lemma_add_flat(right);
                    },
                    None => {
                        o.lemma_fold_flat(right);
                        o.lemma_fold_shrinks(right);
                        match o.fold_spec(right) {
                            Some(res) => {
                                left.lemma_add_flat(res);
                            },
                            None => {},
                        }
                    },
                }
            },
            _ => {},
        }
    }

    /// The sum of two flat values is flat.
    pub proof fn lemma_add_flat(self, other: LengthPercentage)
        requires
            self.is_flat(),
            other.is_flat(),
        ensures
            self.add_spec(other).is_flat(),
        decreases self.leaves() + other.leaves(), self.nodes() + other.nodes(), 1nat,
    {
        self.lemma_fold_flat(other);
        self.lemma_build_flat(other);
    }

    /// A value that is read is flat, and never a tree of one leaf: where a
    /// `calc(` expression comes to a single value, that value is the
    /// result.
    pub proof fn lemma_parse_flat(tokens: Seq<Token>, pos: usize)
        requires
            tokens.len() <= usize::MAX,
        ensures
            LengthPercentage::parse_spec(tokens, pos) matches Ok((v, _)) ==> v.is_flat() && !(v matches LengthPercentage::Calc(
                Calc::Value(_),
            )),
        decreases tokens.len() - pos, 1nat,
    {
        if pos < tokens.len() {
            LengthPercentage::lemma_parse_calc_flat(tokens, pos);
        }
    }

    /// The tree of a `calc(` expression that is read has literals for its
    /// leaves.
    pub proof fn lemma_parse_calc_flat(tokens: Seq<Token>, pos: usize)
        requires
            tokens.len() <= usize::MAX,
        ensures
            LengthPercentage::parse_calc_spec(tokens, pos) matches Ok((t, _)) ==> t.has_literal_leaves(),
        decreases tokens.len() - pos, 0nat,
    {
        if pos < tokens.len() {
            LengthPercentage::lemma_parse_sum_flat(tokens, (pos + 1) as usize);
        }
    }

    /// A sum that is read is flat.
    pub proof fn lemma_parse_sum_flat(tokens: Seq<Token>, pos: usize)
        requires
            tokens.len() <= usize::MAX,
        ensures
            LengthPercentage::parse_sum_spec(tokens, pos) matches Ok((v, _)) ==> v.is_flat(),
        decreases tokens.len() - pos, 2nat,
    {
        LengthPercentage::lemma_parse_flat(tokens, pos);
        match LengthPercentage::parse_spec(tokens, pos) {
            Ok((first, next)) => {
                if pos < next <= tokens.len() {
                    LengthPercentage::lemma_parse_sum_rest_flat(tokens, next, first);
                }
            },
            Err(e) => {},
        }
    }

    /// The rest of a sum that is read, added to a flat value, is flat.
    pub proof fn lemma_parse_sum_rest_flat(tokens: Seq<Token>, pos: usize, acc: LengthPercentage)
        requires
            pos <= tokens.len() <= usize::MAX,
            acc.is_flat(),
        ensures
            LengthPercentage::parse_sum_rest_spec(tokens, pos, acc) matches Ok((v, _)) ==> v.is_flat(),
        decreases tokens.len() - pos, 0nat,
    {
        if pos < tokens.len() && (tokens[pos as int].is_delim('+') || tokens[pos as int].is_delim(
            '-',
        )) {
            LengthPercentage::lemma_parse_flat(tokens, (pos + 1) as usize);
            match LengthPercentage::parse_spec(tokens, (pos + 1) as usize) {
                Ok((term, next)) => {
                    if pos < next <= tokens.len() {
                        term.lemma_scale_flat(minus_one());
                        let signed = if tokens[pos as int].is_delim('-') {
                            term.scale_spec(minus_one())
                        } else {
                            term
                        };
                        acc.lemma_add_flat(signed);
                        LengthPercentage::lemma_parse_sum_rest_flat(tokens, next, acc.add_spec(signed));
                    }
                },
                Err(e) => {},
            }
        }
    }

    /// A copy of the value.
    pub fn duplicate(&self) -> (r: LengthPercentage)
        ensures
            r == *self,
        decreases *self,
    {
        match self {
            LengthPercentage::Length(l) => LengthPercentage::Length(l.duplicate()),
            LengthPercentage::Percentage(p) => LengthPercentage::Percentage(*p),
            LengthPercentage::Calc(t) => LengthPercentage::Calc(t.duplicate()),
        }
    }

    /// The tree of an expression, or a literal wrapped as a leaf.
    pub fn into_calc(self) -> (r: Calc<LengthPercentage>)
        ensures
            r == self.into_calc_spec(),
    {
        match self {
            LengthPercentage::Calc(t) => t,
            literal => Calc::Value(Box::new(literal)),
        }
    }

    /// The expression with the tree `tree`.
    pub fn from_calc(tree: Calc<LengthPercentage>) -> (r: LengthPercentage)
        ensures
            r == LengthPercentage::Calc(tree),
    {
        LengthPercentage::Calc(tree)
    }

    /// Whether this is a literal of magnitude exactly `other`. An expression
    /// equals no number.
    pub fn eq_number(&self, other: Number) -> (r: bool)
        ensures
            r == (self.literal_value() == Some(other)),
    {
        match self {
            LengthPercentage::Length(a) => a.eq_number(other),
            LengthPercentage::Percentage(a) => a.eq_number(other),
            LengthPercentage::Calc(_) => false,
        }
    }

    /// How the magnitude of a literal stands to `other`. An expression is
    /// not ordered against a number.
    pub fn partial_cmp_number(&self, other: Number) -> (r: Option<Ordering>)
        ensures
            r == match self.literal_value() {
                Some(v) => Some(ordering_of(v@, other@)),
                None => None,
            },
    {
        match self {
            LengthPercentage::Length(a) => a.partial_cmp_number(other),
            LengthPercentage::Percentage(a) => a.partial_cmp_number(other),
            LengthPercentage::Calc(_) => None,
        }
    }

    /// The value with every literal in it multiplied by `factor`.
    pub fn scale(self, factor: Number) -> (r: LengthPercentage)
        ensures
            r == self.scale_spec(factor),
        decreases self,
    {
        match self {
            LengthPercentage::Length(a) => LengthPercentage::Length(a.scale(factor)),
            LengthPercentage::Percentage(a) => LengthPercentage::Percentage(a.scale(factor)),
            LengthPercentage::Calc(t) => LengthPercentage::Calc(t.scale(factor)),
        }
    }

    /// What two values that do not fold into one are built into.
    pub fn build(self, other: LengthPercentage) -> (r: LengthPercentage)
        ensures
            r == self.build_spec(other),
        decreases self.nodes() + other.nodes(),
    {
        if self.eq_number(Number::zero()) {
            return other;
        }
        if other.eq_number(Number::zero()) {
            return self;
        }
        let swap = self.is_negative() && other.is_positive();
        let (first, second) = if swap {
            (other, self)
        } else {
            (self, other)
        };
        match (first, second) {
            (LengthPercentage::Calc(a), LengthPercentage::Calc(b)) => LengthPercentage::Calc(a.add(b)),
            (LengthPercentage::Calc(Calc::Value(a)), b) => (*a).build(b),
            (a, LengthPercentage::Calc(Calc::Value(b))) => a.build(*b),
            (a, b) => LengthPercentage::Calc(Calc::Sum(Box::new(a.into_calc()), Box::new(b.into_calc()))),
        }
    }

    /// The single value that two values fold into, if their units allow
    /// it; neither operand is changed.
    pub fn fold(&self, other: &LengthPercentage) -> (r: Option<LengthPercentage>)
        ensures
            r == self.fold_spec(*other),
        decreases self.leaves() + other.leaves(), self.nodes() + other.nodes(), 0nat,
    {
        match (self, other) {
            (LengthPercentage::Length(a), LengthPercentage::Length(b)) => match a.fold(b) {
                Some(res) => Some(LengthPercentage::Length(res)),
                None => None,
            },
            (LengthPercentage::Percentage(a), LengthPercentage::Percentage(b)) => Some(LengthPercentage::Percentage(a.add(*b))),
            (LengthPercentage::Calc(Calc::Value(v)), o) => (**v).fold(o),
            (o, LengthPercentage::Calc(Calc::Value(v))) => o.fold(&**v),
            (LengthPercentage::Calc(Calc::Sum(l, r)), o) => {
                let left = LengthPercentage::Calc((**l).duplicate());
                proof {
                    left.lemma_fold_shrinks(*o);
                }
                match left.fold(o) {
                    Some(res) => Some(res.add(LengthPercentage::Calc((**r).duplicate()))),
                    None => {
                        let right = LengthPercentage::Calc((**r).duplicate());
                        proof {
                            right.lemma_fold_shrinks(*o);
                        }
                        match right.fold(o) {
                            Some(res) => Some(left.add(res)),
                            None => None,
                        }
                    },
                }
            },
            (o, LengthPercentage::Calc(Calc::Sum(l, r))) => {
                let left = LengthPercentage::Calc((**l).duplicate());
                proof {
                    o.lemma_fold_shrinks(left);
                }
                match o.fold(&left) {
                    Some(res) => Some(res.add(LengthPercentage::Calc((**r).duplicate()))),
                    None => {
                        let right = LengthPercentage::Calc((**r).duplicate());
                        proof {
                            o.lemma_fold_shrinks(right);
                        }
                        match o.fold(&right) {
                            Some(res) => Some(left.add(res)),
                            None => None,
                        }
                    },
                }
            },
            _ => None,
        }
    }

    /// The sum of two values: one literal where their units allow it,
    /// otherwise an expression that holds both.
    pub fn add(self, other: LengthPercentage) -> (r: LengthPercentage)
        ensures
            r == self.add_spec(other),
        decreases self.leaves() + other.leaves(), self.nodes() + other.nodes(), 1nat,
    {
        match self.fold(&other) {
            Some(res) => res,
            None => self.build(other),
        }
    }

    /// Whether this is a literal of magnitude below zero.
    pub fn is_negative(&self) -> (r: bool)
        ensures
            r == self.is_negative_literal(),
    {
        matches!(self.partial_cmp_number(Number::zero()), Some(Ordering::Less))
    }

    /// Whether this is a literal of magnitude above zero.
    pub fn is_positive(&self) -> (r: bool)
        ensures
            r == self.is_positive_literal(),
    {
        matches!(self.partial_cmp_number(Number::zero()), Some(Ordering::Greater))
    }

    /// Appends the shortest CSS text of the value to `dest`: that of the
    /// length or of the percentage, or for an expression the text of its
    /// tree inside `calc(` and `)`.
    pub fn to_css(&self, dest: &mut String)
        ensures
            final(dest)@ == old(dest)@ + self.css_text(),
        decreases *self,
    {
        match self {
            LengthPercentage::Calc(t) => {
                proof {
                    reveal_strlit("calc(");
                    reveal_strlit(")");
                }
                dest.append("calc(");
                t.to_css(dest);
                dest.append(")");
                assert(dest@ =~= old(dest)@ + self.css_text());
            },
            LengthPercentage::Length(l) => l.to_css(dest),
            LengthPercentage::Percentage(p) => p.to_css(dest),
        }
    }

    fn write_literal(&self, dest: &mut String)
        requires
            self.literal_value() is Some,
        ensures
            final(dest)@ == old(dest)@ + self.literal_text(),
    {
        match self {
            LengthPercentage::Length(l) => l.to_css(dest),
            LengthPercentage::Percentage(p) => p.to_css(dest),
            LengthPercentage::Calc(_) => {},
        }
    }

    /// The shortest CSS text of the value.
    pub fn to_css_string(&self) -> (r: String)
        ensures
            r@ == self.css_text(),
    {
        let mut dest = String::new();
        self.to_css(&mut dest);
        assert(dest@ =~= self.css_text());
        dest
    }

    /// Reads a value at `pos`: a `calc(` expression, or else a length, or
    /// else a percentage.
    ///
    /// Returns the value and the position after it. Where none of the three
    /// is there, the error is an unexpected token at `pos`, or the end of
    /// input at `pos` if no token is left.
    pub fn parse(tokens: &[Token], pos: usize) -> (r: Result<(LengthPercentage, usize), ParseError>)
        ensures
            r == LengthPercentage::parse_spec(tokens@, pos),
            r matches Ok((v, next)) ==> pos < next <= tokens@.len() && v.is_flat() && !(v matches LengthPercentage::Calc(
                Calc::Value(_),
            )),
        decreases tokens@.len() - pos, 1nat,
    {
        if pos >= tokens.len() {
            return Err(new_error_for_next_token(tokens, pos));
        }
        proof {
            LengthPercentage::lemma_parse_flat(tokens@, pos);
        }
        match LengthPercentage::parse_calc(tokens, pos) {
            Ok((tree, next)) => match tree {
                Calc::Value(v) => Ok((*v, next)),
                other => Ok((LengthPercentage::Calc(other), next)),
            },
            Err(_) => match Length::parse(tokens, pos) {
                Ok((length, next)) => Ok((LengthPercentage::Length(length), next)),
                Err(_) => match Percentage::from_token(&tokens[pos]) {
                    Some(percentage) => Ok((LengthPercentage::Percentage(percentage), pos + 1)),
                    None => Err(new_error_for_next_token(tokens, pos)),
                },
            },
        }
    }

    /// Reads a `calc(` expression over values at `pos`.
    pub fn parse_calc(tokens: &[Token], pos: usize) -> (r: Result<(Calc<LengthPercentage>, usize), ParseError>)
        ensures
            r == LengthPercentage::parse_calc_spec(tokens@, pos),
            r matches Ok((_, next)) ==> pos < next <= tokens@.len(),
        decreases tokens@.len() - pos, 0nat,
    {
        if pos >= tokens.len() {
            return Err(new_error_for_next_token(tokens, pos));
        }
        let open = match &tokens[pos] {
            Token::Function(name) => {
                proof {
                    reveal_strlit("calc");
                    assert("calc"@ =~= seq!['c', 'a', 'l', 'c']);
                }
                matches_keyword(name.as_str(), "calc")
            },
            _ => false,
        };
        if !open {
            return Err(new_error_for_next_token(tokens, pos));
        }
        match LengthPercentage::parse_sum(tokens, pos + 1) {
            Ok((value, next)) => if next < tokens.len() && matches!(
                tokens[next],
                Token::CloseParenthesis
            ) {
                Ok((value.into_calc(), next + 1))
            } else {
                Err(new_error_for_next_token(tokens, next))
            },
            Err(e) => Err(e),
        }
    }

    /// Reads a sum of values at `pos`.
    pub fn parse_sum(tokens: &[Token], pos: usize) -> (r: Result<(LengthPercentage, usize), ParseError>)
        ensures
            r == LengthPercentage::parse_sum_spec(tokens@, pos),
            r matches Ok((_, next)) ==> pos < next <= tokens@.len(),
        decreases tokens@.len() - pos, 2nat,
    {
        if pos >= tokens.len() {
            return Err(new_error_for_next_token(tokens, pos));
        }
        match LengthPercentage::parse(tokens, pos) {
            Ok((first, next)) => LengthPercentage::parse_sum_rest(tokens, next, first),
            Err(e) => Err(e),
        }
    }

    fn parse_sum_rest(tokens: &[Token], pos: usize, acc: LengthPercentage) -> (r: Result<
        (LengthPercentage, usize),
        ParseError,
    >)
        requires
            pos <= tokens@.len(),
        ensures
            r == LengthPercentage::parse_sum_rest_spec(tokens@, pos, acc),
            r matches Ok((_, next)) ==> pos <= next <= tokens@.len(),
        decreases tokens@.len() - pos, 0nat,
    {
        if pos >= tokens.len() {
            return Ok((acc, pos));
        }
        let minus = match &tokens[pos] {
            Token::Delim(c) => {
                if *c == '+' {
                    false
                } else if *c == '-' {
                    true
                } else {
                    return Ok((acc, pos));
                }
            },
            _ => {
                return Ok((acc, pos));
            },
        };
        match LengthPercentage::parse(tokens, pos + 1) {
            Ok((term, next)) => {
                let signed = if minus {
                    term.scale(Number::from_int(-1))
                } else {
                    term
                };
                LengthPercentage::parse_sum_rest(tokens, next, acc.add(signed))
            },
            Err(e) => Err(e),
        }
    }
}

impl Clone for LengthPercentageOrAuto {
    fn clone(&self) -> (r: Self)
        ensures
            r == *self,
    {
        match self {
            LengthPercentageOrAuto::Auto => LengthPercentageOrAuto::Auto,
            LengthPercentageOrAuto::LengthPercentage(v) => LengthPercentageOrAuto::LengthPercentage(
                v.duplicate(),
            ),
        }
    }
}

impl LengthPercentageOrAuto {
    /// The CSS text: the keyword `auto`, or the text of the value.
    pub open spec fn css_text(self) -> Seq<char> {
        match self {
            LengthPercentageOrAuto::Auto => seq!['a', 'u', 't', 'o'],
            LengthPercentageOrAuto::LengthPercentage(v) => v.css_text(),
        }
    }

    /// What reading at `pos` gives: a length or percentage, or else the
    /// keyword `auto`, in any case.
    pub open spec fn parse_spec(tokens: Seq<Token>, pos: usize) -> Result<
        (LengthPercentageOrAuto, usize),
        ParseError,
    > {
        match LengthPercentage::parse_spec(tokens, pos) {
            Ok((v, next)) => Ok((LengthPercentageOrAuto::LengthPercentage(v), next)),
            Err(_) => if pos < tokens.len() && (tokens[pos as int] matches Token::Ident(name)
                && lowered(name@) == seq!['a', 'u', 't', 'o']) {
                Ok((LengthPercentageOrAuto::Auto, (pos + 1) as usize))
            } else {
                Err(error_at(tokens, pos))
            },
        }
    }

    /// Reads a length or percentage, or else the keyword `auto`, at `pos`.
    ///
    /// Where neither is there, the error is an unexpected token at `pos`, or
    /// the end of input at `pos` if no token is left.
    pub fn parse(tokens: &[Token], pos: usize) -> (r: Result<
        (LengthPercentageOrAuto, usize),
        ParseError,
    >)
        ensures
            r == LengthPercentageOrAuto::parse_spec(tokens@, pos),
            r matches Ok((_, next)) ==> pos < next <= tokens@.len(),
    {
        match LengthPercentage::parse(tokens, pos) {
            Ok((v, next)) => Ok((LengthPercentageOrAuto::LengthPercentage(v), next)),
            Err(_) => {
                if pos < tokens.len() {
                    let auto = match &tokens[pos] {
                        Token::Ident(name) => {
                            proof {
                                reveal_strlit("auto");
                                assert("auto"@ =~= seq!['a', 'u', 't', 'o']);
                            }
                            matches_keyword(name.as_str(), "auto")
                        },
                        _ => false,
                    };
                    if auto {
                        return Ok((LengthPercentageOrAuto::Auto, pos + 1));
                    }
                }
                Err(new_error_for_next_token(tokens, pos))
            },
        }
    }

    /// Appends the CSS text to `dest`.
    pub fn to_css(&self, dest: &mut String)
        ensures
            final(dest)@ == old(dest)@ + self.css_text(),
    {
        match self {
            LengthPercentageOrAuto::Auto => {
                proof {
                    reveal_strlit("auto");
                    assert("auto"@ =~= seq!['a', 'u', 't', 'o']);
                }
                dest.append("auto");
            },
            LengthPercentageOrAuto::LengthPercentage(v) => v.to_css(dest),
        }
    }
}

} // verus!
