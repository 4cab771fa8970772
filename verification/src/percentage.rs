//! Percentages: ratios that stand beside lengths in sums.

use crate::number::{number_text, ordering_of, Number};
use crate::token::Token;
use core::cmp::Ordering;
use vstd::prelude::*;

verus! {

/// A percentage, held as a ratio: one is `100%`.
#[derive(Clone, Copy, Debug, PartialEq, Eq)]
pub struct Percentage(pub Number);

impl Percentage {
    /// The sum of two percentages.
    pub open spec fn add_spec(self, other: Percentage) -> Percentage {
        Percentage(self.0.add_spec(other.0))
    }

    /// The percentage multiplied by `factor`.
    pub open spec fn scale_spec(self, factor: Number) -> Percentage {
        Percentage(self.0.mul_spec(factor))
    }

    /// The text of the percentage: a hundred times the ratio in its shortest
    /// text, and a percent sign.
    pub open spec fn css_text(self) -> Seq<char> {
        number_text(self.0.mul_ratio_spec(100, 1)@) + seq!['%']
    }

    /// The percentage that one token stands for.
    pub open spec fn from_token_spec(token: Token) -> Option<Percentage> {
        match token {
            Token::Percentage(ratio) => Some(Percentage(ratio)),
            _ => None,
        }
    }

    /// The sum of two percentages: ratios always add.
    pub fn add(self, other: Percentage) -> (r: Percentage)
        ensures
            r == self.add_spec(other),
    {
        Percentage(self.0.add(other.0))
    }

    /// The percentage multiplied by `factor`.
    pub fn scale(self, factor: Number) -> (r: Percentage)
        ensures
            r == self.scale_spec(factor),
    {
        Percentage(self.0.mul(factor))
    }

    /// Whether the ratio is exactly `other`.
    pub fn eq_number(&self, other: Number) -> (r: bool)
        ensures
            r == (self.0 == other),
    {
        self.0.micros == other.micros
    }

    /// How the ratio stands to `other`.
    pub fn partial_cmp_number(&self, other: Number) -> (r: Option<Ordering>)
        ensures
            r == Some(ordering_of(self.0@, other@)),
    {
        Some(self.0.ordering(other))
    }

    /// The percentage that one token stands for, if it stands for one.
    pub fn from_token(token: &Token) -> (r: Option<Percentage>)
        ensures
            r == Percentage::from_token_spec(*token),
    {
        match token {
            Token::Percentage(ratio) => Some(Percentage(*ratio)),
            _ => None,
        }
    }

    /// Appends the text of the percentage to `dest`.
    pub fn to_css(&self, dest: &mut String)
        ensures
            final(dest)@ == old(dest)@ + self.css_text(),
    {
        let hundredfold = self.0.mul_ratio(100, 1);
        hundredfold.to_css(dest);
        proof {
            reveal_strlit("%");
        }
        dest.append("%");
        assert(dest@ =~= old(dest)@ + self.css_text());
    }
}

} // verus!
