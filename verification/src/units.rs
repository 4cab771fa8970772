//! The unit catalog: absolute and relative lengths, each a unit tag with a
//! magnitude, and the conversion of absolute lengths to pixels.

use crate::number::{ordering_of, Number};
use crate::text::{lowered, matches_keyword};
use core::cmp::Ordering;
use vstd::prelude::*;

verus! {

/// A length whose size in pixels does not depend on context.
#[derive(Clone, Copy, Debug, PartialEq, Eq)]
pub enum AbsoluteLength {
    Px(Number),
    In(Number),
    Cm(Number),
    Mm(Number),
    Q(Number),
    Pt(Number),
    Pc(Number),
}

/// A length whose size depends on the font or the viewport.
#[derive(Clone, Copy, Debug, PartialEq, Eq)]
pub enum RelativeLength {
    Em(Number),
    Ex(Number),
    Ch(Number),
    Rem(Number),
    Vw(Number),
    Vh(Number),
    Vmin(Number),
    Vmax(Number),
}

impl AbsoluteLength {
    /// The magnitude.
    pub open spec fn value(self) -> Number {
        match self {
            AbsoluteLength::Px(v) => v,
            AbsoluteLength::In(v) => v,
            AbsoluteLength::Cm(v) => v,
            AbsoluteLength::Mm(v) => v,
            AbsoluteLength::Q(v) => v,
            AbsoluteLength::Pt(v) => v,
            AbsoluteLength::Pc(v) => v,
        }
    }

    /// The same unit with the magnitude `v`.
    pub open spec fn with_value(self, v: Number) -> AbsoluteLength {
        match self {
            AbsoluteLength::Px(_) => AbsoluteLength::Px(v),
            AbsoluteLength::In(_) => AbsoluteLength::In(v),
            AbsoluteLength::Cm(_) => AbsoluteLength::Cm(v),
            AbsoluteLength::Mm(_) => AbsoluteLength::Mm(v),
            AbsoluteLength::Q(_) => AbsoluteLength::Q(v),
            AbsoluteLength::Pt(_) => AbsoluteLength::Pt(v),
            AbsoluteLength::Pc(_) => AbsoluteLength::Pc(v),
        }
    }

    /// Whether both lengths are in the same unit.
    pub open spec fn same_unit(self, other: AbsoluteLength) -> bool {
        self.with_value(other.value()) == other
    }

    /// The unit's name as it is written after the magnitude.
    pub open spec fn suffix(self) -> Seq<char> {
        match self {
            AbsoluteLength::Px(_) => seq!['p', 'x'],
            AbsoluteLength::In(_) => seq!['i', 'n'],
            AbsoluteLength::Cm(_) => seq!['c', 'm'],
            AbsoluteLength::Mm(_) => seq!['m', 'm'],
            AbsoluteLength::Q(_) => seq!['q'],
            AbsoluteLength::Pt(_) => seq!['p', 't'],
            AbsoluteLength::Pc(_) => seq!['p', 'c'],
        }
    }

    /// Pixels per unit, as a numerator and a denominator: an inch is 96
    /// pixels, a centimetre 1/2.54 inch, a millimetre a tenth and a quarter
    /// millimetre a fortieth of a centimetre, a point 1/72 and a pica 1/6
    /// inch.
    pub open spec fn px_ratio(self) -> (int, int) {
        match self {
            AbsoluteLength::Px(_) => (1, 1),
            AbsoluteLength::In(_) => (96, 1),
            AbsoluteLength::Cm(_) => (4800, 127),
            AbsoluteLength::Mm(_) => (480, 127),
            AbsoluteLength::Q(_) => (120, 127),
            AbsoluteLength::Pt(_) => (4, 3),
            AbsoluteLength::Pc(_) => (16, 1),
        }
    }

    /// The magnitude in pixels.
    pub open spec fn px_value(self) -> Number {
        self.value().mul_ratio_spec(self.px_ratio().0, self.px_ratio().1)
    }

    /// The sum of two absolute lengths: in their unit if they share it,
    /// otherwise in pixels.
    pub open spec fn add_spec(self, other: AbsoluteLength) -> AbsoluteLength {
        if self.same_unit(other) {
            self.with_value(self.value().add_spec(other.value()))
        } else {
            AbsoluteLength::Px(self.px_value().add_spec(other.px_value()))
        }
    }

    /// This length with its magnitude multiplied by `factor`.
    pub open spec fn scale_spec(self, factor: Number) -> AbsoluteLength {
        self.with_value(self.value().mul_spec(factor))
    }

    /// The absolute length of magnitude `value` whose unit is named `unit`,
    /// in any mix of upper and lower case.
    pub open spec fn from_unit_spec(value: Number, unit: Seq<char>) -> Option<AbsoluteLength> {
        let u = lowered(unit);
        if u == AbsoluteLength::Px(value).suffix() {
            Some(AbsoluteLength::Px(value))
        } else if u == AbsoluteLength::In(value).suffix() {
            Some(AbsoluteLength::In(value))
        } else if u == AbsoluteLength::Cm(value).suffix() {
            Some(AbsoluteLength::Cm(value))
        } else if u == AbsoluteLength::Mm(value).suffix() {
            Some(AbsoluteLength::Mm(value))
        } else if u == AbsoluteLength::Q(value).suffix() {
            Some(AbsoluteLength::Q(value))
        } else if u == AbsoluteLength::Pt(value).suffix() {
            Some(AbsoluteLength::Pt(value))
        } else if u == AbsoluteLength::Pc(value).suffix() {
            Some(AbsoluteLength::Pc(value))
        } else {
            None
        }
    }

    /// The magnitude in pixels, rounded to the nearest millionth.
    pub fn to_px(&self) -> (r: Number)
        ensures
            r == self.px_value(),
    {
        match self {
            AbsoluteLength::Px(v) => v.mul_ratio(1, 1),
            AbsoluteLength::In(v) => v.mul_ratio(96, 1),
            AbsoluteLength::Cm(v) => v.mul_ratio(4800, 127),
            AbsoluteLength::Mm(v) => v.mul_ratio(480, 127),
            AbsoluteLength::Q(v) => v.mul_ratio(120, 127),
            AbsoluteLength::Pt(v) => v.mul_ratio(4, 3),
            AbsoluteLength::Pc(v) => v.mul_ratio(16, 1),
        }
    }

    /// The magnitude and the unit's name.
    pub fn to_unit_value(&self) -> (r: (Number, &'static str))
        ensures
            r.0 == self.value(),
            r.1@ == self.suffix(),
    {
        proof {
            reveal_strlit("px");
            reveal_strlit("in");
            reveal_strlit("cm");
            reveal_strlit("mm");
            reveal_strlit("q");
            reveal_strlit("pt");
            reveal_strlit("pc");
        }
        match self {
            AbsoluteLength::Px(v) => (*v, "px"),
            AbsoluteLength::In(v) => (*v, "in"),
            AbsoluteLength::Cm(v) => (*v, "cm"),
            AbsoluteLength::Mm(v) => (*v, "mm"),
            AbsoluteLength::Q(v) => (*v, "q"),
            AbsoluteLength::Pt(v) => (*v, "pt"),
            AbsoluteLength::Pc(v) => (*v, "pc"),
        }
    }

    /// The absolute length of magnitude `value` in the unit named `unit`, if
    /// `unit` names an absolute unit.
    pub fn from_unit(value: Number, unit: &str) -> (r: Option<AbsoluteLength>)
        ensures
            r == AbsoluteLength::from_unit_spec(value, unit@),
    {
        proof {
            reveal_strlit("px");
            assert("px"@ =~= seq!['p', 'x']);
            reveal_strlit("in");
            assert("in"@ =~= seq!['i', 'n']);
            reveal_strlit("cm");
            assert("cm"@ =~= seq!['c', 'm']);
            reveal_strlit("mm");
            assert("mm"@ =~= seq!['m', 'm']);
            reveal_strlit("q");
            assert("q"@ =~= seq!['q']);
            reveal_strlit("pt");
            assert("pt"@ =~= seq!['p', 't']);
            reveal_strlit("pc");
            assert("pc"@ =~= seq!['p', 'c']);
        }
        if matches_keyword(unit, "px") {
            Some(AbsoluteLength::Px(value))
        } else if matches_keyword(unit, "in") {
            Some(AbsoluteLength::In(value))
        } else if matches_keyword(unit, "cm") {
            Some(AbsoluteLength::Cm(value))
        } else if matches_keyword(unit, "mm") {
            Some(AbsoluteLength::Mm(value))
        } else if matches_keyword(unit, "q") {
            Some(AbsoluteLength::Q(value))
        } else if matches_keyword(unit, "pt") {
            Some(AbsoluteLength::Pt(value))
        } else if matches_keyword(unit, "pc") {
            Some(AbsoluteLength::Pc(value))
        } else {
            None
        }
    }

    /// This length with its magnitude multiplied by `factor`.
    pub fn scale(self, factor: Number) -> (r: AbsoluteLength)
        ensures
            r == self.scale_spec(factor),
    {
        match self {
            AbsoluteLength::Px(v) => AbsoluteLength::Px(v.mul(factor)),
            AbsoluteLength::In(v) => AbsoluteLength::In(v.mul(factor)),
            AbsoluteLength::Cm(v) => AbsoluteLength::Cm(v.mul(factor)),
            AbsoluteLength::Mm(v) => AbsoluteLength::Mm(v.mul(factor)),
            AbsoluteLength::Q(v) => AbsoluteLength::Q(v.mul(factor)),
            AbsoluteLength::Pt(v) => AbsoluteLength::Pt(v.mul(factor)),
            AbsoluteLength::Pc(v) => AbsoluteLength::Pc(v.mul(factor)),
        }
    }

    /// The sum of two absolute lengths: in their unit if they share it,
    /// otherwise in pixels.
    pub fn add(self, other: AbsoluteLength) -> (r: AbsoluteLength)
        ensures
            r == self.add_spec(other),
    {
        match (self, other) {
            (AbsoluteLength::Px(a), AbsoluteLength::Px(b)) => AbsoluteLength::Px(a.add(b)),
            (AbsoluteLength::In(a), AbsoluteLength::In(b)) => AbsoluteLength::In(a.add(b)),
            (AbsoluteLength::Cm(a), AbsoluteLength::Cm(b)) => AbsoluteLength::Cm(a.add(b)),
            (AbsoluteLength::Mm(a), AbsoluteLength::Mm(b)) => AbsoluteLength::Mm(a.add(b)),
            (AbsoluteLength::Q(a), AbsoluteLength::Q(b)) => AbsoluteLength::Q(a.add(b)),
            (AbsoluteLength::Pt(a), AbsoluteLength::Pt(b)) => AbsoluteLength::Pt(a.add(b)),
            (AbsoluteLength::Pc(a), AbsoluteLength::Pc(b)) => AbsoluteLength::Pc(a.add(b)),
            (a, b) => AbsoluteLength::Px(a.to_px().add(b.to_px())),
        }
    }

    /// Whether the magnitude is exactly `other`.
    pub fn eq_number(&self, other: Number) -> (r: bool)
        ensures
            r == (self.value() == other),
    {
        match self {
            AbsoluteLength::Px(v) => v.micros == other.micros,
            AbsoluteLength::In(v) => v.micros == other.micros,
            AbsoluteLength::Cm(v) => v.micros == other.micros,
            AbsoluteLength::Mm(v) => v.micros == other.micros,
            AbsoluteLength::Q(v) => v.micros == other.micros,
            AbsoluteLength::Pt(v) => v.micros == other.micros,
            AbsoluteLength::Pc(v) => v.micros == other.micros,
        }
    }

    /// How the magnitude stands to `other`.
    pub fn partial_cmp_number(&self, other: Number) -> (r: Option<Ordering>)
        ensures
            r == Some(ordering_of(self.value()@, other@)),
    {
        match self {
            AbsoluteLength::Px(v) => Some(v.ordering(other)),
            AbsoluteLength::In(v) => Some(v.ordering(other)),
            AbsoluteLength::Cm(v) => Some(v.ordering(other)),
            AbsoluteLength::Mm(v) => Some(v.ordering(other)),
            AbsoluteLength::Q(v) => Some(v.ordering(other)),
            AbsoluteLength::Pt(v) => Some(v.ordering(other)),
            AbsoluteLength::Pc(v) => Some(v.ordering(other)),
        }
    }
}

impl RelativeLength {
    /// The magnitude.
    pub open spec fn value(self) -> Number {
        match self {
            RelativeLength::Em(v) => v,
            RelativeLength::Ex(v) => v,
            RelativeLength::Ch(v) => v,
            RelativeLength::Rem(v) => v,
            RelativeLength::Vw(v) => v,
            RelativeLength::Vh(v) => v,
            RelativeLength::Vmin(v) => v,
            RelativeLength::Vmax(v) => v,
        }
    }

    /// The same unit with the magnitude `v`.
    pub open spec fn with_value(self, v: Number) -> RelativeLength {
        match self {
            RelativeLength::Em(_) => RelativeLength::Em(v),
            RelativeLength::Ex(_) => RelativeLength::Ex(v),
            RelativeLength::Ch(_) => RelativeLength::Ch(v),
            RelativeLength::Rem(_) => RelativeLength::Rem(v),
            RelativeLength::Vw(_) => RelativeLength::Vw(v),
            RelativeLength::Vh(_) => RelativeLength::Vh(v),
            RelativeLength::Vmin(_) => RelativeLength::Vmin(v),
            RelativeLength::Vmax(_) => RelativeLength::Vmax(v),
        }
    }

    /// Whether both lengths are in the same unit.
    pub open spec fn same_unit(self, other: RelativeLength) -> bool {
        self.with_value(other.value()) == other
    }

    /// The unit's name as it is written after the magnitude.
    pub open spec fn suffix(self) -> Seq<char> {
        match self {
            RelativeLength::Em(_) => seq!['e', 'm'],
            RelativeLength::Ex(_) => seq!['e', 'x'],
            RelativeLength::Ch(_) => seq!['c', 'h'],
            RelativeLength::Rem(_) => seq!['r', 'e', 'm'],
            RelativeLength::Vw(_) => seq!['v', 'w'],
            RelativeLength::Vh(_) => seq!['v', 'h'],
            RelativeLength::Vmin(_) => seq!['v', 'm', 'i', 'n'],
            RelativeLength::Vmax(_) => seq!['v', 'm', 'a', 'x'],
        }
    }

    /// The sum of two relative lengths, which exists only if they share
    /// their unit.
    pub open spec fn fold_spec(self, other: RelativeLength) -> Option<RelativeLength> {
        if self.same_unit(other) {
            Some(self.with_value(self.value().add_spec(other.value())))
        } else {
            None
        }
    }

    /// This length with its magnitude multiplied by `factor`.
    pub open spec fn scale_spec(self, factor: Number) -> RelativeLength {
        self.with_value(self.value().mul_spec(factor))
    }

    /// The relative length of magnitude `value` whose unit is named `unit`,
    /// in any mix of upper and lower case.
    pub open spec fn from_unit_spec(value: Number, unit: Seq<char>) -> Option<RelativeLength> {
        let u = lowered(unit);
        if u == RelativeLength::Em(value).suffix() {
            Some(RelativeLength::Em(value))
        } else if u == RelativeLength::Ex(value).suffix() {
            Some(RelativeLength::Ex(value))
        } else if u == RelativeLength::Ch(value).suffix() {
            Some(RelativeLength::Ch(value))
        } else if u == RelativeLength::Rem(value).suffix() {
            Some(RelativeLength::Rem(value))
        } else if u == RelativeLength::Vw(value).suffix() {
            Some(RelativeLength::Vw(value))
        } else if u == RelativeLength::Vh(value).suffix() {
            Some(RelativeLength::Vh(value))
        } else if u == RelativeLength::Vmin(value).suffix() {
            Some(RelativeLength::Vmin(value))
        } else if u == RelativeLength::Vmax(value).suffix() {
            Some(RelativeLength::Vmax(value))
        } else {
            None
        }
    }

    /// The magnitude and the unit's name.
    pub fn to_unit_value(&self) -> (r: (Number, &'static str))
        ensures
            r.0 == self.value(),
            r.1@ == self.suffix(),
    {
        proof {
            reveal_strlit("em");
            reveal_strlit("ex");
            reveal_strlit("ch");
            reveal_strlit("rem");
            reveal_strlit("vw");
            reveal_strlit("vh");
            reveal_strlit("vmin");
            reveal_strlit("vmax");
        }
        match self {
            RelativeLength::Em(v) => (*v, "em"),
            RelativeLength::Ex(v) => (*v, "ex"),
            RelativeLength::Ch(v) => (*v, "ch"),
            RelativeLength::Rem(v) => (*v, "rem"),
            RelativeLength::Vw(v) => (*v, "vw"),
            RelativeLength::Vh(v) => (*v, "vh"),
            RelativeLength::Vmin(v) => (*v, "vmin"),
            RelativeLength::Vmax(v) => (*v, "vmax"),
        }
    }

    /// The relative length of magnitude `value` in the unit named `unit`, if
    /// `unit` names a relative unit.
    pub fn from_unit(value: Number, unit: &str) -> (r: Option<RelativeLength>)
        ensures
            r == RelativeLength::from_unit_spec(value, unit@),
    {
        proof {
            reveal_strlit("em");
            assert("em"@ =~= seq!['e', 'm']);
            reveal_strlit("ex");
            assert("ex"@ =~= seq!['e', 'x']);
            reveal_strlit("ch");
            assert("ch"@ =~= seq!['c', 'h']);
            reveal_strlit("rem");
            assert("rem"@ =~= seq!['r', 'e', 'm']);
            reveal_strlit("vw");
            assert("vw"@ =~= seq!['v', 'w']);
            reveal_strlit("vh");
            assert("vh"@ =~= seq!['v', 'h']);
            reveal_strlit("vmin");
            assert("vmin"@ =~= seq!['v', 'm', 'i', 'n']);
            reveal_strlit("vmax");
            assert("vmax"@ =~= seq!['v', 'm', 'a', 'x']);
        }
        if matches_keyword(unit, "em") {
            Some(RelativeLength::Em(value))
        } else if matches_keyword(unit, "ex") {
            Some(RelativeLength::Ex(value))
        } else if matches_keyword(unit, "ch") {
            Some(RelativeLength::Ch(value))
        } else if matches_keyword(unit, "rem") {
            Some(RelativeLength::Rem(value))
        } else if matches_keyword(unit, "vw") {
            Some(RelativeLength::Vw(value))
        } else if matches_keyword(unit, "vh") {
            Some(RelativeLength::Vh(value))
        } else if matches_keyword(unit, "vmin") {
            Some(RelativeLength::Vmin(value))
        } else if matches_keyword(unit, "vmax") {
            Some(RelativeLength::Vmax(value))
        } else {
            None
        }
    }

    /// The sum of two relative lengths if they share their unit, and
    /// nothing otherwise: what one unit measures in another is not known
    /// here.
    pub fn fold(&self, other: &RelativeLength) -> (r: Option<RelativeLength>)
        ensures
            r == self.fold_spec(*other),
    {
        match (self, other) {
            (RelativeLength::Em(a), RelativeLength::Em(b)) => Some(RelativeLength::Em(a.add(*b))),
            (RelativeLength::Ex(a), RelativeLength::Ex(b)) => Some(RelativeLength::Ex(a.add(*b))),
            (RelativeLength::Ch(a), RelativeLength::Ch(b)) => Some(RelativeLength::Ch(a.add(*b))),
            (RelativeLength::Rem(a), RelativeLength::Rem(b)) => Some(RelativeLength::Rem(a.add(*b))),
            (RelativeLength::Vw(a), RelativeLength::Vw(b)) => Some(RelativeLength::Vw(a.add(*b))),
            (RelativeLength::Vh(a), RelativeLength::Vh(b)) => Some(RelativeLength::Vh(a.add(*b))),
            (RelativeLength::Vmin(a), RelativeLength::Vmin(b)) => Some(RelativeLength::Vmin(a.add(*b))),
            (RelativeLength::Vmax(a), RelativeLength::Vmax(b)) => Some(RelativeLength::Vmax(a.add(*b))),
            _ => None,
        }
    }

    /// This length with its magnitude multiplied by `factor`.
    pub fn scale(self, factor: Number) -> (r: RelativeLength)
        ensures
            r == self.scale_spec(factor),
    {
        match self {
            RelativeLength::Em(v) => RelativeLength::Em(v.mul(factor)),
            RelativeLength::Ex(v) => RelativeLength::Ex(v.mul(factor)),
            RelativeLength::Ch(v) => RelativeLength::Ch(v.mul(factor)),
            RelativeLength::Rem(v) => RelativeLength::Rem(v.mul(factor)),
            RelativeLength::Vw(v) => RelativeLength::Vw(v.mul(factor)),
            RelativeLength::Vh(v) => RelativeLength::Vh(v.mul(factor)),
            RelativeLength::Vmin(v) => RelativeLength::Vmin(v.mul(factor)),
            RelativeLength::Vmax(v) => RelativeLength::Vmax(v.mul(factor)),
        }
    }

    /// Whether the magnitude is exactly `other`.
    pub fn eq_number(&self, other: Number) -> (r: bool)
        ensures
            r == (self.value() == other),
    {
        match self {
            RelativeLength::Em(v) => v.micros == other.micros,
            RelativeLength::Ex(v) => v.micros == other.micros,
            RelativeLength::Ch(v) => v.micros == other.micros,
            RelativeLength::Rem(v) => v.micros == other.micros,
            RelativeLength::Vw(v) => v.micros == other.micros,
            RelativeLength::Vh(v) => v.micros == other.micros,
            RelativeLength::Vmin(v) => v.micros == other.micros,
            RelativeLength::Vmax(v) => v.micros == other.micros,
        }
    }

    /// How the magnitude stands to `other`.
    pub fn partial_cmp_number(&self, other: Number) -> (r: Option<Ordering>)
        ensures
            r == Some(ordering_of(self.value()@, other@)),
    {
        match self {
            RelativeLength::Em(v) => Some(v.ordering(other)),
            RelativeLength::Ex(v) => Some(v.ordering(other)),
            RelativeLength::Ch(v) => Some(v.ordering(other)),
            RelativeLength::Rem(v) => Some(v.ordering(other)),
            RelativeLength::Vw(v) => Some(v.ordering(other)),
            RelativeLength::Vh(v) => Some(v.ordering(other)),
            RelativeLength::Vmin(v) => Some(v.ordering(other)),
            RelativeLength::Vmax(v) => Some(v.ordering(other)),
        }
    }
}

} // verus!
