use css_length::calc::Calc;
use css_length::length::Length;
use css_length::length_percentage::LengthPercentage;
use css_length::number::Number;
use css_length::percentage::Percentage;
use css_length::units::{AbsoluteLength, RelativeLength};
use std::cmp::Ordering;

fn num(micros: i64) -> Number {
    Number::from_micros(micros)
}

fn px(micros: i64) -> Length {
    Length::Absolute(AbsoluteLength::Px(num(micros)))
}

fn em(micros: i64) -> Length {
    Length::Relative(RelativeLength::Em(num(micros)))
}

fn vw(micros: i64) -> Length {
    Length::Relative(RelativeLength::Vw(num(micros)))
}

fn leaf(l: Length) -> Box<Calc<Length>> {
    Box::new(Calc::Value(Box::new(l)))
}

fn sum(a: Length, b: Length) -> Length {
    Length::Calc(Calc::Sum(leaf(a), leaf(b)))
}

#[test]
fn number_from_int_counts_millionths() {
    assert_eq!(Number::from_int(3).micros(), 3_000_000);
    assert_eq!(Number::from_int(-1).micros(), -1_000_000);
    assert_eq!(Number::zero().micros(), 0);
}

#[test]
fn number_signs() {
    assert!(num(0).is_zero());
    assert!(!num(1).is_zero());
    assert!(num(-1).is_negative());
    assert!(!num(0).is_negative());
    assert!(num(1).is_positive());
    assert!(!num(0).is_positive());
    assert_eq!(num(1).ordering(num(2)), Ordering::Less);
    assert_eq!(num(2).ordering(num(2)), Ordering::Equal);
    assert_eq!(num(3).ordering(num(2)), Ordering::Greater);
}

#[test]
fn number_add_is_exact_and_saturates() {
    assert_eq!(num(1_500_000).add(num(2_250_000)), num(3_750_000));
    assert_eq!(num(-1).add(num(1)), num(0));
    assert_eq!(num(i64::MAX).add(num(1)), num(i64::MAX));
    assert_eq!(num(i64::MIN).add(num(-1)), num(i64::MIN));
    assert_eq!(num(i64::MAX).add(num(i64::MIN)), num(-1));
}

#[test]
fn number_neg_saturates_at_the_top() {
    assert_eq!(num(5).neg(), num(-5));
    assert_eq!(num(i64::MIN).neg(), num(i64::MAX));
    assert_eq!(num(i64::MAX).neg(), num(-i64::MAX));
}

#[test]
fn number_mul_rounds_to_nearest_millionth() {
    assert_eq!(num(1_500_000).mul(num(2_000_000)), num(3_000_000));
    assert_eq!(num(1).mul(num(500_000)), num(1));
    assert_eq!(num(-1).mul(num(500_000)), num(-1));
    assert_eq!(num(1).mul(num(499_999)), num(0));
    assert_eq!(num(3).mul(num(500_000)), num(2));
    assert_eq!(num(-3).mul(num(-500_000)), num(2));
    assert_eq!(num(333_333).mul(num(3_000_000)), num(999_999));
}

#[test]
fn number_mul_saturates() {
    assert_eq!(num(i64::MAX).mul(num(2_000_000)), num(i64::MAX));
    assert_eq!(num(i64::MAX).mul(num(-2_000_000)), num(i64::MIN));
    assert_eq!(num(i64::MIN).mul(num(i64::MIN)), num(i64::MAX));
    assert_eq!(num(i64::MAX).mul(num(1_000_000)), num(i64::MAX));
}

#[test]
fn number_mul_ratio_rounds_ties_away_from_zero() {
    assert_eq!(num(1).mul_ratio(1, 2), num(1));
    assert_eq!(num(-1).mul_ratio(1, 2), num(-1));
    assert_eq!(num(1).mul_ratio(1, 3), num(0));
    assert_eq!(num(2).mul_ratio(1, 3), num(1));
    assert_eq!(num(7).mul_ratio(-1, 2), num(-4));
}

#[test]
fn absolute_to_px_uses_the_fixed_multipliers() {
    let one = Number::from_int(1);
    assert_eq!(AbsoluteLength::Px(one).to_px(), num(1_000_000));
    assert_eq!(AbsoluteLength::In(one).to_px(), num(96_000_000));
    assert_eq!(AbsoluteLength::Cm(one).to_px(), num(37_795_276));
    assert_eq!(AbsoluteLength::Mm(one).to_px(), num(3_779_528));
    assert_eq!(AbsoluteLength::Q(one).to_px(), num(944_882));
    assert_eq!(AbsoluteLength::Pt(one).to_px(), num(1_333_333));
    assert_eq!(AbsoluteLength::Pc(one).to_px(), num(16_000_000));
    assert_eq!(AbsoluteLength::Cm(num(2_540_000)).to_px(), num(96_000_000));
    assert_eq!(AbsoluteLength::Pt(num(-72_000_000)).to_px(), num(-96_000_000));
}

#[test]
fn unit_values_name_every_unit() {
    let v = num(7);
    assert_eq!(AbsoluteLength::Px(v).to_unit_value(), (v, "px"));
    assert_eq!(AbsoluteLength::In(v).to_unit_value(), (v, "in"));
    assert_eq!(AbsoluteLength::Cm(v).to_unit_value(), (v, "cm"));
    assert_eq!(AbsoluteLength::Mm(v).to_unit_value(), (v, "mm"));
    assert_eq!(AbsoluteLength::Q(v).to_unit_value(), (v, "q"));
    assert_eq!(AbsoluteLength::Pt(v).to_unit_value(), (v, "pt"));
    assert_eq!(AbsoluteLength::Pc(v).to_unit_value(), (v, "pc"));
    assert_eq!(RelativeLength::Em(v).to_unit_value(), (v, "em"));
    assert_eq!(RelativeLength::Ex(v).to_unit_value(), (v, "ex"));
    assert_eq!(RelativeLength::Ch(v).to_unit_value(), (v, "ch"));
    assert_eq!(RelativeLength::Rem(v).to_unit_value(), (v, "rem"));
    assert_eq!(RelativeLength::Vw(v).to_unit_value(), (v, "vw"));
    assert_eq!(RelativeLength::Vh(v).to_unit_value(), (v, "vh"));
    assert_eq!(RelativeLength::Vmin(v).to_unit_value(), (v, "vmin"));
    assert_eq!(RelativeLength::Vmax(v).to_unit_value(), (v, "vmax"));
}

#[test]
fn units_are_found_by_name_in_any_case() {
    let v = num(3);
    assert_eq!(AbsoluteLength::from_unit(v, "px"), Some(AbsoluteLength::Px(v)));
    assert_eq!(AbsoluteLength::from_unit(v, "PX"), Some(AbsoluteLength::Px(v)));
    assert_eq!(AbsoluteLength::from_unit(v, "In"), Some(AbsoluteLength::In(v)));
    assert_eq!(AbsoluteLength::from_unit(v, "Q"), Some(AbsoluteLength::Q(v)));
    assert_eq!(AbsoluteLength::from_unit(v, "pC"), Some(AbsoluteLength::Pc(v)));
    assert_eq!(AbsoluteLength::from_unit(v, "em"), None);
    assert_eq!(AbsoluteLength::from_unit(v, ""), None);
    assert_eq!(AbsoluteLength::from_unit(v, "pxx"), None);
    assert_eq!(RelativeLength::from_unit(v, "REM"), Some(RelativeLength::Rem(v)));
    assert_eq!(RelativeLength::from_unit(v, "vMin"), Some(RelativeLength::Vmin(v)));
    assert_eq!(RelativeLength::from_unit(v, "vmax"), Some(RelativeLength::Vmax(v)));
    assert_eq!(RelativeLength::from_unit(v, "px"), None);
    assert_eq!(RelativeLength::from_unit(v, "e\u{301}m"), None);
}

#[test]
fn absolute_add_keeps_a_shared_unit() {
    assert_eq!(
        AbsoluteLength::Cm(num(1_000_000)).add(AbsoluteLength::Cm(num(2_000_000))),
        AbsoluteLength::Cm(num(3_000_000))
    );
    assert_eq!(
        AbsoluteLength::Q(num(-1)).add(AbsoluteLength::Q(num(1))),
        AbsoluteLength::Q(num(0))
    );
}

#[test]
fn absolute_add_of_different_units_is_in_pixels() {
    let a = AbsoluteLength::In(Number::from_int(1));
    let b = AbsoluteLength::Cm(Number::from_int(1));
    let expected = AbsoluteLength::Px(num(133_795_276));
    assert_eq!(a.add(b), expected);
    assert_eq!(b.add(a), expected);
    assert_eq!(AbsoluteLength::Px(a.to_px()).add(AbsoluteLength::Px(b.to_px())), expected);
    assert_eq!(
        Length::Absolute(a).add(Length::Absolute(b)),
        Length::Absolute(AbsoluteLength::Px(a.to_px())).add(Length::Absolute(AbsoluteLength::Px(b.to_px())))
    );
}

#[test]
fn absolute_scale_and_compare() {
    assert_eq!(AbsoluteLength::Mm(num(1_500_000)).scale(Number::from_int(2)), AbsoluteLength::Mm(num(3_000_000)));
    assert!(AbsoluteLength::Mm(num(0)).eq_number(num(0)));
    assert!(!AbsoluteLength::Mm(num(1)).eq_number(num(0)));
    assert_eq!(AbsoluteLength::Pt(num(-1)).partial_cmp_number(num(0)), Some(Ordering::Less));
    assert_eq!(AbsoluteLength::Pt(num(0)).partial_cmp_number(num(0)), Some(Ordering::Equal));
    assert_eq!(AbsoluteLength::Pt(num(1)).partial_cmp_number(num(0)), Some(Ordering::Greater));
}

#[test]
fn relative_fold_needs_the_same_unit() {
    assert_eq!(
        RelativeLength::Em(num(1_000_000)).fold(&RelativeLength::Em(num(500_000))),
        Some(RelativeLength::Em(num(1_500_000)))
    );
    assert_eq!(
        RelativeLength::Vmax(num(1)).fold(&RelativeLength::Vmax(num(2))),
        Some(RelativeLength::Vmax(num(3)))
    );
    assert_eq!(RelativeLength::Em(num(1)).fold(&RelativeLength::Rem(num(1))), None);
    assert_eq!(RelativeLength::Vw(num(1)).fold(&RelativeLength::Vh(num(1))), None);
}

#[test]
fn relative_scale_and_compare() {
    assert_eq!(RelativeLength::Ch(num(250_000)).scale(num(-4_000_000)), RelativeLength::Ch(num(-1_000_000)));
    assert!(RelativeLength::Ex(num(5)).eq_number(num(5)));
    assert_eq!(RelativeLength::Ex(num(5)).partial_cmp_number(num(6)), Some(Ordering::Less));
}

#[test]
fn length_constructors_and_pixels() {
    assert_eq!(Length::zero(), px(0));
    assert_eq!(Length::px(num(42)), px(42));
    assert_eq!(Length::Absolute(AbsoluteLength::In(Number::from_int(2))).to_px(), Some(num(192_000_000)));
    assert_eq!(em(1).to_px(), None);
    assert_eq!(sum(px(1), em(1)).to_px(), None);
}

#[test]
fn expressions_compare_with_no_number() {
    let e = sum(px(1), em(1));
    assert!(!e.eq_number(num(0)));
    assert_eq!(e.partial_cmp_number(num(0)), None);
    assert!(!e.is_negative());
    assert!(!e.is_positive());
    assert!(px(-1).is_negative());
    assert!(em(1).is_positive());
    assert!(px(0).eq_number(num(0)));
    assert_eq!(em(3).partial_cmp_number(num(3)), Some(Ordering::Equal));
}

#[test]
fn same_relative_unit_folds_to_one_literal() {
    assert_eq!(em(1_000_000).add(em(2_000_000)), em(3_000_000));
    assert_eq!(vw(-1_000_000).add(vw(1_000_000)), vw(0));
}

#[test]
fn different_relative_units_become_a_sum() {
    assert_eq!(em(1_000_000).add(vw(1_000_000)), sum(em(1_000_000), vw(1_000_000)));
    assert_eq!(vw(1_000_000).add(em(1_000_000)), sum(vw(1_000_000), em(1_000_000)));
}

#[test]
fn absolute_and_relative_never_fold() {
    let a = px(1_000_000);
    let b = em(1_000_000);
    assert_eq!(a.fold(&b), None);
    assert_eq!(b.fold(&a), None);
    let s = a.add(b);
    assert_eq!(s, sum(px(1_000_000), em(1_000_000)));
    assert_eq!(s.scale(Number::from_int(2)), sum(px(2_000_000), em(2_000_000)));
}

#[test]
fn a_negative_literal_goes_after_a_positive_one() {
    assert_eq!(px(-1_000_000).add(em(1_000_000)), sum(em(1_000_000), px(-1_000_000)));
    assert_eq!(em(1_000_000).add(px(-1_000_000)), sum(em(1_000_000), px(-1_000_000)));
    assert_eq!(px(-1).add(em(-1)), sum(px(-1), em(-1)));
    assert_eq!(px(1).build(em(-1)), sum(px(1), em(-1)));
}

#[test]
fn a_zero_literal_is_left_out() {
    assert_eq!(em(5).add(px(0)), em(5));
    assert_eq!(px(0).add(em(5)), em(5));
    assert_eq!(px(7).add(Length::zero()), px(7));
    assert_eq!(Length::zero().add(px(7)), px(7));
    let e = sum(em(1), vw(1));
    assert_eq!(e.clone().add(em(0)), e);
    assert_eq!(Length::Relative(RelativeLength::Ch(num(0))).add(e.clone()), e);
    assert_eq!(e.clone().add(Length::Relative(RelativeLength::Ch(num(0)))), e);
    assert_eq!(e.clone().build(px(0)), e);
    assert_eq!(px(0).build(e.clone()), e);
}

#[test]
fn a_zero_in_another_absolute_unit_turns_the_sum_to_pixels() {
    let inch = Length::Absolute(AbsoluteLength::In(Number::from_int(1)));
    assert_eq!(inch.add(Length::zero()), px(96_000_000));
    assert_eq!(em(0).add(vw(0)), vw(0));
}

#[test]
fn a_literal_folds_into_the_left_child_of_a_sum() {
    let e = sum(px(1_000_000), em(1_000_000));
    assert_eq!(e.clone().add(px(2_000_000)), sum(px(3_000_000), em(1_000_000)));
    assert_eq!(px(2_000_000).add(e), sum(px(3_000_000), em(1_000_000)));
}

#[test]
fn a_literal_folds_into_the_right_child_of_a_sum() {
    let e = sum(px(1_000_000), em(1_000_000));
    assert_eq!(e.clone().add(em(2_000_000)), sum(px(1_000_000), em(3_000_000)));
    assert_eq!(em(2_000_000).add(e), sum(px(1_000_000), em(3_000_000)));
}

#[test]
fn the_child_left_alone_is_added_again_in_full() {
    let e = sum(px(1_000_000), px(2_000_000));
    assert_eq!(e.add(px(3_000_000)), px(6_000_000));
    let f = sum(px(1_000_000), em(1_000_000));
    assert_eq!(f.add(px(-1_000_000)), Length::Calc(Calc::Value(Box::new(em(1_000_000)))));
}

#[test]
fn a_literal_that_fits_nowhere_joins_the_sum() {
    let e = sum(px(1), em(1));
    assert_eq!(e.clone().fold(&vw(1)), None);
    assert_eq!(
        e.clone().add(vw(1)),
        Length::Calc(Calc::Sum(Box::new(e.clone().into_calc()), leaf(vw(1))))
    );
    assert_eq!(
        vw(1).add(e.clone()),
        Length::Calc(Calc::Sum(leaf(vw(1)), Box::new(e.into_calc())))
    );
}

#[test]
fn two_sums_fold_leaf_by_leaf_or_join_as_trees() {
    let a = sum(px(1), em(1));
    let b = sum(px(2), em(2));
    assert_eq!(a.add(b), sum(px(3), em(3)));
    let c = sum(px(1), em(1));
    let d = sum(vw(1), Length::Relative(RelativeLength::Vh(num(1))));
    assert_eq!(
        c.clone().add(d.clone()),
        Length::Calc(Calc::Sum(Box::new(c.into_calc()), Box::new(d.into_calc())))
    );
}

#[test]
fn a_wrapped_literal_adds_as_the_literal() {
    let w = Length::Calc(Calc::Value(Box::new(px(1))));
    assert_eq!(w.clone().add(px(2)), px(3));
    assert_eq!(px(2).add(w.clone()), px(3));
    assert_eq!(w.clone().add(em(1)), sum(px(1), em(1)));
    assert_eq!(em(-1).build(w), sum(px(1), em(-1)));
}

#[test]
fn into_calc_and_from_calc() {
    assert_eq!(px(1).into_calc(), Calc::Value(Box::new(px(1))));
    let t = Calc::Sum(leaf(px(1)), leaf(em(1)));
    assert_eq!(Length::Calc(t.clone()).into_calc(), t);
    assert_eq!(Length::from_calc(t.clone()), Length::Calc(t.clone()));
    assert_eq!(t.clone().add(t.clone()), Calc::Sum(Box::new(t.clone()), Box::new(t.duplicate())));
}

#[test]
fn scaling_keeps_the_shape_of_a_tree() {
    let e = Length::Calc(Calc::Sum(leaf(px(1_000_000)), Box::new(Calc::Sum(leaf(em(2_000_000)), leaf(vw(-500_000))))));
    let expected = Length::Calc(Calc::Sum(leaf(px(-3_000_000)), Box::new(Calc::Sum(leaf(em(-6_000_000)), leaf(vw(1_500_000))))));
    assert_eq!(e.scale(Number::from_int(-3)), expected);
    assert_eq!(px(5).scale(Number::from_int(1)), px(5));
}

#[test]
fn percentages_add_and_scale() {
    let p = Percentage(num(500_000));
    assert_eq!(p.add(Percentage(num(250_000))), Percentage(num(750_000)));
    assert_eq!(p.scale(Number::from_int(2)), Percentage(num(1_000_000)));
    assert!(Percentage(num(0)).eq_number(num(0)));
    assert_eq!(p.partial_cmp_number(num(0)), Some(Ordering::Greater));
}

#[test]
fn length_percentage_folds_each_kind_with_itself() {
    let a = LengthPercentage::Length(px(1_000_000));
    let b = LengthPercentage::Length(px(2_000_000));
    assert_eq!(a.add(b), LengthPercentage::Length(px(3_000_000)));
    let p = LengthPercentage::Percentage(Percentage(num(100_000)));
    let q = LengthPercentage::Percentage(Percentage(num(200_000)));
    assert_eq!(p.add(q), LengthPercentage::Percentage(Percentage(num(300_000))));
    let i = LengthPercentage::Length(Length::Absolute(AbsoluteLength::In(Number::from_int(1))));
    let c = LengthPercentage::Length(px(4_000_000));
    assert_eq!(i.add(c), LengthPercentage::Length(px(100_000_000)));
}

#[test]
fn length_and_percentage_become_a_sum() {
    let l = LengthPercentage::Length(px(1_000_000));
    let p = LengthPercentage::Percentage(Percentage(num(500_000)));
    assert_eq!(l.fold(&p), None);
    let expected = LengthPercentage::Calc(Calc::Sum(
        Box::new(Calc::Value(Box::new(l.clone()))),
        Box::new(Calc::Value(Box::new(p.clone()))),
    ));
    assert_eq!(l.clone().add(p.clone()), expected);
    let more = expected.clone().add(LengthPercentage::Percentage(Percentage(num(250_000))));
    assert_eq!(
        more,
        LengthPercentage::Calc(Calc::Sum(
            Box::new(Calc::Value(Box::new(l.clone()))),
            Box::new(Calc::Value(Box::new(LengthPercentage::Percentage(Percentage(num(750_000)))))),
        ))
    );
    assert_eq!(
        expected.scale(Number::from_int(2)),
        LengthPercentage::Calc(Calc::Sum(
            Box::new(Calc::Value(Box::new(LengthPercentage::Length(px(2_000_000))))),
            Box::new(Calc::Value(Box::new(LengthPercentage::Percentage(Percentage(num(1_000_000)))))),
        ))
    );
}

#[test]
fn length_percentage_orders_and_elides() {
    let neg = LengthPercentage::Length(px(-1_000_000));
    let pos = LengthPercentage::Percentage(Percentage(num(500_000)));
    let expected = LengthPercentage::Calc(Calc::Sum(
        Box::new(Calc::Value(Box::new(pos.clone()))),
        Box::new(Calc::Value(Box::new(neg.clone()))),
    ));
    assert_eq!(neg.clone().add(pos.clone()), expected);
    assert_eq!(pos.clone().add(neg.clone()), expected);
    let zero = LengthPercentage::Percentage(Percentage(num(0)));
    assert_eq!(neg.clone().add(zero.clone()), neg);
    assert_eq!(zero.clone().add(neg.clone()), neg);
    assert!(zero.eq_number(num(0)));
    assert!(neg.is_negative());
    assert!(pos.is_positive());
    assert_eq!(expected.partial_cmp_number(num(0)), None);
    let tree = LengthPercentage::Length(sum(px(1), em(1)));
    assert!(!tree.eq_number(num(0)));
    assert_eq!(tree.partial_cmp_number(num(0)), None);
}
