use std::ops::Neg;

use catcolab::zero::rig::{
    combination_text, monomial_text, plain, AdditiveMonoid, Combination, Monoid, Monomial, Term,
    _add_assign,
};
use std::collections::BTreeMap;

fn term(var: &str, factor: Option<&str>) -> Term {
    Term { var: var.to_string(), factor: factor.map(str::to_string) }
}

#[test]
fn combinations() {
    let x = Combination::generator('x');
    let y = Combination::generator('y');
    assert_eq!(x.to_string(), "x");
    assert_eq!((x.clone() * 2u32 + y.clone() * 3u32).to_string(), "2 x + 3 y");
    assert_eq!((x.clone() + y.clone() + y + x).to_string(), "2 x + 2 y");

    assert_eq!(Combination::<char, u32>::zero().to_string(), "0");

    let x = Combination::generator('x');
    assert_eq!((x.clone() * -1i32).to_string(), "(-1) x");
    assert_eq!(x.neg().to_string(), "(-1) x");
}

#[test]
fn monomials() {
    let x = Monomial::<_, u32>::generator('x');
    let y = Monomial::<_, u32>::generator('y');
    assert_eq!(x.clone().to_string(), "x");
    assert_eq!((x.clone() * y.clone() * y * x).to_string(), "x^2 y^2");

    assert_eq!(Monomial::<char, u32>::one().to_string(), "1");
}

#[test]
fn numbers_have_their_identities() {
    assert_eq!(<i32 as AdditiveMonoid>::zero(), 0);
    assert_eq!(<u64 as AdditiveMonoid>::zero(), 0);
    assert_eq!(<i64 as Monoid>::one(), 1);
    assert_eq!(<usize as Monoid>::one(), 1);
    assert!(AdditiveMonoid::is_zero(&0u32));
    assert!(!AdditiveMonoid::is_zero(&3i64));
    assert!(Monoid::is_one(&1u32));
    assert!(!Monoid::is_one(&0usize));
    assert!(!Monoid::is_one(&-1i32));
}

#[test]
fn zero_and_one_are_the_empty_combination_and_monomial() {
    let zero = Combination::<char, i64>::zero();
    assert!(zero.is_zero());
    assert!(zero == Combination::default());
    assert!(!Combination::<char, i64>::generator('x').is_zero());
    assert!(<Combination<char, i64> as AdditiveMonoid>::zero().is_zero());

    let one = Monomial::<char, u32>::one();
    assert!(one.is_one());
    assert!(one == Monomial::default());
    assert!(!Monomial::<char, u32>::generator('x').is_one());
    assert!(<Monomial<char, u32> as Monoid>::one().is_one());
}

#[test]
fn adding_zero_changes_nothing() {
    let x = Combination::<u8, u32>::generator(1) * 5;
    let sum = x.clone() + Combination::zero();
    assert!(sum == x);
    let sum = Combination::zero() + x.clone();
    assert!(sum == x);
    assert_eq!(sum.to_string(), "5 1");
}

#[test]
fn sums_merge_the_terms_of_both_sides() {
    let x = Combination::<&str, i64>::generator("x");
    let y = Combination::<&str, i64>::generator("y");
    let z = Combination::<&str, i64>::generator("z");
    let left = x.clone() * 2 + y.clone() * 3;
    let right = y * 4 + z * 5;
    assert_eq!((left.clone() + right.clone()).to_string(), "2 x + 7 y + 5 z");
    assert!(left.clone() + right.clone() == right.clone() + left.clone());

    let mut sum = left;
    sum.add_assign(right);
    assert_eq!(sum.to_string(), "2 x + 7 y + 5 z");
    assert_eq!(sum.clone().neg().to_string(), "(-2) x + (-7) y + (-5) z");
    assert_eq!((sum + x.neg()).to_string(), "x + 7 y + 5 z");
}

#[test]
fn terms_that_cancel_stay_with_a_zero_coefficient() {
    let x = Combination::<char, i32>::generator('x');
    let sum = x.clone() + x.neg();
    assert_eq!(sum.to_string(), "0 x");
    assert!(!sum.is_zero());
}

#[test]
fn maps_are_added_key_by_key() {
    let mut lhs: BTreeMap<u8, u32> = BTreeMap::new();
    lhs.insert(1, 10);
    lhs.insert(2, 20);
    let mut rhs: BTreeMap<u8, u32> = BTreeMap::new();
    rhs.insert(2, 5);
    rhs.insert(3, 7);
    _add_assign(&mut lhs, rhs);
    assert_eq!(lhs.into_iter().collect::<Vec<_>>(), vec![(1, 10), (2, 25), (3, 7)]);
}

#[test]
fn monomials_multiply_by_adding_exponents() {
    let x = Monomial::<char, u32>::generator('x');
    let y = Monomial::<char, u32>::generator('y');
    let mut power = x.clone();
    let mut n = 1;
    while n < 12 {
        power.mul_assign(x.clone());
        n += 1;
    }
    assert_eq!(power.to_string(), "x^{12}");
    assert_eq!((power * y.clone()).to_string(), "x^{12} y");
    assert!(x.clone() * y.clone() == y.clone() * x.clone());
    assert!(x.clone() * Monomial::one() == x);
    assert!(x < y);
}

#[test]
fn coefficients_are_plain_when_alphabetic_or_numeric() {
    assert!(plain("abc"));
    assert!(plain("λ"));
    assert!(plain("12"));
    assert!(plain("1.5"));
    assert!(plain("..."));
    assert!(plain(""));
    assert!(!plain("-1"));
    assert!(!plain("a1"));
    assert!(!plain("1e5"));
    assert!(!plain("a b"));
    assert!(!plain("x+y"));
    assert!(!plain("٣"));
}

#[test]
fn combinations_are_written_as_sums() {
    assert_eq!(combination_text(&vec![]), "0");
    assert_eq!(combination_text(&vec![term("x", None)]), "x");
    assert_eq!(combination_text(&vec![term("x", Some("2"))]), "2 x");
    assert_eq!(combination_text(&vec![term("x", Some("a"))]), "a x");
    assert_eq!(combination_text(&vec![term("x", Some("-1"))]), "(-1) x");
    assert_eq!(combination_text(&vec![term("x", Some("1.5"))]), "1.5 x");
    assert_eq!(combination_text(&vec![term("x", Some("a + b"))]), "(a + b) x");
    assert_eq!(combination_text(&vec![term("x", Some(""))]), " x");
    assert_eq!(
        combination_text(&vec![
            term("x", Some("2")),
            term("y", None),
            term("z", Some("-3")),
            term("w", Some("k")),
        ]),
        "2 x + y + (-3) z + k w"
    );
}

#[test]
fn monomials_are_written_as_products() {
    assert_eq!(monomial_text(&vec![]), "1");
    assert_eq!(monomial_text(&vec![term("x", None)]), "x");
    assert_eq!(monomial_text(&vec![term("x", Some("2"))]), "x^2");
    assert_eq!(monomial_text(&vec![term("x", Some("n"))]), "x^n");
    assert_eq!(monomial_text(&vec![term("x", Some("10"))]), "x^{10}");
    assert_eq!(monomial_text(&vec![term("x", Some("-1"))]), "x^{-1}");
    assert_eq!(monomial_text(&vec![term("x", Some("½"))]), "x^{½}");
    assert_eq!(monomial_text(&vec![term("x", Some(""))]), "x^{}");
    assert_eq!(
        monomial_text(&vec![term("x", Some("2")), term("y", None), term("z", Some("12"))]),
        "x^2 y z^{12}"
    );
}

#[test]
fn scalars_multiply_every_coefficient() {
    let x = Combination::<char, u64>::generator('x');
    let y = Combination::<char, u64>::generator('y');
    let sum = x * 2 + y * 3;
    assert_eq!((sum.clone() * 10).to_string(), "20 x + 30 y");
    assert_eq!((sum.clone() * 1).to_string(), "2 x + 3 y");
    assert_eq!((sum * 0).to_string(), "0 x + 0 y");
}
