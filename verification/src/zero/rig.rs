//! Rigs, rings, and modules over them.
//!
//! Besides the hierarchy of traits, the data structure provided here is that
//! for linear combinations and monomials. These are the same data structure,
//! with different notation.

use std::cmp::Ordering;
use std::collections::BTreeMap;
use std::fmt::Display;
use std::ops::{Add, Mul, Neg};

use vstd::prelude::*;
use vstd::string::*;
use vstd::std_specs::cmp::OrdSpec;
use vstd::std_specs::iter::IteratorSpec;
use vstd::std_specs::ops::{AddSpec, AddSpecImpl, MulSpec, MulSpecImpl, NegSpec, NegSpecImpl};

verus! {

/// A commutative monoid, written additively.
pub trait AdditiveMonoid: Add<Output = Self> + Sized {
    /// Whether this is the additive identity.
    spec fn is_zero_value(&self) -> bool;

    /// The additive identity.
    fn zero() -> (zero: Self)
        ensures
            zero.is_zero_value(),
    ;

    /// Whether this is the additive identity.
    fn is_zero(&self) -> (is_zero: bool)
        ensures
            is_zero == self.is_zero_value(),
    ;
}

/// An abelian group, written additively.
pub trait AbGroup: AdditiveMonoid + Neg<Output = Self> {

}

/// A monoid, written multiplicatively.
pub trait Monoid: Mul<Output = Self> + Sized {
    /// Whether this is the multiplicative identity.
    spec fn is_one_value(&self) -> bool;

    /// The multiplicative identity.
    fn one() -> (one: Self)
        ensures
            one.is_one_value(),
    ;

    /// Whether this is the multiplicative identity.
    fn is_one(&self) -> (is_one: bool)
        ensures
            is_one == self.is_one_value(),
    ;
}

/// A commutative monoid, written multiplicatively.
pub trait CommMonoid: Monoid {

}

/// A rig, also known as a semiring.
pub trait Rig: Monoid + AdditiveMonoid {

}

/// A commutative rig, also known as a commutative semiring.
pub trait CommRig: Rig + CommMonoid {

}

/// A ring, assumed to be unital.
pub trait Ring: Rig + AbGroup {

}

/// A commutative ring, assumed to be unital.
pub trait CommRing: Ring + CommRig {

}

/// A module over a commutative rig.
pub trait RigModule: AdditiveMonoid + Mul<Self::Rig, Output = Self> {
    /// Base rig for the module.
    type Rig: CommRig;
}

/// A module over a commutative ring.
pub trait Module: RigModule<Rig = Self::Ring> + AbGroup {
    /// Base ring for the module.
    type Ring: CommRing;
}

impl AdditiveMonoid for i32 {
    open spec fn is_zero_value(&self) -> bool {
        *self == 0
    }

    fn zero() -> i32 {
        0
    }

    fn is_zero(&self) -> bool {
        *self == 0
    }
}

impl AdditiveMonoid for i64 {
    open spec fn is_zero_value(&self) -> bool {
        *self == 0
    }

    fn zero() -> i64 {
        0
    }

    fn is_zero(&self) -> bool {
        *self == 0
    }
}

impl AdditiveMonoid for u32 {
    open spec fn is_zero_value(&self) -> bool {
        *self == 0
    }

    fn zero() -> u32 {
        0
    }

    fn is_zero(&self) -> bool {
        *self == 0
    }
}

impl AdditiveMonoid for u64 {
    open spec fn is_zero_value(&self) -> bool {
        *self == 0
    }

    fn zero() -> u64 {
        0
    }

    fn is_zero(&self) -> bool {
        *self == 0
    }
}

impl AdditiveMonoid for usize {
    open spec fn is_zero_value(&self) -> bool {
        *self == 0
    }

    fn zero() -> usize {
        0
    }

    fn is_zero(&self) -> bool {
        *self == 0
    }
}

impl AbGroup for i32 {

}

impl AbGroup for i64 {

}

impl Monoid for i32 {
    open spec fn is_one_value(&self) -> bool {
        *self == 1
    }

    fn one() -> i32 {
        1
    }

    fn is_one(&self) -> bool {
        *self == 1
    }
}

impl Monoid for i64 {
    open spec fn is_one_value(&self) -> bool {
        *self == 1
    }

    fn one() -> i64 {
        1
    }

    fn is_one(&self) -> bool {
        *self == 1
    }
}

impl Monoid for u32 {
    open spec fn is_one_value(&self) -> bool {
        *self == 1
    }

    fn one() -> u32 {
        1
    }

    fn is_one(&self) -> bool {
        *self == 1
    }
}

impl Monoid for u64 {
    open spec fn is_one_value(&self) -> bool {
        *self == 1
    }

    fn one() -> u64 {
        1
    }

    fn is_one(&self) -> bool {
        *self == 1
    }
}

impl Monoid for usize {
    open spec fn is_one_value(&self) -> bool {
        *self == 1
    }

    fn one() -> usize {
        1
    }

    fn is_one(&self) -> bool {
        *self == 1
    }
}

impl CommMonoid for i32 {

}

impl CommMonoid for i64 {

}

impl CommMonoid for u32 {

}

impl CommMonoid for u64 {

}

impl CommMonoid for usize {

}

impl Rig for i32 {

}

impl Rig for i64 {

}

impl Rig for u32 {

}

impl Rig for u64 {

}

impl Rig for usize {

}

impl CommRig for i32 {

}

impl CommRig for i64 {

}

impl CommRig for u32 {

}

impl CommRig for u64 {

}

impl CommRig for usize {

}

impl Ring for i32 {

}

impl Ring for i64 {

}

impl CommRing for i32 {

}

impl CommRing for i64 {

}

/// Whether the order of the keys is a total order, as a map that is sorted by
/// its keys needs it to be.
pub open spec fn totally_ordered<K: Ord>() -> bool {
    vstd::laws_cmp::obeys_cmp::<K>()
}

/// Removes the first entry from the map and gives it back, if the map has an
/// entry.
///
/// This is `BTreeMap::pop_first` of the standard library. The contract says
/// that an empty map is left as it is, and that otherwise one entry is taken
/// out of the map, whose key is the least of the keys that the map had.
#[verifier::external_body]
fn pop_first<K: Ord, V>(map: &mut BTreeMap<K, V>) -> (first: Option<(K, V)>)
    ensures
        totally_ordered::<K>() ==> match first {
            Some((key, value)) => {
                &&& old(map)@.contains_key(key)
                &&& old(map)@[key] == value
                &&& final(map)@ == old(map)@.remove(key)
                &&& forall|other: K| #[trigger]
                    old(map)@.contains_key(other) ==> key.cmp_spec(&other) != Ordering::Greater
            },
            None => old(map)@.len() == 0 && final(map)@ == old(map)@,
        },
{
    map.pop_first()
}

/// The map that has the entries of both maps, and under each key that both
/// have the sum of their values.
pub open spec fn merged<K, V: Add<Output = V>>(lhs: Map<K, V>, rhs: Map<K, V>) -> Map<K, V> {
    Map::new(
        |key: K| lhs.contains_key(key) || rhs.contains_key(key),
        |key: K|
            if lhs.contains_key(key) && rhs.contains_key(key) {
                lhs[key].add_spec(rhs[key])
            } else if lhs.contains_key(key) {
                lhs[key]
            } else {
                rhs[key]
            },
    )
}

/// Whether the values that the two maps have under the same key can be added.
pub open spec fn can_merge<K, V: Add<Output = V>>(lhs: Map<K, V>, rhs: Map<K, V>) -> bool {
    forall|key: K|
        lhs.contains_key(key) && rhs.contains_key(key) ==> #[trigger] lhs[key].add_req(rhs[key])
}

/// Merging with the empty map changes nothing.
pub proof fn merging_with_nothing_changes_nothing<K, V: Add<Output = V>>(map: Map<K, V>)
    ensures
        merged(map, Map::empty()) == map,
        merged(Map::empty(), map) == map,
{
    assert(merged(map, Map::empty()) =~= map);
    assert(merged(Map::empty(), map) =~= map);
}

/// Where the addition of values commutes, merging commutes.
pub proof fn merging_commutes<K, V: Add<Output = V>>(lhs: Map<K, V>, rhs: Map<K, V>)
    requires
        forall|a: V, b: V| #[trigger] a.add_spec(b) == b.add_spec(a),
    ensures
        merged(lhs, rhs) == merged(rhs, lhs),
{
    assert(merged(lhs, rhs) =~= merged(rhs, lhs));
}

/// Where the addition of values is associative, merging is associative.
pub proof fn merging_is_associative<K, V: Add<Output = V>>(
    first: Map<K, V>,
    second: Map<K, V>,
    third: Map<K, V>,
)
    requires
        forall|a: V, b: V, c: V| #[trigger] a.add_spec(b).add_spec(c) == a.add_spec(b.add_spec(c)),
    ensures
        merged(merged(first, second), third) == merged(first, merged(second, third)),
{
    assert(merged(merged(first, second), third) =~= merged(first, merged(second, third)));
}

/// Adds to each value of `lhs` the value that `rhs` has under the same key,
/// and takes over the entries of `rhs` whose keys `lhs` does not have.
pub fn _add_assign<K, V>(lhs: &mut BTreeMap<K, V>, rhs: BTreeMap<K, V>) where
    K: Ord,
    V: Add<Output = V>,

    requires
        totally_ordered::<K>(),
        can_merge(old(lhs)@, rhs@),
    ensures
        final(lhs)@.dom() == old(lhs)@.dom().union(rhs@.dom()),
        forall|key: K|
            old(lhs)@.contains_key(key) && !rhs@.contains_key(key) ==> #[trigger] final(lhs)@[key]
                == old(lhs)@[key],
        forall|key: K|
            !old(lhs)@.contains_key(key) && rhs@.contains_key(key) ==> #[trigger] final(lhs)@[key]
                == rhs@[key],
        V::obeys_add_spec() ==> final(lhs)@ == merged(old(lhs)@, rhs@),
{
    let mut rest = rhs;
    loop
        invariant
            totally_ordered::<K>(),
            can_merge(old(lhs)@, rhs@),
            rest@.dom().subset_of(rhs@.dom()),
            rest@.dom().finite(),
            forall|key: K| rest@.contains_key(key) ==> #[trigger] rest@[key] == rhs@[key],
            lhs@.dom() == old(lhs)@.dom().union(rhs@.dom().difference(rest@.dom())),
            forall|key: K|
                old(lhs)@.contains_key(key) && (!rhs@.contains_key(key) || rest@.contains_key(key))
                    ==> #[trigger] lhs@[key] == old(lhs)@[key],
            forall|key: K|
                !old(lhs)@.contains_key(key) && rhs@.contains_key(key) && !rest@.contains_key(key)
                    ==> #[trigger] lhs@[key] == rhs@[key],
            forall|key: K|
                old(lhs)@.contains_key(key) && rhs@.contains_key(key) && !rest@.contains_key(key)
                    && V::obeys_add_spec() ==> #[trigger] lhs@[key] == old(lhs)@[key].add_spec(
                    rhs@[key],
                ),
        ensures
            rest@.len() == 0,
        decreases rest@.len(),
    {
        match pop_first(&mut rest) {
            Some((var, b)) => {
                if let Some(a) = lhs.remove(&var) {
                    assert(old(lhs)@[var].add_req(rhs@[var]));
                    lhs.insert(var, a + b);
                } else {
                    lhs.insert(var, b);
                }
            },
            None => {
                break ;
            },
        }
    }
    assert(rest@.dom() =~= Set::empty());
    assert(lhs@.dom() =~= old(lhs)@.dom().union(rhs@.dom()));
    assert(V::obeys_add_spec() ==> lhs@ =~= merged(old(lhs)@, rhs@));
}

/// A formal linear combination.
///
/// This data structure is for linear combinations of variables (`Var`) with
/// coefficients (`Coef`) valued in a rig or at least in an additive monoid.
/// Linear combinations are the data structure for free modules: for any rig
/// R, the free R-module on a set consists of the formal R-linear combinations
/// of elements of the set.
#[derive(PartialEq, Eq)]
pub struct Combination<Var, Coef>(BTreeMap<Var, Coef>);

impl<Var, Coef> View for Combination<Var, Coef> {
    type V = Map<Var, Coef>;

    /// The coefficient of each variable that the combination has.
    closed spec fn view(&self) -> Map<Var, Coef> {
        self.0@
    }
}

impl<Var: Clone, Coef: Clone> Clone for Combination<Var, Coef> {
    fn clone(&self) -> (copy: Self)
        ensures
            copy@ == self@,
    {
        Combination(self.0.clone())
    }
}

impl<Var, Coef> Default for Combination<Var, Coef> {
    fn default() -> (empty: Self)
        ensures
            empty@ == Map::<Var, Coef>::empty(),
    {
        Combination(BTreeMap::new())
    }
}

impl<Var, Coef> Combination<Var, Coef> where Var: Ord {
    /// Generating combination on a single variable.
    pub fn generator(var: Var) -> (generator: Self) where Coef: Monoid
        ensures
            totally_ordered::<Var>() ==> generator@.dom() == set![var] && generator@[var].is_one_value(),
    {
        let mut terms: BTreeMap<Var, Coef> = BTreeMap::new();
        terms.insert(var, Coef::one());
        assert(totally_ordered::<Var>() ==> terms@.dom() =~= set![var]);
        Combination(terms)
    }

    /// The combination without a term.
    pub fn zero() -> (zero: Self) where Coef: Add<Output = Coef>
        ensures
            zero@ == Map::<Var, Coef>::empty(),
    {
        Combination(BTreeMap::new())
    }

    /// Whether the combination has no term.
    pub fn is_zero(&self) -> (is_zero: bool) where Coef: Add<Output = Coef>
        ensures
            is_zero == self@.is_empty(),
    {
        self.0.is_empty()
    }

    /// Adds the other combination to this one: the coefficients of a variable
    /// that both have are added, and the terms of the other in variables that
    /// this one does not have are taken over.
    pub fn add_assign(&mut self, rhs: Self) where Coef: Add<Output = Coef>
        requires
            totally_ordered::<Var>(),
            can_merge(old(self)@, rhs@),
        ensures
            final(self)@.dom() == old(self)@.dom().union(rhs@.dom()),
            forall|var: Var|
                old(self)@.contains_key(var) && !rhs@.contains_key(var) ==> #[trigger] final(self)@[var] == old(self)@[var],
            forall|var: Var|
                !old(self)@.contains_key(var) && rhs@.contains_key(var) ==> #[trigger] final(self)@[var] == rhs@[var],
            Coef::obeys_add_spec() ==> final(self)@ == merged(old(self)@, rhs@),
    {
        _add_assign(&mut self.0, rhs.0)
    }
}

/// When two combinations can be added. The sum itself has no value in
/// specifications, as `obeys_add_spec` says: what `add` gives is said by the
/// contract of `add`, over the views.
impl<Var, Coef> AddSpecImpl for Combination<Var, Coef> where Var: Ord, Coef: Add<Output = Coef> {
    open spec fn obeys_add_spec() -> bool {
        false
    }

    open spec fn add_req(self, rhs: Self) -> bool {
        totally_ordered::<Var>() && can_merge(self@, rhs@)
    }

    open spec fn add_spec(self, rhs: Self) -> Self {
        self
    }
}

impl<Var, Coef> Add for Combination<Var, Coef> where Var: Ord, Coef: Add<Output = Coef> {
    type Output = Self;

    fn add(self, rhs: Self) -> (sum: Self)
        ensures
            sum@.dom() == self@.dom().union(rhs@.dom()),
            forall|var: Var|
                self@.contains_key(var) && !rhs@.contains_key(var) ==> #[trigger] sum@[var]
                    == self@[var],
            forall|var: Var|
                !self@.contains_key(var) && rhs@.contains_key(var) ==> #[trigger] sum@[var]
                    == rhs@[var],
            Coef::obeys_add_spec() ==> sum@ == merged(self@, rhs@),
    {
        let mut sum = self;
        sum.add_assign(rhs);
        sum
    }
}

impl<Var, Coef> AdditiveMonoid for Combination<Var, Coef> where Var: Ord, Coef: AdditiveMonoid {
    open spec fn is_zero_value(&self) -> bool {
        self@.is_empty()
    }

    fn zero() -> Self {
        Combination(BTreeMap::new())
    }

    fn is_zero(&self) -> bool {
        self.0.is_empty()
    }
}

/// Whether `after` is what multiplying `before` by a copy of the scalar can
/// give.
pub open spec fn scaled<Coef: Clone + Mul<Output = Coef>>(
    before: Coef,
    scalar: Coef,
    after: Coef,
) -> bool {
    exists|copy: Coef| #[trigger]
        cloned(scalar, copy) && (Coef::obeys_mul_spec() ==> after == before.mul_spec(copy))
}

/// When a combination can be multiplied by a scalar. The product itself has
/// no value in specifications, as `obeys_mul_spec` says: what `mul` gives is
/// said by the contract of `mul`, over the views.
impl<Var, Coef> MulSpecImpl<Coef> for Combination<Var, Coef> where
    Var: Ord,
    Coef: Clone + Default + Mul<Output = Coef>,
 {
    open spec fn obeys_mul_spec() -> bool {
        false
    }

    open spec fn mul_req(self, a: Coef) -> bool {
        &&& totally_ordered::<Var>()
        &&& forall|var: Var, copy: Coef|
            self@.contains_key(var) && cloned(a, copy) ==> #[trigger] self@[var].mul_req(copy)
    }

    open spec fn mul_spec(self, a: Coef) -> Self {
        self
    }
}

impl<Var, Coef> Mul<Coef> for Combination<Var, Coef> where
    Var: Ord,
    Coef: Clone + Default + Mul<Output = Coef>,
 {
    type Output = Self;

    /// Multiplies every coefficient by the scalar.
    fn mul(self, a: Coef) -> (product: Self)
        ensures
            product@.dom() == self@.dom(),
            forall|var: Var|
                self@.contains_key(var) ==> scaled(self@[var], a, #[trigger] product@[var]),
    {
        let mut rest = self.0;
        let mut terms: BTreeMap<Var, Coef> = BTreeMap::new();
        loop
            invariant
                totally_ordered::<Var>(),
                rest@.dom().subset_of(self@.dom()),
                rest@.dom().finite(),
                forall|var: Var| rest@.contains_key(var) ==> #[trigger] rest@[var] == self@[var],
                terms@.dom() == self@.dom().difference(rest@.dom()),
                forall|var: Var|
                    terms@.contains_key(var) ==> scaled(self@[var], a, #[trigger] terms@[var]),
                forall|var: Var, copy: Coef|
                    self@.contains_key(var) && cloned(a, copy) ==> #[trigger] self@[var].mul_req(
                        copy,
                    ),
            ensures
                rest@.len() == 0,
            decreases rest@.len(),
        {
            match pop_first(&mut rest) {
                Some((var, coef)) => {
                    let copy = a.clone();
                    assert(self@[var].mul_req(copy));
                    let scaled_coef = coef * copy;
                    assert(scaled(self@[var], a, scaled_coef));
                    terms.insert(var, scaled_coef);
                },
                None => {
                    break ;
                },
            }
        }
        assert(rest@.dom() =~= Set::empty());
        assert(terms@.dom() =~= self@.dom());
        Combination(terms)
    }
}

impl<Var, Coef> RigModule for Combination<Var, Coef> where
    Var: Ord,
    Coef: Clone + Default + CommRig,
 {
    type Rig = Coef;
}

/// When a combination can be negated. The negation itself has no value in
/// specifications, as `obeys_neg_spec` says: what `neg` gives is said by the
/// contract of `neg`, over the views.
impl<Var, Coef> NegSpecImpl for Combination<Var, Coef> where
    Var: Ord,
    Coef: Default + Neg<Output = Coef>,
 {
    open spec fn obeys_neg_spec() -> bool {
        false
    }

    open spec fn neg_req(self) -> bool {
        &&& totally_ordered::<Var>()
        &&& forall|var: Var| self@.contains_key(var) ==> #[trigger] self@[var].neg_req()
    }

    open spec fn neg_spec(self) -> Self {
        self
    }
}

impl<Var, Coef> Neg for Combination<Var, Coef> where
    Var: Ord,
    Coef: Default + Neg<Output = Coef>,
 {
    type Output = Self;

    /// Negates every coefficient.
    fn neg(self) -> (negated: Self)
        ensures
            negated@.dom() == self@.dom(),
            Coef::obeys_neg_spec() ==> forall|var: Var|
                self@.contains_key(var) ==> #[trigger] negated@[var] == self@[var].neg_spec(),
    {
        let mut rest = self.0;
        let mut terms: BTreeMap<Var, Coef> = BTreeMap::new();
        loop
            invariant
                totally_ordered::<Var>(),
                rest@.dom().subset_of(self@.dom()),
                rest@.dom().finite(),
                forall|var: Var| rest@.contains_key(var) ==> #[trigger] rest@[var] == self@[var],
                terms@.dom() == self@.dom().difference(rest@.dom()),
                Coef::obeys_neg_spec() ==> forall|var: Var|
                    terms@.contains_key(var) ==> #[trigger] terms@[var] == self@[var].neg_spec(),
                forall|var: Var| self@.contains_key(var) ==> #[trigger] self@[var].neg_req(),
            ensures
                rest@.len() == 0,
            decreases rest@.len(),
        {
            match pop_first(&mut rest) {
                Some((var, coef)) => {
                    assert(self@[var].neg_req());
                    terms.insert(var, coef.neg());
                },
                None => {
                    break ;
                },
            }
        }
        assert(rest@.dom() =~= Set::empty());
        assert(terms@.dom() =~= self@.dom());
        Combination(terms)
    }
}

impl<Var, Coef> AbGroup for Combination<Var, Coef> where Var: Ord, Coef: Default + AbGroup {

}

impl<Var, Coef> Module for Combination<Var, Coef> where
    Var: Ord,
    Coef: Clone + Default + CommRing,
 {
    type Ring = Coef;
}

/// A monomial in several variables.
///
/// This data structure is for monomials in several variables (`Var`), having
/// exponents (`Exp`) valued in an additive monoid. Most standardly, the
/// exponents are natural numbers, in which case the monomials in a set of
/// variables, under their usual multiplication, comprise the free commutative
/// monoid on that set.
///
/// Monomials have exactly the same underlying data structure as combinations,
/// but are written multiplicatively rather than additively.
#[derive(PartialEq, Eq, PartialOrd, Ord)]
pub struct Monomial<Var, Exp>(BTreeMap<Var, Exp>);

impl<Var, Exp> View for Monomial<Var, Exp> {
    type V = Map<Var, Exp>;

    /// The exponent of each variable that the monomial has.
    closed spec fn view(&self) -> Map<Var, Exp> {
        self.0@
    }
}

impl<Var: Clone, Exp: Clone> Clone for Monomial<Var, Exp> {
    fn clone(&self) -> (copy: Self)
        ensures
            copy@ == self@,
    {
        Monomial(self.0.clone())
    }
}

impl<Var, Exp> Default for Monomial<Var, Exp> {
    fn default() -> (empty: Self)
        ensures
            empty@ == Map::<Var, Exp>::empty(),
    {
        Monomial(BTreeMap::new())
    }
}

impl<Var, Exp> Monomial<Var, Exp> where Var: Ord {
    /// Generating monomial on a single variable.
    pub fn generator(var: Var) -> (generator: Self) where Exp: Monoid
        ensures
            totally_ordered::<Var>() ==> generator@.dom() == set![var] && generator@[var].is_one_value(),
    {
        let mut powers: BTreeMap<Var, Exp> = BTreeMap::new();
        powers.insert(var, Exp::one());
        assert(totally_ordered::<Var>() ==> powers@.dom() =~= set![var]);
        Monomial(powers)
    }

    /// The monomial without a variable.
    pub fn one() -> (one: Self) where Exp: Add<Output = Exp>
        ensures
            one@ == Map::<Var, Exp>::empty(),
    {
        Monomial(BTreeMap::new())
    }

    /// Whether the monomial has no variable.
    pub fn is_one(&self) -> (is_one: bool) where Exp: Add<Output = Exp>
        ensures
            is_one == self@.is_empty(),
    {
        self.0.is_empty()
    }

    /// Multiplies this monomial by the other: the exponents of a variable that
    /// both have are added, and the powers of the other in variables that
    /// this one does not have are taken over.
    pub fn mul_assign(&mut self, rhs: Self) where Exp: Add<Output = Exp>
        requires
            totally_ordered::<Var>(),
            can_merge(old(self)@, rhs@),
        ensures
            final(self)@.dom() == old(self)@.dom().union(rhs@.dom()),
            forall|var: Var|
                old(self)@.contains_key(var) && !rhs@.contains_key(var) ==> #[trigger] final(self)@[var]
                    == old(self)@[var],
            forall|var: Var|
                !old(self)@.contains_key(var) && rhs@.contains_key(var) ==> #[trigger] final(self)@[var]
                    == rhs@[var],
            Exp::obeys_add_spec() ==> final(self)@ == merged(old(self)@, rhs@),
    {
        _add_assign(&mut self.0, rhs.0)
    }
}

/// When two monomials can be multiplied. The product itself has no value in
/// specifications, as `obeys_mul_spec` says: what `mul` gives is said by the
/// contract of `mul`, over the views.
impl<Var, Exp> MulSpecImpl for Monomial<Var, Exp> where Var: Ord, Exp: Add<Output = Exp> {
    open spec fn obeys_mul_spec() -> bool {
        false
    }

    open spec fn mul_req(self, rhs: Self) -> bool {
        totally_ordered::<Var>() && can_merge(self@, rhs@)
    }

    open spec fn mul_spec(self, rhs: Self) -> Self {
        self
    }
}

impl<Var, Exp> Mul for Monomial<Var, Exp> where Var: Ord, Exp: Add<Output = Exp> {
    type Output = Self;

    fn mul(self, rhs: Self) -> (product: Self)
        ensures
            product@.dom() == self@.dom().union(rhs@.dom()),
            forall|var: Var|
                self@.contains_key(var) && !rhs@.contains_key(var) ==> #[trigger] product@[var]
                    == self@[var],
            forall|var: Var|
                !self@.contains_key(var) && rhs@.contains_key(var) ==> #[trigger] product@[var]
                    == rhs@[var],
            Exp::obeys_add_spec() ==> product@ == merged(self@, rhs@),
    {
        let mut product = self;
        product.mul_assign(rhs);
        product
    }
}

impl<Var, Exp> Monoid for Monomial<Var, Exp> where Var: Ord, Exp: AdditiveMonoid {
    open spec fn is_one_value(&self) -> bool {
        self@.is_empty()
    }

    fn one() -> Self {
        Monomial(BTreeMap::new())
    }

    fn is_one(&self) -> bool {
        self.0.is_empty()
    }
}

impl<Var, Exp> CommMonoid for Monomial<Var, Exp> where Var: Ord, Exp: AdditiveMonoid {

}

/// Whether the character is alphabetic, as Unicode defines it.
pub uninterp spec fn is_alphabetic(c: char) -> bool;

/// Whether the character is alphabetic.
///
/// This is `char::is_alphabetic` of the standard library, whose answer for a
/// character is given the name `is_alphabetic`.
#[verifier::external_body]
fn char_is_alphabetic(c: char) -> (alphabetic: bool)
    ensures
        alphabetic == is_alphabetic(c),
{
    c.is_alphabetic()
}

/// Whether the character is a decimal digit or a point.
pub open spec fn is_numeric(c: char) -> bool {
    ('0' <= c && c <= '9') || c == '.'
}

/// Whether a coefficient is written without parentheses: it is made of
/// alphabetic characters only, or of digits and points only.
pub open spec fn is_plain(coef: Seq<char>) -> bool {
    (forall|i: int| 0 <= i < coef.len() ==> is_alphabetic(#[trigger] coef[i])) || (forall|i: int|
        0 <= i < coef.len() ==> is_numeric(#[trigger] coef[i]))
}

/// Whether a coefficient is written without parentheses.
pub fn plain(coef: &str) -> (plain: bool)
    ensures
        plain == is_plain(coef@),
{
    let len: usize = coef.unicode_len();
    let mut alphabetic = true;
    let mut numeric = true;
    let mut i: usize = 0;
    while i < len
        invariant
            i <= len,
            len == coef@.len(),
            alphabetic == (forall|j: int| 0 <= j < i ==> is_alphabetic(#[trigger] coef@[j])),
            numeric == (forall|j: int| 0 <= j < i ==> is_numeric(#[trigger] coef@[j])),
        decreases len - i,
    {
        let c = coef.get_char(i);
        if !char_is_alphabetic(c) {
            alphabetic = false;
        }
        if !(('0' <= c && c <= '9') || c == '.') {
            numeric = false;
        }
        i += 1;
    }
    alphabetic || numeric
}

/// A variable with its coefficient or exponent, both as text. Where the
/// coefficient or exponent is one, it is not written and there is no text
/// for it.
#[derive(Debug, PartialEq, Eq)]
pub struct Term {
    pub var: String,
    pub factor: Option<String>,
}

/// A term as a mathematical value.
pub struct TermView {
    pub var: Seq<char>,
    pub factor: Option<Seq<char>>,
}

impl View for Term {
    type V = TermView;

    open spec fn view(&self) -> TermView {
        TermView { var: self.var@, factor: self.factor.deep_view() }
    }
}

impl DeepView for Term {
    type V = TermView;

    open spec fn deep_view(&self) -> TermView {
        self@
    }
}

/// A variable multiplied by its coefficient, as it is written: the
/// coefficient, in parentheses unless it is plain, then a space and the
/// variable; the variable alone where the coefficient is one.
pub open spec fn scalar_mul_text(term: TermView) -> Seq<char> {
    match term.factor {
        None => term.var,
        Some(coef) => if is_plain(coef) {
            coef + " "@ + term.var
        } else {
            "("@ + coef + ") "@ + term.var
        },
    }
}

/// A linear combination as it is written: its terms with ` + ` between them,
/// or `0` where it has none.
pub open spec fn sum_text(terms: Seq<TermView>) -> Seq<char>
    decreases terms.len(),
{
    if terms.len() == 0 {
        "0"@
    } else if terms.len() == 1 {
        scalar_mul_text(terms[0])
    } else {
        sum_text(terms.drop_last()) + " + "@ + scalar_mul_text(terms.last())
    }
}

/// Whether the text is a single byte long: a single character of ASCII.
pub open spec fn is_single_byte(text: Seq<char>) -> bool {
    text.len() == 1 && text[0] <= '\u{7f}'
}

/// A variable raised to its exponent, as it is written: the variable, a
/// caret, and the exponent, in braces unless it is a single byte long; the
/// variable alone where the exponent is one.
pub open spec fn power_text(term: TermView) -> Seq<char> {
    match term.factor {
        None => term.var,
        Some(exp) => if is_single_byte(exp) {
            term.var + "^"@ + exp
        } else {
            term.var + "^{"@ + exp + "}"@
        },
    }
}

/// A monomial as it is written: its powers with a space between them, or `1`
/// where it has none.
pub open spec fn product_text(powers: Seq<TermView>) -> Seq<char>
    decreases powers.len(),
{
    if powers.len() == 0 {
        "1"@
    } else if powers.len() == 1 {
        power_text(powers[0])
    } else {
        product_text(powers.drop_last()) + " "@ + power_text(powers.last())
    }
}

/// Writes a variable multiplied by its coefficient after the text.
fn push_scalar_mul(text: &mut String, term: &Term)
    ensures
        final(text)@ == old(text)@ + scalar_mul_text(term@),
{
    let ghost before = text@;
    match &term.factor {
        Some(coef) => {
            if plain(coef.as_str()) {
                text.append(coef.as_str());
                text.append(" ");
            } else {
                text.append("(");
                text.append(coef.as_str());
                text.append(") ");
            }
        },
        None => {},
    }
    text.append(term.var.as_str());
    assert(text@ =~= before + scalar_mul_text(term@));
}

/// Writes a variable raised to its exponent after the text.
fn push_power(text: &mut String, term: &Term)
    ensures
        final(text)@ == old(text)@ + power_text(term@),
{
    let ghost before = text@;
    text.append(term.var.as_str());
    match &term.factor {
        Some(exp) => {
            if exp.as_str().unicode_len() == 1 && exp.as_str().get_char(0) <= '\u{7f}' {
                text.append("^");
                text.append(exp.as_str());
            } else {
                text.append("^{");
                text.append(exp.as_str());
                text.append("}");
            }
        },
        None => {},
    }
    assert(text@ =~= before + power_text(term@));
}

/// Pretty prints a linear combination whose terms are given as text, using
/// ASCII.
pub fn combination_text(terms: &Vec<Term>) -> (text: String)
    ensures
        text@ == sum_text(terms.deep_view()),
{
    if terms.len() == 0 {
        return String::from_str("0");
    }
    let ghost views = terms.deep_view();
    let mut text = String::new();
    push_scalar_mul(&mut text, &terms[0]);
    assert(views.take(1) == seq![views[0]]);
    assert(text@ =~= sum_text(views.take(1)));
    let mut i: usize = 1;
    while i < terms.len()
        invariant
            1 <= i <= terms.len(),
            views == terms.deep_view(),
            text@ == sum_text(views.take(i as int)),
        decreases terms.len() - i,
    {
        text.append(" + ");
        push_scalar_mul(&mut text, &terms[i]);
        proof {
            let more = views.take(i as int + 1);
            assert(more.drop_last() == views.take(i as int));
            assert(more.last() == views[i as int]);
        }
        i += 1;
    }
    assert(views.take(i as int) == views);
    text
}

/// Pretty prints a monomial whose powers are given as text, using ASCII.
pub fn monomial_text(powers: &Vec<Term>) -> (text: String)
    ensures
        text@ == product_text(powers.deep_view()),
{
    if powers.len() == 0 {
        return String::from_str("1");
    }
    let ghost views = powers.deep_view();
    let mut text = String::new();
    push_power(&mut text, &powers[0]);
    assert(views.take(1) == seq![views[0]]);
    assert(text@ =~= product_text(views.take(1)));
    let mut i: usize = 1;
    while i < powers.len()
        invariant
            1 <= i <= powers.len(),
            views == powers.deep_view(),
            text@ == product_text(views.take(i as int)),
        decreases powers.len() - i,
    {
        text.append(" ");
        push_power(&mut text, &powers[i]);
        proof {
            let more = views.take(i as int + 1);
            assert(more.drop_last() == views.take(i as int));
            assert(more.last() == views[i as int]);
        }
        i += 1;
    }
    assert(views.take(i as int) == views);
    text
}

/// Whether the term shows the variable with its coefficient or exponent: its
/// texts are those that the two display themselves as, and the factor has no
/// text exactly where it is one.
pub open spec fn shows<Var: Display, Factor: Display + Monoid>(
    var: Var,
    factor: Factor,
    term: Term,
) -> bool {
    &&& to_string_from_display_ensures::<Var>(&var, term.var)
    &&& match term.factor {
        None => factor.is_one_value(),
        Some(text) => !factor.is_one_value() && to_string_from_display_ensures::<Factor>(
            &factor,
            text,
        ),
    }
}

/// Whether the terms show the entries of the map, each entry once and in the
/// increasing order of the variables `vars`.
pub open spec fn written<Var: Display, Factor: Display + Monoid>(
    map: Map<Var, Factor>,
    vars: Seq<Var>,
    terms: Seq<Term>,
) -> bool {
    &&& vars.no_duplicates()
    &&& vars.to_set() == map.dom()
    &&& vstd::std_specs::btree::increasing_seq(vars)
    &&& terms.len() == vars.len()
    &&& forall|i: int| 0 <= i < vars.len() ==> shows(vars[i], map[vars[i]], #[trigger] terms[i])
}

/// Whether the keys of a sorted map are known to keep to a total order.
pub open spec fn keys_are_ordered<K>() -> bool {
    vstd::std_specs::btree::key_obeys_cmp_spec::<K>()
}

/// The terms that show the entries of the map, in the increasing order of the
/// variables.
fn terms_of<Var: Display, Factor: Display + Monoid>(map: &BTreeMap<Var, Factor>) -> (terms: Vec<
    Term,
>)
    requires
        keys_are_ordered::<Var>(),
    ensures
        exists|vars: Seq<Var>| written(map@, vars, terms@),
{
    broadcast use vstd::std_specs::btree::group_btree_axioms;

    let ghost pairs = vstd::std_specs::btree::spec_btree_map_iter(map).remaining();
    let mut terms: Vec<Term> = Vec::new();
    for pair in it: map.iter()
        invariant
            it.seq() == pairs,
            pairs.no_duplicates(),
            vstd::std_specs::btree::increasing_seq(
                pairs.map_values(|pair: (&Var, &Factor)| *pair.0),
            ),
            terms@.len() == it.index(),
            forall|i: int|
                0 <= i < terms@.len() ==> shows(*pairs[i].0, *pairs[i].1, #[trigger] terms@[i]),
    {
        let (var, factor) = pair;
        let text = if factor.is_one() {
            None
        } else {
            Some(factor.to_string())
        };
        terms.push(Term { var: var.to_string(), factor: text });
    }
    proof {
        let vars = pairs.map_values(|pair: (&Var, &Factor)| *pair.0);
        assert forall|i: int, j: int| 0 <= i < vars.len() && 0 <= j < vars.len() && i != j implies vars[i]
            != vars[j] by {
            if vars[i] == vars[j] {
                assert(map@[*pairs[i].0] == *pairs[i].1);
                assert(map@[*pairs[j].0] == *pairs[j].1);
                assert(pairs[i] == pairs[j]);
            }
        }
        assert forall|var: Var| vars.to_set().contains(var) <==> map@.dom().contains(var) by {
            if vars.to_set().contains(var) {
                let i = choose|i: int| 0 <= i < vars.len() && vars[i] == var;
                assert(map@.contains_key(*pairs[i].0));
            }
            if map@.contains_key(var) {
                let pair = (&var, &map@[var]);
                assert(pairs.contains(pair));
                let i = choose|i: int| 0 <= i < pairs.len() && pairs[i] == pair;
                assert(vars[i] == var);
            }
        }
        assert(vars.to_set() =~= map@.dom());
        assert forall|i: int| 0 <= i < vars.len() implies shows(
            vars[i],
            map@[vars[i]],
            #[trigger] terms@[i],
        ) by {
            assert(map@[*pairs[i].0] == *pairs[i].1);
        }
        assert(written(map@, vars, terms@));
    }
    terms
}

impl<Var, Coef> Combination<Var, Coef> where Var: Display, Coef: Display + Monoid {
    /// Pretty prints the combination using ASCII.
    ///
    /// Intended for debugging and testing rather than any serious use.
    pub fn to_string(&self) -> (text: String)
        requires
            keys_are_ordered::<Var>(),
        ensures
            exists|vars: Seq<Var>, terms: Seq<Term>|
                written(self@, vars, terms) && text@ == sum_text(
                    terms.map_values(|term: Term| term@),
                ),
    {
        let terms = terms_of(&self.0);
        let text = combination_text(&terms);
        proof {
            let vars = choose|vars: Seq<Var>| written(self@, vars, terms@);
            assert(terms.deep_view() == terms@.map_values(|term: Term| term@));
            assert(written(self@, vars, terms@));
        }
        text
    }
}

impl<Var, Exp> Monomial<Var, Exp> where Var: Display, Exp: Display + Monoid {
    /// Pretty prints the monomial using ASCII.
    pub fn to_string(&self) -> (text: String)
        requires
            keys_are_ordered::<Var>(),
        ensures
            exists|vars: Seq<Var>, powers: Seq<Term>|
                written(self@, vars, powers) && text@ == product_text(
                    powers.map_values(|power: Term| power@),
                ),
    {
        let powers = terms_of(&self.0);
        let text = monomial_text(&powers);
        proof {
            let vars = choose|vars: Seq<Var>| written(self@, vars, powers@);
            assert(powers.deep_view() == powers@.map_values(|power: Term| power@));
            assert(written(self@, vars, powers@));
        }
        text
    }
}

} // verus!
