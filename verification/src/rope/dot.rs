//! Version markers: a `Dot` is one actor's counter.
use vstd::prelude::*;
use std::cmp::Ordering;
use vstd::laws_eq::obeys_concrete_eq;
use vstd::std_specs::cmp::{PartialEqSpec, PartialOrdSpec};
use vstd::std_specs::convert::{FromSpec, FromSpecImpl};

verus! {

/// Dot is a version marker for a single actor
#[derive(Clone, Hash)]
pub struct Dot<A> {
    /// The actor identifier
    pub actor: A,
    /// The current version of this actor
    pub counter: u64,
}

impl<A> Dot<A> {
    /// Build a Dot from an actor and counter
    pub fn new(actor: A, counter: u64) -> (d: Self)
        ensures
            d == (Dot { actor, counter }),
    {
        Self { actor, counter }
    }

    /// Increment this dot's counter
    pub fn apply_inc(&mut self)
        requires
            old(self).counter < u64::MAX,
        ensures
            final(self).actor == old(self).actor,
            final(self).counter == old(self).counter + 1,
    {
        self.counter += 1;
    }
}

impl<A: Clone> Dot<A> {
    /// Generate the successor of this dot
    pub fn inc(&self) -> (d: Self)
        requires
            self.counter < u64::MAX,
        ensures
            d.counter == self.counter + 1,
            cloned(self.actor, d.actor),
    {
        Self { actor: self.actor.clone(), counter: self.counter + 1 }
    }
}

impl<A: Copy> Copy for Dot<A> {

}

impl<A: PartialEq> PartialEq for Dot<A> {
    fn eq(&self, other: &Self) -> (r: bool) {
        self.actor == other.actor && self.counter == other.counter
    }
}

impl<A: PartialEq> vstd::std_specs::cmp::PartialEqSpecImpl for Dot<A> {
    open spec fn obeys_eq_spec() -> bool {
        A::obeys_eq_spec()
    }

    open spec fn eq_spec(&self, other: &Self) -> bool {
        self.actor.eq_spec(&other.actor) && self.counter == other.counter
    }
}

impl<A: Eq> Eq for Dot<A> {

}

impl<A: PartialOrd> PartialOrd for Dot<A> {
    fn partial_cmp(&self, other: &Self) -> (r: Option<Ordering>) {
        if self.actor == other.actor {
            if self.counter < other.counter {
                Some(Ordering::Less)
            } else if self.counter == other.counter {
                Some(Ordering::Equal)
            } else {
                Some(Ordering::Greater)
            }
        } else {
            None
        }
    }
}

impl<A: PartialOrd> vstd::std_specs::cmp::PartialOrdSpecImpl for Dot<A> {
    open spec fn obeys_partial_cmp_spec() -> bool {
        A::obeys_eq_spec()
    }

    /// Dots of one actor are ordered by their counters; dots of different
    /// actors are not comparable.
    open spec fn partial_cmp_spec(&self, other: &Self) -> Option<Ordering> {
        if self.actor.eq_spec(&other.actor) {
            if self.counter < other.counter {
                Some(Ordering::Less)
            } else if self.counter == other.counter {
                Some(Ordering::Equal)
            } else {
                Some(Ordering::Greater)
            }
        } else {
            None
        }
    }
}

impl<A> From<(A, u64)> for Dot<A> {
    fn from(dot_material: (A, u64)) -> (d: Self) {
        let (actor, counter) = dot_material;
        Self { actor, counter }
    }
}

impl<A> FromSpecImpl<(A, u64)> for Dot<A> {
    open spec fn obeys_from_spec() -> bool {
        true
    }

    open spec fn from_spec(v: (A, u64)) -> Self {
        Dot { actor: v.0, counter: v.1 }
    }
}

/// Incrementing a dot moves it strictly up in the order of its actor's dots:
/// the dot before the increment is less than the dot after it.
pub proof fn lemma_apply_inc_is_successor<A: PartialOrd>(before: Dot<A>, after: Dot<A>)
    requires
        obeys_concrete_eq::<A>(),
        before.counter < u64::MAX,
        after.actor == before.actor,
        after.counter == before.counter + 1,
    ensures
        before.partial_cmp_spec(&after) == Some(Ordering::Less),
        after.partial_cmp_spec(&before) == Some(Ordering::Greater),
{
    reveal(obeys_concrete_eq);
}

/// Two dots compare equal exactly when they are the same dot, and dots of
/// different actors never compare.
pub proof fn lemma_partial_cmp_equal_iff_same<A: PartialOrd>(a: Dot<A>, b: Dot<A>)
    requires
        obeys_concrete_eq::<A>(),
    ensures
        (a.partial_cmp_spec(&b) == Some(Ordering::Equal)) <==> a == b,
        (a.partial_cmp_spec(&b) is None) <==> a.actor != b.actor,
{
    reveal(obeys_concrete_eq);
}

/// The order of dots is antisymmetric: comparing the other way round flips the answer.
pub proof fn lemma_partial_cmp_flips<A: PartialOrd>(a: Dot<A>, b: Dot<A>)
    requires
        obeys_concrete_eq::<A>(),
    ensures
        a.partial_cmp_spec(&b) == Some(Ordering::Less) <==> b.partial_cmp_spec(&a) == Some(
            Ordering::Greater,
        ),
        a.partial_cmp_spec(&b) is None <==> b.partial_cmp_spec(&a) is None,
{
    reveal(obeys_concrete_eq);
}

/// Dots of one actor compare as their counters do, however far apart the
/// counters are: less, equal and greater exactly when the counters are.
pub proof fn lemma_partial_cmp_follows_counters<A: PartialOrd>(a: Dot<A>, b: Dot<A>)
    requires
        obeys_concrete_eq::<A>(),
        a.actor == b.actor,
    ensures
        a.partial_cmp_spec(&b) == Some(Ordering::Less) <==> a.counter < b.counter,
        a.partial_cmp_spec(&b) == Some(Ordering::Equal) <==> a.counter == b.counter,
        a.partial_cmp_spec(&b) == Some(Ordering::Greater) <==> a.counter > b.counter,
{
    reveal(obeys_concrete_eq);
}

/// The order of dots is transitive: a dot less than a second one, which is
/// less than a third, is less than the third.
pub proof fn lemma_partial_cmp_transitive<A: PartialOrd>(a: Dot<A>, b: Dot<A>, c: Dot<A>)
    requires
        obeys_concrete_eq::<A>(),
        a.partial_cmp_spec(&b) == Some(Ordering::Less),
        b.partial_cmp_spec(&c) == Some(Ordering::Less),
    ensures
        a.partial_cmp_spec(&c) == Some(Ordering::Less),
{
    reveal(obeys_concrete_eq);
}

/// Two dots are `==` exactly when they are the same dot: the same actor and
/// the same counter. So `==` on dots is symmetric, dots with different
/// counters are never equal, and `==` agrees with `partial_cmp` giving
/// `Equal`.
pub proof fn lemma_eq_is_sameness<A: PartialOrd>(a: Dot<A>, b: Dot<A>)
    requires
        obeys_concrete_eq::<A>(),
    ensures
        a.eq_spec(&b) <==> a == b,
        a.eq_spec(&b) == b.eq_spec(&a),
        a.counter != b.counter ==> !a.eq_spec(&b),
        a.eq_spec(&b) <==> a.partial_cmp_spec(&b) == Some(Ordering::Equal),
        obeys_concrete_eq::<Dot<A>>(),
{
    reveal(obeys_concrete_eq);
}

/// Building a dot from a pair gives the dot that `new` builds from its parts.
pub proof fn lemma_from_pair_is_new<A>(actor: A, counter: u64)
    ensures
        <Dot<A> as FromSpec<(A, u64)>>::from_spec((actor, counter)) == (Dot { actor, counter }),
{
}

} // verus!
