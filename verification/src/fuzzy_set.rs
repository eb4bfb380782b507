//! Named fuzzy sets: elements with a ternary membership degree.

use vstd::prelude::*;

use crate::membership::TernaryMembership;
use crate::membership_map::{
    degree_or_low, keys_at_least_spec, lists_exactly, str_views, MembershipMap,
};

verus! {

/// The elements whose membership is not Low.
pub open spec fn support_spec(m: Map<Seq<char>, TernaryMembership>) -> Set<Seq<char>> {
    m.dom().filter(|k: Seq<char>| m[k] != TernaryMembership::Low)
}

/// The elements whose membership is High.
pub open spec fn core_spec(m: Map<Seq<char>, TernaryMembership>) -> Set<Seq<char>> {
    m.dom().filter(|k: Seq<char>| m[k] == TernaryMembership::High)
}

/// A ternary fuzzy set: a name, and a membership degree for each element.
#[derive(Debug)]
pub struct TernaryFuzzySet {
    pub name: String,
    pub memberships: MembershipMap,
}

impl Clone for TernaryFuzzySet {
    fn clone(&self) -> (r: TernaryFuzzySet)
        ensures
            r.name == self.name,
            r.memberships@ == self.memberships@,
    {
        TernaryFuzzySet { name: self.name.clone(), memberships: self.memberships.clone() }
    }
}

impl TernaryFuzzySet {
    /// An empty set with the given name.
    pub fn new(name: &str) -> (r: TernaryFuzzySet)
        ensures
            r.name@ == name@,
            r.memberships@ == Map::<Seq<char>, TernaryMembership>::empty(),
    {
        TernaryFuzzySet { name: name.to_owned(), memberships: MembershipMap::new() }
    }

    /// Sets the membership of `element`, replacing any earlier one.
    pub fn insert(&mut self, element: &str, membership: TernaryMembership)
        ensures
            final(self).name == old(self).name,
            final(self).memberships@ == old(self).memberships@.insert(element@, membership),
    {
        self.memberships.insert(element.to_owned(), membership);
    }

    /// The membership of `element`; an element never inserted is Low.
    pub fn membership(&self, element: &str) -> (r: TernaryMembership)
        ensures
            r == degree_or_low(self.memberships@, element@),
    {
        match self.memberships.get(element) {
            Some(m) => m,
            None => TernaryMembership::Low,
        }
    }

    /// Every element of the set, each once.
    pub fn elements(&self) -> (r: Vec<&str>)
        ensures
            lists_exactly(str_views(r@), self.memberships@.dom()),
    {
        let r = self.memberships.keys_at_least(TernaryMembership::Low);
        assert(keys_at_least_spec(self.memberships@, TernaryMembership::Low)
            =~= self.memberships@.dom());
        r
    }

    /// Support: elements with non-Low membership, each once.
    pub fn support(&self) -> (r: Vec<&str>)
        ensures
            lists_exactly(str_views(r@), support_spec(self.memberships@)),
    {
        let r = self.memberships.keys_at_least(TernaryMembership::Medium);
        assert(keys_at_least_spec(self.memberships@, TernaryMembership::Medium) =~= support_spec(
            self.memberships@,
        ));
        r
    }

    /// Core: elements with High membership, each once.
    pub fn core_elements(&self) -> (r: Vec<&str>)
        ensures
            lists_exactly(str_views(r@), core_spec(self.memberships@)),
    {
        let r = self.memberships.keys_at_least(TernaryMembership::High);
        assert(keys_at_least_spec(self.memberships@, TernaryMembership::High) =~= core_spec(
            self.memberships@,
        ));
        r
    }
}

/// What is read back is what was last written: after setting the
/// membership of `element` to `degree`, `element` has that degree and every
/// other element keeps its own. An element of an empty set is Low.
pub proof fn lemma_membership_after_insert(
    m: Map<Seq<char>, TernaryMembership>,
    element: Seq<char>,
    degree: TernaryMembership,
    other: Seq<char>,
)
    ensures
        degree_or_low(m.insert(element, degree), element) == degree,
        other != element ==> degree_or_low(m.insert(element, degree), other) == degree_or_low(
            m,
            other,
        ),
        degree_or_low(Map::<Seq<char>, TernaryMembership>::empty(), other)
            == TernaryMembership::Low,
{
}

/// The core lies within the support, and the support within the elements;
/// an element outside the support has degree Low.
pub proof fn lemma_core_within_support(m: Map<Seq<char>, TernaryMembership>)
    ensures
        core_spec(m).subset_of(support_spec(m)),
        support_spec(m).subset_of(m.dom()),
        forall|k: Seq<char>| !#[trigger] support_spec(m).contains(k) ==> degree_or_low(m, k) == TernaryMembership::Low,
{
}

/// The support holds exactly the elements whose degree is not Low: every
/// such element is in it, and no Low element is.
pub proof fn lemma_support_members(m: Map<Seq<char>, TernaryMembership>, k: Seq<char>)
    ensures
        support_spec(m).contains(k) <==> (m.contains_key(k) && m[k] != TernaryMembership::Low),
        support_spec(m).contains(k) <==> degree_or_low(m, k) != TernaryMembership::Low,
{
}

/// The core holds exactly the elements whose degree is High.
pub proof fn lemma_core_members(m: Map<Seq<char>, TernaryMembership>, k: Seq<char>)
    ensures
        core_spec(m).contains(k) <==> (m.contains_key(k) && m[k] == TernaryMembership::High),
        core_spec(m).contains(k) <==> degree_or_low(m, k) == TernaryMembership::High,
{
}

/// Listing the keys at or above a level lists exactly the keys whose degree
/// has at least that level's value.
pub proof fn lemma_keys_at_least_members(
    m: Map<Seq<char>, TernaryMembership>,
    level: TernaryMembership,
    k: Seq<char>,
)
    ensures
        keys_at_least_spec(m, level).contains(k) <==> (m.contains_key(k) && m[k].spec_value()
            >= level.spec_value()),
{
}

} // verus!
