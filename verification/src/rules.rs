//! Fuzzy inference rules, defuzzification, and evaluation of a rule base.

use vstd::prelude::*;

use crate::membership::{spec_complement, spec_tconorm, spec_tnorm, ternary_tconorm, ternary_tnorm, TernaryMembership};
use crate::membership_map::{clone_pairs, degree_or_low, MembershipMap};

verus! {

/// How the antecedents of a rule are combined.
#[derive(Debug, Clone, Copy, PartialEq, Eq, Structural)]
pub enum RuleOperator {
    And,
    Or,
}

/// A fuzzy inference rule: IF each (or, for OR rules, some) antecedent
/// "variable IS label" holds THEN the consequent variable IS its label.
#[derive(Debug)]
pub struct FuzzyRule {
    /// Pairs of (variable, label).
    pub antecedents: Vec<(String, TernaryMembership)>,
    pub operator: RuleOperator,
    pub consequent: (String, TernaryMembership),
}

impl Clone for FuzzyRule {
    fn clone(&self) -> (r: FuzzyRule)
        ensures
            r.antecedents@ == self.antecedents@,
            r.operator == self.operator,
            r.consequent == self.consequent,
    {
        let r = FuzzyRule {
            antecedents: clone_pairs(&self.antecedents),
            operator: self.operator,
            consequent: (self.consequent.0.clone(), self.consequent.1),
        };
        r
    }
}

/// The AND of a list of degrees, folded from High.
pub open spec fn and_fold(s: Seq<TernaryMembership>) -> TernaryMembership
    decreases s.len(),
{
    if s.len() == 0 {
        TernaryMembership::High
    } else {
        spec_tnorm(and_fold(s.drop_last()), s.last())
    }
}

/// The OR of a list of degrees, folded from Low.
pub open spec fn or_fold(s: Seq<TernaryMembership>) -> TernaryMembership
    decreases s.len(),
{
    if s.len() == 0 {
        TernaryMembership::Low
    } else {
        spec_tconorm(or_fold(s.drop_last()), s.last())
    }
}

/// How far the antecedent "`variable` IS `label`" holds: High when the
/// variable's current degree is the label, Low otherwise. A variable without
/// a degree counts as Low.
pub open spec fn antecedent_holds(
    antecedent: (String, TernaryMembership),
    memberships: Map<Seq<char>, TernaryMembership>,
) -> TernaryMembership {
    if degree_or_low(memberships, antecedent.0@) == antecedent.1 {
        TernaryMembership::High
    } else {
        TernaryMembership::Low
    }
}

/// How far each antecedent holds, in order.
pub open spec fn antecedent_degrees(
    antecedents: Seq<(String, TernaryMembership)>,
    memberships: Map<Seq<char>, TernaryMembership>,
) -> Seq<TernaryMembership> {
    antecedents.map_values(|a: (String, TernaryMembership)| antecedent_holds(a, memberships))
}

/// How strongly a rule fires on the given degrees.
pub open spec fn firing_strength_spec(
    rule: FuzzyRule,
    memberships: Map<Seq<char>, TernaryMembership>,
) -> TernaryMembership {
    let degrees = antecedent_degrees(rule.antecedents@, memberships);
    match rule.operator {
        RuleOperator::And => and_fold(degrees),
        RuleOperator::Or => or_fold(degrees),
    }
}

impl FuzzyRule {
    /// A rule whose antecedents are combined with AND.
    pub fn new_and(
        antecedents: Vec<(String, TernaryMembership)>,
        consequent: (String, TernaryMembership),
    ) -> (r: FuzzyRule)
        ensures
            r.antecedents == antecedents,
            r.operator == RuleOperator::And,
            r.consequent == consequent,
    {
        FuzzyRule { antecedents, operator: RuleOperator::And, consequent }
    }

    /// A rule whose antecedents are combined with OR.
    pub fn new_or(
        antecedents: Vec<(String, TernaryMembership)>,
        consequent: (String, TernaryMembership),
    ) -> (r: FuzzyRule)
        ensures
            r.antecedents == antecedents,
            r.operator == RuleOperator::Or,
            r.consequent == consequent,
    {
        FuzzyRule { antecedents, operator: RuleOperator::Or, consequent }
    }

    /// Evaluate the rule's firing strength given current memberships: High
    /// when the antecedents hold as the operator asks, Low otherwise.
    pub fn firing_strength(&self, memberships: &MembershipMap) -> (r: TernaryMembership)
        ensures
            r == firing_strength_spec(*self, memberships@),
    {
        let ghost degrees = antecedent_degrees(self.antecedents@, memberships@);
        let mut acc = match self.operator {
            RuleOperator::And => TernaryMembership::High,
            RuleOperator::Or => TernaryMembership::Low,
        };
        let n = self.antecedents.len();
        let mut i: usize = 0;
        while i < n
            invariant
                n == self.antecedents@.len(),
                degrees == antecedent_degrees(self.antecedents@, memberships@),
                i <= n,
                acc == (match self.operator {
                    RuleOperator::And => and_fold(degrees.take(i as int)),
                    RuleOperator::Or => or_fold(degrees.take(i as int)),
                }),
            decreases n - i,
        {
            let current = match memberships.get(self.antecedents[i].0.as_str()) {
                Some(m) => m,
                None => TernaryMembership::Low,
            };
            let degree = if current == self.antecedents[i].1 {
                TernaryMembership::High
            } else {
                TernaryMembership::Low
            };
            assert(degrees.take(i + 1).drop_last() =~= degrees.take(i as int));
            assert(degrees[i as int] == degree);
            acc = match self.operator {
                RuleOperator::And => ternary_tnorm(acc, degree),
                RuleOperator::Or => ternary_tconorm(acc, degree),
            };
            i = i + 1;
        }
        assert(degrees.take(n as int) =~= degrees);
        acc
    }
}

/// The sum of the numeric values of a list of degrees.
pub open spec fn degree_sum(s: Seq<TernaryMembership>) -> int
    decreases s.len(),
{
    if s.len() == 0 {
        0
    } else {
        degree_sum(s.drop_last()) + s.last().spec_value()
    }
}

/// Average the values and threshold at plus or minus 0.33: an average above
/// 0.33 is High, one below -0.33 is Low, anything else (and an empty list)
/// is Medium.
pub open spec fn defuzzify_spec(s: Seq<TernaryMembership>) -> TernaryMembership {
    if 100 * degree_sum(s) > 33 * s.len() {
        TernaryMembership::High
    } else if 100 * degree_sum(s) < -33 * s.len() {
        TernaryMembership::Low
    } else {
        TernaryMembership::Medium
    }
}

/// Defuzzification to a ternary output.
pub fn defuzzify_to_ternary(values: &[TernaryMembership]) -> (r: TernaryMembership)
    ensures
        r == defuzzify_spec(values@),
{
    let n = values.len();
    let mut high: usize = 0;
    let mut low: usize = 0;
    let mut i: usize = 0;
    while i < n
        invariant
            n == values@.len(),
            i <= n,
            high + low <= i,
            high - low == degree_sum(values@.take(i as int)),
        decreases n - i,
    {
        assert(values@.take(i + 1).drop_last() =~= values@.take(i as int));
        match values[i] {
            TernaryMembership::High => {
                high = high + 1;
            },
            TernaryMembership::Low => {
                low = low + 1;
            },
            TernaryMembership::Medium => {},
        }
        i = i + 1;
    }
    assert(values@.take(n as int) =~= values@);
    let total: i128 = high as i128 - low as i128;
    let count: i128 = n as i128;
    if 100 * total > 33 * count {
        TernaryMembership::High
    } else if 100 * total < -33 * count {
        TernaryMembership::Low
    } else {
        TernaryMembership::Medium
    }
}

/// Folding with AND gives the minimum: it is at most every degree, it is
/// one of the degrees when there are any, and it is High when there are none.
pub proof fn lemma_and_fold_is_min(s: Seq<TernaryMembership>)
    ensures
        forall|i: int| 0 <= i < s.len() ==> and_fold(s).spec_value() <= (#[trigger] s[i]).spec_value(),
        s.len() == 0 ==> and_fold(s) == TernaryMembership::High,
        s.len() > 0 ==> s.contains(and_fold(s)),
    decreases s.len(),
{
    if s.len() > 0 {
        let p = s.drop_last();
        lemma_and_fold_is_min(p);
        assert forall|i: int| 0 <= i < s.len() implies and_fold(s).spec_value() <= (
        #[trigger] s[i]).spec_value() by {
            if i < s.len() - 1 {
                assert(s[i] == p[i]);
            }
        }
        if p.len() > 0 {
            let j = choose|j: int| 0 <= j < p.len() && p[j] == and_fold(p);
            assert(s[j] == p[j]);
        }
        assert(s[s.len() - 1] == s.last());
    }
}

/// Folding with OR gives the maximum: it is at least every degree, it is
/// one of the degrees when there are any, and it is Low when there are none.
pub proof fn lemma_or_fold_is_max(s: Seq<TernaryMembership>)
    ensures
        forall|i: int| 0 <= i < s.len() ==> or_fold(s).spec_value() >= (#[trigger] s[i]).spec_value(),
        s.len() == 0 ==> or_fold(s) == TernaryMembership::Low,
        s.len() > 0 ==> s.contains(or_fold(s)),
    decreases s.len(),
{
    if s.len() > 0 {
        let p = s.drop_last();
        lemma_or_fold_is_max(p);
        assert forall|i: int| 0 <= i < s.len() implies or_fold(s).spec_value() >= (
        #[trigger] s[i]).spec_value() by {
            if i < s.len() - 1 {
                assert(s[i] == p[i]);
            }
        }
        if p.len() > 0 {
            let j = choose|j: int| 0 <= j < p.len() && p[j] == or_fold(p);
            assert(s[j] == p[j]);
        }
        assert(s[s.len() - 1] == s.last());
    }
}

/// A rule either fires (High) or does not (Low). An AND rule fires exactly
/// when every antecedent holds, and an OR rule exactly when some antecedent
/// holds; so an antecedent that fails stops an AND rule from firing, and one
/// that holds makes an OR rule fire.
pub proof fn lemma_firing_strength_bounds(
    rule: FuzzyRule,
    memberships: Map<Seq<char>, TernaryMembership>,
    i: int,
)
    requires
        0 <= i < rule.antecedents@.len(),
    ensures
        firing_strength_spec(rule, memberships) == TernaryMembership::High
            || firing_strength_spec(rule, memberships) == TernaryMembership::Low,
        rule.operator == RuleOperator::And ==> firing_strength_spec(rule, memberships).spec_value()
            <= antecedent_holds(rule.antecedents@[i], memberships).spec_value(),
        rule.operator == RuleOperator::Or ==> firing_strength_spec(rule, memberships).spec_value()
            >= antecedent_holds(rule.antecedents@[i], memberships).spec_value(),
        rule.operator == RuleOperator::And && degree_or_low(memberships, rule.antecedents@[i].0@)
            != rule.antecedents@[i].1 ==> firing_strength_spec(rule, memberships)
            == TernaryMembership::Low,
        rule.operator == RuleOperator::Or && degree_or_low(memberships, rule.antecedents@[i].0@)
            == rule.antecedents@[i].1 ==> firing_strength_spec(rule, memberships)
            == TernaryMembership::High,
{
    let degrees = antecedent_degrees(rule.antecedents@, memberships);
    lemma_and_fold_is_min(degrees);
    lemma_or_fold_is_max(degrees);
    assert(degrees[i] == antecedent_holds(rule.antecedents@[i], memberships));
    if rule.operator == RuleOperator::And {
        if degrees.len() > 0 {
            let j = choose|j: int| 0 <= j < degrees.len() && degrees[j] == and_fold(degrees);
            assert(degrees[j] == antecedent_holds(rule.antecedents@[j], memberships));
        }
    } else {
        let j = choose|j: int| 0 <= j < degrees.len() && degrees[j] == or_fold(degrees);
        assert(degrees[j] == antecedent_holds(rule.antecedents@[j], memberships));
    }
}

/// A rule with no antecedents: an AND rule always fires, an OR rule never.
pub proof fn lemma_firing_strength_empty(
    rule: FuzzyRule,
    memberships: Map<Seq<char>, TernaryMembership>,
)
    requires
        rule.antecedents@.len() == 0,
    ensures
        firing_strength_spec(rule, memberships) == (match rule.operator {
            RuleOperator::And => TernaryMembership::High,
            RuleOperator::Or => TernaryMembership::Low,
        }),
{
    assert(antecedent_degrees(rule.antecedents@, memberships).len() == 0);
}

/// An AND rule fires (High) exactly when every antecedent's variable has
/// the antecedent's label as its degree, and otherwise does not fire (Low);
/// an OR rule fires exactly when some antecedent's variable has its label.
/// This holds for any number of antecedents.
pub proof fn lemma_firing_strength_meaning(
    rule: FuzzyRule,
    memberships: Map<Seq<char>, TernaryMembership>,
)
    ensures
        rule.operator == RuleOperator::And ==> (firing_strength_spec(rule, memberships)
            == TernaryMembership::High <==> forall|i: int|
            0 <= i < rule.antecedents@.len() ==> degree_or_low(
                memberships,
                #[trigger] rule.antecedents@[i].0@,
            ) == rule.antecedents@[i].1),
        rule.operator == RuleOperator::Or ==> (firing_strength_spec(rule, memberships)
            == TernaryMembership::High <==> exists|i: int|
            0 <= i < rule.antecedents@.len() && degree_or_low(
                memberships,
                #[trigger] rule.antecedents@[i].0@,
            ) == rule.antecedents@[i].1),
        firing_strength_spec(rule, memberships) == TernaryMembership::High
            || firing_strength_spec(rule, memberships) == TernaryMembership::Low,
{
    let ants = rule.antecedents@;
    let degrees = antecedent_degrees(ants, memberships);
    lemma_and_fold_is_min(degrees);
    lemma_or_fold_is_max(degrees);
    assert forall|i: int| 0 <= i < ants.len() implies #[trigger] degrees[i] == antecedent_holds(
        ants[i],
        memberships,
    ) by {}
    if degrees.len() > 0 {
        let j = choose|j: int| 0 <= j < degrees.len() && degrees[j] == and_fold(degrees);
        assert(degrees[j] == antecedent_holds(ants[j], memberships));
        let j2 = choose|j: int| 0 <= j < degrees.len() && degrees[j] == or_fold(degrees);
        assert(degrees[j2] == antecedent_holds(ants[j2], memberships));
    }
    if rule.operator == RuleOperator::And {
        if firing_strength_spec(rule, memberships) == TernaryMembership::High {
            assert forall|i: int| 0 <= i < ants.len() implies degree_or_low(
                memberships,
                #[trigger] ants[i].0@,
            ) == ants[i].1 by {
                assert(degrees[i] == antecedent_holds(ants[i], memberships));
            }
        }
    } else {
        if exists|i: int|
            0 <= i < ants.len() && degree_or_low(memberships, #[trigger] ants[i].0@) == ants[i].1 {
            let i = choose|i: int|
                0 <= i < ants.len() && degree_or_low(memberships, #[trigger] ants[i].0@)
                    == ants[i].1;
            assert(degrees[i] == antecedent_holds(ants[i], memberships));
        }
    }
}

/// The number of times `d` occurs in `s`.
pub open spec fn count_of(s: Seq<TernaryMembership>, d: TernaryMembership) -> nat {
    s.filter(|x: TernaryMembership| x == d).len()
}

/// The sum of a list is its number of Highs less its number of Lows.
pub proof fn lemma_degree_sum_counts(s: Seq<TernaryMembership>)
    ensures
        degree_sum(s) == count_of(s, TernaryMembership::High) - count_of(s, TernaryMembership::Low),
    decreases s.len(),
{
    reveal(Seq::filter);
    if s.len() > 0 {
        lemma_degree_sum_counts(s.drop_last());
    }
}

/// Defuzzification averages: a list is High exactly when its Highs outnumber
/// its Lows by more than 33 per 100 values, Low exactly when its Lows
/// outnumber its Highs by more than 33 per 100 values, and Medium otherwise.
pub proof fn lemma_defuzzify_counts(s: Seq<TernaryMembership>)
    ensures
        defuzzify_spec(s) == TernaryMembership::High <==> 100 * (count_of(
            s,
            TernaryMembership::High,
        ) - count_of(s, TernaryMembership::Low)) > 33 * s.len(),
        defuzzify_spec(s) == TernaryMembership::Low <==> 100 * (count_of(
            s,
            TernaryMembership::High,
        ) - count_of(s, TernaryMembership::Low)) < -33 * s.len(),
{
    lemma_degree_sum_counts(s);
}

/// Adding a High never lowers the result, and adding a Low never raises it.
pub proof fn lemma_defuzzify_monotone(s: Seq<TernaryMembership>)
    ensures
        defuzzify_spec(s.push(TernaryMembership::High)).spec_value() >= defuzzify_spec(
            s,
        ).spec_value(),
        defuzzify_spec(s.push(TernaryMembership::Low)).spec_value() <= defuzzify_spec(
            s,
        ).spec_value(),
{
    assert(s.push(TernaryMembership::High).drop_last() =~= s);
    assert(s.push(TernaryMembership::Low).drop_last() =~= s);
}

/// The sum of two lists joined is the sum of their sums.
pub proof fn lemma_degree_sum_concat(a: Seq<TernaryMembership>, b: Seq<TernaryMembership>)
    ensures
        degree_sum(a + b) == degree_sum(a) + degree_sum(b),
    decreases b.len(),
{
    if b.len() == 0 {
        assert(a + b =~= a);
    } else {
        lemma_degree_sum_concat(a, b.drop_last());
        assert((a + b).drop_last() =~= a + b.drop_last());
    }
}

/// Defuzzification depends on the values and not on their order: joining
/// two lists either way round gives the same result.
pub proof fn lemma_defuzzify_order_independent(a: Seq<TernaryMembership>, b: Seq<TernaryMembership>)
    ensures
        defuzzify_spec(a + b) == defuzzify_spec(b + a),
{
    lemma_degree_sum_concat(a, b);
    lemma_degree_sum_concat(b, a);
}

/// A non-empty list of one degree defuzzifies to that degree.
pub proof fn lemma_defuzzify_uniform(s: Seq<TernaryMembership>, d: TernaryMembership)
    requires
        s.len() > 0,
        forall|i: int| 0 <= i < s.len() ==> #[trigger] s[i] == d,
    ensures
        defuzzify_spec(s) == d,
{
    lemma_degree_sum_uniform(s, d);
}

/// The sum of a list of one degree is its length times that degree's value.
proof fn lemma_degree_sum_uniform(s: Seq<TernaryMembership>, d: TernaryMembership)
    requires
        forall|i: int| 0 <= i < s.len() ==> #[trigger] s[i] == d,
    ensures
        degree_sum(s) == s.len() * d.spec_value(),
    decreases s.len(),
{
    if s.len() > 0 {
        let p = s.drop_last();
        assert forall|i: int| 0 <= i < p.len() implies #[trigger] p[i] == d by {
            assert(p[i] == s[i]);
        }
        lemma_degree_sum_uniform(p, d);
        assert(s.last() == s[s.len() - 1]);
        assert(degree_sum(s) == p.len() * d.spec_value() + d.spec_value());
        assert((p.len() + 1) * d.spec_value() == p.len() * d.spec_value() + d.spec_value())
            by (nonlinear_arith);
    }
}

/// Complementing every value complements the defuzzified result.
pub proof fn lemma_defuzzify_complement(s: Seq<TernaryMembership>)
    ensures
        defuzzify_spec(s.map_values(|d: TernaryMembership| spec_complement(d))) == spec_complement(
            defuzzify_spec(s),
        ),
{
    lemma_degree_sum_complement(s);
}

/// Complementing every value negates the sum.
proof fn lemma_degree_sum_complement(s: Seq<TernaryMembership>)
    ensures
        degree_sum(s.map_values(|d: TernaryMembership| spec_complement(d))) == -degree_sum(s),
    decreases s.len(),
{
    let c = s.map_values(|d: TernaryMembership| spec_complement(d));
    if s.len() > 0 {
        let p = s.drop_last();
        lemma_degree_sum_complement(p);
        assert(c.drop_last() =~= p.map_values(|d: TernaryMembership| spec_complement(d)));
        assert(c.last() == spec_complement(s.last()));
    }
}

/// What a rule contributes to its consequent variable: its firing
/// strength ANDed with the consequent's membership.
pub open spec fn rule_output(
    rule: FuzzyRule,
    memberships: Map<Seq<char>, TernaryMembership>,
) -> TernaryMembership {
    spec_tnorm(firing_strength_spec(rule, memberships), rule.consequent.1)
}

/// The contributions of the rules that fire (above Low) and whose
/// consequent is `var`, in rule order. A rule that does not fire
/// contributes nothing.
pub open spec fn outputs_for(
    rules: Seq<FuzzyRule>,
    memberships: Map<Seq<char>, TernaryMembership>,
    var: Seq<char>,
) -> Seq<TernaryMembership>
    decreases rules.len(),
{
    if rules.len() == 0 {
        Seq::empty()
    } else {
        let earlier = outputs_for(rules.drop_last(), memberships, var);
        if rules.last().consequent.0@ == var && firing_strength_spec(rules.last(), memberships)
            != TernaryMembership::Low {
            earlier.push(rule_output(rules.last(), memberships))
        } else {
            earlier
        }
    }
}

/// The rule concludes on `var` and fires.
pub open spec fn fires_for(
    rule: FuzzyRule,
    memberships: Map<Seq<char>, TernaryMembership>,
    var: Seq<char>,
) -> bool {
    rule.consequent.0@ == var && firing_strength_spec(rule, memberships) != TernaryMembership::Low
}

/// One contribution for every rule that concludes on `var` and fires, in
/// rule order: keep those rules, and take each one's output.
pub open spec fn contributions(
    rules: Seq<FuzzyRule>,
    memberships: Map<Seq<char>, TernaryMembership>,
    var: Seq<char>,
) -> Seq<TernaryMembership> {
    rules.filter(|r: FuzzyRule| fires_for(r, memberships, var)).map_values(
        |r: FuzzyRule| rule_output(r, memberships),
    )
}

/// Every rule that concludes on `var` and fires contributes, in rule order,
/// and no other rule does: the contributions are those rules' outputs, one
/// each. Adding a rule that concludes on `var` and fires appends its output;
/// adding any other rule changes nothing.
pub proof fn lemma_outputs_are_all_firing_rules(
    rules: Seq<FuzzyRule>,
    memberships: Map<Seq<char>, TernaryMembership>,
    var: Seq<char>,
    extra: FuzzyRule,
)
    ensures
        outputs_for(rules, memberships, var) == contributions(rules, memberships, var),
        outputs_for(rules, memberships, var).len() == rules.filter(
            |r: FuzzyRule| fires_for(r, memberships, var),
        ).len(),
        fires_for(extra, memberships, var) ==> outputs_for(rules.push(extra), memberships, var)
            == outputs_for(rules, memberships, var).push(rule_output(extra, memberships)),
        !fires_for(extra, memberships, var) ==> outputs_for(rules.push(extra), memberships, var)
            == outputs_for(rules, memberships, var),
    decreases rules.len(),
{
    lemma_outputs_match_contributions(rules, memberships, var);
    assert(rules.push(extra).drop_last() =~= rules);
}

/// `outputs_for` keeps exactly the firing rules' outputs.
proof fn lemma_outputs_match_contributions(
    rules: Seq<FuzzyRule>,
    memberships: Map<Seq<char>, TernaryMembership>,
    var: Seq<char>,
)
    ensures
        outputs_for(rules, memberships, var) == contributions(rules, memberships, var),
    decreases rules.len(),
{
    reveal(Seq::filter);
    let pred = |r: FuzzyRule| fires_for(r, memberships, var);
    let out = |r: FuzzyRule| rule_output(r, memberships);
    if rules.len() > 0 {
        let p = rules.drop_last();
        lemma_outputs_match_contributions(p, memberships, var);
        let fp = p.filter(pred);
        assert(rules.filter(pred) == (if pred(rules.last()) {
            fp.push(rules.last())
        } else {
            fp
        }));
        assert(fp.push(rules.last()).map_values(out) =~= fp.map_values(out).push(
            out(rules.last()),
        ));
    } else {
        assert(contributions(rules, memberships, var) =~= Seq::<TernaryMembership>::empty());
    }
}

/// The consequent variables of the first `bound` rules.
pub open spec fn consequent_vars(rules: Seq<FuzzyRule>, bound: int) -> Set<Seq<char>> {
    Set::new(|v: Seq<char>| exists|j: int| 0 <= j < bound && #[trigger] rules[j].consequent.0@ == v)
}

/// Applies every rule to the fuzzified inputs and defuzzifies, per output
/// variable, what the rules that conclude on it and fire contribute. A
/// variable none of whose rules fire comes out Medium.
pub fn evaluate_rules(rules: &[FuzzyRule], memberships: &MembershipMap) -> (r: MembershipMap)
    ensures
        r@.dom() == consequent_vars(rules@, rules@.len() as int),
        forall|v: Seq<char>|
            #[trigger] r@.contains_key(v) ==> r@[v] == defuzzify_spec(
                outputs_for(rules@, memberships@, v),
            ),
        forall|v: Seq<char>|
            #[trigger] r@.contains_key(v) ==> r@[v] == defuzzify_spec(
                contributions(rules@, memberships@, v),
            ),
{
    let mut result = MembershipMap::new();
    let n = rules.len();
    let mut i: usize = 0;
    while i < n
        invariant
            n == rules@.len(),
            i <= n,
            result@.dom() == consequent_vars(rules@, i as int),
            forall|v: Seq<char>|
                #[trigger] result@.contains_key(v) ==> result@[v] == defuzzify_spec(
                    outputs_for(rules@, memberships@, v),
                ),
        decreases n - i,
    {
        let var = &rules[i].consequent.0;
        if result.get(var.as_str()).is_none() {
            let mut outputs: Vec<TernaryMembership> = Vec::new();
            let mut j: usize = 0;
            while j < n
                invariant
                    n == rules@.len(),
                    j <= n,
                    *var == rules@[i as int].consequent.0,
                    outputs@ == outputs_for(rules@.take(j as int), memberships@, var@),
                decreases n - j,
            {
                assert(rules@.take(j + 1).drop_last() =~= rules@.take(j as int));
                if rules[j].consequent.0 == *var {
                    let strength = rules[j].firing_strength(memberships);
                    if strength != TernaryMembership::Low {
                        outputs.push(ternary_tnorm(strength, rules[j].consequent.1));
                    }
                }
                j = j + 1;
            }
            assert(rules@.take(n as int) =~= rules@);
            let degree = defuzzify_to_ternary(outputs.as_slice());
            result.insert(var.clone(), degree);
        }
        proof {
            assert(rules@[i as int].consequent.0@ == var@);
            assert(result@.dom() =~= consequent_vars(rules@, i + 1));
        }
        i = i + 1;
    }
    proof {
        assert(result@.dom() =~= consequent_vars(rules@, rules@.len() as int));
        assert forall|v: Seq<char>| #[trigger] result@.contains_key(v) implies result@[v]
            == defuzzify_spec(contributions(rules@, memberships@, v)) by {
            lemma_outputs_match_contributions(rules@, memberships@, v);
        }
    }
    result
}

} // verus!
