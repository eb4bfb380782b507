use ternary_fuzzy::{
    defuzzify_to_ternary, evaluate_rules, ternary_complement, ternary_tconorm, ternary_tnorm,
    FuzzyRule, MembershipMap, RuleOperator, TernaryFuzzySet, TernaryMembership,
};

use TernaryMembership::{High, Low, Medium};

const ALL: [TernaryMembership; 3] = [Low, Medium, High];

#[test]
fn all_lists_degrees_in_order() {
    assert_eq!(TernaryMembership::all(), [Low, Medium, High]);
}

#[test]
fn value_and_from_i32_round_trip() {
    for m in ALL {
        assert_eq!(TernaryMembership::from_i32(m.value()), Some(m));
    }
    assert_eq!(TernaryMembership::from_i32(-2), None);
    assert_eq!(TernaryMembership::from_i32(i32::MIN), None);
    assert_eq!(TernaryMembership::from_i32(i32::MAX), None);
}

#[test]
fn tnorm_and_tconorm_are_min_and_max() {
    for a in ALL {
        for b in ALL {
            assert_eq!(ternary_tnorm(a, b).value(), a.value().min(b.value()));
            assert_eq!(ternary_tconorm(a, b).value(), a.value().max(b.value()));
            assert_eq!(ternary_tnorm(a, b), ternary_tnorm(b, a));
            assert_eq!(ternary_tconorm(a, b), ternary_tconorm(b, a));
            for c in ALL {
                assert_eq!(ternary_tnorm(ternary_tnorm(a, b), c), ternary_tnorm(a, ternary_tnorm(b, c)));
                assert_eq!(
                    ternary_tnorm(a, ternary_tconorm(b, c)),
                    ternary_tconorm(ternary_tnorm(a, b), ternary_tnorm(a, c))
                );
            }
        }
        assert_eq!(ternary_tnorm(a, High), a);
        assert_eq!(ternary_tconorm(a, Low), a);
        assert_eq!(ternary_tnorm(a, Low), Low);
        assert_eq!(ternary_tconorm(a, High), High);
    }
}

#[test]
fn complement_involution_and_de_morgan() {
    for a in ALL {
        assert_eq!(ternary_complement(ternary_complement(a)), a);
        assert_eq!(ternary_complement(a).value(), -a.value());
        for b in ALL {
            assert_eq!(
                ternary_complement(ternary_tnorm(a, b)),
                ternary_tconorm(ternary_complement(a), ternary_complement(b))
            );
            assert_eq!(
                ternary_complement(ternary_tconorm(a, b)),
                ternary_tnorm(ternary_complement(a), ternary_complement(b))
            );
        }
    }
}

#[test]
fn fuzzy_set_insert_overwrites() {
    let mut fs = TernaryFuzzySet::new("speed");
    assert_eq!(fs.name, "speed");
    assert_eq!(fs.membership("fast"), Low);
    assert!(fs.elements().is_empty());
    fs.insert("fast", High);
    fs.insert("slow", Medium);
    fs.insert("fast", Low);
    assert_eq!(fs.membership("fast"), Low);
    assert_eq!(fs.membership("slow"), Medium);
    assert_eq!(fs.elements().len(), 2);
    assert_eq!(fs.support(), vec!["slow"]);
    assert!(fs.core_elements().is_empty());
    assert_eq!(fs.name, "speed");
}

#[test]
fn core_within_support_within_elements() {
    let mut fs = TernaryFuzzySet::new("s");
    fs.insert("x", High);
    fs.insert("y", Medium);
    fs.insert("z", Low);
    fs.insert("w", High);
    let elements = fs.elements();
    let support = fs.support();
    let core = fs.core_elements();
    assert_eq!(elements.len(), 4);
    assert_eq!(support.len(), 3);
    assert_eq!(core.len(), 2);
    for k in &core {
        assert!(support.contains(k));
    }
    for k in &support {
        assert!(elements.contains(k));
        assert_ne!(fs.membership(k), Low);
    }
}

#[test]
fn membership_map_get_and_insert() {
    let mut m = MembershipMap::new();
    assert_eq!(m.get("a"), None);
    m.insert("a".to_string(), Medium);
    m.insert("b".to_string(), High);
    assert_eq!(m.get("a"), Some(Medium));
    m.insert("a".to_string(), Low);
    assert_eq!(m.get("a"), Some(Low));
    assert_eq!(m.get("b"), Some(High));
    assert_eq!(m.get("c"), None);
    assert_eq!(m.keys_at_least(Low), vec!["a", "b"]);
    assert_eq!(m.keys_at_least(Medium), vec!["b"]);
}

#[test]
fn firing_strength_compares_degrees_with_labels() {
    let mut mems = MembershipMap::new();
    mems.insert("a".to_string(), High);
    mems.insert("b".to_string(), Medium);
    let ants = vec![("a".to_string(), High), ("b".to_string(), High)];
    let and_rule = FuzzyRule::new_and(ants.clone(), ("o".to_string(), High));
    let or_rule = FuzzyRule::new_or(ants, ("o".to_string(), High));
    assert_eq!(and_rule.operator, RuleOperator::And);
    assert_eq!(or_rule.operator, RuleOperator::Or);
    // "b IS High" does not hold, since b is Medium.
    assert_eq!(and_rule.firing_strength(&mems), Low);
    assert_eq!(or_rule.firing_strength(&mems), High);
    let matching = FuzzyRule::new_and(
        vec![("a".to_string(), High), ("b".to_string(), Medium)],
        ("o".to_string(), High),
    );
    assert_eq!(matching.firing_strength(&mems), High);
    let neither = FuzzyRule::new_or(
        vec![("a".to_string(), Low), ("b".to_string(), High)],
        ("o".to_string(), High),
    );
    assert_eq!(neither.firing_strength(&mems), Low);
}

#[test]
fn low_label_holds_on_low_degree() {
    let mut mems = MembershipMap::new();
    mems.insert("temp".to_string(), Low);
    let rule = FuzzyRule::new_and(vec![("temp".to_string(), Low)], ("fan".to_string(), Low));
    assert_eq!(rule.firing_strength(&mems), High);
}

#[test]
fn firing_strength_of_empty_rules() {
    let mems = MembershipMap::new();
    let and_rule = FuzzyRule::new_and(vec![], ("o".to_string(), High));
    let or_rule = FuzzyRule::new_or(vec![], ("o".to_string(), High));
    assert_eq!(and_rule.firing_strength(&mems), High);
    assert_eq!(or_rule.firing_strength(&mems), Low);
}

#[test]
fn or_rule_with_missing_inputs_is_low() {
    let mems = MembershipMap::new();
    let rule = FuzzyRule::new_or(
        vec![("x".to_string(), High), ("y".to_string(), Medium)],
        ("o".to_string(), High),
    );
    assert_eq!(rule.firing_strength(&mems), Low);
}

#[test]
fn rule_clone_keeps_fields() {
    let rule = FuzzyRule::new_or(vec![("x".to_string(), Medium)], ("o".to_string(), Low));
    let copy = rule.clone();
    assert_eq!(copy.antecedents, rule.antecedents);
    assert_eq!(copy.operator, RuleOperator::Or);
    assert_eq!(copy.consequent, ("o".to_string(), Low));
}

#[test]
fn defuzzify_thresholds() {
    assert_eq!(defuzzify_to_ternary(&[High, Medium, Medium]), High);
    assert_eq!(defuzzify_to_ternary(&[High, Medium, Medium, Medium]), Medium);
    assert_eq!(defuzzify_to_ternary(&[Low, Medium, Medium]), Low);
    assert_eq!(defuzzify_to_ternary(&[Low, Medium, Medium, Medium]), Medium);
    assert_eq!(defuzzify_to_ternary(&[Medium]), Medium);
    assert_eq!(defuzzify_to_ternary(&[High]), High);
    assert_eq!(defuzzify_to_ternary(&[Low]), Low);
}

#[test]
fn defuzzify_boundary_at_a_third() {
    // An average of exactly 0.33 is not above 0.33.
    let mut vals = vec![High; 33];
    vals.extend(vec![Medium; 67]);
    assert_eq!(defuzzify_to_ternary(&vals), Medium);
    let mut vals = vec![High; 34];
    vals.extend(vec![Medium; 66]);
    assert_eq!(defuzzify_to_ternary(&vals), High);
    let mut vals = vec![Low; 33];
    vals.extend(vec![Medium; 67]);
    assert_eq!(defuzzify_to_ternary(&vals), Medium);
    let mut vals = vec![Low; 34];
    vals.extend(vec![Medium; 66]);
    assert_eq!(defuzzify_to_ternary(&vals), Low);
}

#[test]
fn defuzzify_order_and_complement() {
    let a = [High, Low, High, Medium, High];
    let mut rev = a;
    rev.reverse();
    assert_eq!(defuzzify_to_ternary(&a), defuzzify_to_ternary(&rev));
    let comp: Vec<TernaryMembership> = a.iter().map(|m| ternary_complement(*m)).collect();
    assert_eq!(defuzzify_to_ternary(&comp), ternary_complement(defuzzify_to_ternary(&a)));
}

#[test]
fn evaluate_rules_single_rule() {
    // A temperature of 80 against thresholds 30 and 70 fuzzifies to High.
    let mut mems = MembershipMap::new();
    mems.insert("temp".to_string(), High);
    let rules = vec![FuzzyRule::new_and(
        vec![("temp".to_string(), High)],
        ("fan".to_string(), High),
    )];
    let out = evaluate_rules(&rules, &mems);
    assert_eq!(out.get("fan"), Some(High));
    assert_eq!(out.keys_at_least(Low), vec!["fan"]);
}

#[test]
fn evaluate_rules_multiple_rules() {
    // temp 20 (thresholds 30/70) is Low; humidity 90 (thresholds 40/80) is High.
    let mut mems = MembershipMap::new();
    mems.insert("temp".to_string(), Low);
    mems.insert("humidity".to_string(), High);
    let rules = vec![
        FuzzyRule::new_and(
            vec![("temp".to_string(), High), ("humidity".to_string(), High)],
            ("fan".to_string(), High),
        ),
        FuzzyRule::new_and(vec![("temp".to_string(), Low)], ("fan".to_string(), Low)),
    ];
    let out = evaluate_rules(&rules, &mems);
    assert_eq!(out.get("fan"), Some(Low));
}

#[test]
fn evaluate_rules_groups_by_output_variable() {
    let mut mems = MembershipMap::new();
    mems.insert("a".to_string(), High);
    mems.insert("b".to_string(), Medium);
    let rules = vec![
        FuzzyRule::new_or(vec![("a".to_string(), High)], ("x".to_string(), High)),
        FuzzyRule::new_and(vec![("b".to_string(), High)], ("y".to_string(), High)),
        FuzzyRule::new_and(vec![("a".to_string(), High)], ("x".to_string(), Medium)),
        FuzzyRule::new_and(vec![("missing".to_string(), High)], ("z".to_string(), High)),
    ];
    let out = evaluate_rules(&rules, &mems);
    // x: both rules fire, [High, Medium] averages 0.5 -> High.
    // y and z: no rule fires, nothing to average -> Medium.
    assert_eq!(out.get("x"), Some(High));
    assert_eq!(out.get("y"), Some(Medium));
    assert_eq!(out.get("z"), Some(Medium));
    assert_eq!(out.get("a"), None);
    assert_eq!(out.keys_at_least(Low), vec!["x", "y", "z"]);
}

#[test]
fn evaluate_rules_without_rules_is_empty() {
    let mems = MembershipMap::new();
    let out = evaluate_rules(&[], &mems);
    assert!(out.keys_at_least(Low).is_empty());
}

#[test]
fn fuzzy_set_clone_is_independent() {
    let mut fs = TernaryFuzzySet::new("t");
    fs.insert("a", High);
    let mut copy = fs.clone();
    copy.insert("a", Low);
    copy.insert("b", Medium);
    assert_eq!(copy.name, "t");
    assert_eq!(fs.membership("a"), High);
    assert_eq!(fs.membership("b"), Low);
    assert_eq!(copy.membership("a"), Low);
    assert_eq!(copy.membership("b"), Medium);
}

#[test]
fn membership_map_len_contains_and_remove() {
    let mut m = MembershipMap::new();
    assert_eq!(m.len(), 0);
    m.insert("a".to_string(), High);
    m.insert("b".to_string(), Medium);
    m.insert("c".to_string(), Low);
    m.insert("a".to_string(), Medium);
    assert_eq!(m.len(), 3);
    assert!(m.contains_key("b"));
    assert!(!m.contains_key("d"));
    assert_eq!(m.remove("b"), Some(Medium));
    assert_eq!(m.remove("b"), None);
    assert_eq!(m.remove("zzz"), None);
    assert!(!m.contains_key("b"));
    assert_eq!(m.len(), 2);
    assert_eq!(m.get("a"), Some(Medium));
    assert_eq!(m.get("c"), Some(Low));
    m.insert("b".to_string(), High);
    assert_eq!(m.len(), 3);
    assert_eq!(m.get("b"), Some(High));
}

#[test]
fn evaluate_rules_readme_quick_start() {
    // temperature 80 (thresholds 30/70) and humidity 90 (thresholds 40/80) are both High.
    let mut mems = MembershipMap::new();
    mems.insert("temperature".to_string(), High);
    mems.insert("humidity".to_string(), High);
    let rules = vec![
        FuzzyRule::new_and(
            vec![("temperature".to_string(), High), ("humidity".to_string(), High)],
            ("fan_speed".to_string(), High),
        ),
        FuzzyRule::new_and(
            vec![("temperature".to_string(), Low)],
            ("fan_speed".to_string(), Low),
        ),
    ];
    let out = evaluate_rules(&rules, &mems);
    assert_eq!(out.get("fan_speed"), Some(High));
}
