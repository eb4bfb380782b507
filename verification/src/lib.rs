//! Fuzzy logic on a three-valued membership scale: membership degrees,
//! fuzzy sets, inference rules and defuzzification, with their laws proved.

pub mod fuzzy_set;
pub mod membership;
pub mod membership_map;
pub mod rules;

pub use fuzzy_set::TernaryFuzzySet;
pub use membership::{ternary_complement, ternary_tconorm, ternary_tnorm, TernaryMembership};
pub use membership_map::MembershipMap;
pub use rules::{defuzzify_to_ternary, evaluate_rules, FuzzyRule, RuleOperator};
