# ternary_fuzzy

Fuzzy logic on the three-valued scale Low (-1), Medium (0), High (+1),
written in Verus with its contracts and laws proved.

- `src/membership.rs`: the degrees, numeric conversion, fuzzy AND (min),
  OR (max) and NOT, and their algebraic laws.
- `src/membership_map.rs`: a table from names to degrees with each name held
  once, modelled as a `Map<Seq<char>, TernaryMembership>`.
- `src/fuzzy_set.rs`: named fuzzy sets with membership lookup, support and
  core.
- `src/rules.rs`: AND/OR rules whose antecedents "variable IS label" hold
  when the variable's degree is the label, their firing strength,
  defuzzification by averaging with a threshold of plus or minus 0.33, and
  evaluation of a rule base on fuzzified inputs, where the rules that fire
  contribute to their output variable's average.
- `app/lib.rs`: the floating-point membership functions and the control
  system that fuzzifies crisp inputs before calling the verified rule
  evaluation.
