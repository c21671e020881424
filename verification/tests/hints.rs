use ledge::{primal_infeasibility_hint, unboundedness_hint};

#[test]
fn primal_hints_name_the_budget_and_the_caps() {
    let hint = primal_infeasibility_hint(Some("1"), &[], &[0, 2], &[], &[1]).unwrap();
    assert_eq!(
        hint,
        "no portfolio satisfies these constraints simultaneously: the budget (sum of weights = 1), \
         inequality cap(s) 0, 2, lower bounds on asset(s) 1; relax at least one of them \
         (Farkas weights are on Solution::certificate)"
    );
    assert!(hint.contains("budget"));
    assert!(hint.contains("inequality cap"));
}

#[test]
fn primal_hints_abbreviate_long_lists() {
    let assets: Vec<usize> = (0..8).collect();
    let hint = primal_infeasibility_hint(None, &[3], &[], &assets, &[]).unwrap();
    assert_eq!(
        hint,
        "no portfolio satisfies these constraints simultaneously: equality row(s) 3, \
         upper bounds on asset(s) 0, 1, 2, 3, 4, ... (8 total); relax at least one of them \
         (Farkas weights are on Solution::certificate)"
    );
}

#[test]
fn primal_hints_need_a_participant() {
    assert_eq!(primal_infeasibility_hint(None, &[], &[], &[], &[]), None);
}

#[test]
fn unboundedness_hints_name_the_largest_components() {
    let hint = unboundedness_hint(&[2, 0]);
    assert!(hint.starts_with("the objective is unbounded"));
    assert!(hint.contains("(largest components at asset(s) 2, 0);"));
    assert!(hint.ends_with("(the direction is on Solution::certificate)"));
}
