use ledge::{check_lengths, kkt_length_checks, primal_certificate_length_checks, KktError, LengthCheck};

#[test]
fn length_checks_report_the_first_mismatch() {
    let checks = [
        LengthCheck { field: "x", actual: 3, expected: 3 },
        LengthCheck { field: "dual.equalities", actual: 0, expected: 1 },
        LengthCheck { field: "dual.bounds", actual: 2, expected: 3 },
    ];
    assert_eq!(
        check_lengths(&checks),
        Err(KktError::Dimension { field: "dual.equalities", expected: 1, actual: 0 })
    );
    assert_eq!(check_lengths(&checks[..1]), Ok(()));
    assert_eq!(check_lengths(&[]), Ok(()));
}

#[test]
fn kkt_checks_run_in_vector_order() {
    let checks = kkt_length_checks(3, 1, 2, false, (3, 1, 2, 3, 0));
    let fields: Vec<&str> = checks.iter().map(|c| c.field).collect();
    assert_eq!(fields, vec!["x", "dual.equalities", "dual.inequalities", "dual.bounds", "dual.l1"]);
    assert_eq!(check_lengths(&checks), Ok(()));
    // Without an L1 term the L1 block must be empty.
    let checks = kkt_length_checks(3, 1, 2, false, (3, 1, 2, 3, 3));
    assert_eq!(
        check_lengths(&checks),
        Err(KktError::Dimension { field: "dual.l1", expected: 0, actual: 3 })
    );
    // With one, it has one entry per variable.
    let checks = kkt_length_checks(3, 1, 2, true, (3, 1, 2, 3, 3));
    assert_eq!(check_lengths(&checks), Ok(()));
    // Two wrong vectors: the earlier one is reported.
    let checks = kkt_length_checks(3, 1, 2, true, (3, 1, 5, 2, 3));
    assert_eq!(
        check_lengths(&checks),
        Err(KktError::Dimension { field: "dual.inequalities", expected: 2, actual: 5 })
    );
}

#[test]
fn certificate_checks_run_in_vector_order() {
    let checks = primal_certificate_length_checks(4, 1, 2, (1, 2, 4));
    let fields: Vec<&str> = checks.iter().map(|c| c.field).collect();
    assert_eq!(
        fields,
        vec!["certificate.equality_dual", "certificate.inequality_dual", "certificate.bound_dual"]
    );
    assert_eq!(check_lengths(&checks), Ok(()));
    let checks = primal_certificate_length_checks(4, 1, 2, (1, 2, 3));
    assert_eq!(
        check_lengths(&checks),
        Err(KktError::Dimension { field: "certificate.bound_dual", expected: 4, actual: 3 })
    );
}
