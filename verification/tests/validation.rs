use ledge::{
    validate_l1, validate_problem, validate_quadratic, BlockSummary, BoundIssue, DimensionError,
    L1Summary, OmegaSummary, ProblemIssue, ProblemSummary, QuadraticSummary,
};

fn quadratic() -> QuadraticSummary {
    QuadraticSummary {
        dimension: 3,
        factor_count: 2,
        diagonal_len: 3,
        factors_finite: true,
        diagonal_nonnegative: true,
        omega: OmegaSummary::Diagonal { len: 2, nonnegative: true },
    }
}

fn block(rows: usize) -> BlockSummary {
    BlockSummary { cols: 3, rows, rhs_len: rows, finite: true }
}

fn problem() -> ProblemSummary {
    ProblemSummary {
        quadratic: quadratic(),
        linear_len: 3,
        lower_len: 3,
        upper_len: 3,
        equalities: block(1),
        inequalities: block(0),
        linear_finite: true,
        l1: None,
        first_bound_issue: None,
    }
}

#[test]
fn consistent_problem_is_accepted() {
    assert_eq!(validate_problem(&problem()), Ok(()));
}

#[test]
fn quadratic_dimensions_come_first() {
    let q = QuadraticSummary { diagonal_len: 2, factors_finite: false, ..quadratic() };
    assert_eq!(
        validate_quadratic(&q),
        Err(ProblemIssue::Dimension(DimensionError {
            field: "quadratic.diagonal",
            expected: 3,
            actual: 2
        }))
    );
    let q = QuadraticSummary { omega: OmegaSummary::Diagonal { len: 1, nonnegative: true }, ..quadratic() };
    assert_eq!(
        validate_quadratic(&q),
        Err(ProblemIssue::Dimension(DimensionError { field: "quadratic.omega", expected: 2, actual: 1 }))
    );
}

#[test]
fn dense_covariance_checks() {
    let dense = |rows, cols, finite, symmetric| QuadraticSummary {
        omega: OmegaSummary::Dense { rows, cols, finite, symmetric },
        ..quadratic()
    };
    assert_eq!(validate_quadratic(&dense(2, 2, true, true)), Ok(()));
    assert_eq!(
        validate_quadratic(&dense(2, 3, false, false)),
        Err(ProblemIssue::NotSquare("quadratic.omega"))
    );
    assert_eq!(
        validate_quadratic(&dense(2, 2, false, false)),
        Err(ProblemIssue::NonFinite("quadratic.omega"))
    );
    assert_eq!(
        validate_quadratic(&dense(2, 2, true, false)),
        Err(ProblemIssue::NotSymmetric("quadratic.omega"))
    );
}

#[test]
fn convexity_of_the_quadratic() {
    let q = QuadraticSummary { diagonal_nonnegative: false, ..quadratic() };
    assert_eq!(
        validate_quadratic(&q),
        Err(ProblemIssue::NonConvex("quadratic diagonal must be finite and non-negative"))
    );
    let q = QuadraticSummary { omega: OmegaSummary::Diagonal { len: 2, nonnegative: false }, ..quadratic() };
    assert_eq!(
        validate_quadratic(&q),
        Err(ProblemIssue::NonConvex("factor covariance diagonal must be finite and non-negative"))
    );
    let q = QuadraticSummary { factors_finite: false, ..quadratic() };
    assert_eq!(validate_quadratic(&q), Err(ProblemIssue::NonFinite("quadratic.factors")));
}

#[test]
fn l1_term_checks() {
    let l1 = L1Summary { costs_len: 3, anchor_len: 3, costs_nonnegative: true, anchor_finite: true };
    assert_eq!(validate_l1(&l1, 3), Ok(()));
    assert_eq!(
        validate_l1(&L1Summary { anchor_len: 4, ..l1 }, 3),
        Err(ProblemIssue::Dimension(DimensionError { field: "l1.anchor", expected: 3, actual: 4 }))
    );
    assert_eq!(
        validate_l1(&L1Summary { costs_nonnegative: false, anchor_finite: false, ..l1 }, 3),
        Err(ProblemIssue::NonConvex("l1 costs must be finite and non-negative"))
    );
    assert_eq!(
        validate_l1(&L1Summary { anchor_finite: false, ..l1 }, 3),
        Err(ProblemIssue::NonFinite("l1.anchor"))
    );
}

#[test]
fn problem_checks_in_order() {
    let p = ProblemSummary { linear_len: 2, upper_len: 1, ..problem() };
    assert_eq!(
        validate_problem(&p),
        Err(ProblemIssue::Dimension(DimensionError { field: "linear", expected: 3, actual: 2 }))
    );
    let p = ProblemSummary { equalities: BlockSummary { rhs_len: 2, ..block(1) }, ..problem() };
    assert_eq!(
        validate_problem(&p),
        Err(ProblemIssue::Dimension(DimensionError { field: "equalities", expected: 1, actual: 2 }))
    );
    let p = ProblemSummary { inequalities: BlockSummary { finite: false, ..block(2) }, ..problem() };
    assert_eq!(validate_problem(&p), Err(ProblemIssue::NonFinite("inequalities")));
    let p = ProblemSummary { linear_finite: false, first_bound_issue: Some((0, BoundIssue::Crossed)), ..problem() };
    assert_eq!(validate_problem(&p), Err(ProblemIssue::NonFinite("linear")));
}

#[test]
fn bound_issues() {
    let p = ProblemSummary { first_bound_issue: Some((2, BoundIssue::Crossed)), ..problem() };
    assert_eq!(validate_problem(&p), Err(ProblemIssue::InvalidBounds { index: 2 }));
    let p = ProblemSummary { first_bound_issue: Some((1, BoundIssue::NotANumber)), ..problem() };
    assert_eq!(validate_problem(&p), Err(ProblemIssue::NonFinite("bounds")));
    let l1 = L1Summary { costs_len: 3, anchor_len: 3, costs_nonnegative: false, anchor_finite: true };
    let p = ProblemSummary {
        l1: Some(l1),
        first_bound_issue: Some((1, BoundIssue::NotANumber)),
        ..problem()
    };
    assert_eq!(
        validate_problem(&p),
        Err(ProblemIssue::NonConvex("l1 costs must be finite and non-negative"))
    );
}
