//! Length checks shared by the KKT and certificate auditors.

use vstd::prelude::*;

verus! {

/// Errors from the standalone KKT and certificate checkers.
#[derive(Clone, Debug, PartialEq, Eq)]
pub enum KktError {
    /// A primal or dual vector has the wrong length.
    Dimension {
        /// Name of the vector.
        field: &'static str,
        /// Expected length.
        expected: usize,
        /// Supplied length.
        actual: usize,
    },
}

/// One vector whose length an auditor checks before computing residuals.
#[derive(Clone, Copy, Debug)]
pub struct LengthCheck {
    /// Name of the vector.
    pub field: &'static str,
    /// Supplied length.
    pub actual: usize,
    /// Expected length.
    pub expected: usize,
}

/// Index of the first check whose lengths differ, if any.
pub open spec fn first_mismatch(checks: Seq<LengthCheck>) -> Option<int>
    decreases checks.len(),
{
    if checks.len() == 0 {
        None
    } else {
        match first_mismatch(checks.drop_last()) {
            Some(i) => Some(i),
            None => if checks.last().actual != checks.last().expected {
                Some(checks.len() - 1)
            } else {
                None
            },
        }
    }
}

/// Runs the checks in order and reports the first vector with the wrong
/// length.
pub fn check_lengths(checks: &[LengthCheck]) -> (result: Result<(), KktError>)
    ensures
        match first_mismatch(checks@) {
            None => result is Ok,
            Some(i) => result == Err::<(), KktError>(
                KktError::Dimension {
                    field: checks@[i].field,
                    expected: checks@[i].expected,
                    actual: checks@[i].actual,
                },
            ),
        },
{
    let mut i: usize = 0;
    while i < checks.len()
        invariant
            i <= checks@.len(),
            first_mismatch(checks@.take(i as int)) is None,
        decreases checks@.len() - i,
    {
        let check = checks[i];
        proof {
            let next = checks@.take(i + 1);
            assert(next.drop_last() =~= checks@.take(i as int));
            lemma_first_mismatch_prefix(checks@, i + 1);
        }
        if check.actual != check.expected {
            return Err(
                KktError::Dimension {
                    field: check.field,
                    expected: check.expected,
                    actual: check.actual,
                },
            );
        }
        i = i + 1;
    }
    proof {
        assert(checks@.take(checks@.len() as int) =~= checks@);
    }
    Ok(())
}

/// A mismatch found in a prefix is the first mismatch of the whole list.
proof fn lemma_first_mismatch_prefix(checks: Seq<LengthCheck>, n: int)
    requires
        0 <= n <= checks.len(),
    ensures
        first_mismatch(checks.take(n)) is Some ==> first_mismatch(checks) == first_mismatch(
            checks.take(n),
        ),
    decreases checks.len() - n,
{
    if n < checks.len() {
        lemma_first_mismatch_prefix(checks.drop_last(), n);
        assert(checks.drop_last().take(n) =~= checks.take(n));
    } else {
        assert(checks.take(n) =~= checks);
    }
}

/// The lengths a KKT audit checks, in order: the primal point, then the
/// equality, inequality, box and L1 multipliers. The L1 block is expected
/// to be empty unless the problem has an L1 term.
pub open spec fn kkt_checks(
    dimension: usize,
    equality_rows: usize,
    inequality_rows: usize,
    has_l1: bool,
    lengths: (usize, usize, usize, usize, usize),
) -> Seq<LengthCheck> {
    seq![
        LengthCheck { field: "x", actual: lengths.0, expected: dimension },
        LengthCheck { field: "dual.equalities", actual: lengths.1, expected: equality_rows },
        LengthCheck { field: "dual.inequalities", actual: lengths.2, expected: inequality_rows },
        LengthCheck { field: "dual.bounds", actual: lengths.3, expected: dimension },
        LengthCheck {
            field: "dual.l1",
            actual: lengths.4,
            expected: if has_l1 { dimension } else { 0 },
        },
    ]
}

/// The error a list of length checks reports: the first vector whose
/// length differs, with both lengths.
pub open spec fn length_error(checks: Seq<LengthCheck>) -> Option<KktError> {
    match first_mismatch(checks) {
        Some(i) => Some(
            KktError::Dimension {
                field: checks[i].field,
                expected: checks[i].expected,
                actual: checks[i].actual,
            },
        ),
        None => None,
    }
}

/// The first mismatch is a check whose lengths differ, after only checks
/// whose lengths agree; with no mismatch, every check agrees.
pub proof fn lemma_first_mismatch_is_first(checks: Seq<LengthCheck>)
    ensures
        first_mismatch(checks) is None <==> forall|k: int|
            0 <= k < checks.len() ==> (#[trigger] checks[k]).actual == checks[k].expected,
        first_mismatch(checks) matches Some(i) ==> {
            &&& 0 <= i < checks.len()
            &&& checks[i].actual != checks[i].expected
            &&& forall|k: int| 0 <= k < i ==> (#[trigger] checks[k]).actual == checks[k].expected
        },
    decreases checks.len(),
{
    if checks.len() > 0 {
        let prefix = checks.drop_last();
        lemma_first_mismatch_is_first(prefix);
        assert forall|k: int| 0 <= k < prefix.len() implies prefix[k] == checks[k] by {}
        if first_mismatch(prefix) is None && checks.last().actual == checks.last().expected {
            assert forall|k: int| 0 <= k < checks.len() implies (#[trigger] checks[k]).actual
                == checks[k].expected by {
                if k < prefix.len() {
                    assert(prefix[k] == checks[k]);
                }
            }
        }
    }
}

/// A KKT audit accepts exactly the vectors of the right lengths: `x` and
/// the box multipliers with one entry per variable, one multiplier per
/// equality and per inequality row, and an L1 block with one entry per
/// variable when the problem has an L1 term and none otherwise. The first
/// wrong vector, in that order, is reported with both lengths.
pub proof fn lemma_kkt_checks_expect_the_problem_shape(
    dimension: usize,
    equality_rows: usize,
    inequality_rows: usize,
    has_l1: bool,
    lengths: (usize, usize, usize, usize, usize),
)
    ensures
        ({
            let found = length_error(
                kkt_checks(dimension, equality_rows, inequality_rows, has_l1, lengths),
            );
            let l1_len = if has_l1 {
                dimension
            } else {
                0
            };
            &&& found is None <==> (lengths.0 == dimension && lengths.1 == equality_rows
                && lengths.2 == inequality_rows && lengths.3 == dimension && lengths.4 == l1_len)
            &&& lengths.0 != dimension ==> found == Some(
                KktError::Dimension { field: "x", expected: dimension, actual: lengths.0 },
            )
            &&& (lengths.0 == dimension && lengths.1 != equality_rows) ==> found == Some(
                KktError::Dimension {
                    field: "dual.equalities",
                    expected: equality_rows,
                    actual: lengths.1,
                },
            )
            &&& (lengths.0 == dimension && lengths.1 == equality_rows && lengths.2
                != inequality_rows) ==> found == Some(
                KktError::Dimension {
                    field: "dual.inequalities",
                    expected: inequality_rows,
                    actual: lengths.2,
                },
            )
            &&& (lengths.0 == dimension && lengths.1 == equality_rows && lengths.2
                == inequality_rows && lengths.3 != dimension) ==> found == Some(
                KktError::Dimension { field: "dual.bounds", expected: dimension, actual: lengths.3 },
            )
            &&& (lengths.0 == dimension && lengths.1 == equality_rows && lengths.2
                == inequality_rows && lengths.3 == dimension && lengths.4 != l1_len) ==> found
                == Some(KktError::Dimension { field: "dual.l1", expected: l1_len, actual: lengths.4 })
        }),
{
    let checks = kkt_checks(dimension, equality_rows, inequality_rows, has_l1, lengths);
    lemma_first_mismatch_is_first(checks);
    assert(checks[0].actual == lengths.0 && checks[1].actual == lengths.1);
    assert(checks[2].actual == lengths.2 && checks[3].actual == lengths.3);
    assert(checks[4].actual == lengths.4);
}

/// A certificate audit accepts exactly the weight vectors of the right
/// lengths: one weight per equality row, per inequality row and per
/// variable, reported in that order with both lengths.
pub proof fn lemma_certificate_checks_expect_the_problem_shape(
    dimension: usize,
    equality_rows: usize,
    inequality_rows: usize,
    lengths: (usize, usize, usize),
)
    ensures
        ({
            let found = length_error(
                primal_certificate_checks(dimension, equality_rows, inequality_rows, lengths),
            );
            &&& found is None <==> (lengths.0 == equality_rows && lengths.1 == inequality_rows
                && lengths.2 == dimension)
            &&& lengths.0 != equality_rows ==> found == Some(
                KktError::Dimension {
                    field: "certificate.equality_dual",
                    expected: equality_rows,
                    actual: lengths.0,
                },
            )
            &&& (lengths.0 == equality_rows && lengths.1 != inequality_rows) ==> found == Some(
                KktError::Dimension {
                    field: "certificate.inequality_dual",
                    expected: inequality_rows,
                    actual: lengths.1,
                },
            )
            &&& (lengths.0 == equality_rows && lengths.1 == inequality_rows && lengths.2
                != dimension) ==> found == Some(
                KktError::Dimension {
                    field: "certificate.bound_dual",
                    expected: dimension,
                    actual: lengths.2,
                },
            )
        }),
{
    let checks = primal_certificate_checks(dimension, equality_rows, inequality_rows, lengths);
    lemma_first_mismatch_is_first(checks);
    assert(checks[0].actual == lengths.0 && checks[1].actual == lengths.1);
    assert(checks[2].actual == lengths.2);
}

/// The length checks of a KKT audit; `lengths` holds the lengths of `x`
/// and of the equality, inequality, box and L1 multipliers.
pub fn kkt_length_checks(
    dimension: usize,
    equality_rows: usize,
    inequality_rows: usize,
    has_l1: bool,
    lengths: (usize, usize, usize, usize, usize),
) -> (checks: Vec<LengthCheck>)
    ensures
        checks@ == kkt_checks(dimension, equality_rows, inequality_rows, has_l1, lengths),
{
    let l1_expected = if has_l1 { dimension } else { 0 };
    let checks = vec![
        LengthCheck { field: "x", actual: lengths.0, expected: dimension },
        LengthCheck { field: "dual.equalities", actual: lengths.1, expected: equality_rows },
        LengthCheck { field: "dual.inequalities", actual: lengths.2, expected: inequality_rows },
        LengthCheck { field: "dual.bounds", actual: lengths.3, expected: dimension },
        LengthCheck { field: "dual.l1", actual: lengths.4, expected: l1_expected },
    ];
    assert(checks@ =~= kkt_checks(dimension, equality_rows, inequality_rows, has_l1, lengths));
    checks
}

/// The lengths a primal-certificate audit checks, in order: the equality,
/// inequality and box weights; `lengths` holds their lengths.
pub open spec fn primal_certificate_checks(
    dimension: usize,
    equality_rows: usize,
    inequality_rows: usize,
    lengths: (usize, usize, usize),
) -> Seq<LengthCheck> {
    seq![
        LengthCheck { field: "certificate.equality_dual", actual: lengths.0, expected: equality_rows },
        LengthCheck {
            field: "certificate.inequality_dual",
            actual: lengths.1,
            expected: inequality_rows,
        },
        LengthCheck { field: "certificate.bound_dual", actual: lengths.2, expected: dimension },
    ]
}

/// The length checks of a primal-certificate audit.
pub fn primal_certificate_length_checks(
    dimension: usize,
    equality_rows: usize,
    inequality_rows: usize,
    lengths: (usize, usize, usize),
) -> (checks: Vec<LengthCheck>)
    ensures
        checks@ == primal_certificate_checks(dimension, equality_rows, inequality_rows, lengths),
{
    let checks = vec![
        LengthCheck { field: "certificate.equality_dual", actual: lengths.0, expected: equality_rows },
        LengthCheck {
            field: "certificate.inequality_dual",
            actual: lengths.1,
            expected: inequality_rows,
        },
        LengthCheck { field: "certificate.bound_dual", actual: lengths.2, expected: dimension },
    ];
    assert(checks@ =~= primal_certificate_checks(dimension, equality_rows, inequality_rows, lengths));
    checks
}

} // verus!
