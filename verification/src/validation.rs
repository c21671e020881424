//! Validation of convex QP data.
//!
//! The numeric conditions on the coefficients (finite, non-negative,
//! symmetric within tolerance, ordered bounds) are evaluated by the caller
//! over the floating-point data; this module fixes which conditions apply,
//! in which order they are checked, and what each rejection names.

use vstd::prelude::*;

use crate::constraints::DimensionError;

verus! {

/// What validation reads from the factor covariance `omega`.
#[derive(Clone, Copy, Debug)]
pub enum OmegaSummary {
    /// Diagonal factor covariance.
    Diagonal {
        /// Number of diagonal entries.
        len: usize,
        /// Every entry is finite and non-negative.
        nonnegative: bool,
    },
    /// Dense factor covariance.
    Dense {
        /// Row count.
        rows: usize,
        /// Column count.
        cols: usize,
        /// Every entry is finite.
        finite: bool,
        /// The matrix is symmetric within the relative tolerance.
        symmetric: bool,
    },
}

impl OmegaSummary {
    /// Number of factors represented by this covariance.
    pub open spec fn dimension(self) -> usize {
        match self {
            OmegaSummary::Diagonal { len, .. } => len,
            OmegaSummary::Dense { rows, .. } => rows,
        }
    }
}

/// What validation reads from a factor quadratic `F Ω Fᵀ + diag(d)`.
#[derive(Clone, Copy, Debug)]
pub struct QuadraticSummary {
    /// Rows of `F` (decision variables).
    pub dimension: usize,
    /// Columns of `F` (factors).
    pub factor_count: usize,
    /// Length of `d`.
    pub diagonal_len: usize,
    /// Every entry of `F` is finite.
    pub factors_finite: bool,
    /// Every entry of `d` is finite and non-negative.
    pub diagonal_nonnegative: bool,
    /// The factor covariance.
    pub omega: OmegaSummary,
}

/// What validation reads from a constraint block.
#[derive(Clone, Copy, Debug)]
pub struct BlockSummary {
    /// Columns of the constraint matrix.
    pub cols: usize,
    /// Rows of the constraint matrix.
    pub rows: usize,
    /// Length of the right-hand side.
    pub rhs_len: usize,
    /// Every matrix and right-hand-side entry is finite.
    pub finite: bool,
}

/// What validation reads from an L1 term.
#[derive(Clone, Copy, Debug)]
pub struct L1Summary {
    /// Length of the cost vector.
    pub costs_len: usize,
    /// Length of the anchor.
    pub anchor_len: usize,
    /// Every cost is finite and non-negative.
    pub costs_nonnegative: bool,
    /// Every anchor entry is finite.
    pub anchor_finite: bool,
}

/// What is wrong with a variable's bounds.
#[derive(Clone, Copy, Debug, PartialEq, Eq, Structural)]
pub enum BoundIssue {
    /// A bound is NaN.
    NotANumber,
    /// The lower bound exceeds the upper bound.
    Crossed,
}

/// What validation reads from a QP.
#[derive(Clone, Copy, Debug)]
pub struct ProblemSummary {
    /// The quadratic.
    pub quadratic: QuadraticSummary,
    /// Length of the linear objective.
    pub linear_len: usize,
    /// Length of the lower bounds.
    pub lower_len: usize,
    /// Length of the upper bounds.
    pub upper_len: usize,
    /// Equality block.
    pub equalities: BlockSummary,
    /// Inequality block.
    pub inequalities: BlockSummary,
    /// Every linear coefficient is finite.
    pub linear_finite: bool,
    /// The L1 term, when present.
    pub l1: Option<L1Summary>,
    /// The first variable whose bounds are NaN or crossed, scanning
    /// variables in order (NaN reported first at the same variable).
    pub first_bound_issue: Option<(usize, BoundIssue)>,
}

/// Why QP data was rejected.
#[derive(Clone, Copy, Debug, PartialEq, Eq)]
pub enum ProblemIssue {
    /// A vector or matrix dimension is inconsistent.
    Dimension(DimensionError),
    /// A coefficient that must be finite is NaN or infinite.
    NonFinite(&'static str),
    /// Convexity data is invalid.
    NonConvex(&'static str),
    /// A matrix expected to be square is not.
    NotSquare(&'static str),
    /// A matrix expected to be symmetric is not.
    NotSymmetric(&'static str),
    /// Lower and upper bounds of this variable are inconsistent.
    InvalidBounds {
        /// Variable index.
        index: usize,
    },
}

/// The first entry that is `Some`, if any.
pub open spec fn first_issue(issues: Seq<Option<ProblemIssue>>) -> Option<ProblemIssue>
    decreases issues.len(),
{
    if issues.len() == 0 {
        None
    } else if issues[0] is Some {
        issues[0]
    } else {
        first_issue(issues.drop_first())
    }
}

/// A dimension mismatch, if `actual` differs from `expected`.
pub open spec fn dimension_issue(field: &'static str, expected: usize, actual: usize) -> Option<
    ProblemIssue,
> {
    if actual != expected {
        Some(ProblemIssue::Dimension(DimensionError { field, expected, actual }))
    } else {
        None
    }
}

/// `issue`, if `holds` fails.
pub open spec fn unless(holds: bool, issue: ProblemIssue) -> Option<ProblemIssue> {
    if holds {
        None
    } else {
        Some(issue)
    }
}

/// Checks of the factor covariance, in order.
pub open spec fn omega_issue(omega: OmegaSummary) -> Option<ProblemIssue> {
    match omega {
        OmegaSummary::Diagonal { nonnegative, .. } => unless(
            nonnegative,
            ProblemIssue::NonConvex("factor covariance diagonal must be finite and non-negative"),
        ),
        OmegaSummary::Dense { rows, cols, finite, symmetric } => first_issue(
            seq![
                unless(rows == cols, ProblemIssue::NotSquare("quadratic.omega")),
                unless(finite, ProblemIssue::NonFinite("quadratic.omega")),
                unless(symmetric, ProblemIssue::NotSymmetric("quadratic.omega")),
            ],
        ),
    }
}

/// Checks of a factor quadratic, in order: dimensions, then finiteness and
/// convexity data.
pub open spec fn quadratic_issue(q: QuadraticSummary) -> Option<ProblemIssue> {
    first_issue(
        seq![
            dimension_issue("quadratic.diagonal", q.dimension, q.diagonal_len),
            dimension_issue("quadratic.omega", q.factor_count, q.omega.dimension()),
            unless(q.factors_finite, ProblemIssue::NonFinite("quadratic.factors")),
            unless(
                q.diagonal_nonnegative,
                ProblemIssue::NonConvex("quadratic diagonal must be finite and non-negative"),
            ),
            omega_issue(q.omega),
        ],
    )
}

/// Checks of an L1 term over `dimension` variables, in order.
pub open spec fn l1_issue(l1: L1Summary, dimension: usize) -> Option<ProblemIssue> {
    first_issue(
        seq![
            dimension_issue("l1.costs", dimension, l1.costs_len),
            dimension_issue("l1.anchor", dimension, l1.anchor_len),
            unless(
                l1.costs_nonnegative,
                ProblemIssue::NonConvex("l1 costs must be finite and non-negative"),
            ),
            unless(l1.anchor_finite, ProblemIssue::NonFinite("l1.anchor")),
        ],
    )
}

/// Checks of one constraint block, in order.
pub open spec fn block_issue(field: &'static str, block: BlockSummary, dimension: usize) -> Option<
    ProblemIssue,
> {
    first_issue(
        seq![
            dimension_issue(field, dimension, block.cols),
            dimension_issue(field, block.rows, block.rhs_len),
            unless(block.finite, ProblemIssue::NonFinite(field)),
        ],
    )
}

/// The bound check's verdict.
pub open spec fn bound_issue(first: Option<(usize, BoundIssue)>) -> Option<ProblemIssue> {
    match first {
        None => None,
        Some((index, BoundIssue::NotANumber)) => Some(ProblemIssue::NonFinite("bounds")),
        Some((index, BoundIssue::Crossed)) => Some(ProblemIssue::InvalidBounds { index }),
    }
}

/// All checks of a QP, in order: the quadratic, vector lengths, constraint
/// blocks, the linear objective, the L1 term, and the bounds.
pub open spec fn problem_issue(p: ProblemSummary) -> Option<ProblemIssue> {
    let n = p.quadratic.dimension;
    first_issue(
        seq![
            quadratic_issue(p.quadratic),
            dimension_issue("linear", n, p.linear_len),
            dimension_issue("lower_bounds", n, p.lower_len),
            dimension_issue("upper_bounds", n, p.upper_len),
            block_issue("equalities", p.equalities, n),
            block_issue("inequalities", p.inequalities, n),
            unless(p.linear_finite, ProblemIssue::NonFinite("linear")),
            match p.l1 {
                Some(l1) => l1_issue(l1, n),
                None => None,
            },
            bound_issue(p.first_bound_issue),
        ],
    )
}

/// A well-formed factor covariance: a non-negative diagonal, or a square,
/// finite, symmetric dense matrix.
pub open spec fn omega_well_formed(omega: OmegaSummary) -> bool {
    match omega {
        OmegaSummary::Diagonal { nonnegative, .. } => nonnegative,
        OmegaSummary::Dense { rows, cols, finite, symmetric } => rows == cols && finite
            && symmetric,
    }
}

/// A well-formed factor quadratic: `d` has one entry per variable, `Ω`
/// one row per factor, `F` is finite, `d` finite and non-negative, and `Ω`
/// well formed.
pub open spec fn quadratic_well_formed(q: QuadraticSummary) -> bool {
    &&& q.diagonal_len == q.dimension
    &&& q.omega.dimension() == q.factor_count
    &&& q.factors_finite
    &&& q.diagonal_nonnegative
    &&& omega_well_formed(q.omega)
}

/// A well-formed constraint block over `dimension` variables: one column
/// per variable, one right-hand-side entry per row, finite entries.
pub open spec fn block_well_formed(block: BlockSummary, dimension: usize) -> bool {
    &&& block.cols == dimension
    &&& block.rhs_len == block.rows
    &&& block.finite
}

/// A well-formed L1 term over `dimension` variables: one cost and one
/// anchor entry per variable, costs finite and non-negative, a finite
/// anchor.
pub open spec fn l1_well_formed(l1: L1Summary, dimension: usize) -> bool {
    &&& l1.costs_len == dimension
    &&& l1.anchor_len == dimension
    &&& l1.costs_nonnegative
    &&& l1.anchor_finite
}

/// Well-formed QP data: a well-formed quadratic over `n` variables, linear
/// cost and both bound vectors of length `n`, well-formed constraint
/// blocks, a finite linear cost, a well-formed L1 term if any, and bounds
/// that are numbers with `lower <= upper`.
pub open spec fn problem_well_formed(p: ProblemSummary) -> bool {
    let n = p.quadratic.dimension;
    &&& quadratic_well_formed(p.quadratic)
    &&& p.linear_len == n
    &&& p.lower_len == n
    &&& p.upper_len == n
    &&& block_well_formed(p.equalities, n)
    &&& block_well_formed(p.inequalities, n)
    &&& p.linear_finite
    &&& (p.l1 matches Some(l1) ==> l1_well_formed(l1, n))
    &&& p.first_bound_issue is None
}

/// The rejections of a factor quadratic, in checking order: the length of
/// `d`, the size of `Ω` against the factor count, finiteness of `F`, `d`
/// finite and non-negative, then the covariance (a diagonal finite and
/// non-negative; a dense matrix square, finite, symmetric).
pub open spec fn quadratic_rejection_order(q: QuadraticSummary) -> bool {
    let found = quadratic_issue(q);
    let sizes_ok = q.diagonal_len == q.dimension && q.omega.dimension() == q.factor_count;
    let data_ok = sizes_ok && q.factors_finite && q.diagonal_nonnegative;
    &&& q.diagonal_len != q.dimension ==> found == Some(
        ProblemIssue::Dimension(
            DimensionError {
                field: "quadratic.diagonal",
                expected: q.dimension,
                actual: q.diagonal_len,
            },
        ),
    )
    &&& (q.diagonal_len == q.dimension && q.omega.dimension() != q.factor_count) ==> found == Some(
        ProblemIssue::Dimension(
            DimensionError {
                field: "quadratic.omega",
                expected: q.factor_count,
                actual: q.omega.dimension(),
            },
        ),
    )
    &&& (sizes_ok && !q.factors_finite) ==> found == Some(
        ProblemIssue::NonFinite("quadratic.factors"),
    )
    &&& (sizes_ok && q.factors_finite && !q.diagonal_nonnegative) ==> found == Some(
        ProblemIssue::NonConvex("quadratic diagonal must be finite and non-negative"),
    )
    &&& data_ok ==> match q.omega {
        OmegaSummary::Diagonal { nonnegative, .. } => !nonnegative ==> found == Some(
            ProblemIssue::NonConvex("factor covariance diagonal must be finite and non-negative"),
        ),
        OmegaSummary::Dense { rows, cols, finite, symmetric } => {
            &&& rows != cols ==> found == Some(ProblemIssue::NotSquare("quadratic.omega"))
            &&& (rows == cols && !finite) ==> found == Some(
                ProblemIssue::NonFinite("quadratic.omega"),
            )
            &&& (rows == cols && finite && !symmetric) ==> found == Some(
                ProblemIssue::NotSymmetric("quadratic.omega"),
            )
        },
    }
}

/// The rejections of an L1 term over `dimension` variables, in checking
/// order: cost length, anchor length, costs finite and non-negative, a
/// finite anchor.
pub open spec fn l1_rejection_order(l1: L1Summary, dimension: usize) -> bool {
    let found = l1_issue(l1, dimension);
    let sizes_ok = l1.costs_len == dimension && l1.anchor_len == dimension;
    &&& l1.costs_len != dimension ==> found == Some(
        ProblemIssue::Dimension(
            DimensionError { field: "l1.costs", expected: dimension, actual: l1.costs_len },
        ),
    )
    &&& (l1.costs_len == dimension && l1.anchor_len != dimension) ==> found == Some(
        ProblemIssue::Dimension(
            DimensionError { field: "l1.anchor", expected: dimension, actual: l1.anchor_len },
        ),
    )
    &&& (sizes_ok && !l1.costs_nonnegative) ==> found == Some(
        ProblemIssue::NonConvex("l1 costs must be finite and non-negative"),
    )
    &&& (sizes_ok && l1.costs_nonnegative && !l1.anchor_finite) ==> found == Some(
        ProblemIssue::NonFinite("l1.anchor"),
    )
}

/// The checks of a factor quadratic pass exactly on a well-formed one, and
/// a rejection names the first failed condition.
pub proof fn lemma_quadratic_accepted_iff_well_formed(q: QuadraticSummary)
    ensures
        quadratic_issue(q) is None <==> quadratic_well_formed(q),
        quadratic_rejection_order(q),
{
    reveal_with_fuel(first_issue, 6);
}

/// The checks of an L1 term pass exactly on a well-formed one, and a
/// rejection names the first failed condition.
pub proof fn lemma_l1_accepted_iff_well_formed(l1: L1Summary, dimension: usize)
    ensures
        l1_issue(l1, dimension) is None <==> l1_well_formed(l1, dimension),
        l1_rejection_order(l1, dimension),
{
    reveal_with_fuel(first_issue, 5);
}

/// QP data is accepted exactly when it is well formed, and a rejection
/// names the first failed condition in checking order: the quadratic;
/// the linear cost, lower and upper bound lengths against the variable
/// count; each constraint block's column count against the variable
/// count, its right-hand side against its rows, and its finiteness; the
/// finiteness of the linear cost; the L1 term; and the first variable
/// whose bounds are NaN or crossed.
pub proof fn lemma_problem_accepted_iff_well_formed(p: ProblemSummary)
    ensures
        problem_issue(p) is None <==> problem_well_formed(p),
        problem_rejection_order(p),
{
    reveal_with_fuel(first_issue, 10);
    lemma_quadratic_accepted_iff_well_formed(p.quadratic);
    if let Some(l1) = p.l1 {
        lemma_l1_accepted_iff_well_formed(l1, p.quadratic.dimension);
    }
}

/// The rejections of QP data, in checking order.
pub open spec fn problem_rejection_order(p: ProblemSummary) -> bool {
    let n = p.quadratic.dimension;
    let found = problem_issue(p);
    let dim = |field: &'static str, expected: usize, actual: usize|
        Some(ProblemIssue::Dimension(DimensionError { field, expected, actual }));
    let quadratic_ok = quadratic_well_formed(p.quadratic);
    let lengths_ok = quadratic_ok && p.linear_len == n && p.lower_len == n && p.upper_len == n;
    let equalities_ok = lengths_ok && block_well_formed(p.equalities, n);
    let blocks_ok = equalities_ok && block_well_formed(p.inequalities, n);
    let linear_ok = blocks_ok && p.linear_finite;
    let l1_ok = linear_ok && (p.l1 matches Some(l1) ==> l1_well_formed(l1, n));
    &&& !quadratic_ok ==> found == quadratic_issue(p.quadratic)
    &&& (quadratic_ok && p.linear_len != n) ==> found == dim("linear", n, p.linear_len)
    &&& (quadratic_ok && p.linear_len == n && p.lower_len != n) ==> found == dim(
        "lower_bounds",
        n,
        p.lower_len,
    )
    &&& (quadratic_ok && p.linear_len == n && p.lower_len == n && p.upper_len != n) ==> found
        == dim("upper_bounds", n, p.upper_len)
    &&& (lengths_ok && p.equalities.cols != n) ==> found == dim("equalities", n, p.equalities.cols)
    &&& (lengths_ok && p.equalities.cols == n && p.equalities.rhs_len != p.equalities.rows)
        ==> found == dim("equalities", p.equalities.rows, p.equalities.rhs_len)
    &&& (lengths_ok && p.equalities.cols == n && p.equalities.rhs_len == p.equalities.rows
        && !p.equalities.finite) ==> found == Some(ProblemIssue::NonFinite("equalities"))
    &&& (equalities_ok && p.inequalities.cols != n) ==> found == dim(
        "inequalities",
        n,
        p.inequalities.cols,
    )
    &&& (equalities_ok && p.inequalities.cols == n && p.inequalities.rhs_len
        != p.inequalities.rows) ==> found == dim(
        "inequalities",
        p.inequalities.rows,
        p.inequalities.rhs_len,
    )
    &&& (equalities_ok && p.inequalities.cols == n && p.inequalities.rhs_len
        == p.inequalities.rows && !p.inequalities.finite) ==> found == Some(
        ProblemIssue::NonFinite("inequalities"),
    )
    &&& (blocks_ok && !p.linear_finite) ==> found == Some(ProblemIssue::NonFinite("linear"))
    &&& linear_ok ==> (p.l1 matches Some(l1) ==> (!l1_well_formed(l1, n) ==> found == l1_issue(
        l1,
        n,
    )))
    &&& l1_ok ==> match p.first_bound_issue {
        None => found is None,
        Some((index, BoundIssue::NotANumber)) => found == Some(ProblemIssue::NonFinite("bounds")),
        Some((index, BoundIssue::Crossed)) => found == Some(ProblemIssue::InvalidBounds { index }),
    }
}

/// Reports the first issue of a list of verdicts in order.
fn report(issues: &Vec<Option<ProblemIssue>>) -> (result: Result<(), ProblemIssue>)
    ensures
        match first_issue(issues@) {
            None => result is Ok,
            Some(issue) => result == Err::<(), ProblemIssue>(issue),
        },
{
    let mut i: usize = 0;
    assert(issues@.skip(0) =~= issues@);
    while i < issues.len()
        invariant
            i <= issues@.len(),
            first_issue(issues@) == first_issue(issues@.skip(i as int)),
        decreases issues@.len() - i,
    {
        proof {
            assert(issues@.skip(i as int)[0] == issues@[i as int]);
            assert(issues@.skip(i as int).drop_first() =~= issues@.skip(i + 1));
        }
        match &issues[i] {
            Some(issue) => {
                return Err(*issue);
            },
            None => {},
        }
        i = i + 1;
    }
    assert(issues@.skip(i as int).len() == 0);
    Ok(())
}

fn dimension_check(field: &'static str, expected: usize, actual: usize) -> (issue: Option<
    ProblemIssue,
>)
    ensures
        issue == dimension_issue(field, expected, actual),
{
    if actual != expected {
        Some(ProblemIssue::Dimension(DimensionError { field, expected, actual }))
    } else {
        None
    }
}

fn condition(holds: bool, issue: ProblemIssue) -> (verdict: Option<ProblemIssue>)
    ensures
        verdict == unless(holds, issue),
{
    if holds {
        None
    } else {
        Some(issue)
    }
}

fn first_of(issues: Vec<Option<ProblemIssue>>) -> (first: Option<ProblemIssue>)
    ensures
        first == first_issue(issues@),
{
    match report(&issues) {
        Ok(()) => None,
        Err(issue) => Some(issue),
    }
}

fn omega_check(omega: OmegaSummary) -> (issue: Option<ProblemIssue>)
    ensures
        issue == omega_issue(omega),
{
    match omega {
        OmegaSummary::Diagonal { nonnegative, .. } => condition(
            nonnegative,
            ProblemIssue::NonConvex("factor covariance diagonal must be finite and non-negative"),
        ),
        OmegaSummary::Dense { rows, cols, finite, symmetric } => {
            let issues = vec![
                condition(rows == cols, ProblemIssue::NotSquare("quadratic.omega")),
                condition(finite, ProblemIssue::NonFinite("quadratic.omega")),
                condition(symmetric, ProblemIssue::NotSymmetric("quadratic.omega")),
            ];
            assert(issues@ =~= seq![
                unless(rows == cols, ProblemIssue::NotSquare("quadratic.omega")),
                unless(finite, ProblemIssue::NonFinite("quadratic.omega")),
                unless(symmetric, ProblemIssue::NotSymmetric("quadratic.omega")),
            ]);
            first_of(issues)
        },
    }
}

fn quadratic_check(q: &QuadraticSummary) -> (issue: Option<ProblemIssue>)
    ensures
        issue == quadratic_issue(*q),
{
    let omega_dimension = match q.omega {
        OmegaSummary::Diagonal { len, .. } => len,
        OmegaSummary::Dense { rows, .. } => rows,
    };
    let issues = vec![
        dimension_check("quadratic.diagonal", q.dimension, q.diagonal_len),
        dimension_check("quadratic.omega", q.factor_count, omega_dimension),
        condition(q.factors_finite, ProblemIssue::NonFinite("quadratic.factors")),
        condition(
            q.diagonal_nonnegative,
            ProblemIssue::NonConvex("quadratic diagonal must be finite and non-negative"),
        ),
        omega_check(q.omega),
    ];
    assert(issues@ =~= seq![
        dimension_issue("quadratic.diagonal", q.dimension, q.diagonal_len),
        dimension_issue("quadratic.omega", q.factor_count, q.omega.dimension()),
        unless(q.factors_finite, ProblemIssue::NonFinite("quadratic.factors")),
        unless(
            q.diagonal_nonnegative,
            ProblemIssue::NonConvex("quadratic diagonal must be finite and non-negative"),
        ),
        omega_issue(q.omega),
    ]);
    first_of(issues)
}

fn block_check(field: &'static str, block: &BlockSummary, dimension: usize) -> (issue: Option<
    ProblemIssue,
>)
    ensures
        issue == block_issue(field, *block, dimension),
{
    let issues = vec![
        dimension_check(field, dimension, block.cols),
        dimension_check(field, block.rows, block.rhs_len),
        condition(block.finite, ProblemIssue::NonFinite(field)),
    ];
    assert(issues@ =~= seq![
        dimension_issue(field, dimension, block.cols),
        dimension_issue(field, block.rows, block.rhs_len),
        unless(block.finite, ProblemIssue::NonFinite(field)),
    ]);
    first_of(issues)
}

fn l1_check(l1: &L1Summary, dimension: usize) -> (issue: Option<ProblemIssue>)
    ensures
        issue == l1_issue(*l1, dimension),
{
    let issues = vec![
        dimension_check("l1.costs", dimension, l1.costs_len),
        dimension_check("l1.anchor", dimension, l1.anchor_len),
        condition(
            l1.costs_nonnegative,
            ProblemIssue::NonConvex("l1 costs must be finite and non-negative"),
        ),
        condition(l1.anchor_finite, ProblemIssue::NonFinite("l1.anchor")),
    ];
    assert(issues@ =~= seq![
        dimension_issue("l1.costs", dimension, l1.costs_len),
        dimension_issue("l1.anchor", dimension, l1.anchor_len),
        unless(l1.costs_nonnegative, ProblemIssue::NonConvex("l1 costs must be finite and non-negative")),
        unless(l1.anchor_finite, ProblemIssue::NonFinite("l1.anchor")),
    ]);
    first_of(issues)
}

/// Validates a factor quadratic: dimensions of `d` and `Ω` against `F`,
/// then finiteness of `F`, convexity of `d`, and the covariance (diagonal:
/// finite and non-negative; dense: square, finite, symmetric).
pub fn validate_quadratic(quadratic: &QuadraticSummary) -> (result: Result<(), ProblemIssue>)
    ensures
        match quadratic_issue(*quadratic) {
            None => result is Ok,
            Some(issue) => result == Err::<(), ProblemIssue>(issue),
        },
        result is Ok <==> quadratic_well_formed(*quadratic),
        quadratic_rejection_order(*quadratic),
{
    proof {
        lemma_quadratic_accepted_iff_well_formed(*quadratic);
    }
    match quadratic_check(quadratic) {
        None => Ok(()),
        Some(issue) => Err(issue),
    }
}

/// Validates an L1 term over `dimension` variables: cost and anchor
/// lengths, then non-negative costs and a finite anchor.
pub fn validate_l1(l1: &L1Summary, dimension: usize) -> (result: Result<(), ProblemIssue>)
    ensures
        match l1_issue(*l1, dimension) {
            None => result is Ok,
            Some(issue) => result == Err::<(), ProblemIssue>(issue),
        },
        result is Ok <==> l1_well_formed(*l1, dimension),
        l1_rejection_order(*l1, dimension),
{
    proof {
        lemma_l1_accepted_iff_well_formed(*l1, dimension);
    }
    match l1_check(l1, dimension) {
        None => Ok(()),
        Some(issue) => Err(issue),
    }
}

/// Validates dimensions, finite coefficients, and bound consistency of a
/// QP, reporting the first failed check.
pub fn validate_problem(problem: &ProblemSummary) -> (result: Result<(), ProblemIssue>)
    ensures
        match problem_issue(*problem) {
            None => result is Ok,
            Some(issue) => result == Err::<(), ProblemIssue>(issue),
        },
        result is Ok <==> problem_well_formed(*problem),
        problem_rejection_order(*problem),
{
    proof {
        lemma_problem_accepted_iff_well_formed(*problem);
    }
    let n = problem.quadratic.dimension;
    let l1 = match &problem.l1 {
        Some(l1) => l1_check(l1, n),
        None => None,
    };
    let bounds = match problem.first_bound_issue {
        None => None,
        Some((_, BoundIssue::NotANumber)) => Some(ProblemIssue::NonFinite("bounds")),
        Some((index, BoundIssue::Crossed)) => Some(ProblemIssue::InvalidBounds { index }),
    };
    let issues = vec![
        quadratic_check(&problem.quadratic),
        dimension_check("linear", n, problem.linear_len),
        dimension_check("lower_bounds", n, problem.lower_len),
        dimension_check("upper_bounds", n, problem.upper_len),
        block_check("equalities", &problem.equalities, n),
        block_check("inequalities", &problem.inequalities, n),
        condition(problem.linear_finite, ProblemIssue::NonFinite("linear")),
        l1,
        bounds,
    ];
    assert(issues@ =~= seq![
        quadratic_issue(problem.quadratic),
        dimension_issue("linear", n, problem.linear_len),
        dimension_issue("lower_bounds", n, problem.lower_len),
        dimension_issue("upper_bounds", n, problem.upper_len),
        block_issue("equalities", problem.equalities, n),
        block_issue("inequalities", problem.inequalities, n),
        unless(problem.linear_finite, ProblemIssue::NonFinite("linear")),
        match problem.l1 {
            Some(l1) => l1_issue(l1, n),
            None => None,
        },
        bound_issue(problem.first_bound_issue),
    ]);
    report(&issues)
}

} // verus!
