//! Verified structural core of the Ledge factor-model portfolio QP solver.
//!
//! The numerical kernel (ADMM iterations, factorizations, scaling) works on
//! floating-point data; this crate holds the logic around it that is
//! independent of the number type: matrix shapes, sparse layouts, the
//! factorization cache, status policies, constraint-template bookkeeping,
//! step validation, reproducible random streams, and report text.

mod active_set;
mod arguments;
mod cache;
mod constraints;
mod conversion;
mod csc;
mod diagnosis;
mod groups;
mod hints;
mod kkt;
mod labels;
mod matrix;
mod policy;
mod random;
mod report;
mod settings;
mod step;
mod styles;
mod synthetic;
mod text;
mod validation;

pub use active_set::{
    add_anchor_pins, distinct_indices, guessed_side, guessed_side_of, is_pinned,
    lemma_no_trade_variables_are_pinned, pins_of, refined_sign, refined_sign_of,
    sorted_by_index, stably_sorted_by_index, with_anchor_pins, ActiveSet, Pin, Side,
};
pub use arguments::{
    build_plan, lemma_plan_follows_arguments, pairing_error, pairing_error_text, plan_build,
    pairing_rejection_order, well_paired, ArgumentPresence, BuildPlan,
    IndustryTemplate, PairingError,
};
pub use cache::{
    has_key, lemma_recent_keys_survive, moved_to_front, survivors, table_ok, FactorizationCache,
    FACTORIZATION_CACHE_CAPACITY,
};
pub use constraints::{append_constraint_rows, ConstraintError, DimensionError, LinearConstraints};
pub use conversion::{
    conversion_layout, epigraph_row, epigraph_rows, layout_of, lemma_layout_tiles_the_variables,
    ConversionLayout,
};
pub use csc::{
    column_entries, columns_in_range, csc_column, csc_from_rows, lemma_column_rows_ascend,
    row_entries_in_column, rows_ascend, stacked_rows, CscData, SparseRow,
};
pub use diagnosis::{
    budget_hints, certificate_hints, hint_if, is_budget_advice, leading_hints,
    lemma_budget_advice_only_for_max_iterations, lemma_hints_follow_the_diagnosis,
    select_hints, selected_hints, spread_hints,
    CertificateKind, DiagnosisSummary, HintKind,
};
pub use groups::{
    check_groups_populated, empty_group_text, first_empty_group, first_out_of_range, group_count,
    group_indicator_rows, has_member, indicator, lemma_first_out_of_range_is_first, out_of_range_text, validate_group_ids,
    TemplateError,
};
pub use hints::{
    dual_hint_head, dual_hint_tail, join_parts, primal_hint_head, primal_hint_parts,
    primal_hint_tail, primal_infeasibility_hint, unboundedness_hint, with_index_part,
};
pub use kkt::{
    check_lengths, first_mismatch, kkt_checks, kkt_length_checks,
    lemma_certificate_checks_expect_the_problem_shape, lemma_first_mismatch_is_first,
    lemma_kkt_checks_expect_the_problem_shape, length_error, primal_certificate_checks,
    primal_certificate_length_checks, KktError, LengthCheck,
};
pub use labels::{Formulation, Phase, SolveStatus, WarmStartSupport};
pub use matrix::{
    concat_rows, first_ragged_row, lemma_concat_rows_offset, matrix_error_text, push_all, Matrix,
    MatrixError,
};
pub use policy::{
    latest_solved, latest_solved_is_last_solved_date, needs_diagnostics, rho_adaptation_due,
    seeds_warm_start, termination_check_due, AnchorChain, ChainWithoutAnchor,
};
pub use random::{
    draw, lemma_draw_follows_seed, mix, perturbation_seed, state_after, word, SplitMix64,
    GOLDEN_GAMMA,
};
pub use report::{first_appearances, first_of_its_pair, first_positions};
pub use settings::{
    first_failed, lemma_settings_accepted_iff_valid, settings_conditions, settings_valid,
    validate_settings, SettingsSummary,
};
pub use step::{
    check_vector, combine_equality_rhs, fits, lemma_empty_step_changes_nothing,
    lemma_step_plan_follows_supplied_data, plan_step, step_acceptable, step_checks,
    step_rejection_order, vector_rejected_as,
    step_rejection, step_updates, vector_verdict, BudgetSummary, SequenceShape, StepError,
    StepPlan, StepSummary, VectorSummary, ANCHOR_NOT_MODELED, BENCHMARK_NOT_MODELED,
    BUDGET_NOT_FINITE, BUDGET_NOT_MODELED,
};
pub use styles::{
    band_acceptable, band_error, band_rows, first_band_error, layout,
    lemma_band_rejection_names_first_bad_band, lemma_band_rows_follow_bounds,
    lemma_layout_in_style_order, style_band_rows,
    unbounded_style_message, unbounded_style_text, BandError, BandRow, BandSummary,
};
pub use synthetic::{
    check_synthetic_dimensions, instance_label, instance_name, FACTORS_OUT_OF_RANGE, NO_ASSETS,
};
pub use text::{
    abbreviated, decimal, decimal_string, digit_char, enumerate_indices, joined, push_decimal,
    SHOWN_INDICES,
};
pub use validation::{
    block_issue, block_well_formed, bound_issue, dimension_issue, first_issue, l1_issue,
    l1_well_formed, lemma_l1_accepted_iff_well_formed, lemma_problem_accepted_iff_well_formed,
    lemma_quadratic_accepted_iff_well_formed, omega_issue, omega_well_formed,
    l1_rejection_order, problem_issue, problem_rejection_order,
    quadratic_rejection_order, problem_well_formed, quadratic_issue,
    quadratic_well_formed, unless, validate_l1, validate_problem, validate_quadratic, BlockSummary,
    BoundIssue, L1Summary, OmegaSummary, ProblemIssue, ProblemSummary, QuadraticSummary,
};
