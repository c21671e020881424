//! Portfolio-vocabulary explanations of infeasibility certificates.
//!
//! A certificate names "equality row 0" or "bound multiplier 3"; the
//! portfolio layer translates the participating rows into the user's terms
//! (the budget, user equality rows, inequality caps, per-asset bounds) so
//! users see which portfolio constraints conflict.

use vstd::prelude::*;

use crate::text::{abbreviated, enumerate_indices};

verus! {

/// `parts` separated by `", "`.
pub open spec fn join_parts(parts: Seq<Seq<char>>) -> Seq<char>
    decreases parts.len(),
{
    if parts.len() == 0 {
        Seq::empty()
    } else if parts.len() == 1 {
        parts[0]
    } else {
        join_parts(parts.drop_last()) + ", "@ + parts.last()
    }
}

/// `parts` followed by `label + abbreviated(indices)` when `indices` is not
/// empty.
pub open spec fn with_index_part(
    parts: Seq<Seq<char>>,
    label: Seq<char>,
    indices: Seq<usize>,
) -> Seq<Seq<char>> {
    if indices.len() == 0 {
        parts
    } else {
        parts.push(label + abbreviated(indices))
    }
}

/// The named participants of a primal infeasibility certificate, in the
/// order budget, equality rows, inequality caps, upper bounds, lower bounds.
pub open spec fn primal_hint_parts(
    budget: Option<Seq<char>>,
    equality_rows: Seq<usize>,
    inequality_rows: Seq<usize>,
    upper_assets: Seq<usize>,
    lower_assets: Seq<usize>,
) -> Seq<Seq<char>> {
    let start: Seq<Seq<char>> = match budget {
        Some(value) => seq!["the budget (sum of weights = "@ + value + ")"@],
        None => Seq::empty(),
    };
    let parts = with_index_part(start, "equality row(s) "@, equality_rows);
    let parts = with_index_part(parts, "inequality cap(s) "@, inequality_rows);
    let parts = with_index_part(parts, "upper bounds on asset(s) "@, upper_assets);
    with_index_part(parts, "lower bounds on asset(s) "@, lower_assets)
}

/// Opening of the primal infeasibility hint.
pub open spec fn primal_hint_head() -> Seq<char> {
    "no portfolio satisfies these constraints simultaneously: "@
}

/// Closing of the primal infeasibility hint.
pub open spec fn primal_hint_tail() -> Seq<char> {
    "; relax at least one of them (Farkas weights are on Solution::certificate)"@
}

/// Opening of the unboundedness hint.
pub open spec fn dual_hint_head() -> Seq<char> {
    "the objective is unbounded: expected returns reward a direction the risk model prices at (near) zero risk and no bound or constraint caps it (largest components at asset(s) "@
}

/// Closing of the unboundedness hint.
pub open spec fn dual_hint_tail() -> Seq<char> {
    "); check factor exposures and specific variance for missing risk, or add bounds (the direction is on Solution::certificate)"@
}

fn push_part(parts: &mut Vec<String>, label: &str, indices: &[usize])
    ensures
        final(parts)@.map_values(|part: String| part@) == with_index_part(
            old(parts)@.map_values(|part: String| part@),
            label@,
            indices@,
        ),
{
    if indices.len() > 0 {
        let mut part = String::from_str(label);
        let listed = enumerate_indices(indices);
        part.append(listed.as_str());
        let ghost before = parts@;
        parts.push(part);
        assert(parts@.map_values(|part: String| part@) =~= before.map_values(
            |part: String| part@,
        ).push(label@ + abbreviated(indices@)));
    }
}

/// Explains a primal infeasibility certificate in portfolio terms, or
/// returns `None` when no constraint participates.
///
/// `budget` is the rendered budget value when the budget row participates;
/// the index lists name the participating user equality rows, inequality
/// rows, and assets whose upper or lower bounds participate.
pub fn primal_infeasibility_hint(
    budget: Option<&str>,
    equality_rows: &[usize],
    inequality_rows: &[usize],
    upper_assets: &[usize],
    lower_assets: &[usize],
) -> (hint: Option<String>)
    ensures
        ({
            let budget_text = match budget {
                Some(value) => Some(value@),
                None => None,
            };
            let parts = primal_hint_parts(
                budget_text,
                equality_rows@,
                inequality_rows@,
                upper_assets@,
                lower_assets@,
            );
            if parts.len() == 0 {
                hint is None
            } else {
                hint matches Some(text) && text@ == primal_hint_head() + join_parts(parts)
                    + primal_hint_tail()
            }
        }),
{
    let mut parts: Vec<String> = Vec::new();
    if let Some(value) = budget {
        let mut part = String::from_str("the budget (sum of weights = ");
        part.append(value);
        part.append(")");
        parts.push(part);
        assert(parts@.map_values(|part: String| part@) =~= seq![
            "the budget (sum of weights = "@ + value@ + ")"@,
        ]);
    } else {
        assert(parts@.map_values(|part: String| part@) =~= Seq::<Seq<char>>::empty());
    }
    push_part(&mut parts, "equality row(s) ", equality_rows);
    push_part(&mut parts, "inequality cap(s) ", inequality_rows);
    push_part(&mut parts, "upper bounds on asset(s) ", upper_assets);
    push_part(&mut parts, "lower bounds on asset(s) ", lower_assets);
    let ghost views = parts@.map_values(|part: String| part@);
    if parts.len() == 0 {
        return None;
    }
    let mut text = String::from_str("no portfolio satisfies these constraints simultaneously: ");
    let mut i: usize = 0;
    while i < parts.len()
        invariant
            views == parts@.map_values(|part: String| part@),
            i <= parts@.len(),
            text@ == primal_hint_head() + join_parts(views.take(i as int)),
        decreases parts@.len() - i,
    {
        if i > 0 {
            text.append(", ");
        }
        text.append(parts[i].as_str());
        proof {
            let next = views.take(i + 1);
            assert(next.drop_last() =~= views.take(i as int));
            assert(next.last() == parts@[i as int]@);
            if i == 0 {
                assert(views.take(0) =~= Seq::<Seq<char>>::empty());
                assert(text@ =~= primal_hint_head() + join_parts(next));
            } else {
                assert(text@ =~= primal_hint_head() + join_parts(next));
            }
        }
        i = i + 1;
    }
    text.append("; relax at least one of them (Farkas weights are on Solution::certificate)");
    proof {
        assert(views.take(views.len() as int) =~= views);
    }
    Some(text)
}

/// Explains a dual infeasibility (unboundedness) certificate, naming the
/// largest components of the descent direction.
pub fn unboundedness_hint(largest_components: &[usize]) -> (hint: String)
    ensures
        hint@ == dual_hint_head() + abbreviated(largest_components@) + dual_hint_tail(),
{
    let mut text = String::from_str(
        "the objective is unbounded: expected returns reward a direction the risk model prices at (near) zero risk and no bound or constraint caps it (largest components at asset(s) ",
    );
    let listed = enumerate_indices(largest_components);
    text.append(listed.as_str());
    text.append(
        "); check factor exposures and specific variance for missing risk, or add bounds (the direction is on Solution::certificate)",
    );
    text
}

} // verus!
