use ledge::{add_anchor_pins, guessed_side, refined_sign, ActiveSet, Side};

#[test]
fn no_trade_variables_get_anchor_pins_in_index_order() {
    let mut bounds = vec![(2, Side::Upper), (0, Side::Lower)];
    add_anchor_pins(&mut bounds, &[0, 1, 0, 0, -1]);
    assert_eq!(bounds, vec![(0, Side::Lower), (2, Side::Upper), (3, Side::Anchor)]);
}

#[test]
fn without_l1_signs_pins_are_only_sorted() {
    let mut bounds = vec![(4, Side::Lower), (1, Side::Upper), (3, Side::Lower)];
    add_anchor_pins(&mut bounds, &[]);
    assert_eq!(bounds, vec![(1, Side::Upper), (3, Side::Lower), (4, Side::Lower)]);
}

#[test]
fn sorting_pins_is_stable() {
    let mut bounds = vec![(1, Side::Upper), (0, Side::Lower), (1, Side::Lower)];
    add_anchor_pins(&mut bounds, &[0]);
    assert_eq!(bounds, vec![(0, Side::Lower), (1, Side::Upper), (1, Side::Lower)]);
}

#[test]
fn active_sets_hold_plain_indices() {
    let active = ActiveSet { inequalities: vec![1], bounds: vec![(0, Side::Anchor)], l1_signs: vec![0] };
    let copy = active.clone();
    assert_eq!(copy.inequalities, vec![1]);
    assert_eq!(copy.bounds, vec![(0, Side::Anchor)]);
}

#[test]
fn bound_pins_take_precedence_over_anchor_pins() {
    let mut bounds = vec![(3, Side::Upper), (1, Side::Lower)];
    add_anchor_pins(&mut bounds, &[0, 0, 1, 0, 0]);
    assert_eq!(
        bounds,
        vec![(0, Side::Anchor), (1, Side::Lower), (3, Side::Upper), (4, Side::Anchor)]
    );
    let mut indices: Vec<usize> = bounds.iter().map(|(index, _)| *index).collect();
    indices.dedup();
    assert_eq!(indices.len(), bounds.len());
}

#[test]
fn fixed_variables_follow_their_multiplier() {
    assert_eq!(guessed_side(true, true, true), Some(Side::Upper));
    assert_eq!(guessed_side(true, true, false), Some(Side::Lower));
    assert_eq!(guessed_side(false, true, false), Some(Side::Upper));
    assert_eq!(guessed_side(true, false, true), Some(Side::Lower));
    assert_eq!(guessed_side(false, false, true), None);
}

#[test]
fn trade_directions_unpin_and_repin() {
    assert_eq!(refined_sign(0, true, false, true), 1);
    assert_eq!(refined_sign(0, false, true, false), -1);
    assert_eq!(refined_sign(0, false, false, true), 0);
    assert_eq!(refined_sign(1, true, false, true), 0);
    assert_eq!(refined_sign(-1, false, false, false), -1);
}

#[test]
fn anchor_pins_sort_stably_by_index() {
    // Two pins of one variable keep their order; the anchor pin goes between.
    let mut bounds = vec![(3, Side::Upper), (1, Side::Lower), (3, Side::Lower)];
    add_anchor_pins(&mut bounds, &[1, 0, 0]);
    assert_eq!(
        bounds,
        vec![(1, Side::Lower), (2, Side::Anchor), (3, Side::Upper), (3, Side::Lower)]
    );
}
