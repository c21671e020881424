use ledge::first_appearances;

fn key(instance: &str, solver: &str) -> (String, String) {
    (instance.to_string(), solver.to_string())
}

#[test]
fn report_rows_follow_first_appearance() {
    let keys = vec![
        key("small", "ledge"),
        key("small", "clarabel"),
        key("small", "ledge"),
        key("large", "ledge"),
        key("small", "clarabel"),
        key("large", "clarabel"),
    ];
    assert_eq!(first_appearances(&keys), vec![0, 1, 3, 5]);
}

#[test]
fn report_keys_differ_by_either_part() {
    let keys = vec![key("a", "b"), key("b", "a"), key("a", "a"), key("b", "b")];
    assert_eq!(first_appearances(&keys), vec![0, 1, 2, 3]);
    assert!(first_appearances(&[]).is_empty());
}
