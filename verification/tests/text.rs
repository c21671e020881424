use ledge::{decimal_string, enumerate_indices};

#[test]
fn decimal_strings_have_no_leading_zeros() {
    assert_eq!(decimal_string(0), "0");
    assert_eq!(decimal_string(7), "7");
    assert_eq!(decimal_string(1_234_567_890_123), "1234567890123");
    assert_eq!(decimal_string(u64::MAX), u64::MAX.to_string());
}

#[test]
fn short_index_lists_are_spelled_out() {
    assert_eq!(enumerate_indices(&[]), "");
    assert_eq!(enumerate_indices(&[4]), "4");
    assert_eq!(enumerate_indices(&[0, 3, 7]), "0, 3, 7");
    assert_eq!(enumerate_indices(&[1, 2, 3, 4, 5]), "1, 2, 3, 4, 5");
}

#[test]
fn long_index_lists_show_five_and_the_total() {
    let indices: Vec<usize> = (0..12).collect();
    assert_eq!(enumerate_indices(&indices), "0, 1, 2, 3, 4, ... (12 total)");
    assert_eq!(enumerate_indices(&[10, 20, 30, 40, 50, 60]), "10, 20, 30, 40, 50, ... (6 total)");
}
