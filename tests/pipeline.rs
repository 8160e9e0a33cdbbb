use zip_resize::pipeline::{
    calc_average_size_per_file, commit_needed, count_replaced, is_eligible,
};

#[test]
fn counts_replaced_files() {
    let rs: Vec<Result<bool, String>> = vec![Ok(true), Ok(false), Ok(true)];
    assert_eq!(count_replaced(rs), Ok(2));
}

#[test]
fn first_failure_wins() {
    let rs: Vec<Result<bool, String>> =
        vec![Ok(true), Err("one".to_string()), Ok(true), Err("two".to_string())];
    assert_eq!(count_replaced(rs), Err("one".to_string()));
}

#[test]
fn empty_tree_counts_zero() {
    let rs: Vec<Result<bool, String>> = vec![];
    assert_eq!(count_replaced(rs), Ok(0));
}

#[test]
fn no_change_no_commit() {
    assert!(!commit_needed(0));
    assert!(commit_needed(1));
}

#[test]
fn average_size() {
    assert_eq!(calc_average_size_per_file(10 * 1024, 4), Some(2560));
    assert_eq!(calc_average_size_per_file(100, 0), None);
}

#[test]
fn eligibility_threshold() {
    assert!(is_eligible(2049 * 3, 3));
    assert!(!is_eligible(2048 * 3, 3));
    assert!(!is_eligible(1 << 30, 0));
}
