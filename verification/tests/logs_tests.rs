use thoth::logger::writters::utils::files_by_date_range;

fn names() -> Vec<String> {
    vec!["a".to_string(), "b".to_string(), "c".to_string(), "d".to_string()]
}

#[test]
fn date_range_between_bounds() {
    assert_eq!(files_by_date_range(&names(), Some(1), Some(3)), vec!["b".to_string(), "c".to_string()]);
}

#[test]
fn date_range_open_ends() {
    assert_eq!(files_by_date_range(&names(), None, Some(2)), vec!["a".to_string(), "b".to_string()]);
    assert_eq!(files_by_date_range(&names(), Some(3), None), vec!["d".to_string()]);
    assert!(files_by_date_range(&names(), None, None).is_empty());
    assert!(files_by_date_range(&names(), Some(2), Some(2)).is_empty());
}
