use thoth::grpc::utils::extract_matrix;
use thoth::logger::writters::utils::pathbuf_str;
use thoth::operations::utils::util::{copy_column, copy_slice, get_node_id, transpose};

#[test]
fn transpose_square() {
    let x = vec![vec![1, 2], vec![3, 4]];
    assert_eq!(transpose(x), vec![vec![1, 3], vec![2, 4]]);
}

#[test]
fn transpose_rectangular() {
    let x = vec![vec![1, 2, 3], vec![4, 5, 6]];
    assert_eq!(transpose(x), vec![vec![1, 4], vec![2, 5], vec![3, 6]]);
}

#[test]
fn transpose_ragged_shorter_rows() {
    let x = vec![vec![1, 2, 3], vec![4]];
    assert_eq!(transpose(x), vec![vec![1, 4], vec![2], vec![3]]);
}

#[test]
fn transpose_empty() {
    assert!(transpose(Vec::<Vec<u8>>::new()).is_empty());
    assert!(transpose(vec![Vec::<u8>::new(), vec![1]]).is_empty());
}

#[test]
fn round_robin_wraps() {
    let keys = vec!["a".to_string(), "b".to_string()];
    let mut idx = 0;
    assert_eq!(get_node_id(&mut idx, 2, &keys), "a");
    assert_eq!(get_node_id(&mut idx, 2, &keys), "b");
    assert_eq!(get_node_id(&mut idx, 2, &keys), "a");
    assert_eq!(idx, 1);
}

#[test]
fn round_robin_resets_past_count() {
    let keys = vec!["a".to_string(), "b".to_string(), "c".to_string()];
    let mut idx = 7;
    assert_eq!(get_node_id(&mut idx, 3, &keys), "a");
    assert_eq!(idx, 1);
}

#[test]
fn copies() {
    let x = vec![1, 2, 3, 4];
    assert_eq!(copy_slice(&x, 1, 3), vec![2, 3]);
    let m = vec![vec![1, 2], vec![3, 4]];
    assert_eq!(copy_column(&m, 1), vec![2, 4]);
}

#[test]
fn extract_matrix_dimensions() {
    let (m, rows, cols) = extract_matrix(vec![vec![1.0, 2.0, 3.0], vec![4.0, 5.0, 6.0]]);
    assert_eq!((rows, cols), (2, 3));
    assert_eq!(m[1][2], 6.0);
    let (_, rows, cols) = extract_matrix(Vec::<Vec<f64>>::new());
    assert_eq!((rows, cols), (0, 0));
}

#[test]
fn round_robin_picks_each_node_once_per_round() {
    let keys = vec!["a".to_string(), "b".to_string(), "c".to_string()];
    let mut idx = 0;
    let picks: Vec<String> = (0..7).map(|_| get_node_id(&mut idx, 3, &keys)).collect();
    for (i, p) in picks.iter().enumerate() {
        assert_eq!(p, &keys[i % 3]);
    }
}

#[test]
fn path_text() {
    let mut path = std::path::PathBuf::new();
    path.push("logs");
    path.push("INFO");
    assert_eq!(pathbuf_str(&path), "logs/INFO");
}
