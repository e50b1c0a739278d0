use vstd::prelude::*;

verus! {

/// A matrix given by rows, with its number of rows and the length of its
/// first row (`0` when it has no rows).
pub fn extract_matrix<T>(rows: Vec<Vec<T>>) -> (extracted: (Vec<Vec<T>>, usize, usize))
    ensures
        extracted.0 == rows,
        extracted.1 == rows@.len(),
        extracted.2 == if rows@.len() > 0 { rows@[0]@.len() } else { 0 },
{
    let rows_dim = rows.len();
    let cols_dim = if rows_dim > 0 { rows[0].len() } else { 0 };
    (rows, rows_dim, cols_dim)
}

} // verus!
