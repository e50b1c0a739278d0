use vstd::prelude::*;
use std::path::PathBuf;

verus! {

/// Paths of files, as std gives them.
#[verifier::external_type_specification]
#[verifier::external_body]
pub struct ExPathBuf(std::path::PathBuf);

/// The text of `path`: calls `Path::to_string_lossy` and takes the text out
/// of the `Cow` it returns with `into_owned`. std documents the text as the
/// path's own characters when they are valid Unicode, each invalid sequence
/// replaced by U+FFFD; a `PathBuf` has no view here, so nothing is claimed
/// of the text.
#[verifier::external_body]
pub fn pathbuf_str(path: &PathBuf) -> (text: String) {
    path.to_string_lossy().into_owned()
}

/// The file names a date query reads, given where the search found its end
/// and its start in the sorted list of names: from the start up to the end,
/// from the first name up to the end, or from the start to the last name;
/// nothing when neither bound was found.
pub fn files_by_date_range(files: &Vec<String>, start_idx: Option<usize>, end_idx: Option<usize>) -> (selected: Vec<String>)
    requires
        match (start_idx, end_idx) {
            (Some(s), Some(e)) => s <= e <= files@.len(),
            (None, Some(e)) => e <= files@.len(),
            (Some(s), None) => s <= files@.len(),
            (None, None) => true,
        },
    ensures
        selected@ == match (start_idx, end_idx) {
            (Some(s), Some(e)) => files@.subrange(s as int, e as int),
            (None, Some(e)) => files@.subrange(0, e as int),
            (Some(s), None) => files@.subrange(s as int, files@.len() as int),
            (None, None) => Seq::<String>::empty(),
        },
{
    let (from, to): (usize, usize) = match (start_idx, end_idx) {
        (Some(s), Some(e)) => (s, e),
        (None, Some(e)) => (0, e),
        (Some(s), None) => (s, files.len()),
        (None, None) => (0, 0),
    };
    let mut selected: Vec<String> = Vec::new();
    let mut k: usize = from;
    while k < to
        invariant
            from <= k <= to <= files@.len(),
            selected@ == files@.subrange(from as int, k as int),
        decreases to - k,
    {
        selected.push(files[k].clone());
        k += 1;
        assert(selected@ =~= files@.subrange(from as int, k as int));
    }
    selected
}

} // verus!
