//! The shipped baseline capability suite: which embedded files make it up, and their order.
use vstd::prelude::*;

use crate::order::{is_sorted, keep_extension, sorted_by_key, stable_sort, with_extension};

verus! {

/// The baseline files among the embedded `(file name, contents)` pairs: those whose name has a
/// `ron` extension (in any ASCII case), sorted by file name — the order `load_cases` reads a
/// directory in.
pub fn baseline_files(embedded: Vec<(String, String)>) -> (r: Vec<(String, String)>)
    ensures
        r@ == sorted_by_key(with_extension(embedded@, "ron"@), false),
        is_sorted(r@, false),
        r@.to_multiset() == with_extension(embedded@, "ron"@).to_multiset(),
{
    let kept = keep_extension(embedded, "ron");
    stable_sort(kept, false)
}

} // verus!
