//! The case container ([`EvalCase`]) and the order in which a directory of `.ron` case files
//! is read.
use vstd::prelude::*;

use crate::order::{is_sorted, keep_extension, sorted_by_key, stable_sort, with_extension};

verus! {

/// One eval case: a named instruction, how to build the world it runs in (`Setup`), and the
/// predicates (`Expect`) its result must satisfy — all of them, for the case to pass.
#[derive(Debug, Clone)]
pub struct EvalCase<Setup, Expect> {
    /// The case name, used in the report.
    pub name: String,
    /// The instruction handed to the harness verbatim.
    pub instruction: String,
    /// How to build the world the case runs against.
    pub setup: Setup,
    /// The predicates the result must satisfy.
    pub expect: Vec<Expect>,
}

/// The case files of a directory holding the entries `names`, in the order they are read: the
/// names with a `ron` extension (in any ASCII case), sorted ascending; everything else is
/// ignored.
pub fn case_file_order(names: Vec<String>) -> (r: Vec<String>)
    ensures
        r@ == sorted_by_key(with_extension(names@, "ron"@), false),
        is_sorted(r@, false),
        r@.to_multiset() == with_extension(names@, "ron"@).to_multiset(),
{
    let kept = keep_extension(names, "ron");
    stable_sort(kept, false)
}

} // verus!
