//! Links that open the application: a second instance hands its arguments
//! to the first, which looks for the link among them.

use crate::text::starts_with;
use vstd::prelude::*;

verus! {

/// Whether `argument` is a link into the application.
pub open spec fn is_deep_link(argument: Seq<char>) -> bool {
    "lupyd://"@.is_prefix_of(argument)
}

/// The place of the first argument that is a link into the application.
pub fn find_deep_link(args: &Vec<String>) -> (found: Option<usize>)
    ensures
        match found {
            Some(at) => {
                &&& at < args.len()
                &&& is_deep_link(args[at as int]@)
                &&& forall|j: int| 0 <= j < at ==> !is_deep_link(#[trigger] args[j]@)
            },
            None => forall|j: int| 0 <= j < args.len() ==> !is_deep_link(#[trigger] args[j]@),
        },
{
    let mut i: usize = 0;
    while i < args.len()
        invariant
            i <= args.len(),
            forall|j: int| 0 <= j < i ==> !is_deep_link(#[trigger] args[j]@),
        decreases args.len() - i,
    {
        if starts_with(args[i].as_str(), "lupyd://") {
            return Some(i);
        }
        i = i + 1;
    }
    None
}

} // verus!
