//! The startup argument scanner and the store-and-emit routing that both the
//! scanner and the OS open-file hook funnel through.

use vstd::prelude::*;
use crate::path_ext::has_markdown_extension;
use crate::path_ext::is_markdown_path;
use crate::state::LaunchState;

verus! {

/// Argument `i` is a launch-file candidate: the caller reports it as an
/// existing regular file, and it names a markdown path.
pub open spec fn matches_at(args: Seq<String>, is_file: Seq<bool>, i: int) -> bool {
    &&& is_file[i]
    &&& is_markdown_path(args[i]@)
}

/// Some argument after the executable path (entry 0) is a candidate.
pub open spec fn has_match(args: Seq<String>, is_file: Seq<bool>) -> bool {
    exists|i: int| 1 <= i < args.len() && matches_at(args, is_file, i)
}

/// `i` is the first candidate in list order, the executable path excluded.
pub open spec fn is_first_match(args: Seq<String>, is_file: Seq<bool>, i: int) -> bool {
    &&& 1 <= i < args.len()
    &&& matches_at(args, is_file, i)
    &&& forall|j: int| 1 <= j < i ==> !matches_at(args, is_file, j)
}

/// When no argument names a markdown path at all, there is no candidate,
/// whatever the file-existence reports say.
pub proof fn lemma_no_markdown_no_match(args: Seq<String>, is_file: Seq<bool>)
    requires
        forall|i: int| 0 <= i < args.len() ==> !is_markdown_path(args[i]@),
    ensures
        !has_match(args, is_file),
{
}

/// Find the first launch-file candidate among the process arguments. Entry 0
/// is the executable path and is skipped; `is_file[i]` reports whether
/// argument `i` names an existing regular file (the caller asks the file
/// system, which this scan does not touch).
pub fn find_launch_file(args: &Vec<String>, is_file: &Vec<bool>) -> (r: Option<usize>)
    requires
        args@.len() == is_file@.len(),
    ensures
        match r {
            Some(i) => is_first_match(args@, is_file@, i as int),
            None => !has_match(args@, is_file@),
        },
{
    let mut i: usize = 1;
    while i < args.len()
        invariant
            1 <= i,
            i <= args@.len() || i == 1,
            args@.len() == is_file@.len(),
            forall|j: int| 1 <= j < i ==> !matches_at(args@, is_file@, j),
        decreases args@.len() - i,
    {
        if is_file[i] && has_markdown_extension(args[i].as_str()) {
            return Some(i);
        }
        i = i + 1;
    }
    None
}

/// Route one candidate path, as both the startup scanner and the OS
/// open-file hook do: if it names a markdown file, store it in the slot
/// (overwriting any unclaimed value) and return it as the payload of a
/// "file-open" notification for the caller to emit; otherwise leave the slot
/// alone and return nothing.
pub fn process_file_path(state: &mut LaunchState, file_path: String) -> (emit: Option<String>)
    ensures
        is_markdown_path(file_path@) ==> final(state)@ == Some(file_path@) && (emit matches Some(e)
            && e@ == file_path@),
        !is_markdown_path(file_path@) ==> *final(state) == *old(state) && emit is None,
{
    if has_markdown_extension(file_path.as_str()) {
        let payload = file_path.clone();
        state.set(file_path);
        Some(payload)
    } else {
        None
    }
}

/// The whole startup scan: find the first candidate among the arguments and
/// hand it to the store-and-emit path. When no argument matches, the slot is
/// left untouched — in particular, a slot that was empty stays empty. When
/// some argument matches, the first match in list order is stored and
/// returned as the notification payload; later matches are ignored.
pub fn scan_launch_args(args: &Vec<String>, is_file: &Vec<bool>, state: &mut LaunchState) -> (emit:
    Option<String>)
    requires
        args@.len() == is_file@.len(),
    ensures
        !has_match(args@, is_file@) ==> *final(state) == *old(state) && emit is None,
        has_match(args@, is_file@) ==> (emit matches Some(e) && exists|i: int|
            {
                &&& #[trigger] is_first_match(args@, is_file@, i)
                &&& final(state)@ == Some(args@[i]@)
                &&& e@ == args@[i]@
            }),
{
    match find_launch_file(args, is_file) {
        Some(i) => {
            let path = args[i].clone();
            process_file_path(state, path)
        },
        None => None,
    }
}

} // verus!
