//! The few items of the standard library that this crate needs and that are
//! taken on trust: nothing in this file is proved.

use std::collections::HashSet;
use std::path::Path;
use std::time::SystemTime;
use vstd::prelude::*;

verus! {

/// `std::time::SystemTime`, carried through as an opaque value.
#[verifier::external_type_specification]
#[verifier::external_body]
pub struct ExSystemTime(SystemTime);

/// Calls `SystemTime::now`. The reading depends on the machine's clock, so
/// nothing is claimed of it.
#[verifier::external_body]
pub(crate) fn wall_clock_now() -> (t: SystemTime) {
    SystemTime::now()
}

/// Calls `Clone::clone` of `HashSet<u64>`: the copy holds the same
/// signatures as the set it was made from.
#[verifier::external_body]
pub(crate) fn clone_signatures(s: &HashSet<u64>) -> (r: HashSet<u64>)
    ensures
        r@ == s@,
{
    s.clone()
}

/// What `std::path::Path::parent` gives for the path written as `path`: the
/// path without its last component, or nothing when it ends in a root or is
/// empty.
pub uninterp spec fn parent_of(path: Seq<char>) -> Option<Seq<char>>;

/// Calls `Path::parent` on the path written as `path` and hands the parent
/// back as text; the parent of a path given as text is text as well. The
/// result is the one that [`parent_of`] names.
#[verifier::external_body]
pub(crate) fn path_parent(path: &str) -> (parent: Option<String>)
    ensures
        match parent {
            Some(p) => parent_of(path@) == Some(p@),
            None => parent_of(path@) is None,
        },
{
    match Path::new(path).parent() {
        Some(p) => Some(String::from(p.to_str().unwrap())),
        None => None,
    }
}

} // verus!
