//! Where a file is written before it takes the place of another.
//!
//! A file is written next to its destination, and then renamed, so that the
//! destination holds its old content or the new one, never a part.
use vstd::prelude::*;
use vstd::string::*;

use crate::text;

verus! {

/// Where the content of `path` is written first.
pub open spec fn staged(path: Seq<char>) -> Seq<char> {
    path + ".tmp"@
}

/// Where the content of `path` is written first.
pub fn staging_path(path: &str) -> (r: String)
    ensures
        r@ == staged(path@),
{
    text::join2(path, ".tmp")
}

/// A file is never staged in its own place, and two files never in the same.
pub proof fn law_staging_is_apart(a: Seq<char>, b: Seq<char>)
    ensures
        staged(a) != a,
        staged(a) == staged(b) ==> a == b,
{
    reveal_strlit(".tmp");
    assert(staged(a).len() == a.len() + 4);
    if staged(a) == staged(b) {
        assert(staged(a).take(a.len() as int) =~= a);
        assert(staged(b).take(b.len() as int) =~= b);
    }
}

} // verus!
