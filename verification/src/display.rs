//! Shortening of paths for the columns of the reports.

use vstd::prelude::*;
use crate::text::{chars_of, string_of};

verus! {

/// A path shortened to at most `max` characters by keeping its end behind
/// `...`; a path that fits, or a limit under 4, leaves the path whole.
pub open spec fn spec_truncate_path(path: Seq<char>, max: nat) -> Seq<char> {
    if path.len() <= max || max < 4 {
        path
    } else {
        seq!['.', '.', '.'] + path.skip(path.len() - (max - 3))
    }
}

/// Shortens `path` to at most `max` characters, keeping its end.
pub fn truncate_path(path: &str, max: usize) -> (r: String)
    ensures
        r@ == spec_truncate_path(path@, max as nat),
{
    let chars = chars_of(path);
    let n = chars.len();
    if n <= max || max < 4 {
        return path.to_owned();
    }
    let keep = max - 3;
    let start = n - keep;
    let mut out: Vec<char> = Vec::new();
    out.push('.');
    out.push('.');
    out.push('.');
    for i in start..n
        invariant
            n == chars@.len(),
            start <= n,
            out@ =~= seq!['.', '.', '.'] + chars@.subrange(start as int, i as int),
    {
        out.push(chars[i]);
    }
    proof {
        assert(chars@.subrange(start as int, n as int) =~= chars@.skip(start as int));
    }
    string_of(&out)
}

/// A shortened path fits its limit whenever the limit is at least 4, and
/// shortening never lengthens a path.
pub proof fn lemma_truncated_path_fits(path: Seq<char>, max: nat)
    ensures
        max >= 4 ==> spec_truncate_path(path, max).len() <= max,
        spec_truncate_path(path, max).len() <= path.len(),
{
}

} // verus!

verus! {

/// A path that does not fit a limit of at least 4 is shortened to `...`
/// followed by its last `max - 3` characters; one that fits, or any path
/// under a limit below 4, is kept whole.
pub proof fn lemma_truncated_path_shape(path: Seq<char>, max: nat)
    ensures
        (path.len() <= max || max < 4) ==> spec_truncate_path(path, max) == path,
        (path.len() > max && max >= 4) ==> ({
            let t = spec_truncate_path(path, max);
            &&& t.len() == max
            &&& t[0] == '.' && t[1] == '.' && t[2] == '.'
            &&& forall|k: int| 0 <= k < max - 3 ==> #[trigger] t[3 + k] == path[path.len() - (max - 3)
                + k]
        }),
{
}

} // verus!
