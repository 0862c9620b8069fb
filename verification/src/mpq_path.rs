//! Archive paths: their directory and their final component, both split at
//! the archive's own separator `\`.

use vstd::prelude::*;
use crate::text::{chars_of, string_of};

verus! {

/// The position of the last `\` in `s`, or -1 when there is none.
pub open spec fn last_backslash(s: Seq<char>) -> int
    decreases s.len(),
{
    if s.len() == 0 {
        -1
    } else if s.last() == '\\' {
        s.len() - 1
    } else {
        last_backslash(s.drop_last())
    }
}

/// The final component of an archive path: what follows its last `\`.
pub open spec fn base_name(s: Seq<char>) -> Seq<char> {
    s.skip(last_backslash(s) + 1)
}

/// The directory under which `tree` groups an archive path: what precedes
/// its last `\`, or `/` for a path without one.
pub open spec fn dir_key(s: Seq<char>) -> Seq<char> {
    if last_backslash(s) < 0 {
        "/"@
    } else {
        s.take(last_backslash(s))
    }
}

/// `s` with every trailing copy of `suffix` removed, repeatedly.
pub open spec fn trim_suffixes(s: Seq<char>, suffix: Seq<char>) -> Seq<char>
    decreases s.len(),
{
    if suffix.len() > 0 && suffix.len() <= s.len() && s.skip(s.len() - suffix.len()) == suffix {
        trim_suffixes(s.take(s.len() - suffix.len()), suffix)
    } else {
        s
    }
}

proof fn lemma_last_backslash_bounds(s: Seq<char>)
    ensures
        -1 <= last_backslash(s) < s.len(),
        last_backslash(s) >= 0 ==> s[last_backslash(s)] == '\\',
        forall|k: int| last_backslash(s) < k < s.len() ==> s[k] != '\\',
    decreases s.len(),
{
    if s.len() > 0 && s.last() != '\\' {
        let d = s.drop_last();
        lemma_last_backslash_bounds(d);
        assert forall|k: int| last_backslash(s) < k < s.len() implies s[k] != '\\' by {
            if k < s.len() - 1 {
                assert(d[k] == s[k]);
            }
        }
    }
}

proof fn lemma_last_backslash_prefix(s: Seq<char>, i: int)
    requires
        0 <= i <= s.len(),
        forall|k: int| i <= k < s.len() ==> s[k] != '\\',
    ensures
        last_backslash(s) == last_backslash(s.take(i)),
    decreases s.len() - i,
{
    if i < s.len() {
        assert(s.take(i + 1).drop_last() =~= s.take(i));
        lemma_last_backslash_prefix(s, i + 1);
    } else {
        assert(s.take(i) =~= s);
    }
}

/// The position just after the last `\` of `s` (0 when there is none).
fn after_last_backslash(s: &Vec<char>) -> (i: usize)
    ensures
        i as int == last_backslash(s@) + 1,
        i <= s@.len(),
{
    let mut i = s.len();
    while i > 0 && s[i - 1] != '\\'
        invariant
            i <= s@.len(),
            forall|k: int| i <= k < s@.len() ==> s@[k] != '\\',
        decreases i,
    {
        i = i - 1;
    }
    proof {
        lemma_last_backslash_prefix(s@, i as int);
        lemma_last_backslash_bounds(s@);
        if i > 0 {
            assert(s@.take(i as int).last() == '\\');
        }
    }
    i
}

/// The final component of an archive path.
pub fn base_name_of(path: &str) -> (r: String)
    ensures
        r@ == base_name(path@),
{
    let s = chars_of(path);
    let i = after_last_backslash(&s);
    let mut tail: Vec<char> = Vec::new();
    let n = s.len();
    for k in i..n
        invariant
            i <= n,
            n == s@.len(),
            tail@ =~= s@.subrange(i as int, k as int),
    {
        tail.push(s[k]);
    }
    string_of(&tail)
}

/// The directory under which `tree` groups an archive path.
pub fn dir_key_of(path: &str) -> (r: Vec<char>)
    ensures
        r@ == dir_key(path@),
{
    let s = chars_of(path);
    let i = after_last_backslash(&s);
    if i == 0 {
        chars_of("/")
    } else {
        let mut head: Vec<char> = Vec::new();
        let end = i - 1;
        for k in 0..end
            invariant
                end < s@.len(),
                head@ =~= s@.take(k as int),
        {
            head.push(s[k]);
        }
        head
    }
}

/// Whether `s` ends, at position `end`, with `suffix`.
fn ends_with_at(s: &Vec<char>, end: usize, suffix: &Vec<char>) -> (r: bool)
    requires
        end <= s@.len(),
    ensures
        r == (suffix@.len() <= end && s@.take(end as int).skip(end - suffix@.len()) == suffix@),
{
    let k = suffix.len();
    if k > end {
        return false;
    }
    let start = end - k;
    let mut j: usize = 0;
    while j < k
        invariant
            k == suffix@.len(),
            start + k == end,
            end <= s@.len(),
            j <= k,
            forall|t: int| 0 <= t < j ==> s@[start + t] == suffix@[t],
        decreases k - j,
    {
        if s[start + j] != suffix[j] {
            assert(s@.take(end as int).skip(start as int)[j as int] != suffix@[j as int]);
            return false;
        }
        j = j + 1;
    }
    assert(s@.take(end as int).skip(start as int) =~= suffix@);
    true
}

/// `s` with every trailing copy of `suffix` removed, repeatedly.
pub fn trim_suffixes_of(s: &Vec<char>, suffix: &Vec<char>) -> (r: Vec<char>)
    ensures
        r@ == trim_suffixes(s@, suffix@),
{
    let k = suffix.len();
    let mut end = s.len();
    assert(s@.take(end as int) =~= s@);
    if k > 0 {
        while ends_with_at(s, end, suffix)
            invariant
                k == suffix@.len(),
                k > 0,
                end <= s@.len(),
                trim_suffixes(s@, suffix@) == trim_suffixes(s@.take(end as int), suffix@),
            decreases end,
        {
            proof {
                assert(s@.take(end as int).take(end - k) =~= s@.take(end - k));
            }
            end = end - k;
        }
    }
    let mut r: Vec<char> = Vec::new();
    for t in 0..end
        invariant
            end <= s@.len(),
            r@ =~= s@.take(t as int),
    {
        r.push(s[t]);
    }
    proof {
        if k == 0 {
            assert(s@.take(end as int) =~= s@);
        }
    }
    r
}

} // verus!

verus! {

/// An archive path splits at its last `\`: its final component holds no
/// `\` and ends the path; a path with a `\` is its directory, a `\` and its
/// final component, and a path without one is grouped under `/` and is its
/// own final component.
pub proof fn lemma_path_split(s: Seq<char>)
    ensures
        !base_name(s).contains('\\'),
        base_name(s).len() <= s.len(),
        base_name(s) == s.skip(s.len() - base_name(s).len()),
        s.contains('\\') ==> s == dir_key(s) + seq!['\\'] + base_name(s),
        !s.contains('\\') ==> dir_key(s) == seq!['/'] && base_name(s) == s,
{
    lemma_last_backslash_bounds(s);
    let k = last_backslash(s);
    assert(!base_name(s).contains('\\')) by {
        if base_name(s).contains('\\') {
            let j = choose|j: int| 0 <= j < base_name(s).len() && base_name(s)[j] == '\\';
            assert(s[k + 1 + j] == '\\');
        }
    }
    assert(base_name(s) =~= s.skip(s.len() - base_name(s).len()));
    reveal_strlit("/");
    if s.contains('\\') {
        let j = choose|j: int| 0 <= j < s.len() && s[j] == '\\';
        assert(k >= 0);
        assert(s =~= dir_key(s) + seq!['\\'] + base_name(s));
    } else {
        if k >= 0 {
            assert(s[k] == '\\');
        }
        assert(base_name(s) =~= s);
        assert("/"@ =~= seq!['/']);
    }
}

} // verus!
