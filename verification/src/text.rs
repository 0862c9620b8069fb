//! Conversions between `str`/`String` and character vectors, and the few
//! std string and path operations the library relies on.

use vstd::prelude::*;

verus! {

/// The characters of `s`, in order.
pub fn chars_of(s: &str) -> (v: Vec<char>)
    ensures
        v@ == s@,
{
    let mut v: Vec<char> = Vec::new();
    for c in it: s.chars()
        invariant
            v@ == it.seq().take(it.index() as int),
    {
        v.push(c);
    }
    v
}

/// `String::push`: appends one character at the end of the string.
#[verifier::external_body]
pub(crate) fn push_char(s: &mut String, c: char)
    ensures
        final(s)@ == old(s)@.push(c),
{
    s.push(c);
}

/// The string made of the characters of `v`, in order.
pub fn string_of(v: &Vec<char>) -> (s: String)
    ensures
        s@ == v@,
{
    let mut s = String::new();
    let n = v.len();
    for i in 0..n
        invariant
            n == v@.len(),
            s@ == v@.take(i as int),
    {
        push_char(&mut s, v[i]);
        assert(v@.take(i + 1) == v@.take(i as int).push(v@[i as int]));
    }
    assert(v@.take(n as int) == v@);
    s
}

/// Whether two strings hold the same characters.
pub fn str_eq(a: &str, b: &str) -> (r: bool)
    ensures
        r == (a@ == b@),
{
    let x = a.to_owned();
    let y = b.to_owned();
    x == y
}


/// `needle` occurs as a contiguous run inside `hay`.
pub open spec fn occurs_in(needle: Seq<char>, hay: Seq<char>) -> bool {
    exists|i: int| 0 <= i && i + needle.len() <= hay.len() && #[trigger] hay.subrange(i, i + needle.len()) == needle
}

/// The position of the last `c` in `s`, or -1 when there is none.
pub open spec fn last_index_of(s: Seq<char>, c: char) -> int
    decreases s.len(),
{
    if s.len() == 0 {
        -1
    } else if s.last() == c {
        s.len() - 1
    } else {
        last_index_of(s.drop_last(), c)
    }
}

/// What follows the last `c` in `s` (all of `s` when there is none).
pub open spec fn after_last(s: Seq<char>, c: char) -> Seq<char> {
    s.skip(last_index_of(s, c) + 1)
}

/// Whether `c` separates path components on some platform.
pub open spec fn is_any_separator(c: char) -> bool {
    c == '/' || c == '\\'
}

/// Whether `s` begins with two separators, the start of a network or device
/// prefix on Windows.
pub open spec fn starts_with_two_separators(s: Seq<char>) -> bool {
    s.len() >= 2 && is_any_separator(s[0]) && is_any_separator(s[1])
}

/// A path made of one plain name on every platform: not empty, not `.` or
/// `..`, and without `/`, `\` or `:`.
pub open spec fn single_component(path: Seq<char>) -> bool {
    &&& path.len() > 0
    &&& !path.contains('/')
    &&& !path.contains('\\')
    &&& !path.contains(':')
    &&& path != "."@
    &&& path != ".."@
}

/// A path whose components are separated by `/` alone and read the same on
/// every platform: no `\`, no `:` (so no Windows prefix), no two leading
/// separators, and a final part after the last `/` that is a plain name.
pub open spec fn plain_file_path(path: Seq<char>) -> bool {
    &&& !path.contains('\\')
    &&& !path.contains(':')
    &&& !starts_with_two_separators(path)
    &&& single_component(after_last(path, '/'))
}

/// `s` with every `\` turned into `/`.
pub open spec fn to_slashes(s: Seq<char>) -> Seq<char> {
    s.map_values(|c: char| if c == '\\' { '/' } else { c })
}

proof fn lemma_last_index_absent(s: Seq<char>, c: char)
    requires
        !s.contains(c),
    ensures
        last_index_of(s, c) == -1,
    decreases s.len(),
{
    if s.len() > 0 {
        assert(s.last() == s[s.len() - 1]);
        assert(!s.drop_last().contains(c)) by {
            if s.drop_last().contains(c) {
                let i = choose|i: int| 0 <= i < s.drop_last().len() && s.drop_last()[i] == c;
                assert(s[i] == c);
            }
        }
        lemma_last_index_absent(s.drop_last(), c);
    }
}

/// A path that is one plain name reads the same on every platform and is
/// its own part after the last `/`.
pub proof fn lemma_single_component_is_plain(p: Seq<char>)
    requires
        single_component(p),
    ensures
        plain_file_path(p),
        after_last(p, '/') == p,
{
    lemma_last_index_absent(p, '/');
    assert(p.skip(0) =~= p);
    if starts_with_two_separators(p) {
        assert(p.contains(p[0]));
    }
}

proof fn lemma_last_index_bounds(s: Seq<char>, c: char)
    ensures
        -1 <= last_index_of(s, c) < s.len(),
        last_index_of(s, c) >= 0 ==> s[last_index_of(s, c)] == c,
        forall|k: int| last_index_of(s, c) < k < s.len() ==> s[k] != c,
    decreases s.len(),
{
    if s.len() > 0 && s.last() != c {
        let d = s.drop_last();
        lemma_last_index_bounds(d, c);
        assert forall|k: int| last_index_of(s, c) < k < s.len() implies s[k] != c by {
            if k < s.len() - 1 {
                assert(d[k] == s[k]);
            }
        }
    }
}

proof fn lemma_last_index_prefix(s: Seq<char>, c: char, i: int)
    requires
        0 <= i <= s.len(),
        forall|k: int| i <= k < s.len() ==> s[k] != c,
    ensures
        last_index_of(s, c) == last_index_of(s.take(i), c),
    decreases s.len() - i,
{
    if i < s.len() {
        assert(s.take(i + 1).drop_last() =~= s.take(i));
        lemma_last_index_prefix(s, c, i + 1);
    } else {
        assert(s.take(i) =~= s);
    }
}

/// The position just after the last `c` in `s` (0 when there is none).
fn after_last_pos(s: &Vec<char>, c: char) -> (i: usize)
    ensures
        i as int == last_index_of(s@, c) + 1,
        i <= s@.len(),
{
    let mut i = s.len();
    while i > 0 && s[i - 1] != c
        invariant
            i <= s@.len(),
            forall|k: int| i <= k < s@.len() ==> s@[k] != c,
        decreases i,
    {
        i = i - 1;
    }
    proof {
        lemma_last_index_prefix(s@, c, i as int);
        if i > 0 {
            assert(s@.take(i as int).last() == c);
        }
    }
    i
}

/// Whether `c` occurs in `s`.
fn has_char(s: &Vec<char>, c: char) -> (r: bool)
    ensures
        r == s@.contains(c),
{
    let n = s.len();
    for i in 0..n
        invariant
            n == s@.len(),
            forall|k: int| 0 <= k < i ==> s@[k] != c,
    {
        if s[i] == c {
            assert(s@[i as int] == c);
            return true;
        }
    }
    false
}

/// Whether `s` begins with two separators.
pub fn begins_with_two_separators(s: &str) -> (r: bool)
    ensures
        r == starts_with_two_separators(s@),
{
    let c = chars_of(s);
    c.len() >= 2 && (c[0] == '/' || c[0] == '\\') && (c[1] == '/' || c[1] == '\\')
}

/// Whether a path reads the same on every platform (`plain_file_path`).
pub fn is_plain_file_path(path: &str) -> (r: bool)
    ensures
        r == plain_file_path(path@),
{
    let s = chars_of(path);
    let ghost p = s@;
    if has_char(&s, '\\') || has_char(&s, ':') || begins_with_two_separators(path) {
        return false;
    }
    let i = after_last_pos(&s, '/');
    let n = s.len();
    let ghost tail = after_last(p, '/');
    proof {
        lemma_last_index_bounds(p, '/');
        reveal_strlit(".");
        reveal_strlit("..");
        assert(tail =~= p.subrange(i as int, n as int));
        assert(!tail.contains('/')) by {
            if tail.contains('/') {
                let j = choose|j: int| 0 <= j < tail.len() && tail[j] == '/';
                assert(p[i + j] == '/');
            }
        }
        assert(!tail.contains('\\')) by {
            if tail.contains('\\') {
                let j = choose|j: int| 0 <= j < tail.len() && tail[j] == '\\';
                assert(p[i + j] == '\\');
            }
        }
        assert(!tail.contains(':')) by {
            if tail.contains(':') {
                let j = choose|j: int| 0 <= j < tail.len() && tail[j] == ':';
                assert(p[i + j] == ':');
            }
        }
    }
    if i == n {
        return false;
    }
    let k = n - i;
    if k == 1 && s[i] == '.' {
        proof {
            assert(tail =~= "."@);
        }
        false
    } else if k == 2 && s[i] == '.' && s[i + 1] == '.' {
        proof {
            assert(tail =~= ".."@);
        }
        false
    } else {
        proof {
            if tail == "."@ {
                assert(tail.len() == 1 && tail[0] == '.');
            }
            if tail == ".."@ {
                assert(tail.len() == 2 && tail[0] == '.' && tail[1] == '.');
            }
        }
        true
    }
}

/// An optional string, read as an optional character sequence.
pub open spec fn opt_view(o: Option<String>) -> Option<Seq<char>> {
    match o {
        Some(s) => Some(s@),
        None => None,
    }
}

/// `std::path::Path::file_name`, read back as a string: the final
/// component of the path, `None` when there is none (an empty path, a root,
/// or a path ending in `..`).
///
/// Which characters separate components depends on the platform (`\`
/// separates on Windows only), so only this is stated: a final component is
/// a non-empty run of the path's own characters, and for a path that reads
/// the same everywhere (`plain_file_path`) it is the part after the last
/// `/` (as the documentation's `tmp/foo.txt` example shows).
#[verifier::external_body]
pub(crate) fn path_file_name(path: &str) -> (r: Option<String>)
    ensures
        r matches Some(n) ==> n@.len() > 0 && occurs_in(n@, path@),
        plain_file_path(path@) ==> opt_view(r) == Some(after_last(path@, '/')),
{
    match std::path::Path::new(path).file_name() {
        Some(n) => match n.to_str() {
            Some(t) => Some(t.to_string()),
            None => None,
        },
        None => None,
    }
}

/// What `str::to_lowercase` gives for a string: its characters' Unicode
/// lowercase mappings, in order.
pub uninterp spec fn lowercase(s: Seq<char>) -> Seq<char>;

/// Whether every character of `s` is ASCII.
pub open spec fn all_ascii(s: Seq<char>) -> bool {
    forall|i: int| 0 <= i < s.len() ==> (#[trigger] s[i] as u32) < 128
}

/// `s` with the ASCII capitals `A` to `Z` turned into `a` to `z`.
pub open spec fn ascii_lowercase(s: Seq<char>) -> Seq<char> {
    s.map_values(
        |c: char|
            if 65 <= (c as u32) && (c as u32) <= 90 {
                ((c as u32) + 32) as char
            } else {
                c
            },
    )
}

/// `str::to_lowercase`: the Unicode lowercase of the string, which on
/// ASCII text turns `A` to `Z` into `a` to `z` and keeps every other
/// character.
#[verifier::external_body]
pub(crate) fn to_lowercase(s: &str) -> (r: String)
    ensures
        r@ == lowercase(s@),
        all_ascii(s@) ==> r@ == ascii_lowercase(s@),
{
    s.to_lowercase()
}

/// Whether `needle` occurs in `hay` starting at position `i`.
fn occurs_at(hay: &Vec<char>, needle: &Vec<char>, i: usize) -> (r: bool)
    requires
        i + needle@.len() <= hay@.len(),
    ensures
        r == (hay@.subrange(i as int, i + needle@.len()) == needle@),
{
    let n = needle.len();
    let hl = hay.len();
    let mut k: usize = 0;
    while k < n
        invariant
            n == needle@.len(),
            hl == hay@.len(),
            i + n <= hay@.len(),
            k <= n,
            forall|t: int| 0 <= t < k ==> hay@[i + t] == needle@[t],
        decreases n - k,
    {
        if hay[i + k] != needle[k] {
            assert(hay@.subrange(i as int, i + n)[k as int] != needle@[k as int]);
            return false;
        }
        k = k + 1;
    }
    assert(hay@.subrange(i as int, i + n) =~= needle@);
    true
}

/// Whether `needle` occurs as a contiguous run inside `hay` (what
/// `str::contains` does with a string pattern).
pub fn str_contains(hay: &str, needle: &str) -> (r: bool)
    ensures
        r == occurs_in(needle@, hay@),
{
    let h = chars_of(hay);
    let n = chars_of(needle);
    if n.len() > h.len() {
        return false;
    }
    let last = h.len() - n.len();
    let mut i: usize = 0;
    loop
        invariant
            h@ == hay@,
            n@ == needle@,
            last + n@.len() == h@.len(),
            i <= last,
            forall|j: int| 0 <= j < i ==> #[trigger] h@.subrange(j, j + n@.len()) != n@,
        decreases last - i,
    {
        if occurs_at(&h, &n, i) {
            return true;
        }
        if i == last {
            return false;
        }
        i = i + 1;
    }
}

/// The extension of a plain file name, by the documented rule of
/// `Path::extension`: none without a `.` or with only a leading `.`,
/// otherwise the part after the last `.`.
pub open spec fn spec_extension(name: Seq<char>) -> Option<Seq<char>> {
    if last_index_of(name, '.') <= 0 {
        None
    } else {
        Some(after_last(name, '.'))
    }
}

/// `std::path::Path::extension`, read back as a string: the part of the
/// path's final component after its last `.`, `None` when that component
/// has no `.` other than a leading one, or when there is no final component.
///
/// Which characters separate components depends on the platform, so in
/// general only this is stated: an extension holds no `.` and occurs in the
/// path right after a `.`, and a path without any `.` has no extension. For
/// a path that reads the same on every platform (`plain_file_path`), the
/// final component is the part after the last `/`, and the documented rule
/// gives the extension exactly.
#[verifier::external_body]
pub(crate) fn path_extension(path: &str) -> (r: Option<String>)
    ensures
        r matches Some(e) ==> !e@.contains('.') && occurs_in(seq!['.'] + e@, path@),
        !path@.contains('.') ==> r is None,
        plain_file_path(path@) ==> opt_view(r) == spec_extension(after_last(path@, '/')),
{
    match std::path::Path::new(path).extension() {
        Some(e) => match e.to_str() {
            Some(t) => Some(t.to_string()),
            None => None,
        },
        None => None,
    }
}

} // verus!
