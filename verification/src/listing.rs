//! Which archive entries the `list`, `extract`, `create` and `validate`
//! commands touch, and in what order.

use vstd::prelude::*;
use vstd::relations::sorted_by;
use crate::order::{chars_views, listing_order, sort_chars};
use crate::pattern::{lemma_star_matches_everything, matches_pattern, wildcard_match};
use crate::text::{
    after_last, begins_with_two_separators, chars_of, is_plain_file_path, occurs_in, path_file_name,
    plain_file_path, starts_with_two_separators, str_eq, string_of, to_slashes,
};
use crate::mpq_path::{base_name, base_name_of};

verus! {

/// The character sequences that a vector of strings holds.
pub open spec fn string_views(s: Seq<String>) -> Seq<Seq<char>> {
    s.map_values(|x: String| x@)
}

/// The pattern that an optional `--filter` stands for: everything (`*`)
/// when it is absent.
pub open spec fn pattern_of(filter: Option<String>) -> Seq<char> {
    match filter {
        Some(f) => f@,
        None => "*"@,
    }
}

/// The names that match `pattern`, in their original order.
pub open spec fn selected(names: Seq<Seq<char>>, pattern: Seq<char>) -> Seq<Seq<char>> {
    names.filter(|n: Seq<char>| wildcard_match(pattern, n))
}

/// Without a filter every name is selected, in its original order.
pub proof fn lemma_no_filter_selects_all(names: Seq<Seq<char>>)
    ensures
        selected(names, pattern_of(None)) == names,
    decreases names.len(),
{
    reveal_strlit("*");
    assert("*"@ =~= seq!['*']);
    let pred = |n: Seq<char>| wildcard_match(pattern_of(None), n);
    if names.len() > 0 {
        let init = names.drop_last();
        lemma_no_filter_selects_all(init);
        lemma_star_matches_everything(names.last());
        init.lemma_filter_push(names.last(), pred);
        assert(init.push(names.last()) =~= names);
    } else {
        assert(names.filter(pred) =~= names);
    }
}

/// The names that match the optional filter, in their original order.
pub fn filter_names(files: &Vec<String>, filter: &Option<String>) -> (r: Vec<String>)
    ensures
        string_views(r@) == selected(string_views(files@), pattern_of(*filter)),
{
    let pattern: &str = match filter {
        Some(f) => f.as_str(),
        None => "*",
    };
    let ghost pat = pattern_of(*filter);
    let ghost pred = |n: Seq<char>| wildcard_match(pat, n);
    let mut r: Vec<String> = Vec::new();
    let n = files.len();
    for i in 0..n
        invariant
            n == files@.len(),
            pattern@ == pat,
            pred == (|n: Seq<char>| wildcard_match(pat, n)),
            string_views(r@) == string_views(files@.take(i as int)).filter(pred),
    {
        let ok = matches_pattern(files[i].as_str(), pattern);
        proof {
            let prefix = string_views(files@.take(i as int));
            assert(string_views(files@.take(i + 1)) =~= prefix.push(files@[i as int]@));
            prefix.lemma_filter_push(files@[i as int]@, pred);
        }
        if ok {
            let f = files[i].clone();
            r.push(f);
            proof {
                assert(string_views(r@) =~= string_views(r@.drop_last()).push(
                    files@[i as int]@,
                ));
            }
        }
    }
    proof {
        assert(files@.take(n as int) =~= files@);
    }
    r
}

/// The strings made of each character vector, in order.
fn strings_of(v: &Vec<Vec<char>>) -> (r: Vec<String>)
    ensures
        string_views(r@) == chars_views(v@),
{
    let mut r: Vec<String> = Vec::new();
    let n = v.len();
    for i in 0..n
        invariant
            n == v@.len(),
            string_views(r@) =~= chars_views(v@.take(i as int)),
    {
        let s = string_of(&v[i]);
        r.push(s);
        proof {
            assert(chars_views(v@.take(i + 1)) =~= chars_views(v@.take(i as int)).push(
                v@[i as int]@,
            ));
        }
    }
    proof {
        assert(v@.take(n as int) =~= v@);
    }
    r
}

/// The character vectors of each string, in order.
fn chars_of_all(v: &Vec<String>) -> (r: Vec<Vec<char>>)
    ensures
        chars_views(r@) == string_views(v@),
{
    let mut r: Vec<Vec<char>> = Vec::new();
    let n = v.len();
    for i in 0..n
        invariant
            n == v@.len(),
            chars_views(r@) =~= string_views(v@.take(i as int)),
    {
        let c = chars_of(v[i].as_str());
        r.push(c);
        proof {
            assert(string_views(v@.take(i + 1)) =~= string_views(v@.take(i as int)).push(
                v@[i as int]@,
            ));
        }
    }
    proof {
        assert(v@.take(n as int) =~= v@);
    }
    r
}

/// The names that `list` shows: those matching the optional filter,
/// sorted into the listing order (duplicates kept).
pub fn list_selection(files: &Vec<String>, filter: &Option<String>) -> (r: Vec<String>)
    ensures
        string_views(r@).to_multiset() == selected(
            string_views(files@),
            pattern_of(*filter),
        ).to_multiset(),
        sorted_by(string_views(r@), listing_order()),
{
    let chosen = filter_names(files, filter);
    let chars = chars_of_all(&chosen);
    let sorted = sort_chars(chars);
    strings_of(&sorted)
}


/// What an archive's file table says of one entry.
pub struct EntryInfo {
    pub name: String,
    pub size: u64,
    pub compressed_size: u64,
}

/// The position of the first entry at or after `start` named `name`.
pub open spec fn find_entry_from(entries: Seq<EntryInfo>, name: Seq<char>, start: int) -> Option<
    int,
>
    decreases entries.len() - start,
{
    if start < 0 || start >= entries.len() {
        None
    } else if entries[start].name@ == name {
        Some(start)
    } else {
        find_entry_from(entries, name, start + 1)
    }
}

/// The position of the first entry named `name`.
pub open spec fn find_entry(entries: Seq<EntryInfo>, name: Seq<char>) -> Option<int> {
    find_entry_from(entries, name, 0)
}

proof fn lemma_find_entry_from(entries: Seq<EntryInfo>, name: Seq<char>, start: int)
    ensures
        find_entry_from(entries, name, start) matches Some(i) ==> start <= i < entries.len()
            && entries[i].name@ == name,
    decreases entries.len() - start,
{
    if 0 <= start < entries.len() && entries[start].name@ != name {
        lemma_find_entry_from(entries, name, start + 1);
    }
}

/// Finds the first entry named `name`.
pub fn find_entry_index(entries: &Vec<EntryInfo>, name: &str) -> (r: Option<usize>)
    ensures
        match r {
            Some(i) => find_entry(entries@, name@) == Some(i as int),
            None => find_entry(entries@, name@) is None,
        },
        r matches Some(i) ==> i < entries@.len() && entries@[i as int].name@ == name@,
{
    proof {
        lemma_find_entry_from(entries@, name@, 0);
    }
    let n = entries.len();
    let mut i: usize = 0;
    while i < n
        invariant
            n == entries@.len(),
            i <= n,
            find_entry(entries@, name@) == find_entry_from(entries@, name@, i as int),
        decreases n - i,
    {
        if str_eq(entries[i].name.as_str(), name) {
            return Some(i);
        }
        i = i + 1;
    }
    None
}

/// The rows of a long listing: for each listed name that the file table
/// knows, the position of its first entry; names it does not know give no
/// row.
pub open spec fn long_rows(names: Seq<Seq<char>>, entries: Seq<EntryInfo>) -> Seq<int>
    decreases names.len(),
{
    if names.len() == 0 {
        seq![]
    } else {
        let rest = long_rows(names.drop_last(), entries);
        match find_entry(entries, names.last()) {
            Some(i) => rest.push(i),
            None => rest,
        }
    }
}

/// The entries that a long listing shows for the listed names, as positions
/// in the file table.
pub fn long_listing(names: &Vec<String>, entries: &Vec<EntryInfo>) -> (r: Vec<usize>)
    ensures
        r@.map_values(|i: usize| i as int) == long_rows(string_views(names@), entries@),
{
    let mut r: Vec<usize> = Vec::new();
    let n = names.len();
    for k in 0..n
        invariant
            n == names@.len(),
            r@.map_values(|i: usize| i as int) == long_rows(
                string_views(names@.take(k as int)),
                entries@,
            ),
    {
        let found = find_entry_index(entries, names[k].as_str());
        proof {
            let next = string_views(names@.take(k + 1));
            assert(next.drop_last() =~= string_views(names@.take(k as int)));
            assert(next.last() == names@[k as int]@);
        }
        match found {
            Some(i) => {
                r.push(i);
                proof {
                    assert(r@.map_values(|i: usize| i as int) =~= r@.drop_last().map_values(
                        |i: usize| i as int,
                    ).push(i as int));
                }
            },
            None => {},
        }
    }
    proof {
        assert(names@.take(n as int) =~= names@);
    }
    r
}

/// The names that `extract` extracts: the requested ones, or every name in
/// the archive when none is requested.
pub fn extraction_targets(requested: Vec<String>, all_names: Vec<String>) -> (r: Vec<String>)
    ensures
        r == if requested@.len() == 0 {
            all_names
        } else {
            requested
        },
{
    if requested.len() == 0 {
        all_names
    } else {
        requested
    }
}

/// `r` is where `extract` writes an entry whose path in the system's form
/// is `sys`, relative to the output directory: `sys` itself when paths are
/// preserved, else the final component of `sys` (empty when it has none),
/// which for a path that reads the same on every platform is the part after
/// its last `/`.
pub open spec fn extracted_from(sys: Seq<char>, preserve_paths: bool, r: Seq<char>) -> bool {
    if preserve_paths {
        r == sys
    } else {
        &&& plain_file_path(sys) ==> r == after_last(sys, '/')
        &&& r.len() == 0 || occurs_in(r, sys)
    }
}

/// Where `extract` writes an entry, given its path in the system's form.
pub fn extraction_path_from(system_path: &str, preserve_paths: bool) -> (r: String)
    ensures
        extracted_from(system_path@, preserve_paths, r@),
{
    if preserve_paths {
        system_path.to_owned()
    } else {
        match path_file_name(system_path) {
            Some(name) => name,
            None => String::new(),
        }
    }
}

/// An archive path whose final part reads the same on every platform: it
/// does not begin with two separators, and its part after the last `\` is
/// a `plain_file_path`.
pub open spec fn plain_archive_path(file: Seq<char>) -> bool {
    !starts_with_two_separators(file) && plain_file_path(base_name(file))
}

/// Where `extract` writes an entry, relative to the output directory: the
/// entry's archive path in the system's form (with every `\` turned into
/// `/`, or, where the system reads `\` as a separator, unchanged) when paths
/// are preserved, else only the final component of that form.
///
/// For a `plain_archive_path` that final component is, on every platform,
/// the final component of the part after the last `\`, and it is taken
/// from there; other paths take it from the system form itself.
pub fn extraction_path(file: &str, preserve_paths: bool) -> (r: String)
    ensures
        preserve_paths ==> r@ == file@ || r@ == to_slashes(file@),
        !preserve_paths && plain_archive_path(file@) ==> r@ == after_last(base_name(file@), '/'),
        !preserve_paths && !plain_archive_path(file@) ==> extracted_from(file@, false, r@)
            || extracted_from(to_slashes(file@), false, r@),
{
    let system_path = wow_mpq::path::mpq_path_to_system(file);
    if preserve_paths {
        return system_path;
    }
    let tail = base_name_of(file);
    if !begins_with_two_separators(file) && is_plain_file_path(tail.as_str()) {
        match path_file_name(tail.as_str()) {
            Some(name) => name,
            None => String::new(),
        }
    } else {
        extraction_path_from(system_path.as_str(), false)
    }
}

/// The name under which `create` stores a file: the final component of its
/// path, or the whole path when it has none.
pub fn archive_entry_name(file_path: &str) -> (r: String)
    ensures
        r@ == file_path@ || (r@.len() > 0 && occurs_in(r@, file_path@)),
        plain_file_path(file_path@) ==> r@ == after_last(file_path@, '/'),
{
    match path_file_name(file_path) {
        Some(name) => name,
        None => file_path.to_owned(),
    }
}

/// The outcome of `validate`.
#[derive(Clone, Copy, Debug, PartialEq, Eq, Structural)]
pub enum ValidationOutcome {
    /// Every entry passed.
    Passed,
    /// This many entries failed.
    Failed(usize),
}

/// What `validate` found for one entry.
#[derive(Clone, Copy, Debug, PartialEq, Eq, Structural)]
pub enum EntryCheck {
    /// The entry could not be read.
    Unreadable,
    /// The entry was read; `checksums_match` tells whether its data agrees
    /// with the checksums recorded for it (true when they were not checked).
    Read { checksums_match: bool },
}

/// Whether an entry counts as an error: it could not be read, or checksums
/// are checked and its data disagrees with them.
pub open spec fn entry_failed(e: EntryCheck, check_checksums: bool) -> bool {
    match e {
        EntryCheck::Unreadable => true,
        EntryCheck::Read { checksums_match } => check_checksums && !checksums_match,
    }
}

/// The number of entries that count as errors.
pub open spec fn failures(checks: Seq<EntryCheck>, check_checksums: bool) -> nat {
    checks.filter(|e: EntryCheck| entry_failed(e, check_checksums)).len()
}

/// Validation passes exactly when every entry could be read and, where
/// checksums are checked, agrees with them.
pub proof fn lemma_no_failures_iff_all_pass(checks: Seq<EntryCheck>, check_checksums: bool)
    ensures
        failures(checks, check_checksums) == 0 <==> forall|i: int|
            0 <= i < checks.len() ==> !entry_failed(#[trigger] checks[i], check_checksums),
    decreases checks.len(),
{
    let pred = |e: EntryCheck| entry_failed(e, check_checksums);
    if checks.len() > 0 {
        let init = checks.drop_last();
        lemma_no_failures_iff_all_pass(init, check_checksums);
        init.lemma_filter_push(checks.last(), pred);
        assert(init.push(checks.last()) =~= checks);
        if failures(checks, check_checksums) == 0 {
            assert forall|i: int| 0 <= i < checks.len() implies !entry_failed(
                #[trigger] checks[i],
                check_checksums,
            ) by {
                if i < init.len() {
                    assert(init[i] == checks[i]);
                }
            }
        } else if forall|i: int|
            0 <= i < checks.len() ==> !entry_failed(#[trigger] checks[i], check_checksums) {
            assert(!entry_failed(checks[checks.len() - 1], check_checksums));
            assert forall|i: int| 0 <= i < init.len() implies !entry_failed(
                #[trigger] init[i],
                check_checksums,
            ) by {
                assert(!entry_failed(checks[i], check_checksums));
            }
        }
    } else {
        assert(checks.filter(pred) =~= Seq::<EntryCheck>::empty());
    }
}

/// Without `--check-checksums`, only unreadable entries count: the outcome
/// is that of the reads alone.
pub proof fn lemma_unchecked_counts_only_reads(checks: Seq<EntryCheck>)
    ensures
        failures(checks, false) == checks.filter(|e: EntryCheck| e is Unreadable).len(),
{
    let a = |e: EntryCheck| entry_failed(e, false);
    let b = |e: EntryCheck| e is Unreadable;
    assert(a =~= b);
}

/// The outcome of `validate`, given what it found for each entry.
pub fn validation_outcome(checks: &Vec<EntryCheck>, check_checksums: bool) -> (r: ValidationOutcome)
    ensures
        r == if failures(checks@, check_checksums) == 0 {
            ValidationOutcome::Passed
        } else {
            ValidationOutcome::Failed(failures(checks@, check_checksums) as usize)
        },
{
    let ghost pred = |e: EntryCheck| entry_failed(e, check_checksums);
    let mut errors: usize = 0;
    let n = checks.len();
    for i in 0..n
        invariant
            n == checks@.len(),
            pred == (|e: EntryCheck| entry_failed(e, check_checksums)),
            errors == checks@.take(i as int).filter(pred).len(),
            errors <= i,
    {
        proof {
            assert(checks@.take(i + 1) =~= checks@.take(i as int).push(checks@[i as int]));
            checks@.take(i as int).lemma_filter_push(checks@[i as int], pred);
        }
        let failed = match checks[i] {
            EntryCheck::Unreadable => true,
            EntryCheck::Read { checksums_match } => check_checksums && !checksums_match,
        };
        if failed {
            errors = errors + 1;
        }
    }
    proof {
        assert(checks@.take(n as int) =~= checks@);
    }
    if errors == 0 {
        ValidationOutcome::Passed
    } else {
        ValidationOutcome::Failed(errors)
    }
}

} // verus!

verus! {

/// Looking an entry up by name finds the first entry of that name, and
/// finds none exactly when no entry has it.
pub proof fn lemma_find_entry_first(entries: Seq<EntryInfo>, name: Seq<char>)
    ensures
        find_entry(entries, name) matches Some(i) ==> 0 <= i < entries.len() && entries[i].name@
            == name && forall|j: int| 0 <= j < i ==> entries[j].name@ != name,
        find_entry(entries, name) is None <==> forall|j: int|
            0 <= j < entries.len() ==> entries[j].name@ != name,
{
    lemma_find_entry_from_first(entries, name, 0);
}

proof fn lemma_find_entry_from_first(entries: Seq<EntryInfo>, name: Seq<char>, start: int)
    requires
        0 <= start,
    ensures
        find_entry_from(entries, name, start) matches Some(i) ==> start <= i < entries.len()
            && entries[i].name@ == name && forall|j: int| start <= j < i ==> entries[j].name@
            != name,
        find_entry_from(entries, name, start) is None <==> forall|j: int|
            start <= j < entries.len() ==> entries[j].name@ != name,
    decreases entries.len() - start,
{
    if start < entries.len() && entries[start].name@ != name {
        lemma_find_entry_from_first(entries, name, start + 1);
        assert forall|j: int| start <= j < entries.len() && find_entry_from(entries, name, start + 1) is None implies entries[j].name@ != name by {
            if j > start {
            }
        }
    }
}

} // verus!
