//! Wildcard patterns for selecting archive entries: `*` stands for any run
//! of characters (the empty run too), `?` for exactly one character, and
//! every other character for itself.

use vstd::prelude::*;
use crate::text::chars_of;

verus! {

/// Whether the whole of `s` matches the whole of the pattern `p`.
pub open spec fn wildcard_match(p: Seq<char>, s: Seq<char>) -> bool
    decreases p.len(), s.len(),
{
    if p.len() == 0 {
        s.len() == 0
    } else if p[0] == '*' {
        wildcard_match(p.drop_first(), s) || (s.len() > 0 && wildcard_match(p, s.drop_first()))
    } else {
        s.len() > 0 && (p[0] == '?' || p[0] == s[0]) && wildcard_match(
            p.drop_first(),
            s.drop_first(),
        )
    }
}

/// One step of the matching recurrence, phrased over suffixes of `p` and `s`.
proof fn lemma_match_step(p: Seq<char>, s: Seq<char>, i: int, j: int)
    requires
        0 <= i <= p.len(),
        0 <= j <= s.len(),
    ensures
        i == p.len() ==> (wildcard_match(p.skip(i), s.skip(j)) == (j == s.len())),
        i < p.len() && p[i] == '*' ==> (wildcard_match(p.skip(i), s.skip(j)) == (
        wildcard_match(p.skip(i + 1), s.skip(j)) || (j < s.len() && wildcard_match(
            p.skip(i),
            s.skip(j + 1),
        )))),
        i < p.len() && p[i] != '*' ==> (wildcard_match(p.skip(i), s.skip(j)) == (j < s.len() && (
        p[i] == '?' || p[i] == s[j]) && wildcard_match(p.skip(i + 1), s.skip(j + 1)))),
{
    if i < p.len() {
        assert(p.skip(i).drop_first() =~= p.skip(i + 1));
        assert(p.skip(i)[0] == p[i]);
    }
    if j < s.len() {
        assert(s.skip(j).drop_first() =~= s.skip(j + 1));
        assert(s.skip(j)[0] == s[j]);
    }
}

/// The matching value for the suffixes starting at `i` in the pattern and
/// `j` in the name.
spec fn suffix_match(p: Seq<char>, s: Seq<char>, i: int, j: int) -> bool {
    wildcard_match(p.skip(i), s.skip(j))
}

/// A row of the matching table: `row[j]` for `j < n`, and `end` for `j == n`.
spec fn row_at(row: Seq<bool>, end: bool, j: int) -> bool {
    if j < row.len() {
        row[j]
    } else {
        end
    }
}

/// Whether `name` matches the wildcard `pattern`.
pub fn matches_pattern(name: &str, pattern: &str) -> (r: bool)
    ensures
        r == wildcard_match(pattern@, name@),
{
    let p = chars_of(pattern);
    let s = chars_of(name);
    let m = p.len();
    let n = s.len();
    let ghost ps = p@;
    let ghost ss = s@;

    let mut next: Vec<bool> = Vec::new();
    for k in 0..n
        invariant
            next@.len() == k,
            forall|t: int| 0 <= t < k ==> !#[trigger] next@[t],
    {
        next.push(false);
    }
    let mut next_end = true;
    proof {
        assert forall|t: int| 0 <= t <= n implies row_at(next@, next_end, t) == suffix_match(
            ps,
            ss,
            m as int,
            t,
        ) by {
            lemma_match_step(ps, ss, m as int, t);
        }
    }

    let mut i = m;
    while i > 0
        invariant
            i <= m,
            m == ps.len(),
            n == ss.len(),
            p@ == ps,
            s@ == ss,
            next@.len() == n,
            forall|t: int|
                0 <= t <= n ==> #[trigger] row_at(next@, next_end, t) == suffix_match(
                    ps,
                    ss,
                    i as int,
                    t,
                ),
        decreases i,
    {
        i = i - 1;
        let c = p[i];
        let star = c == '*';
        let cur_end = if star {
            next_end
        } else {
            false
        };
        proof {
            lemma_match_step(ps, ss, i as int, n as int);
            assert(row_at(next@, next_end, n as int) == suffix_match(ps, ss, i + 1, n as int));
        }
        let mut cur = next.clone();
        let mut right = cur_end;
        let mut j = n;
        while j > 0
            invariant
                j <= n,
                i < m,
                m == ps.len(),
                n == ss.len(),
                p@ == ps,
                s@ == ss,
                c == ps[i as int],
                star == (c == '*'),
                next@.len() == n,
                cur@.len() == n,
                cur_end == suffix_match(ps, ss, i as int, n as int),
                right == row_at(cur@, cur_end, j as int),
                forall|t: int|
                    0 <= t <= n ==> #[trigger] row_at(next@, next_end, t) == suffix_match(
                        ps,
                        ss,
                        i + 1,
                        t,
                    ),
                forall|t: int|
                    j <= t <= n ==> #[trigger] row_at(cur@, cur_end, t) == suffix_match(
                        ps,
                        ss,
                        i as int,
                        t,
                    ),
            decreases j,
        {
            j = j - 1;
            let below = next[j];
            let diag = if j + 1 < n {
                next[j + 1]
            } else {
                next_end
            };
            let v = if star {
                below || right
            } else {
                (c == '?' || c == s[j]) && diag
            };
            proof {
                lemma_match_step(ps, ss, i as int, j as int);
                assert(row_at(next@, next_end, j as int) == below);
                assert(row_at(next@, next_end, j + 1) == diag);
                assert(row_at(cur@, cur_end, j + 1) == right);
            }
            let ghost before = cur@;
            cur.set(j, v);
            right = v;
            proof {
                assert forall|t: int| j <= t <= n implies #[trigger] row_at(
                    cur@,
                    cur_end,
                    t,
                ) == suffix_match(ps, ss, i as int, t) by {
                    if t > j {
                        assert(row_at(cur@, cur_end, t) == row_at(before, cur_end, t));
                    }
                }
            }
        }
        next = cur;
        next_end = cur_end;
    }
    proof {
        assert(ps.skip(0) =~= ps);
        assert(ss.skip(0) =~= ss);
        assert(row_at(next@, next_end, 0) == suffix_match(ps, ss, 0, 0));
    }
    if n == 0 {
        next_end
    } else {
        next[0]
    }
}


/// The pattern `*` matches every name.
pub proof fn lemma_star_matches_everything(s: Seq<char>)
    ensures
        wildcard_match(seq!['*'], s),
    decreases s.len(),
{
    let p = seq!['*'];
    assert(p.len() == 1 && p[0] == '*');
    assert(p.drop_first() =~= Seq::<char>::empty());
    if s.len() > 0 {
        lemma_star_matches_everything(s.drop_first());
    } else {
        assert(wildcard_match(p.drop_first(), s));
    }
}

/// A pattern without wildcards matches exactly the name that it spells.
pub proof fn lemma_literal_pattern(p: Seq<char>, s: Seq<char>)
    requires
        !p.contains('*'),
        !p.contains('?'),
    ensures
        wildcard_match(p, s) <==> p == s,
    decreases p.len(),
{
    if p.len() > 0 {
        let q = p.drop_first();
        assert(!q.contains('*')) by {
            if q.contains('*') {
                let k = choose|k: int| 0 <= k < q.len() && q[k] == '*';
                assert(p[k + 1] == '*');
            }
        }
        assert(!q.contains('?')) by {
            if q.contains('?') {
                let k = choose|k: int| 0 <= k < q.len() && q[k] == '?';
                assert(p[k + 1] == '?');
            }
        }
        assert(p[0] != '*' && p[0] != '?') by {
            assert(p.contains(p[0]));
        }
        if s.len() > 0 {
            lemma_literal_pattern(q, s.drop_first());
            if p == s {
                assert(q == s.drop_first());
            }
            if p[0] == s[0] && q == s.drop_first() {
                assert forall|i: int| 0 <= i < p.len() implies p[i] == s[i] by {
                    if i > 0 {
                        assert(p[i] == q[i - 1]);
                        assert(s[i] == s.drop_first()[i - 1]);
                    }
                }
                assert(p =~= s);
            }
        }
    } else {
        if s.len() > 0 {
            assert(p != s);
        } else {
            assert(p =~= s);
        }
    }
}

} // verus!

verus! {

/// `?` matches exactly one character, whatever it is.
pub proof fn lemma_question_mark(s: Seq<char>)
    ensures
        wildcard_match(seq!['?'], s) <==> s.len() == 1,
{
    assert(seq!['?'].drop_first() =~= Seq::<char>::empty());
    if s.len() > 0 {
        assert(wildcard_match(Seq::<char>::empty(), s.drop_first()) <==> s.len() == 1);
    }
}

/// A leading `*` followed by a literal suffix matches exactly the names that
/// end with that suffix.
pub proof fn lemma_star_suffix(suffix: Seq<char>, s: Seq<char>)
    requires
        !suffix.contains('*'),
        !suffix.contains('?'),
    ensures
        wildcard_match(seq!['*'] + suffix, s) <==> (s.len() >= suffix.len() && s.skip(
            s.len() - suffix.len(),
        ) == suffix),
    decreases s.len(),
{
    let p = seq!['*'] + suffix;
    assert(p.drop_first() =~= suffix);
    lemma_literal_pattern(suffix, s);
    if s.len() > 0 {
        lemma_star_suffix(suffix, s.drop_first());
        if s.len() >= suffix.len() + 1 {
            assert(s.drop_first().skip(s.drop_first().len() - suffix.len()) =~= s.skip(
                s.len() - suffix.len(),
            ));
        }
        if s.len() == suffix.len() {
            assert(s.skip(0) =~= s);
        }
    } else if suffix.len() == 0 {
        assert(s.skip(0) =~= s);
    }
}

} // verus!
