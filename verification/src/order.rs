//! The order in which archive listings are shown: lexicographic by Unicode
//! code point, which is the order of Rust's `String` comparison.

use vstd::prelude::*;
use vstd::relations::{sorted_by, total_ordering};

verus! {

/// `a` comes no later than `b`: compared character by character by code
/// point, a proper prefix coming first.
pub open spec fn lex_le(a: Seq<char>, b: Seq<char>) -> bool
    decreases a.len(),
{
    if a.len() == 0 {
        true
    } else if b.len() == 0 {
        false
    } else if (a[0] as int) < (b[0] as int) {
        true
    } else if a[0] == b[0] {
        lex_le(a.drop_first(), b.drop_first())
    } else {
        false
    }
}

/// The character sequences that a vector of character vectors holds.
pub open spec fn chars_views(s: Seq<Vec<char>>) -> Seq<Seq<char>> {
    s.map_values(|x: Vec<char>| x@)
}

/// The listing order as a relation.
pub open spec fn listing_order() -> spec_fn(Seq<char>, Seq<char>) -> bool {
    |a: Seq<char>, b: Seq<char>| lex_le(a, b)
}

pub proof fn lemma_lex_reflexive(a: Seq<char>)
    ensures
        lex_le(a, a),
    decreases a.len(),
{
    if a.len() > 0 {
        lemma_lex_reflexive(a.drop_first());
    }
}

pub proof fn lemma_lex_antisymmetric(a: Seq<char>, b: Seq<char>)
    requires
        lex_le(a, b),
        lex_le(b, a),
    ensures
        a == b,
    decreases a.len(),
{
    if a.len() > 0 && b.len() > 0 {
        assert(a[0] as int == b[0] as int);
        lemma_lex_antisymmetric(a.drop_first(), b.drop_first());
        assert(a =~= seq![a[0]] + a.drop_first());
        assert(b =~= seq![b[0]] + b.drop_first());
    }
}

pub proof fn lemma_lex_transitive(a: Seq<char>, b: Seq<char>, c: Seq<char>)
    requires
        lex_le(a, b),
        lex_le(b, c),
    ensures
        lex_le(a, c),
    decreases a.len(),
{
    if a.len() > 0 && b.len() > 0 && c.len() > 0 {
        if a[0] == b[0] && b[0] == c[0] {
            lemma_lex_transitive(a.drop_first(), b.drop_first(), c.drop_first());
        }
    }
}

pub proof fn lemma_lex_total(a: Seq<char>, b: Seq<char>)
    ensures
        lex_le(a, b) || lex_le(b, a),
    decreases a.len(),
{
    if a.len() > 0 && b.len() > 0 {
        if a[0] == b[0] {
            lemma_lex_total(a.drop_first(), b.drop_first());
        }
    }
}

/// The listing order is a total order: reflexive, antisymmetric,
/// transitive, and any two names are comparable.
pub proof fn lemma_listing_order_total()
    ensures
        total_ordering(listing_order()),
{
    assert forall|a: Seq<char>| #[trigger] listing_order()(a, a) by {
        lemma_lex_reflexive(a);
    }
    assert forall|a: Seq<char>, b: Seq<char>|
        #[trigger] listing_order()(a, b) && #[trigger] listing_order()(b, a) implies a == b by {
        lemma_lex_antisymmetric(a, b);
    }
    assert forall|a: Seq<char>, b: Seq<char>, c: Seq<char>|
        #[trigger] listing_order()(a, b) && #[trigger] listing_order()(b, c) implies listing_order()(
        a,
        c,
    ) by {
        lemma_lex_transitive(a, b, c);
    }
    assert forall|a: Seq<char>, b: Seq<char>|
        #[trigger] listing_order()(a, b) || #[trigger] listing_order()(b, a) by {
        lemma_lex_total(a, b);
    }
}

/// Comparing from position `i` on when the first `i` characters agree.
proof fn lemma_lex_skip(a: Seq<char>, b: Seq<char>, i: int)
    requires
        0 <= i <= a.len(),
        i <= b.len(),
        forall|k: int| 0 <= k < i ==> a[k] == b[k],
    ensures
        lex_le(a, b) == lex_le(a.skip(i), b.skip(i)),
    decreases i,
{
    if i > 0 {
        assert(a.drop_first().skip(i - 1) =~= a.skip(i));
        assert(b.drop_first().skip(i - 1) =~= b.skip(i));
        lemma_lex_skip(a.drop_first(), b.drop_first(), i - 1);
    } else {
        assert(a.skip(0) =~= a);
        assert(b.skip(0) =~= b);
    }
}

/// Whether `a` comes no later than `b` in the listing order.
pub fn chars_le(a: &Vec<char>, b: &Vec<char>) -> (r: bool)
    ensures
        r == lex_le(a@, b@),
{
    let mut i: usize = 0;
    while i < a.len() && i < b.len() && a[i] == b[i]
        invariant
            i <= a@.len(),
            i <= b@.len(),
            forall|k: int| 0 <= k < i ==> a@[k] == b@[k],
        decreases a@.len() - i,
    {
        i = i + 1;
    }
    proof {
        lemma_lex_skip(a@, b@, i as int);
        if i < a@.len() && i < b@.len() {
            assert(a@.skip(i as int)[0] == a@[i as int]);
            assert(b@.skip(i as int)[0] == b@[i as int]);
        }
    }
    if i == a.len() {
        true
    } else if i == b.len() {
        false
    } else {
        a[i] < b[i]
    }
}

/// Sorts character sequences into the listing order.
pub fn sort_chars(items: Vec<Vec<char>>) -> (r: Vec<Vec<char>>)
    ensures
        chars_views(r@).to_multiset() == chars_views(items@).to_multiset(),
        sorted_by(chars_views(r@), listing_order()),
{
    broadcast use vstd::seq_lib::to_multiset_insert, vstd::seq_lib::group_to_multiset_ensures;

    let mut r: Vec<Vec<char>> = Vec::new();
    let n = items.len();
    proof {
        lemma_listing_order_total();
    }
    for k in 0..n
        invariant
            n == items@.len(),
            total_ordering(listing_order()),
            chars_views(r@).to_multiset() == chars_views(items@.take(k as int)).to_multiset(),
            sorted_by(chars_views(r@), listing_order()),
    {
        let x = items[k].clone();
        let ghost xv = x@;
        let mut pos: usize = 0;
        while pos < r.len() && chars_le(&r[pos], &x)
            invariant
                pos <= r@.len(),
                forall|t: int| 0 <= t < pos ==> lex_le(#[trigger] r@[t]@, x@),
            decreases r@.len() - pos,
        {
            pos = pos + 1;
        }
        let ghost before = r@;
        let ghost bv = chars_views(before);
        r.insert(pos, x);
        proof {
            let rv = chars_views(r@);
            assert(rv =~= bv.insert(pos as int, xv));
            assert(chars_views(items@.take(k + 1)) =~= chars_views(items@.take(k as int)).push(
                items@[k as int]@,
            ));
            assert(items@[k as int]@ == xv);
            vstd::seq_lib::to_multiset_insert(bv, pos as int, xv);
            chars_views(items@.take(k as int)).to_multiset_ensures();
            if pos < before.len() {
                assert(!lex_le(bv[pos as int], xv));
                lemma_lex_total(bv[pos as int], xv);
            }
            assert forall|i: int, j: int| 0 <= i < j < rv.len() implies #[trigger] listing_order()(
                rv[i],
                rv[j],
            ) by {
                if j < pos {
                    assert(listing_order()(bv[i], bv[j]));
                } else if j == pos {
                    assert(lex_le(before[i]@, xv));
                } else if i == pos {
                    if pos < j - 1 {
                        assert(listing_order()(bv[pos as int], bv[j - 1]));
                        lemma_lex_transitive(xv, bv[pos as int], bv[j - 1]);
                    }
                } else if i < pos {
                    assert(listing_order()(bv[i], bv[j - 1]));
                } else {
                    assert(listing_order()(bv[i - 1], bv[j - 1]));
                }
            }
        }
    }
    proof {
        assert(items@.take(n as int) =~= items@);
    }
    r
}


/// Every item comes strictly before the items after it: sorted and without
/// repetitions.
pub open spec fn strictly_sorted(s: Seq<Seq<char>>) -> bool {
    forall|i: int, j: int| 0 <= i < j < s.len() ==> lex_le(s[i], s[j]) && s[i] != s[j]
}

/// Whether two character vectors hold the same characters.
pub fn chars_eq(a: &Vec<char>, b: &Vec<char>) -> (r: bool)
    ensures
        r == (a@ == b@),
{
    if a.len() != b.len() {
        return false;
    }
    let n = a.len();
    for i in 0..n
        invariant
            n == a@.len(),
            n == b@.len(),
            forall|k: int| 0 <= k < i ==> a@[k] == b@[k],
    {
        if a[i] != b[i] {
            return false;
        }
    }
    assert(a@ =~= b@);
    true
}

/// The distinct items of a sorted sequence, each once, in order.
pub fn dedup_sorted(v: Vec<Vec<char>>) -> (r: Vec<Vec<char>>)
    requires
        sorted_by(chars_views(v@), listing_order()),
    ensures
        strictly_sorted(chars_views(r@)),
        chars_views(r@).to_set() == chars_views(v@).to_set(),
{
    let mut r: Vec<Vec<char>> = Vec::new();
    let n = v.len();
    for i in 0..n
        invariant
            n == v@.len(),
            sorted_by(chars_views(v@), listing_order()),
            strictly_sorted(chars_views(r@)),
            chars_views(r@).to_set() == chars_views(v@.take(i as int)).to_set(),
            i > 0 ==> r@.len() > 0 && r@.last()@ == v@[i - 1]@,
            i == 0 ==> r@.len() == 0,
    {
        let ghost vv = chars_views(v@);
        let ghost before = chars_views(r@);
        assert(chars_views(v@.take(i + 1)) =~= chars_views(v@.take(i as int)).push(vv[i as int]));
        let fresh = r.len() == 0 || !chars_eq(&r[r.len() - 1], &v[i]);
        if fresh {
            let x = v[i].clone();
            r.push(x);
            proof {
                let after = chars_views(r@);
                assert(after =~= before.push(vv[i as int]));
                let y = vv[i as int];
                assert(after[after.len() - 1] == y);
                if before.len() > 0 {
                    let last = before.last();
                    assert(last == vv[i - 1]);
                    assert(last != y);
                    assert(listing_order()(vv[i - 1], y));
                    assert forall|a: int| 0 <= a < before.len() implies lex_le(before[a], y)
                        && before[a] != y by {
                        if a < before.len() - 1 {
                            assert(lex_le(before[a], last) && before[a] != last);
                            lemma_lex_transitive(before[a], last, y);
                            if before[a] == y {
                                lemma_lex_antisymmetric(last, y);
                            }
                        }
                    }
                }
                assert forall|a: int, b: int| 0 <= a < b < after.len() implies lex_le(
                    after[a],
                    after[b],
                ) && after[a] != after[b] by {
                    if b < after.len() - 1 {
                        assert(after[a] == before[a] && after[b] == before[b]);
                    } else {
                        assert(after[a] == before[a]);
                    }
                }
                before.lemma_push_to_set_commute(y);
            }
        } else {
            proof {
                assert(before[before.len() - 1] == vv[i as int]);
                assert(before.contains(vv[i as int]));
                assert(before.to_set().insert(vv[i as int]) =~= before.to_set());
            }
        }
        proof {
            chars_views(v@.take(i as int)).lemma_push_to_set_commute(vv[i as int]);
        }
    }
    proof {
        assert(v@.take(n as int) =~= v@);
    }
    r
}

} // verus!
