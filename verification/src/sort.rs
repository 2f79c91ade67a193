//! A verified insertion sort for the lookup tables: table entries ordered by
//! display name, plain strings ordered directly.  The order is lexicographic
//! by code point, which on valid text agrees with the byte order that the
//! standard library's string comparison uses.

use vstd::prelude::*;
use vstd::string::*;
use crate::tables::Entry;

verus! {

broadcast use {vstd::seq_lib::group_to_multiset_ensures, vstd::multiset::group_multiset_axioms};

/// Lexicographic order on character sequences by code point.
pub open spec fn lex_le(a: Seq<char>, b: Seq<char>) -> bool
    decreases a.len(),
{
    if a.len() == 0 {
        true
    } else if b.len() == 0 {
        false
    } else if a.first() == b.first() {
        lex_le(a.drop_first(), b.drop_first())
    } else {
        a.first() < b.first()
    }
}

pub proof fn lemma_lex_le_total(a: Seq<char>, b: Seq<char>)
    ensures
        lex_le(a, b) || lex_le(b, a),
    decreases a.len(),
{
    if a.len() > 0 && b.len() > 0 && a.first() == b.first() {
        lemma_lex_le_total(a.drop_first(), b.drop_first());
    }
}

pub proof fn lemma_lex_le_trans(a: Seq<char>, b: Seq<char>, c: Seq<char>)
    requires
        lex_le(a, b),
        lex_le(b, c),
    ensures
        lex_le(a, c),
    decreases a.len(),
{
    if a.len() == 0 {
    } else {
        if a.first() == b.first() && b.first() == c.first() {
            lemma_lex_le_trans(a.drop_first(), b.drop_first(), c.drop_first());
        }
    }
}

/// Character-wise comparison, equivalent to the lexicographic order on the
/// views.
pub fn lex_le_exec(a: &str, b: &str) -> (r: bool)
    ensures
        r == lex_le(a@, b@),
    decreases a@.len(),
{
    let an = a.unicode_len();
    let bn = b.unicode_len();
    if an == 0 {
        true
    } else if bn == 0 {
        false
    } else {
        let ca = a.get_char(0);
        let cb = b.get_char(0);
        if ca == cb {
            let ra = a.substring_char(1, an);
            let rb = b.substring_char(1, bn);
            proof {
                assert(ra@ =~= a@.drop_first());
                assert(rb@ =~= b@.drop_first());
            }
            lex_le_exec(ra, rb)
        } else {
            ca < cb
        }
    }
}

/// Entries in weakly increasing order of display name.
pub open spec fn entries_sorted(v: Seq<Entry>) -> bool {
    forall|i: int, j: int|
        0 <= i < j < v.len() ==> #[trigger] lex_le(v[i].name@, v[j].name@)
}

/// Strings in weakly increasing order.
pub open spec fn strings_sorted(v: Seq<String>) -> bool {
    forall|i: int, j: int| 0 <= i < j < v.len() ==> #[trigger] lex_le(v[i]@, v[j]@)
}

/// Sorts table entries by display name.  The result holds exactly the given
/// entries.
pub fn sort_entries(v: Vec<Entry>) -> (r: Vec<Entry>)
    ensures
        entries_sorted(r@),
        r@.to_multiset() == v@.to_multiset(),
{
    let ghost orig = v@;
    let mut v = v;
    let mut i: usize = 1;
    while i < v.len()
        invariant
            1 <= i,
            v@.len() < 1 || i <= v@.len(),
            v@.to_multiset() == orig.to_multiset(),
            forall|a: int, b: int|
                0 <= a < b < i && b < v@.len() ==> #[trigger] lex_le(v@[a].name@, v@[b].name@),
        decreases v@.len() - i,
    {
        let ghost w = v@;
        let x = v.remove(i);
        let ghost u = v@;
        proof {
            w.remove_ensures(i as int);
        }
        let mut pos: usize = 0;
        while pos < i && lex_le_exec(v[pos].name.as_str(), x.name.as_str())
            invariant
                pos <= i,
                i < w.len(),
                u == w.remove(i as int),
                v@ == u,
                x == w[i as int],
                forall|j: int| 0 <= j < pos ==> lex_le(#[trigger] u[j].name@, x.name@),
            decreases i - pos,
        {
            pos = pos + 1;
        }
        let ghost p = pos as int;
        v.insert(pos, x);
        proof {
            u.insert_ensures(p, x);
            w.remove_ensures(i as int);
            assert(w.contains(x)) by {
                assert(w[i as int] == x);
            }
            assert(w.to_multiset().count(x) > 0);
            assert(v@.to_multiset() =~= w.to_multiset());
            assert forall|a: int, b: int|
                0 <= a < b < i + 1 && b < v@.len() implies #[trigger] lex_le(
                v@[a].name@,
                v@[b].name@,
            ) by {
                if p < i {
                    assert(!lex_le(u[p].name@, x.name@));
                    lemma_lex_le_total(u[p].name@, x.name@);
                }
                assert forall|k: int| p <= k < i implies lex_le(x.name@, #[trigger] u[k].name@) by {
                    if p < k {
                        assert(lex_le(u[p].name@, u[k].name@));
                        lemma_lex_le_trans(x.name@, u[p].name@, u[k].name@);
                    }
                }
                if a < p && b < p {
                    assert(v@[a] == u[a] && v@[b] == u[b]);
                } else if a < p && b == p {
                    assert(v@[a] == u[a] && v@[b] == x);
                } else if a < p && b > p {
                    assert(v@[a] == u[a] && v@[b] == u[b - 1]);
                    if b - 1 < p {
                        assert(lex_le(u[a].name@, u[b - 1].name@));
                    } else {
                        lemma_lex_le_trans(u[a].name@, x.name@, u[b - 1].name@);
                    }
                } else if a == p && b > p {
                    assert(v@[a] == x && v@[b] == u[b - 1]);
                } else {
                    assert(v@[a] == u[a - 1] && v@[b] == u[b - 1]);
                }
            }
        }
        i = i + 1;
    }
    v
}

/// Sorts strings lexicographically.  The result holds exactly the given
/// strings.
pub fn sort_strings(v: Vec<String>) -> (r: Vec<String>)
    ensures
        strings_sorted(r@),
        r@.to_multiset() == v@.to_multiset(),
{
    let ghost orig = v@;
    let mut v = v;
    let mut i: usize = 1;
    while i < v.len()
        invariant
            1 <= i,
            v@.len() < 1 || i <= v@.len(),
            v@.to_multiset() == orig.to_multiset(),
            forall|a: int, b: int|
                0 <= a < b < i && b < v@.len() ==> #[trigger] lex_le(v@[a]@, v@[b]@),
        decreases v@.len() - i,
    {
        let ghost w = v@;
        let x = v.remove(i);
        let ghost u = v@;
        proof {
            w.remove_ensures(i as int);
        }
        let mut pos: usize = 0;
        while pos < i && lex_le_exec(v[pos].as_str(), x.as_str())
            invariant
                pos <= i,
                i < w.len(),
                u == w.remove(i as int),
                v@ == u,
                x == w[i as int],
                forall|j: int| 0 <= j < pos ==> lex_le(#[trigger] u[j]@, x@),
            decreases i - pos,
        {
            pos = pos + 1;
        }
        let ghost p = pos as int;
        v.insert(pos, x);
        proof {
            u.insert_ensures(p, x);
            w.remove_ensures(i as int);
            assert(w.contains(x)) by {
                assert(w[i as int] == x);
            }
            assert(w.to_multiset().count(x) > 0);
            assert(v@.to_multiset() =~= w.to_multiset());
            assert forall|a: int, b: int|
                0 <= a < b < i + 1 && b < v@.len() implies #[trigger] lex_le(v@[a]@, v@[b]@) by {
                if p < i {
                    assert(!lex_le(u[p]@, x@));
                    lemma_lex_le_total(u[p]@, x@);
                }
                assert forall|k: int| p <= k < i implies lex_le(x@, #[trigger] u[k]@) by {
                    if p < k {
                        assert(lex_le(u[p]@, u[k]@));
                        lemma_lex_le_trans(x@, u[p]@, u[k]@);
                    }
                }
                if a < p && b < p {
                    assert(v@[a] == u[a] && v@[b] == u[b]);
                } else if a < p && b == p {
                    assert(v@[a] == u[a] && v@[b] == x);
                } else if a < p && b > p {
                    assert(v@[a] == u[a] && v@[b] == u[b - 1]);
                    if b - 1 < p {
                        assert(lex_le(u[a]@, u[b - 1]@));
                    } else {
                        lemma_lex_le_trans(u[a]@, x@, u[b - 1]@);
                    }
                } else if a == p && b > p {
                    assert(v@[a] == x && v@[b] == u[b - 1]);
                } else {
                    assert(v@[a] == u[a - 1] && v@[b] == u[b - 1]);
                }
            }
        }
        i = i + 1;
    }
    v
}

} // verus!
