//! The lookup tables: comma-separated tables of (code, display name) pairs
//! with one header line, and the newline-separated timezone list.  Parsing is
//! specified line by line over the views of the input text.

use vstd::prelude::*;
use crate::sort::{entries_sorted, sort_entries, sort_strings, strings_sorted};
use crate::text::{
    lines_of, split_seq, split_str, split_lines, trim_seq, trim_str, str_eq, views_of,
};

verus! {

/// One row of a lookup table: a system identifier and its display name.
pub struct Entry {
    pub code: String,
    pub name: String,
}

/// A table line parsed into a trimmed (code, name) pair; `None` where the
/// line has no comma.  Fields after the second comma are ignored.
pub open spec fn parse_line(l: Seq<char>) -> Option<(Seq<char>, Seq<char>)> {
    let fields = split_seq(l, ',');
    if fields.len() < 2 {
        None
    } else {
        Some((trim_seq(fields[0]), trim_seq(fields[1])))
    }
}

/// The data rows of a table text: its lines without the header line.
pub open spec fn csv_rows(s: Seq<char>) -> Seq<Seq<char>> {
    let ls = lines_of(s);
    if ls.len() == 0 {
        Seq::empty()
    } else {
        ls.drop_first()
    }
}

/// The (code, name) views of a sequence of entries.
pub open spec fn entry_pairs(v: Seq<Entry>) -> Seq<(Seq<char>, Seq<char>)> {
    v.map_values(|e: Entry| (e.code@, e.name@))
}

/// A whole table text parsed: one pair per data row, or `None` as soon as
/// one data row has no comma.
pub open spec fn spec_parse_csv(s: Seq<char>) -> Option<Seq<(Seq<char>, Seq<char>)>> {
    let rows = csv_rows(s);
    if forall|i: int| 0 <= i < rows.len() ==> parse_line(#[trigger] rows[i]) is Some {
        Some(Seq::new(rows.len(), |i: int| parse_line(rows[i])->0))
    } else {
        None
    }
}

/// No two entries carry the same code.
pub open spec fn spec_codes_unique(v: Seq<Entry>) -> bool {
    forall|i: int, j: int|
        0 <= i < j < v.len() ==> (#[trigger] v[i].code)@ != (#[trigger] v[j].code)@
}

/// No two entries carry the same display name.
pub open spec fn spec_names_unique(v: Seq<Entry>) -> bool {
    forall|i: int, j: int|
        0 <= i < j < v.len() ==> (#[trigger] v[i].name)@ != (#[trigger] v[j].name)@
}

/// Every entry carries a non-empty display name.
pub open spec fn spec_names_nonempty(v: Seq<Entry>) -> bool {
    forall|i: int| 0 <= i < v.len() ==> (#[trigger] v[i].name)@.len() != 0
}

/// Parses a table text: skips the header line, then yields one entry per
/// data row, with code and name trimmed.  Returns `None` exactly when some
/// data row has no comma.
pub fn parse_csv(data: &str) -> (r: Option<Vec<Entry>>)
    ensures
        (r is Some) == (spec_parse_csv(data@) is Some),
        r matches Some(v) ==> v@.len() == csv_rows(data@).len(),
        r matches Some(v) ==> (lines_of(data@).len() >= 1 ==> v@.len() == lines_of(data@).len()
            - 1),
        r matches Some(v) ==> entry_pairs(v@) == spec_parse_csv(data@)->0,
{
    let lines = split_lines(data);
    let ghost rows = csv_rows(data@);
    let mut out: Vec<Entry> = Vec::new();
    if lines.len() == 0 {
        proof {
            assert(entry_pairs(out@) =~= spec_parse_csv(data@)->0);
        }
        return Some(out);
    }
    let mut i: usize = 1;
    proof {
        assert(rows.len() == lines@.len() - 1);
        assert(forall|j: int| 0 <= j < rows.len() ==> #[trigger] rows[j] == lines@[j + 1]@);
    }
    while i < lines.len()
        invariant
            1 <= i <= lines@.len(),
            views_of(lines@) == lines_of(data@),
            rows == csv_rows(data@),
            rows.len() == lines@.len() - 1,
            forall|j: int| 0 <= j < rows.len() ==> #[trigger] rows[j] == lines@[j + 1]@,
            out@.len() == i - 1,
            forall|j: int|
                0 <= j < i - 1 ==> parse_line(#[trigger] rows[j]) is Some && (out@[j].code@,
                out@[j].name@) == parse_line(rows[j])->0,
        decreases lines@.len() - i,
    {
        let fields = split_str(lines[i].as_str(), ',');
        proof {
            assert(views_of(fields@) == split_seq(rows[i - 1], ','));
            assert(fields@.len() == views_of(fields@).len());
        }
        if fields.len() < 2 {
            proof {
                assert(parse_line(rows[i - 1]) is None);
            }
            return None;
        }
        let code = trim_str(fields[0].as_str());
        let name = trim_str(fields[1].as_str());
        proof {
            assert(fields@[0]@ == views_of(fields@)[0]);
            assert(fields@[1]@ == views_of(fields@)[1]);
        }
        out.push(Entry { code, name });
        i = i + 1;
    }
    proof {
        assert(spec_parse_csv(data@) is Some);
        assert(entry_pairs(out@) =~= spec_parse_csv(data@)->0);
    }
    Some(out)
}

/// Loads the language code table: parses the table text and orders the
/// entries by display name.  Returns `None` exactly when a data row has no
/// comma.
pub fn get_language_codes(data: &str) -> (r: Option<Vec<Entry>>)
    ensures
        (r is Some) == (spec_parse_csv(data@) is Some),
        r matches Some(v) ==> v@.len() == csv_rows(data@).len(),
        r matches Some(v) ==> entries_sorted(v@) && entry_pairs(v@).to_multiset() == (
        spec_parse_csv(data@)->0).to_multiset(),
{
    broadcast use vstd::seq_lib::group_to_multiset_ensures;

    let parsed = match parse_csv(data) {
        Some(parsed) => parsed,
        None => {
            return None;
        },
    };
    let ghost before = parsed@;
    let sorted = sort_entries(parsed);
    proof {
        lemma_entry_pairs_multiset(sorted@, before);
        assert(sorted@.to_multiset().len() == before.to_multiset().len());
    }
    Some(sorted)
}

/// Loads the locale table; the same format and order as the language codes.
pub fn get_locales(data: &str) -> (r: Option<Vec<Entry>>)
    ensures
        (r is Some) == (spec_parse_csv(data@) is Some),
        r matches Some(v) ==> v@.len() == csv_rows(data@).len(),
        r matches Some(v) ==> entries_sorted(v@) && entry_pairs(v@).to_multiset() == (
        spec_parse_csv(data@)->0).to_multiset(),
{
    broadcast use vstd::seq_lib::group_to_multiset_ensures;

    let parsed = match parse_csv(data) {
        Some(parsed) => parsed,
        None => {
            return None;
        },
    };
    let ghost before = parsed@;
    let sorted = sort_entries(parsed);
    proof {
        lemma_entry_pairs_multiset(sorted@, before);
        assert(sorted@.to_multiset().len() == before.to_multiset().len());
    }
    Some(sorted)
}

/// Equal multisets of entries have equal multisets of (code, name) views.
proof fn lemma_entry_pairs_multiset(a: Seq<Entry>, b: Seq<Entry>)
    requires
        a.to_multiset() == b.to_multiset(),
    ensures
        entry_pairs(a).to_multiset() == entry_pairs(b).to_multiset(),
{
    lemma_map_values_multiset(a, b, |e: Entry| (e.code@, e.name@));
}

/// Sequences with equal multisets have mapped sequences with equal
/// multisets.
proof fn lemma_map_values_multiset<A, B>(a: Seq<A>, b: Seq<A>, f: spec_fn(A) -> B)
    requires
        a.to_multiset() == b.to_multiset(),
    ensures
        a.map_values(f).to_multiset() == b.map_values(f).to_multiset(),
    decreases a.len(),
{
    broadcast use vstd::seq_lib::group_to_multiset_ensures;
    broadcast use vstd::multiset::group_multiset_axioms;

    if a.len() == 0 {
        assert(b.to_multiset().len() == 0);
        assert(b.len() == 0);
        assert(a.map_values(f) =~= b.map_values(f));
    } else {
        let x = a.last();
        let a2 = a.drop_last();
        assert(a =~= a2.push(x));
        assert(a.to_multiset() == a2.to_multiset().insert(x));
        assert(b.to_multiset().count(x) > 0);
        assert(b.contains(x));
        let i = choose|i: int| 0 <= i < b.len() && b[i] == x;
        let b2 = b.remove(i);
        assert(b2.to_multiset() == b.to_multiset().remove(x));
        assert(a2.to_multiset() =~= b2.to_multiset());
        lemma_map_values_multiset(a2, b2, f);
        assert(a.map_values(f) =~= a2.map_values(f).push(f(x)));
        assert(a.map_values(f).to_multiset() == a2.map_values(f).to_multiset().insert(f(x)));
        assert(b2.map_values(f) =~= b.map_values(f).remove(i));
        assert(b.map_values(f)[i] == f(x));
        assert(b2.map_values(f).to_multiset() == b.map_values(f).to_multiset().remove(f(x)));
        assert(b.map_values(f).contains(f(x)));
        assert(b.map_values(f).to_multiset().count(f(x)) > 0);
        assert(a.map_values(f).to_multiset() =~= b.map_values(f).to_multiset());
    }
}

/// Loads the timezone table: one identifier per line, ordered.
pub fn get_timezones(data: &str) -> (r: Vec<String>)
    ensures
        r@.len() == lines_of(data@).len(),
        strings_sorted(r@),
        views_of(r@).to_multiset() == lines_of(data@).to_multiset(),
{
    broadcast use vstd::seq_lib::group_to_multiset_ensures;

    let entries = split_lines(data);
    let ghost before = entries@;
    let sorted = sort_strings(entries);
    proof {
        lemma_map_values_multiset(sorted@, before, |p: String| p@);
        assert(views_of(sorted@).to_multiset().len() == views_of(before).to_multiset().len());
    }
    sorted
}

/// Tests whether the codes of a table are pairwise distinct.
pub fn codes_unique(entries: &Vec<Entry>) -> (r: bool)
    ensures
        r == spec_codes_unique(entries@),
{
    let n = entries.len();
    let mut i: usize = 0;
    while i < n
        invariant
            n == entries@.len(),
            i <= n,
            forall|a: int, b: int|
                0 <= a < b < n && a < i ==> (#[trigger] entries@[a].code)@ != (
                #[trigger] entries@[b].code)@,
        decreases n - i,
    {
        let mut j: usize = i + 1;
        while j < n
            invariant
                n == entries@.len(),
                i < j <= n,
                i < n,
                forall|b: int|
                    i < b < j ==> (#[trigger] entries@[b].code)@ != entries@[i as int].code@,
            decreases n - j,
        {
            if str_eq(entries[i].code.as_str(), entries[j].code.as_str()) {
                return false;
            }
            j = j + 1;
        }
        i = i + 1;
    }
    true
}

/// Tests whether the display names of a table are pairwise distinct.
pub fn names_unique(entries: &Vec<Entry>) -> (r: bool)
    ensures
        r == spec_names_unique(entries@),
{
    let n = entries.len();
    let mut i: usize = 0;
    while i < n
        invariant
            n == entries@.len(),
            i <= n,
            forall|a: int, b: int|
                0 <= a < b < n && a < i ==> (#[trigger] entries@[a].name)@ != (
                #[trigger] entries@[b].name)@,
        decreases n - i,
    {
        let mut j: usize = i + 1;
        while j < n
            invariant
                n == entries@.len(),
                i < j <= n,
                i < n,
                forall|b: int|
                    i < b < j ==> (#[trigger] entries@[b].name)@ != entries@[i as int].name@,
            decreases n - j,
        {
            if str_eq(entries[i].name.as_str(), entries[j].name.as_str()) {
                return false;
            }
            j = j + 1;
        }
        i = i + 1;
    }
    true
}

/// Tests whether every display name of a table is non-empty.
pub fn names_nonempty(entries: &Vec<Entry>) -> (r: bool)
    ensures
        r == spec_names_nonempty(entries@),
{
    let n = entries.len();
    let mut i: usize = 0;
    while i < n
        invariant
            n == entries@.len(),
            i <= n,
            forall|a: int| 0 <= a < i ==> (#[trigger] entries@[a].name)@.len() != 0,
        decreases n - i,
    {
        if entries[i].name.as_str().is_empty() {
            return false;
        }
        i = i + 1;
    }
    true
}

} // verus!
