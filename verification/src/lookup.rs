//! Lookups over the tables: the position of a code in a table (used to
//! pre-select the matching row), the display names of a table, and the
//! resolution of a display name back to its code.

use vstd::prelude::*;
use crate::tables::{spec_names_unique, Entry};
use crate::text::{str_eq, views_of};

verus! {

/// The first index whose entry carries the given code, or -1.
pub open spec fn find_code(v: Seq<Entry>, key: Seq<char>) -> int
    decreases v.len(),
{
    if v.len() == 0 {
        -1
    } else if v.first().code@ == key {
        0
    } else {
        let r = find_code(v.drop_first(), key);
        if r == -1 {
            -1
        } else {
            r + 1
        }
    }
}

/// The first index whose entry carries the given display name, or -1.
pub open spec fn find_name(v: Seq<Entry>, key: Seq<char>) -> int
    decreases v.len(),
{
    if v.len() == 0 {
        -1
    } else if v.first().name@ == key {
        0
    } else {
        let r = find_name(v.drop_first(), key);
        if r == -1 {
            -1
        } else {
            r + 1
        }
    }
}

/// The first index of the given string, or -1.
pub open spec fn find_string(v: Seq<String>, key: Seq<char>) -> int
    decreases v.len(),
{
    if v.len() == 0 {
        -1
    } else if v.first()@ == key {
        0
    } else {
        let r = find_string(v.drop_first(), key);
        if r == -1 {
            -1
        } else {
            r + 1
        }
    }
}

pub proof fn lemma_find_code_props(v: Seq<Entry>, key: Seq<char>)
    ensures
        -1 <= find_code(v, key) < v.len(),
        find_code(v, key) == -1 ==> forall|i: int|
            0 <= i < v.len() ==> (#[trigger] v[i].code)@ != key,
        find_code(v, key) >= 0 ==> v[find_code(v, key)].code@ == key,
        forall|i: int|
            0 <= i < v.len() && (#[trigger] v[i].code)@ == key ==> 0 <= find_code(v, key) <= i,
    decreases v.len(),
{
    if v.len() > 0 {
        lemma_find_code_props(v.drop_first(), key);
        assert(forall|i: int|
            1 <= i < v.len() ==> (#[trigger] v[i].code) == v.drop_first()[i - 1].code);
    }
}

pub proof fn lemma_find_name_props(v: Seq<Entry>, key: Seq<char>)
    ensures
        -1 <= find_name(v, key) < v.len(),
        find_name(v, key) == -1 ==> forall|i: int|
            0 <= i < v.len() ==> (#[trigger] v[i].name)@ != key,
        find_name(v, key) >= 0 ==> v[find_name(v, key)].name@ == key,
        forall|i: int|
            0 <= i < v.len() && (#[trigger] v[i].name)@ == key ==> 0 <= find_name(v, key) <= i,
    decreases v.len(),
{
    if v.len() > 0 {
        lemma_find_name_props(v.drop_first(), key);
        assert(forall|i: int|
            1 <= i < v.len() ==> (#[trigger] v[i].name) == v.drop_first()[i - 1].name);
    }
}

pub proof fn lemma_find_string_props(v: Seq<String>, key: Seq<char>)
    ensures
        -1 <= find_string(v, key) < v.len(),
        find_string(v, key) == -1 ==> forall|i: int| 0 <= i < v.len() ==> (#[trigger] v[i])@ != key,
        find_string(v, key) >= 0 ==> v[find_string(v, key)]@ == key,
        forall|i: int|
            0 <= i < v.len() && (#[trigger] v[i])@ == key ==> 0 <= find_string(v, key) <= i,
    decreases v.len(),
{
    if v.len() > 0 {
        lemma_find_string_props(v.drop_first(), key);
        assert(forall|i: int| 1 <= i < v.len() ==> (#[trigger] v[i]) == v.drop_first()[i - 1]);
    }
}

/// The position of the first entry with the given code, or 0 where no entry
/// has it.
pub fn get_pos_map(key_value_map: &Vec<Entry>, to_select: &str) -> (r: u32)
    requires
        key_value_map@.len() <= u32::MAX,
    ensures
        find_code(key_value_map@, to_select@) >= 0 ==> r == find_code(key_value_map@, to_select@),
        find_code(key_value_map@, to_select@) == -1 ==> r == 0,
{
    proof {
        lemma_find_code_props(key_value_map@, to_select@);
    }
    let n = key_value_map.len();
    let mut i: usize = 0;
    while i < n
        invariant
            n == key_value_map@.len(),
            n <= u32::MAX,
            i <= n,
            forall|j: int| 0 <= j < i ==> (#[trigger] key_value_map@[j].code)@ != to_select@,
            -1 <= find_code(key_value_map@, to_select@) < n,
            find_code(key_value_map@, to_select@) >= 0 ==> key_value_map@[find_code(
                key_value_map@,
                to_select@,
            )].code@ == to_select@,
            forall|j: int|
                0 <= j < n && (#[trigger] key_value_map@[j].code)@ == to_select@ ==> 0 <= find_code(
                    key_value_map@,
                    to_select@,
                ) <= j,
        decreases n - i,
    {
        if str_eq(key_value_map[i].code.as_str(), to_select) {
            return i as u32;
        }
        i = i + 1;
    }
    0
}

/// The position of the first equal string, or 0 where none is equal.
pub fn get_pos_vec(key_value_vec: &Vec<String>, to_select: &str) -> (r: u32)
    requires
        key_value_vec@.len() <= u32::MAX,
    ensures
        find_string(key_value_vec@, to_select@) >= 0 ==> r == find_string(
            key_value_vec@,
            to_select@,
        ),
        find_string(key_value_vec@, to_select@) == -1 ==> r == 0,
{
    proof {
        lemma_find_string_props(key_value_vec@, to_select@);
    }
    let n = key_value_vec.len();
    let mut i: usize = 0;
    while i < n
        invariant
            n == key_value_vec@.len(),
            n <= u32::MAX,
            i <= n,
            forall|j: int| 0 <= j < i ==> (#[trigger] key_value_vec@[j])@ != to_select@,
            -1 <= find_string(key_value_vec@, to_select@) < n,
            find_string(key_value_vec@, to_select@) >= 0 ==> key_value_vec@[find_string(
                key_value_vec@,
                to_select@,
            )]@ == to_select@,
            forall|j: int|
                0 <= j < n && (#[trigger] key_value_vec@[j])@ == to_select@ ==> 0 <= find_string(
                    key_value_vec@,
                    to_select@,
                ) <= j,
        decreases n - i,
    {
        if str_eq(key_value_vec[i].as_str(), to_select) {
            return i as u32;
        }
        i = i + 1;
    }
    0
}

/// The display names of a table, in table order.
pub fn get_values(key_value_vec: &Vec<Entry>) -> (r: Vec<String>)
    ensures
        views_of(r@) == key_value_vec@.map_values(|e: Entry| e.name@),
{
    let n = key_value_vec.len();
    let mut out: Vec<String> = Vec::new();
    let mut i: usize = 0;
    while i < n
        invariant
            n == key_value_vec@.len(),
            i <= n,
            out@.len() == i,
            forall|j: int| 0 <= j < i ==> (#[trigger] out@[j])@ == key_value_vec@[j].name@,
        decreases n - i,
    {
        out.push(key_value_vec[i].name.clone());
        i = i + 1;
    }
    proof {
        assert(views_of(out@) =~~= key_value_vec@.map_values(|e: Entry| e.name@));
    }
    out
}

/// The code of the first entry with the given display name, or `None` where
/// no entry has it.
pub fn code_for_name(entries: &Vec<Entry>, name: &str) -> (r: Option<String>)
    ensures
        (r is Some) == (find_name(entries@, name@) >= 0),
        r matches Some(c) ==> c@ == entries@[find_name(entries@, name@)].code@,
{
    proof {
        lemma_find_name_props(entries@, name@);
    }
    let n = entries.len();
    let mut i: usize = 0;
    while i < n
        invariant
            n == entries@.len(),
            i <= n,
            forall|j: int| 0 <= j < i ==> (#[trigger] entries@[j].name)@ != name@,
            -1 <= find_name(entries@, name@) < n,
            find_name(entries@, name@) >= 0 ==> entries@[find_name(entries@, name@)].name@
                == name@,
            forall|j: int|
                0 <= j < n && (#[trigger] entries@[j].name)@ == name@ ==> 0 <= find_name(
                    entries@,
                    name@,
                ) <= j,
        decreases n - i,
    {
        if str_eq(entries[i].name.as_str(), name) {
            return Some(entries[i].code.clone());
        }
        i = i + 1;
    }
    None
}

/// Selecting an entry by its code and looking its display name up again
/// yields the code that was selected, as long as no two entries of the table
/// share a display name.
pub proof fn lemma_lookup_round_trip(v: Seq<Entry>, code: Seq<char>)
    requires
        spec_names_unique(v),
        exists|i: int| 0 <= i < v.len() && (#[trigger] v[i].code)@ == code,
    ensures
        0 <= find_code(v, code) < v.len(),
        find_name(v, v[find_code(v, code)].name@) == find_code(v, code),
        v[find_name(v, v[find_code(v, code)].name@)].code@ == code,
{
    lemma_find_code_props(v, code);
    let i = find_code(v, code);
    let name = v[i].name@;
    lemma_find_name_props(v, name);
    let j = find_name(v, name);
    assert(v[i].name@ == name);
    assert(0 <= j <= i);
    if j < i {
        assert(v[j].name@ == v[i].name@);
        assert(false);
    }
}

} // verus!
