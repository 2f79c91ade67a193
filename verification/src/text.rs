//! Basic verified text operations: splitting on a delimiter, line splitting
//! with the usual newline conventions, trimming whitespace, and character-wise
//! string equality.  All of them are specified over `Seq<char>` views.

use vstd::prelude::*;
use vstd::string::*;

verus! {

/// The whitespace characters that `trim` removes at either end.
pub open spec fn is_space(c: char) -> bool {
    c == ' ' || c == '\t' || c == '\r' || c == '\n'
}

/// Splitting a character sequence on a delimiter, keeping empty parts.
/// The result always has at least one part.
pub open spec fn split_seq(s: Seq<char>, d: char) -> Seq<Seq<char>>
    decreases s.len(),
{
    if s.len() == 0 {
        seq![Seq::<char>::empty()]
    } else if s[0] == d {
        seq![Seq::<char>::empty()] + split_seq(s.drop_first(), d)
    } else {
        let rest = split_seq(s.drop_first(), d);
        seq![seq![s[0]] + rest[0]] + rest.drop_first()
    }
}

pub proof fn lemma_split_seq_len(s: Seq<char>, d: char)
    ensures
        split_seq(s, d).len() >= 1,
    decreases s.len(),
{
    if s.len() == 0 {
    } else {
        lemma_split_seq_len(s.drop_first(), d);
    }
}

/// A character sequence with a trailing carriage return stripped.
pub open spec fn strip_cr(l: Seq<char>) -> Seq<char> {
    if l.len() > 0 && l.last() == '\r' {
        l.drop_last()
    } else {
        l
    }
}

/// The lines of a text: parts between newlines, with an optional final
/// newline producing no extra empty line, and a carriage return before each
/// newline stripped.
pub open spec fn lines_of(s: Seq<char>) -> Seq<Seq<char>> {
    let parts = split_seq(s, '\n');
    let kept = if s.len() == 0 || s.last() == '\n' {
        parts.drop_last()
    } else {
        parts
    };
    kept.map_values(|l: Seq<char>| strip_cr(l))
}

/// Whitespace removed from both ends.
pub open spec fn trim_seq(s: Seq<char>) -> Seq<char>
    decreases s.len(),
{
    if s.len() == 0 {
        s
    } else if is_space(s.first()) {
        trim_seq(s.drop_first())
    } else if is_space(s.last()) {
        trim_seq(s.drop_last())
    } else {
        s
    }
}

/// The views of a vector of strings.
pub open spec fn views_of(v: Seq<String>) -> Seq<Seq<char>> {
    v.map_values(|p: String| p@)
}

/// The remaining parts of a split once a prefix of the first part has
/// already been collected: the prefix is joined onto the first part.
pub open spec fn shift_first(p: Seq<char>, parts: Seq<Seq<char>>) -> Seq<Seq<char>> {
    seq![p + parts[0]] + parts.drop_first()
}

/// Relies on std's `String::push`: appends the given character to the end of
/// the string.
#[verifier::external_body]
fn push_char(s: &mut String, c: char)
    ensures
        final(s)@ == old(s)@.push(c),
{
    s.push(c);
}

/// Character-wise string equality, equivalent to equality of the views.
pub fn str_eq(a: &str, b: &str) -> (r: bool)
    ensures
        r == (a@ == b@),
{
    let an = a.unicode_len();
    let bn = b.unicode_len();
    if an != bn {
        proof {
            if a@ == b@ {
                assert(a@.len() == b@.len());
            }
        }
        return false;
    }
    let mut i: usize = 0;
    while i < an
        invariant
            an == a@.len(),
            bn == b@.len(),
            an == bn,
            i <= an,
            forall|j: int| 0 <= j < i ==> a@[j] == b@[j],
        decreases an - i,
    {
        if a.get_char(i) != b.get_char(i) {
            proof {
                if a@ == b@ {
                    assert(a@[i as int] == b@[i as int]);
                }
            }
            return false;
        }
        i = i + 1;
    }
    proof {
        assert(a@ =~= b@);
    }
    true
}

/// Whether a character counts as whitespace for trimming.
pub fn is_space_exec(c: char) -> (r: bool)
    ensures
        r == is_space(c),
{
    c == ' ' || c == '\t' || c == '\r' || c == '\n'
}

/// Splits a string on a delimiter character, keeping empty parts.
pub fn split_str(s: &str, d: char) -> (parts: Vec<String>)
    ensures
        views_of(parts@) == split_seq(s@, d),
{
    let n = s.unicode_len();
    let mut parts: Vec<String> = Vec::new();
    let mut cur: String = String::new();
    let mut i: usize = 0;
    proof {
        assert(s@.subrange(0, n as int) =~= s@);
        lemma_split_seq_len(s@, d);
        assert(views_of(parts@) + shift_first(cur@, split_seq(s@, d)) =~~= split_seq(s@, d));
    }
    while i < n
        invariant
            n == s@.len(),
            i <= n,
            split_seq(s@, d) == views_of(parts@) + shift_first(
                cur@,
                split_seq(s@.subrange(i as int, n as int), d),
            ),
        decreases n - i,
    {
        let ghost rem = s@.subrange(i as int, n as int);
        let ghost rem2 = s@.subrange(i + 1, n as int);
        proof {
            assert(rem.drop_first() =~= rem2);
            lemma_split_seq_len(rem2, d);
        }
        let c = s.get_char(i);
        if c == d {
            let ghost old_parts = parts@;
            let ghost old_cur = cur@;
            parts.push(cur);
            cur = String::new();
            proof {
                let x = split_seq(rem2, d);
                assert(split_seq(rem, d) =~~= seq![Seq::<char>::empty()] + x);
                assert(shift_first(old_cur, seq![Seq::<char>::empty()] + x) =~~= seq![old_cur]
                    + x);
                assert(shift_first(cur@, x) =~~= x);
                assert(views_of(parts@) =~~= views_of(old_parts) + seq![old_cur]);
            }
        } else {
            let ghost old_cur = cur@;
            push_char(&mut cur, c);
            proof {
                let x = split_seq(rem2, d);
                assert(split_seq(rem, d) =~~= seq![seq![c] + x[0]] + x.drop_first());
                assert(shift_first(old_cur, split_seq(rem, d)) =~~= seq![old_cur + seq![c] + x[0]]
                    + x.drop_first());
                assert(shift_first(cur@, x) =~~= seq![old_cur + seq![c] + x[0]] + x.drop_first());
            }
        }
        i = i + 1;
    }
    proof {
        assert(s@.subrange(n as int, n as int) =~= Seq::<char>::empty());
        assert(shift_first(cur@, split_seq(Seq::<char>::empty(), d)) =~~= seq![cur@]);
    }
    let ghost old_parts = parts@;
    let ghost old_cur = cur@;
    parts.push(cur);
    proof {
        assert(views_of(parts@) =~~= views_of(old_parts) + seq![old_cur]);
    }
    parts
}

/// Returns the string with a trailing carriage return removed.
pub fn strip_cr_str(l: &String) -> (r: String)
    ensures
        r@ == strip_cr(l@),
{
    let nl = l.as_str().unicode_len();
    if nl > 0 && l.as_str().get_char(nl - 1) == '\r' {
        let kept = l.as_str().substring_char(0, nl - 1);
        proof {
            assert(kept@ =~= l@.drop_last());
        }
        kept.to_owned()
    } else {
        l.clone()
    }
}

/// Splits a text into its lines: parts between newlines, a final newline
/// producing no extra empty line, carriage returns before newlines stripped.
pub fn split_lines(s: &str) -> (r: Vec<String>)
    ensures
        views_of(r@) == lines_of(s@),
{
    let mut parts = split_str(s, '\n');
    let n = s.unicode_len();
    let ghost raw = split_seq(s@, '\n');
    proof {
        lemma_split_seq_len(s@, '\n');
    }
    if n == 0 || s.get_char(n - 1) == '\n' {
        let ghost before = parts@;
        parts.pop();
        proof {
            assert(views_of(parts@) =~~= raw.drop_last());
        }
    }
    let ghost kept = views_of(parts@);
    let mut out: Vec<String> = Vec::new();
    let mut i: usize = 0;
    while i < parts.len()
        invariant
            i <= parts@.len(),
            views_of(parts@) == kept,
            out@.len() == i,
            forall|j: int| 0 <= j < i ==> out@[j]@ == strip_cr(kept[j]),
        decreases parts@.len() - i,
    {
        let line = strip_cr_str(&parts[i]);
        out.push(line);
        i = i + 1;
    }
    proof {
        assert(views_of(out@) =~~= kept.map_values(|l: Seq<char>| strip_cr(l)));
        assert(views_of(out@) =~~= lines_of(s@));
    }
    out
}

/// Returns the string with whitespace removed from both ends.
pub fn trim_str(s: &str) -> (r: String)
    ensures
        r@ == trim_seq(s@),
    decreases s@.len(),
{
    let n = s.unicode_len();
    if n == 0 {
        String::new()
    } else if is_space_exec(s.get_char(0)) {
        let rest = s.substring_char(1, n);
        proof {
            assert(rest@ =~= s@.drop_first());
        }
        trim_str(rest)
    } else if is_space_exec(s.get_char(n - 1)) {
        let rest = s.substring_char(0, n - 1);
        proof {
            assert(rest@ =~= s@.drop_last());
        }
        trim_str(rest)
    } else {
        s.to_owned()
    }
}

} // verus!
