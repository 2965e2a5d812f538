//! Verified text helpers: whitespace trimming and joining fragments with
//! newline separators.  All request-content normalization is stated over
//! these spec functions.

use vstd::prelude::*;

verus! {

/// The characters treated as whitespace when trimming content fragments.
pub open spec fn is_space(c: char) -> bool {
    c == ' ' || c == '\t' || c == '\n' || c == '\r'
}

/// `s` with its leading whitespace removed.
pub open spec fn trim_start(s: Seq<char>) -> Seq<char>
    decreases s.len(),
{
    if s.len() == 0 {
        s
    } else if is_space(s[0]) {
        trim_start(s.drop_first())
    } else {
        s
    }
}

/// `s` with its trailing whitespace removed.
pub open spec fn trim_end(s: Seq<char>) -> Seq<char>
    decreases s.len(),
{
    if s.len() == 0 {
        s
    } else if is_space(s.last()) {
        trim_end(s.drop_last())
    } else {
        s
    }
}

/// `s` with leading and trailing whitespace removed.
pub open spec fn trim(s: Seq<char>) -> Seq<char> {
    trim_end(trim_start(s))
}

/// A fragment is blank when nothing is left of it after trimming.
pub open spec fn is_blank(s: Seq<char>) -> bool {
    trim(s).len() == 0
}

fn is_space_char(c: char) -> (b: bool)
    ensures
        b == is_space(c),
{
    c == ' ' || c == '\t' || c == '\n' || c == '\r'
}

/// Remove leading and trailing whitespace from `s`.
pub fn trim_str(s: &str) -> (r: String)
    ensures
        r@ == trim(s@),
{
    let n = s.unicode_len();
    let mut i: usize = 0;
    proof {
        assert(s@.skip(0) =~= s@);
    }
    while i < n && is_space_char(s.get_char(i))
        invariant
            n == s@.len(),
            i <= n,
            trim_start(s@) == trim_start(s@.skip(i as int)),
        decreases n - i,
    {
        proof {
            assert(s@.skip(i as int).drop_first() =~= s@.skip(i as int + 1));
        }
        i = i + 1;
    }
    proof {
        if i < n {
            assert(trim_start(s@.skip(i as int)) == s@.skip(i as int));
        }
        assert(trim_start(s@) == s@.skip(i as int));
    }
    let mut j: usize = n;
    while j > i && is_space_char(s.get_char(j - 1))
        invariant
            n == s@.len(),
            i <= j <= n,
            trim_end(s@.skip(i as int)) == trim_end(s@.subrange(i as int, j as int)),
        decreases j,
    {
        proof {
            assert(s@.subrange(i as int, j as int).drop_last() =~= s@.subrange(
                i as int,
                j as int - 1,
            ));
        }
        j = j - 1;
    }
    proof {
        assert(trim_end(s@.subrange(i as int, j as int)) == s@.subrange(i as int, j as int));
    }
    let out = s.substring_char(i, j);
    out.to_owned()
}

/// Whether `s` trims to the empty string.
pub fn is_blank_str(s: &str) -> (b: bool)
    ensures
        b == is_blank(s@),
{
    let t = trim_str(s);
    t.as_str().unicode_len() == 0
}

/// Whether two strings are equal as character sequences.
pub fn str_eq(s: &str, t: &str) -> (b: bool)
    ensures
        b == (s@ == t@),
{
    let n = s.unicode_len();
    if n != t.unicode_len() {
        return false;
    }
    let mut i: usize = 0;
    while i < n
        invariant
            n == s@.len(),
            n == t@.len(),
            i <= n,
            forall|j: int| 0 <= j < i ==> s@[j] == t@[j],
        decreases n - i,
    {
        if s.get_char(i) != t.get_char(i) {
            return false;
        }
        i = i + 1;
    }
    proof {
        assert(s@ =~= t@);
    }
    true
}

/// The given parts joined with a single newline between consecutive parts.
pub open spec fn join_lines_spec(parts: Seq<Seq<char>>) -> Seq<char>
    decreases parts.len(),
{
    if parts.len() == 0 {
        Seq::empty()
    } else if parts.len() == 1 {
        parts[0]
    } else {
        join_lines_spec(parts.drop_last()) + "\n"@ + parts.last()
    }
}

/// Prepending one part to a non-empty join inserts one newline after it.
pub proof fn lemma_join_lines_cons(x: Seq<char>, parts: Seq<Seq<char>>)
    requires
        parts.len() > 0,
    ensures
        join_lines_spec(seq![x] + parts) == x + "\n"@ + join_lines_spec(parts),
    decreases parts.len(),
{
    let whole = seq![x] + parts;
    if parts.len() == 1 {
        assert(whole.drop_last() =~= seq![x]);
        assert(whole.last() == parts[0]);
        assert(join_lines_spec(seq![x]) == x);
    } else {
        assert(whole.drop_last() =~= seq![x] + parts.drop_last());
        lemma_join_lines_cons(x, parts.drop_last());
        assert(whole.last() == parts.last());
        assert((x + "\n"@ + join_lines_spec(parts.drop_last())) + "\n"@ + parts.last() =~= x
            + "\n"@ + (join_lines_spec(parts.drop_last()) + "\n"@ + parts.last()));
    }
}

/// Join the parts with newline separators.
pub fn join_lines(parts: &Vec<String>) -> (r: String)
    ensures
        r@ == join_lines_spec(parts@.map_values(|p: String| p@)),
{
    let ghost all = parts@.map_values(|p: String| p@);
    let mut r = String::new();
    let mut k: usize = 0;
    while k < parts.len()
        invariant
            all == parts@.map_values(|p: String| p@),
            k <= parts@.len(),
            r@ == join_lines_spec(all.take(k as int)),
        decreases parts@.len() - k,
    {
        if k > 0 {
            r.append("\n");
        }
        r.append(parts[k].as_str());
        proof {
            assert(all.take(k as int + 1).drop_last() =~= all.take(k as int));
            assert(all.take(k as int + 1).last() == all[k as int]);
        }
        k = k + 1;
    }
    proof {
        assert(all.take(parts@.len() as int) =~= all);
    }
    r
}

} // verus!
