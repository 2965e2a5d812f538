//! Model-name normalization and the static model catalog.
//!
//! A requested model name is matched case-insensitively against a small
//! alias table of known external model names; unknown names pass through
//! unchanged, so the mapping is pure and total.

use vstd::prelude::*;

verus! {

/// ASCII lowercasing of a single character; every other character is kept.
pub open spec fn lower_char(c: char) -> char {
    if c == 'A' {
        'a'
    } else if c == 'B' {
        'b'
    } else if c == 'C' {
        'c'
    } else if c == 'D' {
        'd'
    } else if c == 'E' {
        'e'
    } else if c == 'F' {
        'f'
    } else if c == 'G' {
        'g'
    } else if c == 'H' {
        'h'
    } else if c == 'I' {
        'i'
    } else if c == 'J' {
        'j'
    } else if c == 'K' {
        'k'
    } else if c == 'L' {
        'l'
    } else if c == 'M' {
        'm'
    } else if c == 'N' {
        'n'
    } else if c == 'O' {
        'o'
    } else if c == 'P' {
        'p'
    } else if c == 'Q' {
        'q'
    } else if c == 'R' {
        'r'
    } else if c == 'S' {
        's'
    } else if c == 'T' {
        't'
    } else if c == 'U' {
        'u'
    } else if c == 'V' {
        'v'
    } else if c == 'W' {
        'w'
    } else if c == 'X' {
        'x'
    } else if c == 'Y' {
        'y'
    } else if c == 'Z' {
        'z'
    } else {
        c
    }
}

/// ASCII lowercasing of a character sequence.
pub open spec fn lower_seq(s: Seq<char>) -> Seq<char> {
    s.map_values(|c: char| lower_char(c))
}

fn lower_char_x(c: char) -> (r: char)
    ensures
        r == lower_char(c),
{
    match c {
        'A' => 'a',
        'B' => 'b',
        'C' => 'c',
        'D' => 'd',
        'E' => 'e',
        'F' => 'f',
        'G' => 'g',
        'H' => 'h',
        'I' => 'i',
        'J' => 'j',
        'K' => 'k',
        'L' => 'l',
        'M' => 'm',
        'N' => 'n',
        'O' => 'o',
        'P' => 'p',
        'Q' => 'q',
        'R' => 'r',
        'S' => 's',
        'T' => 't',
        'U' => 'u',
        'V' => 'v',
        'W' => 'w',
        'X' => 'x',
        'Y' => 'y',
        'Z' => 'z',
        _ => c,
    }
}

/// Whether `s`, lowercased, equals `key`.
fn matches_ignore_case(s: &str, key: &str) -> (b: bool)
    ensures
        b == (lower_seq(s@) == key@),
{
    let n = s.unicode_len();
    if n != key.unicode_len() {
        proof {
            assert(lower_seq(s@).len() == s@.len());
        }
        return false;
    }
    let mut i: usize = 0;
    while i < n
        invariant
            n == s@.len(),
            n == key@.len(),
            i <= n,
            forall|j: int| 0 <= j < i ==> lower_char(s@[j]) == key@[j],
        decreases n - i,
    {
        if lower_char_x(s.get_char(i)) != key.get_char(i) {
            proof {
                assert(lower_seq(s@)[i as int] == lower_char(s@[i as int]));
            }
            return false;
        }
        i = i + 1;
    }
    proof {
        assert(lower_seq(s@) =~= key@);
    }
    true
}

/// The alias table: the canonical spelling of each known external model
/// name, keyed by its lowercase form.
pub open spec fn model_alias(lower: Seq<char>) -> Option<Seq<char>> {
    if lower == "gpt-4.1"@ {
        Some("gpt-4.1"@)
    } else if lower == "gpt-4.1-mini"@ {
        Some("gpt-4.1-mini"@)
    } else if lower == "gpt-4o"@ {
        Some("gpt-4o"@)
    } else if lower == "gpt-4o-mini"@ {
        Some("gpt-4o-mini"@)
    } else if lower == "o3-mini"@ {
        Some("o3-mini"@)
    } else if lower == "o1-mini"@ {
        Some("o1-mini"@)
    } else if lower == "o1-preview"@ {
        Some("o1-preview"@)
    } else {
        None
    }
}

/// The normalized model name: the canonical spelling when the name matches
/// the alias table case-insensitively, otherwise the name unchanged.
pub open spec fn spec_map_model(s: Seq<char>) -> Seq<char> {
    match model_alias(lower_seq(s)) {
        Some(v) => v,
        None => s,
    }
}

/// Normalize a requested model name through the alias table.
pub fn map_model(model: &str) -> (r: String)
    ensures
        r@ == spec_map_model(model@),
{
    proof {
        reveal_strlit("gpt-4.1");
        reveal_strlit("gpt-4.1-mini");
        reveal_strlit("gpt-4o");
        reveal_strlit("gpt-4o-mini");
        reveal_strlit("o3-mini");
        reveal_strlit("o1-mini");
        reveal_strlit("o1-preview");
    }
    if matches_ignore_case(model, "gpt-4.1") {
        String::from_str("gpt-4.1")
    } else if matches_ignore_case(model, "gpt-4.1-mini") {
        String::from_str("gpt-4.1-mini")
    } else if matches_ignore_case(model, "gpt-4o") {
        String::from_str("gpt-4o")
    } else if matches_ignore_case(model, "gpt-4o-mini") {
        String::from_str("gpt-4o-mini")
    } else if matches_ignore_case(model, "o3-mini") {
        String::from_str("o3-mini")
    } else if matches_ignore_case(model, "o1-mini") {
        String::from_str("o1-mini")
    } else if matches_ignore_case(model, "o1-preview") {
        String::from_str("o1-preview")
    } else {
        model.to_owned()
    }
}

/// One entry of the static model catalog.
pub struct ModelEntry {
    pub id: String,
    pub object: String,
    pub owned_by: String,
}

fn catalog_entry(id: &str) -> (r: ModelEntry)
    ensures
        r.id@ == id@,
        r.object@ == "model"@,
        r.owned_by@ == "codex"@,
{
    ModelEntry {
        id: id.to_owned(),
        object: String::from_str("model"),
        owned_by: String::from_str("codex"),
    }
}

/// The fixed catalog of model identifiers this adapter advertises.
pub fn model_catalog() -> (r: Vec<ModelEntry>)
    ensures
        r@.len() == 8,
        r@[0].id@ == "gpt-4.1"@,
        r@[1].id@ == "gpt-4.1-mini"@,
        r@[2].id@ == "gpt-4o"@,
        r@[3].id@ == "gpt-4o-mini"@,
        r@[4].id@ == "gpt-5-mini"@,
        r@[5].id@ == "o3-mini"@,
        r@[6].id@ == "o1-mini"@,
        r@[7].id@ == "o1-preview"@,
        forall|i: int| 0 <= i < 8 ==> (#[trigger] r@[i].object)@ == "model"@,
        forall|i: int| 0 <= i < 8 ==> (#[trigger] r@[i].owned_by)@ == "codex"@,
{
    let mut r: Vec<ModelEntry> = Vec::new();
    r.push(catalog_entry("gpt-4.1"));
    r.push(catalog_entry("gpt-4.1-mini"));
    r.push(catalog_entry("gpt-4o"));
    r.push(catalog_entry("gpt-4o-mini"));
    r.push(catalog_entry("gpt-5-mini"));
    r.push(catalog_entry("o3-mini"));
    r.push(catalog_entry("o1-mini"));
    r.push(catalog_entry("o1-preview"));
    r
}

} // verus!
