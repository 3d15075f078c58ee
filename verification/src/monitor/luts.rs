//! The LUT menu: the built-in looks the core ships, and the operator's own `.cube`
//! files in a folder. `.cube` only, case-insensitive order, and no name that could
//! leave the folder.

use vstd::prelude::*;

use crate::camera::types::ascii_lower;
use crate::text::{
    chars_of, contains_char, ends_with, lemma_lex_not_lt_transitive, lemma_lex_strict_total,
    lex_less, lex_lt, spec_ends_with, str_eq,
};

verus! {

/// What the operator picked.
#[derive(Debug, Clone, PartialEq, Eq)]
pub enum LutChoice {
    Off,
    /// One of the core's official Rec.709 cubes, by name.
    BuiltIn(String),
    /// A `.cube` in the custom folder, by file name.
    File(String),
}

impl Default for LutChoice {
    fn default() -> (choice: Self)
        ensures
            choice is Off,
    {
        LutChoice::Off
    }
}

/// The names the LUT row offers.
#[derive(Debug, Clone, PartialEq, Eq, Default)]
pub struct LutMenu {
    pub builtin: Vec<String>,
    pub custom: Vec<String>,
    /// Where the custom cubes are read from, for the operator to drop files into.
    pub folder: String,
}

/// `text` in lower case, as `str::to_lowercase` folds it.
pub uninterp spec fn lowercased(text: Seq<char>) -> Seq<char>;

/// Every character is ASCII.
pub open spec fn all_ascii(text: Seq<char>) -> bool {
    forall|i: int| 0 <= i < text.len() ==> (text[i] as u32) < 128
}

/// `str::to_lowercase`. Claimed: the result depends on the text alone, and a text made
/// only of ASCII characters comes back with `A`..=`Z` turned into `a`..=`z` and every
/// other character as it was, since those letters are the only ASCII characters with a
/// Unicode lowercase mapping. Not stated: the mapping outside ASCII.
#[verifier::external_body]
fn lowercase(text: &str) -> (lower: String)
    ensures
        lower@ == lowercased(text@),
        all_ascii(text@) ==> lower@ == text@.map_values(|c: char| ascii_lower(c)),
{
    text.to_lowercase()
}

/// A name with no path in it: not empty, no `/`, `\` or `:`, and not `.` or `..`.
pub open spec fn safe_name(name: Seq<char>) -> bool {
    &&& name.len() > 0
    &&& !name.contains('/')
    &&& !name.contains('\\')
    &&& !name.contains(':')
    &&& name != "."@
    &&& name != ".."@
}

/// A cube file, in any case.
pub open spec fn is_cube(name: Seq<char>) -> bool {
    spec_ends_with(lowercased(name), ".cube"@)
}

/// Rejects path components so a hostile name cannot escape the folder.
pub fn is_safe_file_name(name: &str) -> (safe: bool)
    ensures
        safe == safe_name(name@),
{
    let chars = chars_of(name);
    proof {
        reveal_strlit(".");
        reveal_strlit("..");
    }
    chars.len() > 0 && !contains_char(chars.as_slice(), '/') && !contains_char(
        chars.as_slice(),
        '\\',
    ) && !contains_char(chars.as_slice(), ':') && !str_eq(name, ".") && !str_eq(name, "..")
}

fn is_cube_name(name: &str) -> (cube: bool)
    ensures
        cube == is_cube(name@),
        all_ascii(name@) ==> cube == spec_ends_with(
            name@.map_values(|c: char| ascii_lower(c)),
            ".cube"@,
        ),
{
    let lower = chars_of(lowercase(name).as_str());
    let suffix = chars_of(".cube");
    ends_with(lower.as_slice(), suffix.as_slice())
}

/// The name without a trailing `.cube`, any case.
pub fn display_name(file_name: &str) -> (shown: String)
    ensures
        is_cube(file_name@) && file_name@.len() >= 5 ==> shown@ == file_name@.subrange(
            0,
            file_name@.len() - 5,
        ),
        !(is_cube(file_name@) && file_name@.len() >= 5) ==> shown@ == file_name@,
        all_ascii(file_name@) ==> (is_cube(file_name@) <==> spec_ends_with(
            file_name@.map_values(|c: char| ascii_lower(c)),
            ".cube"@,
        )),
{
    let chars = chars_of(file_name);
    if is_cube_name(file_name) && chars.len() >= 5 {
        let kept = crate::text::prefix_of(chars.as_slice(), chars.len() - 5);
        crate::text::string_of(kept.as_slice())
    } else {
        crate::text::owned(file_name)
    }
}

/// The names kept for the menu.
pub open spec fn listed(name: String) -> bool {
    is_cube(name@) && safe_name(name@)
}

/// Where `name` goes among `ranked`: after every name whose lower case does not sort
/// after its own, counting from the back.
pub open spec fn cube_insert_point(ranked: Seq<String>, name: String) -> int
    decreases ranked.len(),
{
    if ranked.len() == 0 || !lex_lt(lowercased(name@), lowercased(ranked.last()@)) {
        ranked.len() as int
    } else {
        cube_insert_point(ranked.drop_last(), name)
    }
}

/// The names in case-insensitive order, stably.
pub open spec fn cube_order(names: Seq<String>) -> Seq<String>
    decreases names.len(),
{
    if names.len() == 0 {
        names
    } else {
        let earlier = cube_order(names.drop_last());
        earlier.insert(cube_insert_point(earlier, names.last()), names.last())
    }
}

/// No name is followed by one whose lower case sorts before its own.
pub open spec fn in_cube_order(names: Seq<String>) -> bool {
    forall|i: int, j: int|
        0 <= i < j < names.len() ==> !lex_lt(lowercased(names[j]@), lowercased(names[i]@))
}

/// Keeps only `.cube` entries with safe names, sorted case-insensitively; names that
/// fold the same keep the order they came in.
pub fn stored(names: Vec<String>) -> (cubes: Vec<String>)
    ensures
        cubes@ == cube_order(names@.filter(|name: String| listed(name))),
        in_cube_order(cubes@),
{
    let ghost keep = |name: String| listed(name);
    let mut kept: Vec<String> = Vec::new();
    let mut i: usize = 0;
    while i < names.len()
        invariant
            i <= names@.len(),
            keep == (|name: String| listed(name)),
            kept@ == names@.subrange(0, i as int).filter(keep),
        decreases names@.len() - i,
    {
        let name = &names[i];
        proof {
            assert(names@.subrange(0, i + 1) =~= names@.subrange(0, i as int).push(*name));
            names@.subrange(0, i as int).lemma_filter_push(*name, keep);
        }
        if is_cube_name(name.as_str()) && is_safe_file_name(name.as_str()) {
            kept.push(name.clone());
        }
        i = i + 1;
    }
    proof {
        assert(names@.subrange(0, i as int) =~= names@);
    }
    let mut out: Vec<String> = Vec::new();
    let mut keys: Vec<Vec<char>> = Vec::new();
    let mut j: usize = 0;
    while j < kept.len()
        invariant
            j <= kept@.len(),
            out@.len() == keys@.len(),
            forall|k: int| 0 <= k < keys@.len() ==> #[trigger] keys@[k]@ == lowercased(out@[k]@),
            out@ == cube_order(kept@.subrange(0, j as int)),
            in_cube_order(out@),
        decreases kept@.len() - j,
    {
        let name = kept[j].clone();
        let key = chars_of(lowercase(name.as_str()).as_str());
        let mut p: usize = out.len();
        proof {
            assert(out@.subrange(0, p as int) =~= out@);
        }
        while p > 0 && lex_less(key.as_slice(), keys[p - 1].as_slice())
            invariant
                p <= out@.len(),
                out@.len() == keys@.len(),
                forall|k: int|
                    0 <= k < keys@.len() ==> #[trigger] keys@[k]@ == lowercased(out@[k]@),
                key@ == lowercased(name@),
                forall|k: int|
                    p <= k < out@.len() ==> lex_lt(lowercased(name@), lowercased(#[trigger] out@[k]@)),
                cube_insert_point(out@, name) == cube_insert_point(out@.subrange(0, p as int), name),
            decreases p,
        {
            proof {
                assert(out@.subrange(0, p as int).drop_last() =~= out@.subrange(0, p - 1));
            }
            p = p - 1;
        }
        let ghost before = out@;
        let ghost before_keys = keys@;
        proof {
            if p > 0 {
                assert(!lex_lt(lowercased(name@), lowercased(before[p - 1]@)));
            }
            assert(cube_insert_point(before, name) == p);
            assert(kept@.subrange(0, j + 1).drop_last() =~= kept@.subrange(0, j as int));
        }
        out.insert(p, name);
        keys.insert(p, key);
        proof {
            assert forall|a: int, b: int| 0 <= a < b < out@.len() implies !lex_lt(
                lowercased(out@[b]@),
                lowercased(out@[a]@),
            ) by {
                if b < p {
                    assert(out@[a] == before[a] && out@[b] == before[b]);
                } else if b == p {
                    assert(out@[a] == before[a]);
                    if a < p - 1 {
                        assert(!lex_lt(lowercased(before[p - 1]@), lowercased(before[a]@)));
                        lemma_lex_not_lt_transitive(
                            lowercased(out@[b]@),
                            lowercased(before[p - 1]@),
                            lowercased(before[a]@),
                        );
                    }
                } else if a == p {
                    assert(out@[b] == before[b - 1]);
                    lemma_lex_strict_total(lowercased(out@[a]@), lowercased(before[b - 1]@));
                } else if a < p {
                    assert(out@[a] == before[a] && out@[b] == before[b - 1]);
                } else {
                    assert(out@[a] == before[a - 1] && out@[b] == before[b - 1]);
                }
            }
            assert forall|k: int| 0 <= k < keys@.len() implies #[trigger] keys@[k]@ == lowercased(
                out@[k]@,
            ) by {
                if k < p {
                    assert(keys@[k] == before_keys[k] && out@[k] == before[k]);
                } else if k > p {
                    assert(keys@[k] == before_keys[k - 1] && out@[k] == before[k - 1]);
                }
            }
        }
        j = j + 1;
    }
    proof {
        assert(kept@.subrange(0, j as int) =~= kept@);
    }
    out
}

} // verus!
