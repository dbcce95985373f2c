//! File-name logic: extracting the extension (the substring from the last
//! `.`, lower-cased), the base name (everything before the last `.`), and
//! the case-insensitive whitelist match.

use vstd::prelude::*;
use vstd::string::StrSliceExecFns;
use vstd::string::StringExecFns;
use crate::strings::lower_seq;

verus! {

/// The index of the last `'.'` in `s`, or `-1` if `s` holds none.
pub open spec fn last_dot(s: Seq<char>) -> int
    decreases s.len(),
{
    if s.len() == 0 {
        -1
    } else if s[s.len() - 1] == '.' {
        s.len() - 1
    } else {
        last_dot(s.drop_last())
    }
}

/// What `last_dot` returns: a valid index of a `'.'` after which no other
/// `'.'` occurs, or `-1` when the sequence holds no `'.'` at all.
pub proof fn lemma_last_dot(s: Seq<char>)
    ensures
        last_dot(s) >= 0 ==> 0 <= last_dot(s) < s.len() && s[last_dot(s)] == '.',
        last_dot(s) >= 0 ==> forall|j: int| last_dot(s) < j < s.len() ==> s[j] != '.',
        last_dot(s) < 0 ==> forall|j: int| 0 <= j < s.len() ==> s[j] != '.',
    decreases s.len(),
{
    if s.len() == 0 {
    } else if s[s.len() - 1] == '.' {
    } else {
        lemma_last_dot(s.drop_last());
        assert forall|j: int| 0 <= j < s.len() - 1 implies s[j] == s.drop_last()[j] by {}
    }
}

/// The matched extension of a file name: the substring from the last `.`,
/// ASCII-lower-cased; `None` when the name holds no `.`.
pub open spec fn spec_extension(s: Seq<char>) -> Option<Seq<char>> {
    if last_dot(s) >= 0 {
        Some(lower_seq(s.subrange(last_dot(s), s.len() as int)))
    } else {
        None
    }
}

/// The base name of a file name: everything before the last `.`, or the
/// whole name when it holds no `.`.
pub open spec fn spec_base_name(s: Seq<char>) -> Seq<char> {
    if last_dot(s) >= 0 {
        s.subrange(0, last_dot(s))
    } else {
        s
    }
}

/// The view of an optional string.
pub open spec fn view_opt(r: Option<String>) -> Option<Seq<char>> {
    match r {
        Some(e) => Some(e@),
        None => None,
    }
}

/// Whether extension `e` matches a whitelist entry, compared
/// case-insensitively over ASCII.
pub open spec fn spec_ext_match(e: Seq<char>, exts: Seq<Seq<char>>) -> bool {
    exists|i: int| 0 <= i < exts.len() && lower_seq(exts[i]) == lower_seq(e)
}

/// Extension matching is case-insensitive: two extensions that agree up to
/// ASCII case match exactly the same whitelists.
pub proof fn lemma_ext_match_case_insensitive(e1: Seq<char>, e2: Seq<char>, exts: Seq<Seq<char>>)
    requires
        lower_seq(e1) == lower_seq(e2),
    ensures
        spec_ext_match(e1, exts) == spec_ext_match(e2, exts),
{
}

/// Matching a backup file to a source file reads only the base names: two
/// file names with the same base name match exactly the same source files,
/// whatever their extensions are.
pub proof fn lemma_match_ignores_extension(n1: Seq<char>, n2: Seq<char>, src: Seq<char>)
    requires
        spec_base_name(n1) == spec_base_name(n2),
    ensures
        (spec_base_name(n1) == spec_base_name(src)) == (spec_base_name(n2) == spec_base_name(src)),
{
}

/// Returns the position of the last `'.'` in `s`, if any.
pub fn find_last_dot(s: &str) -> (r: Option<usize>)
    ensures
        match r {
            Some(p) => last_dot(s@) == p,
            None => last_dot(s@) < 0,
        },
{
    let n = s.unicode_len();
    let mut found: Option<usize> = None;
    let mut i: usize = 0;
    proof {
        assert(s@.subrange(0, 0) =~= Seq::<char>::empty());
    }
    while i < n
        invariant
            n == s@.len(),
            i <= n,
            match found {
                Some(p) => last_dot(s@.subrange(0, i as int)) == p,
                None => last_dot(s@.subrange(0, i as int)) < 0,
            },
        decreases n - i,
    {
        let c = s.get_char(i);
        proof {
            assert(s@.subrange(0, i + 1).drop_last() =~= s@.subrange(0, i as int));
            assert(s@.subrange(0, i + 1)[i as int] == s@[i as int]);
        }
        if c == '.' {
            found = Some(i);
        }
        i = i + 1;
    }
    proof {
        assert(s@.subrange(0, n as int) =~= s@);
    }
    found
}

/// Returns the lower-cased extension of `file_name` (including the dot), or
/// `None` when the name holds no `.`.
pub fn extract_extension(file_name: &str) -> (r: Option<String>)
    ensures
        view_opt(r) == spec_extension(file_name@),
{
    let n = file_name.unicode_len();
    match find_last_dot(file_name) {
        Some(p) => {
            proof {
                lemma_last_dot(file_name@);
            }
            let tail = file_name.substring_char(p, n);
            Some(crate::strings::to_ascii_lower(tail))
        },
        None => None,
    }
}

/// Returns the base name of `file_name`: everything before the last `.`,
/// or the whole name when it holds no `.`.
pub fn extract_name_without_ext(file_name: &str) -> (r: String)
    ensures
        r@ == spec_base_name(file_name@),
{
    let n = file_name.unicode_len();
    match find_last_dot(file_name) {
        Some(p) => {
            proof {
                lemma_last_dot(file_name@);
            }
            let head = file_name.substring_char(0, p);
            String::from_str(head)
        },
        None => String::from_str(file_name),
    }
}

/// Whether two file names share the same base name (exact, case-sensitive
/// comparison of everything before the last `.`).
pub fn name_matches(file1: &str, file2: &str) -> (r: bool)
    ensures
        r == (spec_base_name(file1@) == spec_base_name(file2@)),
{
    let b1 = extract_name_without_ext(file1);
    let b2 = extract_name_without_ext(file2);
    b1 == b2
}

/// Whether `ext` matches some entry of the whitelist, case-insensitively.
pub fn is_extension_match(ext: &str, extensions: &Vec<String>) -> (r: bool)
    ensures
        r == spec_ext_match(ext@, extensions@.map_values(|s: String| s@)),
{
    let ghost exts = extensions@.map_values(|s: String| s@);
    let n = extensions.len();
    let mut i: usize = 0;
    while i < n
        invariant
            n == extensions.len(),
            i <= n,
            exts == extensions@.map_values(|s: String| s@),
            forall|j: int| 0 <= j < i ==> lower_seq(exts[j]) != lower_seq(ext@),
        decreases n - i,
    {
        if crate::strings::eq_ignore_case(extensions[i].as_str(), ext) {
            proof {
                assert(exts[i as int] == extensions@[i as int]@);
            }
            return true;
        }
        proof {
            assert(exts[i as int] == extensions@[i as int]@);
        }
        i = i + 1;
    }
    false
}

} // verus!
