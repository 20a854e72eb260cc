//! Path strings: file names, stems, extensions, and the configuration
//! file name that marks the key file.
//!
//! Paths are plain strings with `/` as the separator; a path's file name
//! is everything after the last `/`, its extension everything after the
//! last `.` of the file name, provided that dot is not the first
//! character of the name.

use vstd::prelude::*;

verus! {

/// Index of the last occurrence of `c` in `s`, or `-1` if `c` does not occur.
pub open spec fn last_index_of(s: Seq<char>, c: char) -> int
    decreases s.len(),
{
    if s.len() == 0 {
        -1
    } else if s[s.len() - 1] == c {
        s.len() - 1
    } else {
        last_index_of(s.drop_last(), c)
    }
}

pub proof fn lemma_last_index_of(s: Seq<char>, c: char)
    ensures
        -1 <= last_index_of(s, c) < s.len(),
        last_index_of(s, c) >= 0 ==> s[last_index_of(s, c)] == c,
        forall|j: int| last_index_of(s, c) < j < s.len() ==> s[j] != c,
    decreases s.len(),
{
    if s.len() == 0 {
    } else if s[s.len() - 1] == c {
    } else {
        lemma_last_index_of(s.drop_last(), c);
        assert forall|j: int| last_index_of(s, c) < j < s.len() implies s[j] != c by {
            if j < s.len() - 1 {
                assert(s.drop_last()[j] == s[j]);
            }
        }
    }
}

/// The last occurrence is the only position with `c` and nothing but
/// non-`c` characters after it.
pub proof fn lemma_last_index_of_unique(s: Seq<char>, c: char, i: int)
    requires
        0 <= i < s.len(),
        s[i] == c,
        forall|j: int| i < j < s.len() ==> s[j] != c,
    ensures
        last_index_of(s, c) == i,
{
    lemma_last_index_of(s, c);
    let li = last_index_of(s, c);
    if li < i {
        assert(s[i] != c);
    } else if li > i {
        assert(s[li] != c);
    }
}

/// Everything after the last `/`; the whole path if it has no `/`.
pub open spec fn spec_file_name(p: Seq<char>) -> Seq<char> {
    p.subrange(last_index_of(p, '/') + 1, p.len() as int)
}

/// Everything before the last `/`; `.` if the path has no `/`.
pub open spec fn spec_parent(p: Seq<char>) -> Seq<char> {
    if last_index_of(p, '/') >= 0 {
        p.subrange(0, last_index_of(p, '/'))
    } else {
        "."@
    }
}

/// The file name without its extension; the whole name when the name has
/// no `.`, or when its only `.` is the leading character.
pub open spec fn spec_stem(p: Seq<char>) -> Seq<char> {
    let name = spec_file_name(p);
    let d = last_index_of(name, '.');
    if d > 0 {
        name.subrange(0, d)
    } else {
        name
    }
}

/// The part of the file name after its last `.`, absent when the name has
/// no `.` past the first character.
pub open spec fn spec_extension(p: Seq<char>) -> Option<Seq<char>> {
    let name = spec_file_name(p);
    let d = last_index_of(name, '.');
    if d > 0 {
        Some(name.subrange(d + 1, name.len() as int))
    } else {
        None
    }
}

/// The two accepted spellings of the key configuration file's name.
pub open spec fn is_config_name(name: Seq<char>) -> bool {
    name == "System.json"@ || name == "system.json"@
}

/// Character-for-character string equality.
pub fn str_eq(a: &str, b: &str) -> (r: bool)
    ensures
        r == (a@ == b@),
{
    let alen = a.unicode_len();
    let blen = b.unicode_len();
    if alen != blen {
        return false;
    }
    let mut i: usize = 0;
    while i < alen
        invariant
            i <= alen,
            alen == a@.len(),
            alen == b@.len(),
            forall|j: int| 0 <= j < i ==> a@[j] == b@[j],
        decreases alen - i,
    {
        if a.get_char(i) != b.get_char(i) {
            return false;
        }
        i = i + 1;
    }
    proof {
        assert(a@ =~= b@);
    }
    true
}

/// Whether `name` is a spelling of the key configuration file's name.
pub fn is_config_file_name(name: &str) -> (r: bool)
    ensures
        r == is_config_name(name@),
{
    str_eq(name, "System.json") || str_eq(name, "system.json")
}

/// Position of the last `c` in `s`, `None` when `c` does not occur.
pub fn last_char_index(s: &str, c: char) -> (r: Option<usize>)
    ensures
        match r {
            Some(i) => i < s@.len() && last_index_of(s@, c) == i as int,
            None => last_index_of(s@, c) == -1,
        },
{
    let mut i: usize = s.unicode_len();
    loop
        invariant
            i <= s@.len(),
            forall|j: int| i <= j < s@.len() ==> s@[j] != c,
        decreases i,
    {
        if i == 0 {
            proof {
                lemma_last_index_of(s@, c);
            }
            return None;
        }
        i = i - 1;
        if s.get_char(i) == c {
            proof {
                lemma_last_index_of_unique(s@, c, i as int);
            }
            return Some(i);
        }
    }
}

/// The file name of `path`: everything after its last `/`.
pub fn file_name(path: &str) -> (r: String)
    ensures
        r@ == spec_file_name(path@),
{
    let len = path.unicode_len();
    match last_char_index(path, '/') {
        Some(i) => path.substring_char(i + 1, len).to_owned(),
        None => {
            let r = path.substring_char(0, len).to_owned();
            proof {
                assert(r@ =~= spec_file_name(path@));
            }
            r
        },
    }
}

/// The parent directory of `path`: everything before its last `/`, or `.`
/// when the path has no `/`.
pub fn parent_dir(path: &str) -> (r: String)
    ensures
        r@ == spec_parent(path@),
{
    match last_char_index(path, '/') {
        Some(i) => path.substring_char(0, i).to_owned(),
        None => String::from_str("."),
    }
}

/// The stem of `path`'s file name.
pub fn stem(path: &str) -> (r: String)
    ensures
        r@ == spec_stem(path@),
{
    let name = file_name(path);
    match last_char_index(name.as_str(), '.') {
        Some(i) => {
            if i > 0 {
                name.as_str().substring_char(0, i).to_owned()
            } else {
                name
            }
        },
        None => name,
    }
}

/// The extension of `path`'s file name, if it has one.
pub fn extension(path: &str) -> (r: Option<String>)
    ensures
        match r {
            Some(e) => spec_extension(path@) == Some(e@),
            None => spec_extension(path@) is None,
        },
{
    let name = file_name(path);
    let name_len = name.as_str().unicode_len();
    match last_char_index(name.as_str(), '.') {
        Some(i) => {
            if i > 0 {
                Some(name.as_str().substring_char(i + 1, name_len).to_owned())
            } else {
                None
            }
        },
        None => None,
    }
}

} // verus!
