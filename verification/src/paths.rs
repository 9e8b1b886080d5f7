//! Path-string utilities: splitting a root-relative path into its
//! directory prefix and file name, and a file name into stem and
//! extension.  Paths are `/`-separated strings; the extension is the
//! portion of the file name after the final `.`, except that a leading
//! `.` (a hidden file) does not begin an extension.

use vstd::prelude::*;
use vstd::string::*;

verus! {

/// Character-for-character equality of two strings.
pub fn str_eq(a: &str, b: &str) -> (r: bool)
    ensures
        r == (a@ == b@),
{
    let alen = a.unicode_len();
    let blen = b.unicode_len();
    if alen != blen {
        return false;
    }
    let mut i: usize = 0;
    while i < alen
        invariant
            alen == a@.len(),
            blen == b@.len(),
            alen == blen,
            i <= alen,
            forall|j: int| 0 <= j < i ==> a@[j] == b@[j],
        decreases alen - i,
    {
        if a.get_char(i) != b.get_char(i) {
            return false;
        }
        i += 1;
    }
    proof {
        assert(a@ =~= b@);
    }
    true
}

/// The largest index at which `c` occurs in `s`, or `-1` when it does
/// not occur at all.
pub open spec fn last_index_of_char(s: Seq<char>, c: char) -> int
    decreases s.len(),
{
    if s.len() == 0 {
        -1
    } else if s[s.len() - 1] == c {
        s.len() - 1
    } else {
        last_index_of_char(s.drop_last(), c)
    }
}

/// `last_index_of_char` returns an in-range index of `c` after which `c`
/// does not occur again, or `-1` when `c` does not occur.
pub proof fn lemma_last_index_of_char(s: Seq<char>, c: char)
    ensures
        -1 <= last_index_of_char(s, c) < s.len(),
        last_index_of_char(s, c) >= 0 ==> s[last_index_of_char(s, c)] == c,
        forall|j: int| last_index_of_char(s, c) < j < s.len() ==> s[j] != c,
    decreases s.len(),
{
    if s.len() > 0 && s[s.len() - 1] != c {
        lemma_last_index_of_char(s.drop_last(), c);
        assert(forall|j: int| 0 <= j < s.len() - 1 ==> s.drop_last()[j] == s[j]);
    }
}

/// Appending characters other than `c` does not move the last occurrence
/// of `c`.
pub proof fn lemma_last_index_append(s1: Seq<char>, s2: Seq<char>, c: char)
    requires
        forall|j: int| 0 <= j < s2.len() ==> s2[j] != c,
    ensures
        last_index_of_char(s1 + s2, c) == last_index_of_char(s1, c),
    decreases s2.len(),
{
    if s2.len() == 0 {
        assert(s1 + s2 =~= s1);
    } else {
        let t = s1 + s2;
        assert(t[t.len() - 1] == s2[s2.len() - 1]);
        assert(t.drop_last() =~= s1 + s2.drop_last());
        lemma_last_index_append(s1, s2.drop_last(), c);
    }
}

/// The largest index at which `c` occurs in `s`, if any.
pub fn last_index_of(s: &str, c: char) -> (r: Option<usize>)
    ensures
        (r is Some) == (last_index_of_char(s@, c) >= 0),
        r matches Some(i) ==> i == last_index_of_char(s@, c),
{
    let len = s.unicode_len();
    let mut i: usize = len;
    while i > 0
        invariant
            len == s@.len(),
            i <= len,
            forall|j: int| i <= j < len ==> s@[j] != c,
        decreases i,
    {
        i -= 1;
        if s.get_char(i) == c {
            proof {
                lemma_last_index_of_char(s@, c);
            }
            return Some(i);
        }
    }
    proof {
        lemma_last_index_of_char(s@, c);
    }
    None
}

/// The file-name component of a `/`-separated path: everything after
/// the final `/`, or the whole path when there is no `/`.  Empty when
/// the path ends in `/`.
pub open spec fn file_name_spec(path: Seq<char>) -> Seq<char> {
    path.subrange(last_index_of_char(path, '/') + 1, path.len() as int)
}

/// Whether a path has a non-empty file-name component.
pub open spec fn has_file_name(path: Seq<char>) -> bool {
    file_name_spec(path).len() > 0
}

/// The directory prefix of a `/`-separated path, including the final
/// `/`; empty when the path has no `/`.
pub open spec fn dir_prefix_spec(path: Seq<char>) -> Seq<char> {
    path.subrange(0, last_index_of_char(path, '/') + 1)
}

/// The extension of a file name: the portion after the final `.`, or
/// none when the name has no `.` or only a leading one.
pub open spec fn extension_spec(name: Seq<char>) -> Option<Seq<char>> {
    let i = last_index_of_char(name, '.');
    if i <= 0 {
        None
    } else {
        Some(name.subrange(i + 1, name.len() as int))
    }
}

/// The file-name component of `path`, as an owned string.
pub fn file_name_of(path: &str) -> (r: String)
    ensures
        r@ == file_name_spec(path@),
{
    let len = path.unicode_len();
    match last_index_of(path, '/') {
        Some(i) => {
            proof {
                lemma_last_index_of_char(path@, '/');
            }
            String::from_str(path.substring_char(i + 1, len))
        },
        None => {
            proof {
                lemma_last_index_of_char(path@, '/');
                assert(path@.subrange(0, path@.len() as int) =~= path@);
            }
            String::from_str(path)
        },
    }
}

/// The directory prefix of `path` (including the final `/`), as an
/// owned string; empty when `path` has no `/`.
pub fn dir_prefix_of(path: &str) -> (r: String)
    ensures
        r@ == dir_prefix_spec(path@),
{
    let len = path.unicode_len();
    match last_index_of(path, '/') {
        Some(i) => {
            proof {
                lemma_last_index_of_char(path@, '/');
            }
            String::from_str(path.substring_char(0, i + 1))
        },
        None => {
            proof {
                lemma_last_index_of_char(path@, '/');
                assert(path@.subrange(0, 0) =~= Seq::<char>::empty());
            }
            String::new()
        },
    }
}

/// The extension of the file name `name`, if it has one.
pub fn extension_of(name: &str) -> (r: Option<String>)
    ensures
        (r is Some) == (extension_spec(name@) is Some),
        r matches Some(e) ==> extension_spec(name@) == Some(e@),
{
    let len = name.unicode_len();
    match last_index_of(name, '.') {
        Some(i) => {
            if i == 0 {
                None
            } else {
                proof {
                    lemma_last_index_of_char(name@, '.');
                }
                Some(String::from_str(name.substring_char(i + 1, len)))
            }
        },
        None => None,
    }
}

/// An extension never contains a `.`: it is what follows the final one.
pub proof fn lemma_extension_has_no_dot(name: Seq<char>, e: Seq<char>)
    requires
        extension_spec(name) == Some(e),
    ensures
        forall|j: int| 0 <= j < e.len() ==> e[j] != '.',
{
    lemma_last_index_of_char(name, '.');
}

/// A file name never contains a `/`: it is what follows the final one.
pub proof fn lemma_file_name_has_no_slash(path: Seq<char>)
    ensures
        forall|j: int| 0 <= j < file_name_spec(path).len() ==> file_name_spec(path)[j] != '/',
{
    lemma_last_index_of_char(path, '/');
}

} // verus!
