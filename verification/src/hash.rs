//! Hashing and renaming: the content-addressing step.
//!
//! A file's new name is the lowercase hexadecimal BLAKE3 digest of its
//! final byte content, keeping the original extension when there is
//! one, and keeping the original directory prefix.  The step is total
//! and deterministic: identical final bytes always yield the identical
//! name, whatever the file was called or where it sat.

use crate::paths::{
    dir_prefix_of, dir_prefix_spec, extension_of, extension_spec, file_name_of, file_name_spec,
    last_index_of_char, lemma_extension_has_no_dot, lemma_file_name_has_no_slash,
    lemma_last_index_append, lemma_last_index_of_char,
};
use crate::File;
use vstd::prelude::*;
use vstd::string::*;

verus! {

/// The 64-character lowercase hexadecimal encoding of the 256-bit
/// BLAKE3 digest of `bytes`.
pub uninterp spec fn blake3_hex_of(bytes: Seq<u8>) -> Seq<char>;

/// A lowercase hexadecimal digit.
pub open spec fn is_lower_hex_digit(c: char) -> bool {
    ('0' as u32 <= c as u32 && c as u32 <= '9' as u32) || ('a' as u32 <= c as u32 && c as u32
        <= 'f' as u32)
}

/// Relies on `blake3::hash` and `blake3::Hash::to_hex`: the digest is a
/// function of the input bytes alone, and its hexadecimal form is 64
/// lowercase hex digits (two per digest byte).
#[verifier::external_body]
fn blake3_hex(bytes: &[u8]) -> (r: String)
    ensures
        r@ == blake3_hex_of(bytes@),
        r@.len() == 64,
        forall|i: int| 0 <= i < r@.len() ==> is_lower_hex_digit(#[trigger] r@[i]),
{
    String::from(blake3::hash(bytes).to_hex().as_str())
}

/// The hashed file name derived from final byte content and an original
/// file name: the hex digest alone when the name has no extension, and
/// `digest.ext` when it has one.
pub open spec fn hashed_name_spec(bytes: Seq<u8>, name: Seq<char>) -> Seq<char> {
    match extension_spec(name) {
        Some(e) => blake3_hex_of(bytes) + seq!['.'] + e,
        None => blake3_hex_of(bytes),
    }
}

/// The content-addressed path: the directory prefix of `path` kept, its
/// file name replaced by the hashed name.
pub open spec fn renamed_path_spec(bytes: Seq<u8>, path: Seq<char>) -> Seq<char> {
    dir_prefix_spec(path) + hashed_name_spec(bytes, file_name_spec(path))
}

/// Content-addressing determinism: identical final byte content and
/// extension yield the identical hashed name, whatever the rest of the
/// original name was.
pub proof fn lemma_hashed_name_deterministic(
    b1: Seq<u8>,
    n1: Seq<char>,
    b2: Seq<u8>,
    n2: Seq<char>,
)
    requires
        b1 == b2,
        extension_spec(n1) == extension_spec(n2),
    ensures
        hashed_name_spec(b1, n1) == hashed_name_spec(b2, n2),
{
}

/// Structure of a renamed path: replacing the file name of `path` by a
/// string `h` free of `.` and `/` (plus the original extension, if any)
/// keeps the directory prefix, and the new name's extension is exactly
/// the old one.
proof fn lemma_rename_structure(h: Seq<char>, e_opt: Option<Seq<char>>, path: Seq<char>)
    requires
        h.len() > 0,
        forall|j: int| 0 <= j < h.len() ==> h[j] != '.' && h[j] != '/',
        e_opt == extension_spec(file_name_spec(path)),
    ensures
        ({
            let hashed = match e_opt {
                Some(e) => h + seq!['.'] + e,
                None => h,
            };
            let renamed = dir_prefix_spec(path) + hashed;
            &&& file_name_spec(renamed) == hashed
            &&& extension_spec(hashed) == e_opt
        }),
{
    let name = file_name_spec(path);
    let hashed = match e_opt {
        Some(e) => h + seq!['.'] + e,
        None => h,
    };
    let renamed = dir_prefix_spec(path) + hashed;
    let k = last_index_of_char(path, '/');
    lemma_last_index_of_char(path, '/');
    lemma_file_name_has_no_slash(path);
    lemma_last_index_of_char(name, '.');

    // The appended name holds no `/`: `h` by assumption, the extension
    // because it is part of the original file name.
    match e_opt {
        Some(e) => {
            assert(forall|j: int| 0 <= j < e.len() ==> e[j] == name[last_index_of_char(name, '.')
                + 1 + j]);
            assert(forall|j: int| 0 <= j < hashed.len() ==> hashed[j] != '/');
        },
        None => {
            assert(forall|j: int| 0 <= j < hashed.len() ==> hashed[j] != '/');
        },
    }

    // So the last `/` of the renamed path is the last `/` of the prefix,
    // which is the last `/` of the original path.
    let prefix = dir_prefix_spec(path);
    if k >= 0 {
        assert(prefix[prefix.len() - 1] == '/');
        assert(last_index_of_char(prefix, '/') == k);
    } else {
        assert(prefix =~= Seq::<char>::empty());
    }
    lemma_last_index_append(prefix, hashed, '/');
    assert(last_index_of_char(renamed, '/') == k);
    assert(file_name_spec(renamed) =~= hashed);

    // The extension of the new name: everything after its last `.`.
    match e_opt {
        Some(e) => {
            lemma_extension_has_no_dot(name, e);
            let head = h + seq!['.'];
            assert(head[head.len() - 1] == '.');
            assert(last_index_of_char(head, '.') == h.len());
            assert(hashed =~= head + e);
            lemma_last_index_append(head, e, '.');
            assert(last_index_of_char(hashed, '.') == h.len());
            assert(extension_spec(hashed) matches Some(x) && x =~= e);
        },
        None => {
            lemma_last_index_of_char(hashed, '.');
            assert(last_index_of_char(hashed, '.') == -1);
        },
    }
}

/// Renames a [`File`] after the BLAKE3 hash of its contents.
///
/// The new path is `{digest}.{ext}` when the original file name has an
/// extension and `{digest}` alone when it has none, under the original
/// directory prefix.  Contents and type are untouched.  The step is
/// total: a file without an extension is hashed, not rejected.
pub fn hash_file_rename(file: File) -> (r: File)
    ensures
        r.filename@ == renamed_path_spec(file.contents@, file.filename@),
        r.contents@ == file.contents@,
        r.file_type == file.file_type,
        file_name_spec(r.filename@) == hashed_name_spec(
            file.contents@,
            file_name_spec(file.filename@),
        ),
        extension_spec(file_name_spec(r.filename@)) == extension_spec(
            file_name_spec(file.filename@),
        ),
        blake3_hex_of(file.contents@).len() == 64,
        forall|i: int|
            0 <= i < 64 ==> is_lower_hex_digit(#[trigger] blake3_hex_of(file.contents@)[i]),
{
    let ghost path = file.filename@;
    let ghost bytes = file.contents@;
    let hex = blake3_hex(file.contents.as_slice());
    let name = file_name_of(file.filename.as_str());
    let mut new_path = dir_prefix_of(file.filename.as_str());
    new_path.append(hex.as_str());
    let ext = extension_of(name.as_str());
    match &ext {
        Some(e) => {
            new_path.append(".");
            new_path.append(e.as_str());
        },
        None => {},
    }
    proof {
        reveal_strlit(".");
        assert("."@ =~= seq!['.']);
        let e_opt = extension_spec(file_name_spec(path));
        match ext {
            Some(e) => {
                assert(new_path@ =~= dir_prefix_spec(path) + (hex@ + seq!['.'] + e@));
            },
            None => {},
        }
        assert(new_path@ =~= renamed_path_spec(bytes, path));
        assert(forall|j: int|
            0 <= j < hex@.len() ==> hex@[j] != '.' && hex@[j] != '/') by {
            assert(forall|i: int| 0 <= i < hex@.len() ==> is_lower_hex_digit(#[trigger] hex@[i]));
        }
        lemma_rename_structure(hex@, e_opt, path);
    }
    File { filename: new_path, file_type: file.file_type, contents: file.contents }
}

} // verus!
