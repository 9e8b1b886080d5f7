//! The orchestrator core: one file through the pipeline, and a whole
//! run over a list of loaded files.
//!
//! The caller walks the input tree and reads each file; this module
//! does everything in between: type detection, the CSS transform, the
//! content-addressed rename, the output placement policy, and the
//! manifest record.  A run is strictly fail-fast: the first error ends
//! it, and an error from a single file leaves the manifest exactly as
//! it was.

use crate::css::{css_minify_ok, css_parse_ok, minify_css, transformed_bytes_spec};
use crate::hash::{hash_file_rename, hashed_name_spec, renamed_path_spec};
use crate::manifest::Manifest;
use crate::paths::{extension_spec, file_name_of, file_name_spec, has_file_name};
use crate::{detect_file_type, file_type_of_ext, File, FileType, OutputLayout,
    StaticPreprocessingError};
use vstd::prelude::*;
use vstd::string::*;
use vstd::utf8::{decode_utf8, valid_utf8};

verus! {

/// The type a file gets from its path: determined by its file name's
/// extension; `Other` when there is none.
pub open spec fn file_type_spec(path: Seq<char>) -> FileType {
    match extension_spec(file_name_spec(path)) {
        Some(e) => file_type_of_ext(e),
        None => FileType::Other,
    }
}

/// The byte content the output file has for a given input: transformed
/// according to the input's detected type.
pub open spec fn output_bytes_spec(path: Seq<char>, contents: Seq<u8>) -> Seq<u8> {
    transformed_bytes_spec(file_type_spec(path), contents)
}

/// The output file's path relative to the output root: the hashed name
/// under the original directory prefix, or the hashed name alone when
/// the output tree is flattened.
pub open spec fn output_path_spec(
    path: Seq<char>,
    contents: Seq<u8>,
    layout: OutputLayout,
) -> Seq<char> {
    match layout {
        OutputLayout::Flatten => hashed_name_spec(
            output_bytes_spec(path, contents),
            file_name_spec(path),
        ),
        OutputLayout::Preserve => renamed_path_spec(output_bytes_spec(path, contents), path),
    }
}

/// Prefixes an error's message with the offending relative path, so the
/// run's terminal error names both the kind and the file.  The kind is
/// kept.
pub fn with_path_context(path: &str, e: StaticPreprocessingError) -> (r:
    StaticPreprocessingError)
    ensures
        (r is TraversalError) == (e is TraversalError),
        (r is IOError) == (e is IOError),
        (r is ParsingError) == (e is ParsingError),
        (r is MinificationError) == (e is MinificationError),
        (r is InvalidPathError) == (e is InvalidPathError),
        crate::error_message_spec(r) == path@ + ": "@ + crate::error_message_spec(e),
{
    let mut m = String::from_str(path);
    m.append(": ");
    match e {
        StaticPreprocessingError::TraversalError(s) => {
            m.append(s.as_str());
            StaticPreprocessingError::TraversalError(m)
        },
        StaticPreprocessingError::IOError(s) => {
            m.append(s.as_str());
            StaticPreprocessingError::IOError(m)
        },
        StaticPreprocessingError::ParsingError(s) => {
            m.append(s.as_str());
            StaticPreprocessingError::ParsingError(m)
        },
        StaticPreprocessingError::MinificationError(s) => {
            m.append(s.as_str());
            StaticPreprocessingError::MinificationError(m)
        },
        StaticPreprocessingError::InvalidPathError(s) => {
            m.append(s.as_str());
            StaticPreprocessingError::InvalidPathError(m)
        },
    }
}

/// Runs one file through the pipeline: detect its type from the path,
/// transform (CSS is minified), rename after the content hash, place it
/// according to the layout, and record the manifest entry.
///
/// Success holds exactly when the input is processable (see
/// [`input_ok`]): the path has a file-name component, and a CSS file's
/// bytes are text whose minification succeeds.  The returned [`File`]
/// is then the output file to write, its `filename` relative to the
/// output root and equal to the new manifest entry's value; the entry's
/// key is `path`.  On any error the manifest is left untouched, and the
/// error kind tells the failure apart: `InvalidPathError` for a path
/// without a file name, `ParsingError` for CSS bytes that are not text
/// or do not parse, `MinificationError` for a minifier-internal failure
/// on a parsed stylesheet.
pub fn process_file(
    path: &str,
    contents: Vec<u8>,
    layout: OutputLayout,
    manifest: &mut Manifest,
) -> (r: Result<File, StaticPreprocessingError>)
    requires
        old(manifest).wf(),
        !old(manifest).as_map().contains_key(path@),
    ensures
        final(manifest).wf(),
        (r is Ok) == input_ok(path@, contents@),
        r matches Ok(f) ==> {
            &&& f.filename@ == output_path_spec(path@, contents@, layout)
            &&& f.contents@ == output_bytes_spec(path@, contents@)
            &&& f.file_type == file_type_spec(path@)
            &&& final(manifest).as_map() == old(manifest).as_map().insert(path@, f.filename@)
        },
        r is Err ==> *final(manifest) == *old(manifest),
        (r matches Err(StaticPreprocessingError::InvalidPathError(_))) <==> !has_file_name(path@),
        (r matches Err(StaticPreprocessingError::ParsingError(_))) <==> (has_file_name(path@)
            && file_type_spec(path@) == FileType::CSS && !(valid_utf8(contents@) && css_parse_ok(
            decode_utf8(contents@),
        ))),
        (r matches Err(StaticPreprocessingError::MinificationError(_))) <==> (has_file_name(path@)
            && file_type_spec(path@) == FileType::CSS && valid_utf8(contents@) && css_parse_ok(
            decode_utf8(contents@),
        ) && !css_minify_ok(decode_utf8(contents@))),
        r matches Err(e) ==> e is InvalidPathError || e is ParsingError || e is MinificationError,
{
    let name = file_name_of(path);
    if name.as_str().unicode_len() == 0 {
        return Err(StaticPreprocessingError::InvalidPathError(String::from_str(path)));
    }
    let file_type = match crate::paths::extension_of(name.as_str()) {
        Some(e) => detect_file_type(e.as_str()),
        None => FileType::Other,
    };
    let file = File { filename: String::from_str(path), file_type, contents };
    let transformed = match minify_css(file) {
        Ok(g) => g,
        Err(e) => {
            return Err(with_path_context(path, e));
        },
    };
    let hashed = hash_file_rename(transformed);
    let out_file = match layout {
        OutputLayout::Flatten => File {
            filename: file_name_of(hashed.filename.as_str()),
            file_type: hashed.file_type,
            contents: hashed.contents,
        },
        OutputLayout::Preserve => hashed,
    };
    manifest.insert(String::from_str(path), out_file.filename.clone());
    Ok(out_file)
}

/// Whether one input can be processed: its path has a file-name
/// component, and — for a CSS file — its bytes are valid UTF-8 text
/// whose minification succeeds.  Processing succeeds exactly on such
/// inputs.
pub open spec fn input_ok(path: Seq<char>, contents: Seq<u8>) -> bool {
    &&& has_file_name(path)
    &&& file_type_spec(path) == FileType::CSS ==> (valid_utf8(contents) && css_minify_ok(
        decode_utf8(contents),
    ))
}

/// What the pipeline promises of the output file for one input: placed
/// at the output path, holding the transformed bytes, tagged with the
/// input's detected type.
pub open spec fn output_file_ok(
    f: File,
    path: Seq<char>,
    contents: Seq<u8>,
    layout: OutputLayout,
) -> bool {
    &&& f.filename@ == output_path_spec(path, contents, layout)
    &&& f.contents@ == output_bytes_spec(path, contents)
    &&& f.file_type == file_type_spec(path)
}

/// Whether a run's input paths are pairwise distinct — each file under
/// the root appears once.
pub open spec fn input_paths_distinct(inputs: Seq<(String, Vec<u8>)>) -> bool {
    forall|i: int, j: int| 0 <= i < j < inputs.len() ==> inputs[i].0@ != inputs[j].0@
}

/// The manifest mapping a successful run over `inputs` produces: one
/// entry per input, keyed by its path.
pub open spec fn manifest_spec(
    inputs: Seq<(String, Vec<u8>)>,
    layout: OutputLayout,
) -> Map<Seq<char>, Seq<char>>
    decreases inputs.len(),
{
    if inputs.len() == 0 {
        Map::empty()
    } else {
        manifest_spec(inputs.drop_last(), layout).insert(
            inputs.last().0@,
            output_path_spec(inputs.last().0@, inputs.last().1@, layout),
        )
    }
}

/// Traversal completeness: the run's manifest holds exactly one entry
/// per input file, keyed by that file's root-relative path and valued
/// at that file's output path — and no other entry.
pub proof fn lemma_manifest_spec_characterization(
    inputs: Seq<(String, Vec<u8>)>,
    layout: OutputLayout,
)
    requires
        input_paths_distinct(inputs),
    ensures
        forall|k: Seq<char>|
            manifest_spec(inputs, layout).contains_key(k) <==> exists|i: int|
                0 <= i < inputs.len() && inputs[i].0@ == k,
        forall|i: int|
            0 <= i < inputs.len() ==> manifest_spec(inputs, layout)[#[trigger] inputs[i].0@]
                == output_path_spec(inputs[i].0@, inputs[i].1@, layout),
        manifest_spec(inputs, layout).dom().finite(),
        manifest_spec(inputs, layout).dom().len() == inputs.len(),
    decreases inputs.len(),
{
    broadcast use vstd::set::axiom_set_insert_len;

    if inputs.len() > 0 {
        let prefix = inputs.drop_last();
        lemma_manifest_spec_characterization(prefix, layout);
        assert(forall|i: int| 0 <= i < prefix.len() ==> prefix[i] == inputs[i]);
        let m = manifest_spec(inputs, layout);
        assert forall|k: Seq<char>| m.contains_key(k) implies exists|i: int|
            0 <= i < inputs.len() && inputs[i].0@ == k by {
            if k != inputs.last().0@ {
                let i = choose|i: int| 0 <= i < prefix.len() && prefix[i].0@ == k;
                assert(inputs[i].0@ == k);
            } else {
                assert(inputs[inputs.len() - 1].0@ == k);
            }
        }
        assert forall|k: Seq<char>|
            (exists|i: int| 0 <= i < inputs.len() && inputs[i].0@ == k) implies m.contains_key(
            k,
        ) by {
            let i = choose|i: int| 0 <= i < inputs.len() && inputs[i].0@ == k;
            if i < inputs.len() - 1 {
                assert(prefix[i].0@ == k);
            }
        }
        assert(!manifest_spec(prefix, layout).contains_key(inputs.last().0@));
    }
}

/// Order independence of a run: two runs over the same set of files —
/// however the traversal ordered them — succeed or fail together, and
/// on success produce the same manifest mapping.  Together with the
/// run's determinism this makes re-running on an unchanged tree
/// reproducible.
pub proof fn lemma_run_order_independent(
    a: Seq<(String, Vec<u8>)>,
    b: Seq<(String, Vec<u8>)>,
    layout: OutputLayout,
)
    requires
        input_paths_distinct(a),
        input_paths_distinct(b),
        forall|x: (String, Vec<u8>)| a.contains(x) <==> b.contains(x),
    ensures
        manifest_spec(a, layout) == manifest_spec(b, layout),
        (forall|i: int| 0 <= i < a.len() ==> input_ok(#[trigger] a[i].0@, a[i].1@)) <==> (forall|
            j: int,
        | 0 <= j < b.len() ==> input_ok(#[trigger] b[j].0@, b[j].1@)),
{
    if forall|i: int| 0 <= i < a.len() ==> input_ok(#[trigger] a[i].0@, a[i].1@) {
        assert forall|j: int| 0 <= j < b.len() implies input_ok(
            #[trigger] b[j].0@,
            b[j].1@,
        ) by {
            assert(b.contains(b[j]));
            assert(a.contains(b[j]));
            let i = choose|i: int| 0 <= i < a.len() && a[i] == b[j];
            assert(input_ok(a[i].0@, a[i].1@));
        }
    }
    if forall|j: int| 0 <= j < b.len() ==> input_ok(#[trigger] b[j].0@, b[j].1@) {
        assert forall|i: int| 0 <= i < a.len() implies input_ok(
            #[trigger] a[i].0@,
            a[i].1@,
        ) by {
            assert(a.contains(a[i]));
            assert(b.contains(a[i]));
            let j = choose|j: int| 0 <= j < b.len() && b[j] == a[i];
            assert(input_ok(b[j].0@, b[j].1@));
        }
    }
    lemma_manifest_spec_characterization(a, layout);
    lemma_manifest_spec_characterization(b, layout);
    let ma = manifest_spec(a, layout);
    let mb = manifest_spec(b, layout);
    assert forall|k: Seq<char>| ma.contains_key(k) implies mb.contains_key(k) && ma[k] == mb[k] by {
        let i = choose|i: int| 0 <= i < a.len() && a[i].0@ == k;
        assert(a.contains(a[i]));
        assert(b.contains(a[i]));
        let j = choose|j: int| 0 <= j < b.len() && b[j] == a[i];
        assert(b[j].0@ == k);
    }
    assert forall|k: Seq<char>| mb.contains_key(k) implies ma.contains_key(k) by {
        let j = choose|j: int| 0 <= j < b.len() && b[j].0@ == k;
        assert(b.contains(b[j]));
        assert(a.contains(b[j]));
        let i = choose|i: int| 0 <= i < a.len() && a[i] == b[j];
        assert(a[i].0@ == k);
    }
    assert(ma =~= mb);
}

/// An owned copy of a byte vector.
fn clone_bytes(v: &Vec<u8>) -> (r: Vec<u8>)
    ensures
        r@ == v@,
{
    let r = v.clone();
    proof {
        assert(r@ =~= v@);
    }
    r
}

/// Runs the whole pipeline over a list of loaded files — each an
/// original root-relative path with its raw bytes — producing the
/// output files to write and the run's manifest.
///
/// Strictly fail-fast: the first file-level error aborts the run, and
/// then no output files and no manifest are produced at all.  The run
/// succeeds exactly when every input is processable (see [`input_ok`]),
/// and then there is exactly one output file and one manifest entry per
/// input — so re-running on unchanged inputs succeeds again and
/// reproduces the same manifest and bytes.
pub fn process_files(inputs: &Vec<(String, Vec<u8>)>, layout: OutputLayout) -> (r: Result<
    (Vec<File>, Manifest),
    StaticPreprocessingError,
>)
    requires
        input_paths_distinct(inputs@),
    ensures
        r matches Ok(out) ==> {
            &&& out.1.wf()
            &&& out.1.as_map() == manifest_spec(inputs@, layout)
            &&& out.0@.len() == inputs@.len()
            &&& forall|i: int|
                0 <= i < inputs@.len() ==> output_file_ok(
                    #[trigger] out.0@[i],
                    inputs@[i].0@,
                    inputs@[i].1@,
                    layout,
                )
        },
        (r is Ok) == (forall|i: int|
            0 <= i < inputs@.len() ==> input_ok(#[trigger] inputs@[i].0@, inputs@[i].1@)),
        r matches Err(e) ==> (e is InvalidPathError || e is ParsingError || e
            is MinificationError),
{
    let mut manifest = Manifest::new();
    let mut files: Vec<File> = Vec::new();
    let n = inputs.len();
    let mut i: usize = 0;
    while i < n
        invariant
            n == inputs@.len(),
            i <= n,
            input_paths_distinct(inputs@),
            manifest.wf(),
            manifest.as_map() == manifest_spec(inputs@.subrange(0, i as int), layout),
            files@.len() == i,
            forall|j: int|
                0 <= j < i ==> output_file_ok(
                    #[trigger] files@[j],
                    inputs@[j].0@,
                    inputs@[j].1@,
                    layout,
                ),
            forall|j: int| 0 <= j < i ==> input_ok(#[trigger] inputs@[j].0@, inputs@[j].1@),
        decreases n - i,
    {
        let pair = &inputs[i];
        let contents = clone_bytes(&pair.1);
        proof {
            lemma_manifest_spec_characterization(inputs@.subrange(0, i as int), layout);
            assert(forall|j: int|
                0 <= j < i ==> inputs@.subrange(0, i as int)[j] == inputs@[j]);
            assert(!manifest.as_map().contains_key(pair.0@));
        }
        let f = match process_file(pair.0.as_str(), contents, layout, &mut manifest) {
            Ok(f) => f,
            Err(e) => {
                proof {
                    assert(!input_ok(inputs@[i as int].0@, inputs@[i as int].1@));
                    assert(!(forall|k: int|
                        0 <= k < inputs@.len() ==> input_ok(
                            #[trigger] inputs@[k].0@,
                            inputs@[k].1@,
                        )));
                }
                return Err(e);
            },
        };
        files.push(f);
        i += 1;
        proof {
            let cur = inputs@.subrange(0, i as int);
            assert(cur.drop_last() =~= inputs@.subrange(0, i - 1));
            assert(cur.last() == inputs@[i - 1]);
        }
    }
    proof {
        assert(inputs@.subrange(0, n as int) =~= inputs@);
    }
    Ok((files, manifest))
}

} // verus!
