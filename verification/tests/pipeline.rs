//! Whole-pipeline runs over loaded files.

use static_preprocessing::manifest::Manifest;
use static_preprocessing::pipeline::{process_file, process_files};
use static_preprocessing::{FileType, OutputLayout, StaticPreprocessingError};

#[test]
fn process_file_css_example() {
    // `css/main.css` holding `body { margin: 0; }`: the bytes are
    // minified to `body{margin:0}` and the output name is the BLAKE3
    // digest of that final content.
    let mut manifest = Manifest::new();
    let out = process_file(
        "css/main.css",
        b"body { margin: 0; }".to_vec(),
        OutputLayout::Preserve,
        &mut manifest,
    )
    .unwrap();

    let expected_name =
        "css/dfde4704d3fb14ac8edd252ae421d1d9ab76d1f8994104e30bfbcee691514959.css";
    assert_eq!(out.filename, expected_name);
    assert_eq!(out.filename, format!("css/{}.css", blake3::hash(b"body{margin:0}")));
    assert_eq!(out.contents, b"body{margin:0}");
    assert_eq!(out.file_type, FileType::CSS);
    assert_eq!(manifest.get("css/main.css").unwrap(), expected_name);
    assert_eq!(manifest.len(), 1);
}

#[test]
fn deployed_hash_is_blake3_256() {
    // The deployment's hash must stay bit-exact: this digest of a fixed
    // byte sequence pins it to 256-bit BLAKE3.
    assert_eq!(
        blake3::hash(b"body { margin: 0; }").to_string(),
        "057b37e61c8ec35690e7c0c321591990d37b9bdbef645cd780795a95672d65c0"
    );
}

#[test]
fn process_file_plain_text_example() {
    // `example.txt` holding `Hello, world!`: the identity transform, so
    // the output name is the hash of the bytes themselves.
    let mut manifest = Manifest::new();
    let out = process_file(
        "example.txt",
        b"Hello, world!".to_vec(),
        OutputLayout::Preserve,
        &mut manifest,
    )
    .unwrap();

    let expected_name = format!("{}.txt", blake3::hash(b"Hello, world!"));
    assert_eq!(out.filename, expected_name);
    assert_eq!(out.contents, b"Hello, world!");
    assert_eq!(out.file_type, FileType::Other);
    assert_eq!(manifest.get("example.txt").unwrap(), &expected_name);
}

#[test]
fn process_file_flatten_drops_directories() {
    let mut manifest = Manifest::new();
    let out = process_file(
        "deep/nested/dir/data.bin",
        b"payload".to_vec(),
        OutputLayout::Flatten,
        &mut manifest,
    )
    .unwrap();
    let expected_name = format!("{}.bin", blake3::hash(b"payload"));
    assert_eq!(out.filename, expected_name);
    assert_eq!(manifest.get("deep/nested/dir/data.bin").unwrap(), &expected_name);
}

#[test]
fn process_file_rejects_path_without_file_name() {
    let mut manifest = Manifest::new();
    let result = process_file(
        "assets/css/",
        b"whatever".to_vec(),
        OutputLayout::Preserve,
        &mut manifest,
    );
    assert!(matches!(result, Err(StaticPreprocessingError::InvalidPathError(_))));
    // Fail-fast leaves no partial record behind.
    assert_eq!(manifest.len(), 0);
}

#[test]
fn process_file_error_leaves_manifest_untouched() {
    let mut manifest = Manifest::new();
    manifest.insert("ok.txt".to_string(), "done.txt".to_string());
    let result = process_file(
        "bad.css",
        vec![0xff, 0xfe],
        OutputLayout::Preserve,
        &mut manifest,
    );
    assert!(matches!(result, Err(StaticPreprocessingError::ParsingError(_))));
    assert_eq!(manifest.len(), 1);
    assert_eq!(manifest.get("ok.txt").unwrap(), "done.txt");
}

#[test]
fn process_files_one_entry_per_file() {
    let inputs = vec![
        ("css/main.css".to_string(), b"body { margin: 0; }".to_vec()),
        ("js/app.js".to_string(), b"console.log(1);".to_vec()),
        ("example.txt".to_string(), b"Hello, world!".to_vec()),
    ];
    let (files, manifest) = process_files(&inputs, OutputLayout::Preserve).unwrap();

    assert_eq!(files.len(), 3);
    assert_eq!(manifest.len(), 3);
    assert!(manifest.contains_key("css/main.css"));
    assert!(manifest.contains_key("js/app.js"));
    assert!(manifest.contains_key("example.txt"));

    let css_name = format!("css/{}.css", blake3::hash(b"body{margin:0}"));
    let js_name = format!("js/{}.js", blake3::hash(b"console.log(1);"));
    let txt_name = format!("{}.txt", blake3::hash(b"Hello, world!"));
    assert_eq!(manifest.get("css/main.css").unwrap(), &css_name);
    assert_eq!(manifest.get("js/app.js").unwrap(), &js_name);
    assert_eq!(manifest.get("example.txt").unwrap(), &txt_name);

    assert_eq!(files[0].filename, css_name);
    assert_eq!(files[1].filename, js_name);
    assert_eq!(files[2].filename, txt_name);
}

#[test]
fn process_files_rerun_is_identical() {
    // An unchanged input tree gives a byte-identical manifest, and a
    // different traversal order gives the same serialized manifest too.
    let inputs = vec![
        ("a/style.css".to_string(), b"p { color : blue ; }".to_vec()),
        ("b/readme.txt".to_string(), b"hi".to_vec()),
        ("logo.png".to_string(), vec![1, 2, 3, 4]),
    ];
    let (_, first) = process_files(&inputs, OutputLayout::Preserve).unwrap();
    let (_, second) = process_files(&inputs, OutputLayout::Preserve).unwrap();
    assert_eq!(first.serialize().unwrap(), second.serialize().unwrap());

    let reordered = vec![inputs[2].clone(), inputs[0].clone(), inputs[1].clone()];
    let (_, third) = process_files(&reordered, OutputLayout::Preserve).unwrap();
    assert_eq!(first.serialize().unwrap(), third.serialize().unwrap());
}

#[test]
fn process_files_fails_fast_on_bad_css() {
    let inputs = vec![
        ("fine.txt".to_string(), b"ok".to_vec()),
        ("bad.css".to_string(), vec![0xff]),
        ("later.txt".to_string(), b"never reached".to_vec()),
    ];
    let result = process_files(&inputs, OutputLayout::Preserve);
    assert!(matches!(result, Err(StaticPreprocessingError::ParsingError(_))));
}

#[test]
fn process_files_empty_run() {
    let inputs: Vec<(String, Vec<u8>)> = Vec::new();
    let (files, manifest) = process_files(&inputs, OutputLayout::Preserve).unwrap();
    assert!(files.is_empty());
    assert_eq!(manifest.len(), 0);
    assert_eq!(manifest.serialize().unwrap(), "{}");
}

#[test]
fn process_files_identical_contents_collide_by_design() {
    // Two sources with identical bytes and extension share one output
    // file under the flatten layout; both manifest entries point at it.
    let inputs = vec![
        ("a/same.txt".to_string(), b"same bytes".to_vec()),
        ("b/same.txt".to_string(), b"same bytes".to_vec()),
    ];
    let (files, manifest) = process_files(&inputs, OutputLayout::Flatten).unwrap();
    assert_eq!(files[0].filename, files[1].filename);
    assert_eq!(manifest.len(), 2);
    assert_eq!(
        manifest.get("a/same.txt").unwrap(),
        manifest.get("b/same.txt").unwrap()
    );
}
