//! The CSS transform step.

use static_preprocessing::css::minify_css;
use static_preprocessing::{File, FileType, StaticPreprocessingError};
use std::str;

#[test]
fn test_minify_css() {
    let input_file = File {
        filename: "example.css".into(),
        file_type: FileType::CSS,
        contents: b"body { color: red; }  /* comment */".to_vec(),
    };

    let result = minify_css(input_file).unwrap();

    assert_eq!(result.file_type, FileType::CSS);
    assert_eq!(result.filename, "example.css");
    assert!(str::from_utf8(&result.contents).unwrap().contains("body{color:red}"));
}

#[test]
fn test_minify_css_non_css_file() {
    let input_file = File {
        filename: "example.txt".into(),
        file_type: FileType::Other,
        contents: b"Some random text".to_vec(),
    };

    let result = minify_css(input_file).unwrap();

    assert_eq!(result.file_type, FileType::Other);
    assert_eq!(result.filename, "example.txt");
    assert_eq!(result.contents, b"Some random text");
}

#[test]
fn minify_css_is_idempotent() {
    // Minifying already-minified CSS is byte-identical to minifying once.
    let once = minify_css(File {
        filename: "main.css".into(),
        file_type: FileType::CSS,
        contents: b"body { margin: 0; }\n\n/* note */\nh1   { color : #ff0000 ; }".to_vec(),
    })
    .unwrap();
    let twice = minify_css(File {
        filename: "main.css".into(),
        file_type: FileType::CSS,
        contents: once.contents.clone(),
    })
    .unwrap();
    assert_eq!(once.contents, twice.contents);
}

#[test]
fn minify_css_concrete_output() {
    let result = minify_css(File {
        filename: "main.css".into(),
        file_type: FileType::CSS,
        contents: b"body { margin: 0; }".to_vec(),
    })
    .unwrap();
    assert_eq!(result.contents, b"body{margin:0}");
}

#[test]
fn minify_css_rejects_invalid_utf8() {
    let result = minify_css(File {
        filename: "bad.css".into(),
        file_type: FileType::CSS,
        contents: vec![0xff, 0xfe, 0x00, 0x80],
    });
    assert!(matches!(result, Err(StaticPreprocessingError::ParsingError(_))));
}

#[test]
fn minify_css_rejects_malformed_stylesheet() {
    // A stray closing brace at the top level cannot be parsed as a rule.
    let result = minify_css(File {
        filename: "broken.css".into(),
        file_type: FileType::CSS,
        contents: b"}".to_vec(),
    });
    assert!(matches!(result, Err(StaticPreprocessingError::ParsingError(_))));
}

#[test]
fn minify_css_leaves_image_bytes_alone() {
    let payload = vec![0x89u8, 0x50, 0x4e, 0x47, 0x0d, 0x0a];
    let result = minify_css(File {
        filename: "logo.png".into(),
        file_type: FileType::Image,
        contents: payload.clone(),
    })
    .unwrap();
    assert_eq!(result.contents, payload);
}
