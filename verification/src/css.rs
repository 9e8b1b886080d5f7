//! The content transform step: CSS minification.
//!
//! The only non-identity transform is for CSS files: the bytes are
//! decoded as UTF-8 text, parsed as a stylesheet, minified, and printed
//! back compactly.  Three failure modes are surfaced: bytes that are
//! not valid text, text that does not parse, and a minifier-internal
//! failure on valid input.  Every other file type passes through
//! unchanged.

use crate::{File, FileType, StaticPreprocessingError};
use lightningcss::printer::PrinterOptions;
use lightningcss::stylesheet::{MinifyOptions, ParserOptions, StyleSheet};
use vstd::prelude::*;
use vstd::string::*;
use vstd::utf8::{decode_utf8, encode_utf8, valid_utf8};

verus! {

/// The minified form of stylesheet text: the result of parsing it,
/// running the standard minification pass, and printing it compactly.
pub uninterp spec fn minified_css_of(source: Seq<char>) -> Seq<char>;

/// Whether stylesheet text parses: like the pass itself, a function of
/// the source text alone.
pub uninterp spec fn css_parse_ok(source: Seq<char>) -> bool;

/// Whether the whole minification pass — parse, minify, print —
/// succeeds on the given text.
pub uninterp spec fn css_minify_ok(source: Seq<char>) -> bool;

/// Relies on `std::str::from_utf8`: it succeeds exactly on valid UTF-8
/// and returns the decoded text.
#[verifier::external_body]
fn bytes_as_str(bytes: &[u8]) -> (r: Option<&str>)
    ensures
        (r is Some) == valid_utf8(bytes@),
        r matches Some(s) ==> s@ == decode_utf8(bytes@),
{
    std::str::from_utf8(bytes).ok()
}

/// Relies on `lightningcss`: `StyleSheet::parse`, `StyleSheet::minify`
/// and `StyleSheet::to_css` with compact output, taken together as one
/// deterministic text-to-text pass whose outcome — whether it parses,
/// whether it succeeds, and the result — depends on the source text
/// alone.  A parse failure surfaces as `ParsingError`; a minifier or
/// printer failure as `MinificationError`.
#[verifier::external_body]
fn minify_stylesheet(source: &str) -> (r: Result<String, StaticPreprocessingError>)
    ensures
        (r is Ok) == css_minify_ok(source@),
        r is Ok ==> css_parse_ok(source@),
        r matches Ok(out) ==> out@ == minified_css_of(source@),
        r matches Err(e) ==> (e is ParsingError) == !css_parse_ok(source@),
        r matches Err(e) ==> (e is MinificationError) == css_parse_ok(source@),
{
    let mut sheet = match StyleSheet::parse(source, ParserOptions::default()) {
        Ok(s) => s,
        Err(e) => return Err(StaticPreprocessingError::ParsingError(e.to_string())),
    };
    if let Err(e) = sheet.minify(MinifyOptions::default()) {
        return Err(StaticPreprocessingError::MinificationError(e.to_string()));
    }
    match sheet.to_css(PrinterOptions { minify: true, ..PrinterOptions::default() }) {
        Ok(res) => Ok(res.code),
        Err(e) => Err(StaticPreprocessingError::MinificationError(e.to_string())),
    }
}

/// The byte content a file has after the transform step: a CSS file
/// holds its minified text re-encoded as UTF-8; every other type passes
/// through unchanged.
pub open spec fn transformed_bytes_spec(file_type: FileType, contents: Seq<u8>) -> Seq<u8> {
    if file_type == FileType::CSS {
        encode_utf8(minified_css_of(decode_utf8(contents)))
    } else {
        contents
    }
}

/// Minifies the contents of a CSS file in place; every other file is
/// returned unchanged.  The three failure modes are surfaced
/// distinctly: bytes that are not valid UTF-8 text or text that does
/// not parse give `ParsingError`; a minifier or printer failure on a
/// parsed stylesheet gives `MinificationError`; everything else
/// succeeds.  Name and type are never touched.
pub fn minify_css(f: File) -> (r: Result<File, StaticPreprocessingError>)
    ensures
        f.file_type != FileType::CSS ==> (r matches Ok(g) && g == f),
        r matches Ok(g) ==> {
            &&& g.filename@ == f.filename@
            &&& g.file_type == f.file_type
            &&& g.contents@ == transformed_bytes_spec(f.file_type, f.contents@)
        },
        f.file_type == FileType::CSS ==> (r is Ok) == (valid_utf8(f.contents@) && css_minify_ok(
            decode_utf8(f.contents@),
        )),
        f.file_type == FileType::CSS && r is Ok ==> css_parse_ok(decode_utf8(f.contents@)),
        f.file_type == FileType::CSS ==> ((r matches Err(
            StaticPreprocessingError::ParsingError(_),
        )) <==> !(valid_utf8(f.contents@) && css_parse_ok(decode_utf8(f.contents@)))),
        f.file_type == FileType::CSS ==> ((r matches Err(
            StaticPreprocessingError::MinificationError(_),
        )) <==> (valid_utf8(f.contents@) && css_parse_ok(decode_utf8(f.contents@))
            && !css_minify_ok(decode_utf8(f.contents@)))),
        r matches Err(e) ==> (e is ParsingError || e is MinificationError) && f.file_type
            == FileType::CSS,
{
    if f.file_type != FileType::CSS {
        return Ok(f);
    }
    let text = match bytes_as_str(f.contents.as_slice()) {
        Some(t) => t,
        None => {
            return Err(
                StaticPreprocessingError::ParsingError(
                    String::from_str("CSS file is not valid UTF-8 text"),
                ),
            );
        },
    };
    let minified = match minify_stylesheet(text) {
        Ok(m) => m,
        Err(e) => {
            return Err(e);
        },
    };
    let contents = minified.as_str().as_bytes_vec();
    Ok(File { filename: f.filename, file_type: f.file_type, contents })
}

} // verus!
