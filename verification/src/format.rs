//! On-disk data formats, chosen by file extension.

use vstd::prelude::*;
use crate::error::Error;
use crate::text::{chars_of, is_word, lower, string_of, to_lower};

verus! {

/// A supported on-disk data format. JSON is split into whole-document `Json`
/// and line-delimited `NdJson`.
#[derive(Debug, Clone, Copy, PartialEq, Eq, Structural)]
pub enum Format {
    Parquet,
    Csv,
    Json,
    NdJson,
}

/// The extension of the path `path` as `std::path::Path::extension` reads it:
/// the part of the final file name after its last `.`, or `None` where the
/// name has no `.` other than a leading one (or there is no file name). The
/// final file name is found by the build target's path separators (`/`, and
/// also `\` on Windows).
pub uninterp spec fn path_extension(path: Seq<char>) -> Option<Seq<char>>;

/// `Path::extension` on `path`, as text. The contract claims only that the
/// result is std's, named by [`path_extension`].
#[verifier::external_body]
fn extension_of(path: &str) -> (r: Option<String>)
    ensures
        r matches Some(e) ==> path_extension(path@) == Some(e@),
        r is None ==> path_extension(path@) is None,
{
    std::path::Path::new(path).extension().and_then(|e| e.to_str()).map(|e| e.to_string())
}

/// The format an (ASCII lower-cased) extension names.
pub open spec fn format_of_extension(ext: Seq<char>) -> Option<Format> {
    if ext == "parquet"@ || ext == "pq"@ {
        Some(Format::Parquet)
    } else if ext == "csv"@ {
        Some(Format::Csv)
    } else if ext == "json"@ {
        Some(Format::Json)
    } else if ext == "ndjson"@ || ext == "jsonl"@ {
        Some(Format::NdJson)
    } else {
        None
    }
}

/// The lower-cased extension of `path`, empty where it has none.
pub open spec fn lowered_extension(path: Seq<char>) -> Seq<char> {
    match path_extension(path) {
        Some(e) => lower(e),
        None => Seq::empty(),
    }
}

impl Format {
    /// The format named by `path`'s extension, compared case-insensitively:
    /// `parquet`/`pq`, `csv`, `json`, `ndjson`/`jsonl`. Any other extension
    /// (or none) is an `UnsupportedFormat` error carrying it, lower-cased.
    pub fn from_path(path: &str) -> (r: Result<Format, Error>)
        ensures
            match format_of_extension(lowered_extension(path@)) {
                Some(f) => r == Ok::<Format, Error>(f),
                None => r matches Err(Error::UnsupportedFormat(e)) && e@ == lowered_extension(path@),
            },
    {
        let ext = match extension_of(path) {
            Some(e) => to_lower(&chars_of(e.as_str())),
            None => Vec::new(),
        };
        if is_word(&ext, "parquet") || is_word(&ext, "pq") {
            Ok(Format::Parquet)
        } else if is_word(&ext, "csv") {
            Ok(Format::Csv)
        } else if is_word(&ext, "json") {
            Ok(Format::Json)
        } else if is_word(&ext, "ndjson") || is_word(&ext, "jsonl") {
            Ok(Format::NdJson)
        } else {
            Err(Error::UnsupportedFormat(string_of(&ext)))
        }
    }
}

} // verus!
