//! Choosing how a document file is decoded, and which files are request
//! documents at all.
use crate::models::{ErrorKind, ValidationError};
use crate::text::{leading_white_space, same_text, trim_start};
use vstd::prelude::*;
use vstd::string::*;

verus! {

/// The two encodings a request or environment document may use.
#[derive(Clone, Copy, Debug, PartialEq, Eq, Structural)]
pub enum FileFormat {
    Yaml,
    Json,
}

/// The extension of a path as `std::path::Path::extension` gives it.
pub uninterp spec fn extension_of(path: Seq<char>) -> Option<Seq<char>>;

/// Relies on `std::path::Path::extension`: the text after the last `.` of
/// the path's file name, where there is one.
#[verifier::external_body]
fn path_extension(path: &str) -> (r: Option<String>)
    ensures
        match r {
            Some(e) => extension_of(path@) == Some(e@),
            None => extension_of(path@) is None,
        },
{
    std::path::Path::new(path).extension().and_then(|e| e.to_str()).map(|e| e.to_string())
}

/// An extension that names a request document.
pub open spec fn is_request_extension(ext: Seq<char>) -> bool {
    ext == "yaml"@ || ext == "yml"@ || ext == "json"@
}

/// Content that reads as JSON: its first character that is not white space
/// is an opening brace.
pub open spec fn looks_like_json(content: Seq<char>) -> bool {
    trim_start(content).len() > 0 && trim_start(content)[0] == '{'
}

/// How a document is decoded: by its extension where it has one, by its
/// content where it has none. `Err(ext)` rejects an extension that is not
/// one of `yaml`, `yml` and `json`.
pub open spec fn format_rule(ext: Option<Seq<char>>, content: Seq<char>) -> Result<FileFormat, Seq<char>> {
    match ext {
        Some(e) => if e == "yaml"@ || e == "yml"@ {
            Ok(FileFormat::Yaml)
        } else if e == "json"@ {
            Ok(FileFormat::Json)
        } else {
            Err(e)
        },
        None => if looks_like_json(content) {
            Ok(FileFormat::Json)
        } else {
            Ok(FileFormat::Yaml)
        },
    }
}

pub open spec fn format_result_matches(r: Result<FileFormat, ValidationError>, rule: Result<FileFormat, Seq<char>>) -> bool {
    match rule {
        Ok(f) => r == Ok::<FileFormat, ValidationError>(f),
        Err(e) => r is Err && r->Err_0@ == (ErrorKind::UnsupportedFormat, e),
    }
}

/// Picks the format of a document from its extension (`None` where the
/// path has none) and, lacking one, from its content.
pub fn format_for(extension: Option<&str>, content: &str) -> (r: Result<FileFormat, ValidationError>)
    ensures
        format_result_matches(
            r,
            format_rule(
                match extension {
                    Some(e) => Some(e@),
                    None => None,
                },
                content@,
            ),
        ),
{
    match extension {
        Some(e) => {
            if same_text(e, "yaml") || same_text(e, "yml") {
                Ok(FileFormat::Yaml)
            } else if same_text(e, "json") {
                Ok(FileFormat::Json)
            } else {
                Err(ValidationError::UnsupportedFormat(e.to_string()))
            }
        },
        None => {
            let i = leading_white_space(content);
            if i < content.unicode_len() && content.get_char(i) == '{' {
                Ok(FileFormat::Json)
            } else {
                Ok(FileFormat::Yaml)
            }
        },
    }
}

/// Picks the format of the document at `path` whose text is `content`.
pub fn determine_format_from_path(path: &str, content: &str) -> (r: Result<FileFormat, ValidationError>)
    ensures
        format_result_matches(r, format_rule(extension_of(path@), content@)),
{
    match path_extension(path) {
        Some(e) => format_for(Some(e.as_str()), content),
        None => format_for(None, content),
    }
}

/// A path that names a request document.
pub open spec fn is_request_path(path: Seq<char>) -> bool {
    extension_of(path) is Some && is_request_extension(extension_of(path)->0)
}

/// Whether the file at `path` is a request document, by its extension.
pub fn is_request_file(path: &str) -> (r: bool)
    ensures
        r == is_request_path(path@),
{
    match path_extension(path) {
        Some(e) => same_text(e.as_str(), "yaml") || same_text(e.as_str(), "yml") || same_text(
            e.as_str(),
            "json",
        ),
        None => false,
    }
}

pub open spec fn paths_view(paths: Seq<String>) -> Seq<Seq<char>> {
    paths.map_values(|p: String| p@)
}

/// The request documents among `paths`, in their order.
pub open spec fn request_paths(paths: Seq<Seq<char>>) -> Seq<Seq<char>>
    decreases paths.len(),
{
    if paths.len() == 0 {
        seq![]
    } else {
        let before = request_paths(paths.drop_last());
        if is_request_path(paths.last()) {
            before.push(paths.last())
        } else {
            before
        }
    }
}

/// Keeps, of the files found under a directory, the request documents, in
/// the order in which they were found.
pub fn find_request_files(paths: &Vec<String>) -> (r: Vec<String>)
    ensures
        paths_view(r@) == request_paths(paths_view(paths@)),
{
    let ghost all = paths_view(paths@);
    let mut out: Vec<String> = Vec::new();
    let mut i: usize = 0;
    while i < paths.len()
        invariant
            i <= paths.len(),
            all == paths_view(paths@),
            paths_view(out@) == request_paths(all.subrange(0, i as int)),
        decreases paths.len() - i,
    {
        assert(all.subrange(0, i + 1).drop_last() =~= all.subrange(0, i as int));
        assert(all.subrange(0, i + 1).last() == paths@[i as int]@);
        if is_request_file(paths[i].as_str()) {
            let p = paths[i].clone();
            out.push(p);
            assert(paths_view(out@) =~= request_paths(all.subrange(0, i as int)).push(p@));
        }
        i = i + 1;
    }
    assert(all.subrange(0, i as int) =~= all);
    out
}

} // verus!
