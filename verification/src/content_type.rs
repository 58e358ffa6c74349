//! Content types by file extension.

use crate::text::{chars_of, tail_equals};
use vstd::prelude::*;

verus! {

/// The index at which the extension of `path` starts, looking below `upto`:
/// behind the last `.`, or 0 where there is none.
pub open spec fn after_last_dot(path: Seq<char>, upto: int) -> int
    decreases upto,
{
    if upto <= 0 || upto > path.len() {
        0
    } else if path[upto - 1] == '.' {
        upto
    } else {
        after_last_dot(path, upto - 1)
    }
}

/// What stands behind the last `.` of `path`; all of `path` where it holds
/// no `.`.
pub open spec fn extension(path: Seq<char>) -> Seq<char> {
    path.subrange(after_last_dot(path, path.len() as int), path.len() as int)
}

/// The content type that belongs to an extension. Case counts.
pub open spec fn mime_of(ext: Seq<char>) -> Option<Seq<char>> {
    if ext == "html"@ {
        Some("text/html"@)
    } else if ext == "css"@ {
        Some("text/css"@)
    } else if ext == "js"@ {
        Some("application/javascript"@)
    } else if ext == "json"@ {
        Some("application/json"@)
    } else if ext == "jpg"@ || ext == "jpeg"@ {
        Some("image/jpeg"@)
    } else if ext == "png"@ {
        Some("image/png"@)
    } else if ext == "gif"@ {
        Some("image/gif"@)
    } else if ext == "bmp"@ {
        Some("image/bmp"@)
    } else if ext == "ico"@ {
        Some("image/x-icon"@)
    } else if ext == "pdf"@ {
        Some("application/pdf"@)
    } else if ext == "mp4"@ {
        Some("video/mp4"@)
    } else if ext == "mov"@ {
        Some("video/quicktime"@)
    } else if ext == "webm"@ {
        Some("video/webm"@)
    } else if ext == "wmv"@ {
        Some("video/x-ms-wmv"@)
    } else if ext == "mkv"@ {
        Some("video/x-matroska"@)
    } else {
        None
    }
}

/// The content type that stands for an extension that is not known.
pub open spec fn unknown_content_type() -> Seq<char> {
    "err"@
}

/// The content type that a response for `path` carries: that of its
/// extension, or the one for unknown extensions.
pub open spec fn resolved_content_type(path: Seq<char>) -> Seq<char> {
    match mime_of(extension(path)) {
        Some(t) => t,
        None => unknown_content_type(),
    }
}

fn has_extension(path: &Vec<char>, from: usize, ext: &str) -> (out: bool)
    requires
        from <= path.len(),
    ensures
        out == (path@.subrange(from as int, path@.len() as int) == ext@),
{
    let wanted = chars_of(ext);
    tail_equals(path, from, &wanted)
}

/// The content type of the file at `file_path`, by its extension; `None`
/// where the extension is not known.
pub fn get_content_type(file_path: &str) -> (out: Option<&'static str>)
    ensures
        out is Some == mime_of(extension(file_path@)) is Some,
        out matches Some(t) ==> mime_of(extension(file_path@)) == Some(t@),
{
    let path = chars_of(file_path);
    let mut from: usize = path.len();
    while from > 0 && path[from - 1] != '.'
        invariant
            from <= path.len(),
            after_last_dot(path@, path@.len() as int) == after_last_dot(path@, from as int),
        decreases from,
    {
        from -= 1;
    }
    if has_extension(&path, from, "html") {
        Some("text/html")
    } else if has_extension(&path, from, "css") {
        Some("text/css")
    } else if has_extension(&path, from, "js") {
        Some("application/javascript")
    } else if has_extension(&path, from, "json") {
        Some("application/json")
    } else if has_extension(&path, from, "jpg") || has_extension(&path, from, "jpeg") {
        Some("image/jpeg")
    } else if has_extension(&path, from, "png") {
        Some("image/png")
    } else if has_extension(&path, from, "gif") {
        Some("image/gif")
    } else if has_extension(&path, from, "bmp") {
        Some("image/bmp")
    } else if has_extension(&path, from, "ico") {
        Some("image/x-icon")
    } else if has_extension(&path, from, "pdf") {
        Some("application/pdf")
    } else if has_extension(&path, from, "mp4") {
        Some("video/mp4")
    } else if has_extension(&path, from, "mov") {
        Some("video/quicktime")
    } else if has_extension(&path, from, "webm") {
        Some("video/webm")
    } else if has_extension(&path, from, "wmv") {
        Some("video/x-ms-wmv")
    } else if has_extension(&path, from, "mkv") {
        Some("video/x-matroska")
    } else {
        None
    }
}

/// The content type that a response for `file_path` carries. It is never
/// left out: an extension that is not known gives the type for unknown
/// extensions.
pub fn content_type_or_unknown(file_path: &str) -> (out: String)
    ensures
        out@ == resolved_content_type(file_path@),
        out@.len() > 0,
{
    proof {
        lemma_content_type_is_never_empty(file_path@);
    }
    match get_content_type(file_path) {
        Some(t) => String::from_str(t),
        None => String::from_str("err"),
    }
}

/// Whatever the path, known extension or not, the content type resolved
/// for it is not empty.
pub proof fn lemma_content_type_is_never_empty(path: Seq<char>)
    ensures
        resolved_content_type(path).len() > 0,
{
    reveal_strlit("text/html");
    reveal_strlit("text/css");
    reveal_strlit("application/javascript");
    reveal_strlit("application/json");
    reveal_strlit("image/jpeg");
    reveal_strlit("image/png");
    reveal_strlit("image/gif");
    reveal_strlit("image/bmp");
    reveal_strlit("image/x-icon");
    reveal_strlit("application/pdf");
    reveal_strlit("video/mp4");
    reveal_strlit("video/quicktime");
    reveal_strlit("video/webm");
    reveal_strlit("video/x-ms-wmv");
    reveal_strlit("video/x-matroska");
    reveal_strlit("err");
}

} // verus!
