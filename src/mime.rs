use vstd::prelude::*;
use crate::text::{has_prefix, starts_with};

verus! {

/// The extension that `Path::extension` finds in a path, if any.
pub uninterp spec fn extension_of(p: Seq<char>) -> Option<Seq<char>>;

/// The last component that `Path::file_name` finds in a path, if any.
pub uninterp spec fn file_name_of(p: Seq<char>) -> Option<Seq<char>>;

/// What `str::to_lowercase` makes of a string.
pub uninterp spec fn lower_of(s: Seq<char>) -> Seq<char>;

/// Relies on `std::path::Path::extension`: the text after the last dot of the
/// final component, when that component has one not at its start.
#[verifier::external_body]
fn path_extension(p: &str) -> (r: Option<String>)
    ensures
        r is None <==> extension_of(p@) is None,
        r is Some ==> r->0@ == extension_of(p@)->0,
{
    std::path::Path::new(p).extension().and_then(|e| e.to_str()).map(|e| e.to_string())
}

/// Relies on `std::path::Path::file_name`: the final component of the path.
#[verifier::external_body]
pub(crate) fn path_file_name(p: &str) -> (r: Option<String>)
    ensures
        r is None <==> file_name_of(p@) is None,
        r is Some ==> r->0@ == file_name_of(p@)->0,
{
    std::path::Path::new(p).file_name().and_then(|n| n.to_str()).map(|n| n.to_string())
}

/// Relies on `str::to_lowercase`: the result depends on the characters alone,
/// and an empty string stays empty.
#[verifier::external_body]
fn lowercase(s: &str) -> (r: String)
    ensures
        r@ == lower_of(s@),
        s@.len() == 0 ==> r@.len() == 0,
{
    s.to_lowercase()
}

/// Whether two strings hold the same characters.
pub fn same_text(a: &str, b: &str) -> (r: bool)
    ensures
        r == (a@ == b@),
{
    if a.unicode_len() != b.unicode_len() {
        return false;
    }
    let r = starts_with(a, b);
    assert(a@.subrange(0, a@.len() as int) =~= a@);
    r
}

/// The MIME type that a lower-case file extension stands for.
pub open spec fn mime_of_extension(ext: Seq<char>) -> Seq<char> {
    if ext == "jpg"@ || ext == "jpeg"@ {
        "image/jpeg"@
    } else if ext == "png"@ {
        "image/png"@
    } else if ext == "gif"@ {
        "image/gif"@
    } else if ext == "webp"@ {
        "image/webp"@
    } else if ext == "svg"@ {
        "image/svg+xml"@
    } else if ext == "bmp"@ {
        "image/bmp"@
    } else if ext == "pdf"@ {
        "application/pdf"@
    } else if ext == "txt"@ {
        "text/plain"@
    } else if ext == "md"@ {
        "text/markdown"@
    } else if ext == "json"@ {
        "application/json"@
    } else if ext == "html"@ || ext == "htm"@ {
        "text/html"@
    } else if ext == "css"@ {
        "text/css"@
    } else if ext == "js"@ {
        "application/javascript"@
    } else if ext == "ts"@ {
        "application/typescript"@
    } else if ext == "xml"@ {
        "application/xml"@
    } else if ext == "zip"@ {
        "application/zip"@
    } else if ext == "doc"@ {
        "application/msword"@
    } else if ext == "docx"@ {
        "application/vnd.openxmlformats-officedocument.wordprocessingml.document"@
    } else if ext == "xls"@ {
        "application/vnd.ms-excel"@
    } else if ext == "xlsx"@ {
        "application/vnd.openxmlformats-officedocument.spreadsheetml.sheet"@
    } else if ext == "ppt"@ {
        "application/vnd.ms-powerpoint"@
    } else if ext == "pptx"@ {
        "application/vnd.openxmlformats-officedocument.presentationml.presentation"@
    } else {
        "application/octet-stream"@
    }
}

/// The MIME type that a lower-case file extension stands for.
pub fn mime_for_extension(ext: &str) -> (r: &'static str)
    ensures
        r@ == mime_of_extension(ext@),
{
    if same_text(ext, "jpg") || same_text(ext, "jpeg") {
        "image/jpeg"
    } else if same_text(ext, "png") {
        "image/png"
    } else if same_text(ext, "gif") {
        "image/gif"
    } else if same_text(ext, "webp") {
        "image/webp"
    } else if same_text(ext, "svg") {
        "image/svg+xml"
    } else if same_text(ext, "bmp") {
        "image/bmp"
    } else if same_text(ext, "pdf") {
        "application/pdf"
    } else if same_text(ext, "txt") {
        "text/plain"
    } else if same_text(ext, "md") {
        "text/markdown"
    } else if same_text(ext, "json") {
        "application/json"
    } else if same_text(ext, "html") || same_text(ext, "htm") {
        "text/html"
    } else if same_text(ext, "css") {
        "text/css"
    } else if same_text(ext, "js") {
        "application/javascript"
    } else if same_text(ext, "ts") {
        "application/typescript"
    } else if same_text(ext, "xml") {
        "application/xml"
    } else if same_text(ext, "zip") {
        "application/zip"
    } else if same_text(ext, "doc") {
        "application/msword"
    } else if same_text(ext, "docx") {
        "application/vnd.openxmlformats-officedocument.wordprocessingml.document"
    } else if same_text(ext, "xls") {
        "application/vnd.ms-excel"
    } else if same_text(ext, "xlsx") {
        "application/vnd.openxmlformats-officedocument.spreadsheetml.sheet"
    } else if same_text(ext, "ppt") {
        "application/vnd.ms-powerpoint"
    } else if same_text(ext, "pptx") {
        "application/vnd.openxmlformats-officedocument.presentationml.presentation"
    } else {
        "application/octet-stream"
    }
}

/// The MIME type of a path, from its extension taken in lower case; none when
/// the path has no extension.
pub open spec fn mime_of_path(p: Seq<char>) -> Option<Seq<char>> {
    match extension_of(p) {
        Some(e) => Some(mime_of_extension(lower_of(e))),
        None => None,
    }
}

/// The MIME type of a path, classified by its extension.
pub fn get_mime_type(path: &str) -> (r: Option<String>)
    ensures
        r is None <==> mime_of_path(path@) is None,
        r is Some ==> r->0@ == mime_of_path(path@)->0,
{
    match path_extension(path) {
        Some(ext) => {
            let lower = lowercase(ext.as_str());
            Some(mime_for_extension(lower.as_str()).to_owned())
        },
        None => None,
    }
}

/// Whether an optional MIME type names an image.
pub open spec fn is_image_mime(mime: Option<Seq<char>>) -> bool {
    match mime {
        Some(m) => has_prefix(m, "image/"@),
        None => false,
    }
}

/// Whether an optional MIME type is an image type.
pub fn is_image_type(mime: &Option<String>) -> (r: bool)
    ensures
        r == is_image_mime(match mime {
            Some(m) => Some(m@),
            None => None,
        }),
{
    match mime {
        Some(m) => starts_with(m.as_str(), "image/"),
        None => false,
    }
}

} // verus!
