//! Content types, chosen by file extension.

use crate::bytes::{eq_ignore_case, same_ignoring_case, text};
use vstd::prelude::*;
use vstd::utf8::encode_utf8;

verus! {

/// The content types that the server knows.
#[derive(Clone, Copy, Debug, PartialEq)]
pub enum MimeType {
    Html,
    Css,
    Javascript,
    Json,
    Xml,
    PlainText,
    Icon,
    Png,
    Jpeg,
    Gif,
    Svg,
    Pdf,
    Woff,
    Woff2,
    Ttf,
    Eot,
    /// What a file of unknown kind is served as.
    OctetStream,
}

impl MimeType {
    /// The value of the `Content-Type` header for this type.
    pub open spec fn content_type(self) -> Seq<char> {
        match self {
            MimeType::Html => "text/html; charset=utf-8"@,
            MimeType::Css => "text/css; charset=utf-8"@,
            MimeType::Javascript => "text/javascript; charset=utf-8"@,
            MimeType::Json => "application/json; charset=utf-8"@,
            MimeType::Xml => "application/xml; charset=utf-8"@,
            MimeType::PlainText => "text/plain; charset=utf-8"@,
            MimeType::Icon => "image/x-icon"@,
            MimeType::Png => "image/png"@,
            MimeType::Jpeg => "image/jpeg"@,
            MimeType::Gif => "image/gif"@,
            MimeType::Svg => "image/svg+xml"@,
            MimeType::Pdf => "application/pdf"@,
            MimeType::Woff => "font/woff"@,
            MimeType::Woff2 => "font/woff2"@,
            MimeType::Ttf => "font/ttf"@,
            MimeType::Eot => "application/vnd.ms-fontobject"@,
            MimeType::OctetStream => "application/octet-stream"@,
        }
    }

    /// The value of the `Content-Type` header for this type.
    pub fn as_str(self) -> (s: &'static str)
        ensures
            s@ == self.content_type(),
    {
        match self {
            MimeType::Html => "text/html; charset=utf-8",
            MimeType::Css => "text/css; charset=utf-8",
            MimeType::Javascript => "text/javascript; charset=utf-8",
            MimeType::Json => "application/json; charset=utf-8",
            MimeType::Xml => "application/xml; charset=utf-8",
            MimeType::PlainText => "text/plain; charset=utf-8",
            MimeType::Icon => "image/x-icon",
            MimeType::Png => "image/png",
            MimeType::Jpeg => "image/jpeg",
            MimeType::Gif => "image/gif",
            MimeType::Svg => "image/svg+xml",
            MimeType::Pdf => "application/pdf",
            MimeType::Woff => "font/woff",
            MimeType::Woff2 => "font/woff2",
            MimeType::Ttf => "font/ttf",
            MimeType::Eot => "application/vnd.ms-fontobject",
            MimeType::OctetStream => "application/octet-stream",
        }
    }
}

/// Whether an extension is `name`, whatever the case of its ASCII letters.
pub open spec fn extension_is(extension: Seq<char>, name: &str) -> bool {
    eq_ignore_case(encode_utf8(extension), text(name))
}

/// The content type that goes with a file extension; `None` is a file
/// name without one.
pub open spec fn mime_of_extension(extension: Option<Seq<char>>) -> MimeType {
    match extension {
        None => MimeType::OctetStream,
        Some(e) => {
            if extension_is(e, "html") || extension_is(e, "htm") {
                MimeType::Html
            } else if extension_is(e, "css") {
                MimeType::Css
            } else if extension_is(e, "js") {
                MimeType::Javascript
            } else if extension_is(e, "json") {
                MimeType::Json
            } else if extension_is(e, "xml") {
                MimeType::Xml
            } else if extension_is(e, "txt") {
                MimeType::PlainText
            } else if extension_is(e, "ico") {
                MimeType::Icon
            } else if extension_is(e, "png") {
                MimeType::Png
            } else if extension_is(e, "jpg") || extension_is(e, "jpeg") {
                MimeType::Jpeg
            } else if extension_is(e, "gif") {
                MimeType::Gif
            } else if extension_is(e, "svg") {
                MimeType::Svg
            } else if extension_is(e, "pdf") {
                MimeType::Pdf
            } else if extension_is(e, "woff") {
                MimeType::Woff
            } else if extension_is(e, "woff2") {
                MimeType::Woff2
            } else if extension_is(e, "ttf") {
                MimeType::Ttf
            } else if extension_is(e, "eot") {
                MimeType::Eot
            } else {
                MimeType::OctetStream
            }
        },
    }
}

fn has_extension(extension: &str, name: &str) -> (same: bool)
    ensures
        same == extension_is(extension@, name),
{
    same_ignoring_case(extension.as_bytes(), name.as_bytes())
}

/// The content type for an extension that was already taken from a file
/// name.
pub fn mime_type_of_extension(extension: Option<&str>) -> (mime: MimeType)
    ensures
        mime == mime_of_extension(
            match extension {
                Some(e) => Some(e@),
                None => None,
            },
        ),
{
    let e = match extension {
        Some(e) => e,
        None => { return MimeType::OctetStream; },
    };
    if has_extension(e, "html") || has_extension(e, "htm") {
        MimeType::Html
    } else if has_extension(e, "css") {
        MimeType::Css
    } else if has_extension(e, "js") {
        MimeType::Javascript
    } else if has_extension(e, "json") {
        MimeType::Json
    } else if has_extension(e, "xml") {
        MimeType::Xml
    } else if has_extension(e, "txt") {
        MimeType::PlainText
    } else if has_extension(e, "ico") {
        MimeType::Icon
    } else if has_extension(e, "png") {
        MimeType::Png
    } else if has_extension(e, "jpg") || has_extension(e, "jpeg") {
        MimeType::Jpeg
    } else if has_extension(e, "gif") {
        MimeType::Gif
    } else if has_extension(e, "svg") {
        MimeType::Svg
    } else if has_extension(e, "pdf") {
        MimeType::Pdf
    } else if has_extension(e, "woff") {
        MimeType::Woff
    } else if has_extension(e, "woff2") {
        MimeType::Woff2
    } else if has_extension(e, "ttf") {
        MimeType::Ttf
    } else if has_extension(e, "eot") {
        MimeType::Eot
    } else {
        MimeType::OctetStream
    }
}

/// The extension that `std::path::Path::extension` finds in a path given
/// as text: what follows the last dot of the final component, where that
/// component has a dot that is not its first character. Paths are read as
/// the platform reads them for which the library is built.
pub uninterp spec fn path_extension(path: Seq<char>) -> Option<Seq<char>>;

/// `std::path::Path::extension` on the path that `path` spells, given
/// back as text (`OsStr::to_str`): the extension of a path that is text is
/// text itself.
#[verifier::external_body]
fn extension_of<'a>(path: &'a str) -> (extension: Option<&'a str>)
    ensures
        match extension {
            Some(e) => path_extension(path@) == Some(e@),
            None => path_extension(path@) is None,
        },
{
    match std::path::Path::new(path).extension() {
        Some(e) => e.to_str(),
        None => None,
    }
}

/// The content type of the file at `file_path`, by its extension.
pub fn get_mime_type_enum(file_path: &str) -> (mime: MimeType)
    ensures
        mime == mime_of_extension(path_extension(file_path@)),
{
    mime_type_of_extension(extension_of(file_path))
}

/// The `Content-Type` value for the file at `file_path`.
pub fn get_mime_type(file_path: &str) -> (content_type: &'static str)
    ensures
        content_type@ == mime_of_extension(path_extension(file_path@)).content_type(),
{
    get_mime_type_enum(file_path).as_str()
}

} // verus!
