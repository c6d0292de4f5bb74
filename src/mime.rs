//! Choosing a response's content type: sniffing the bytes first, then the
//! file name's extension, then the generic binary type.

use vstd::prelude::*;

verus! {

/// The MIME type that signature sniffing finds in the bytes, if any.
pub uninterp spec fn sniffed_mime(content: Seq<u8>) -> Option<Seq<char>>;

/// The MIME type that a path's extension maps to, `application/octet-stream`
/// when the extension is absent or unknown.
pub uninterp spec fn guessed_mime(path: Seq<char>) -> Seq<char>;

/// Relies on `infer::get` and `Type::mime_type`: the type whose magic bytes
/// begin `content`; the result depends on the bytes alone.
#[verifier::external_body]
fn sniff(content: &[u8]) -> (r: Option<String>)
    ensures
        match r {
            Some(t) => sniffed_mime(content@) == Some(t@),
            None => sniffed_mime(content@) is None,
        },
{
    match infer::get(content) {
        Some(kind) => Some(kind.mime_type().to_string()),
        None => None,
    }
}

/// Relies on `mime_guess::from_path` and `MimeGuess::first_or_octet_stream`:
/// a static table from extension to type; the result depends on the path alone.
#[verifier::external_body]
fn guess_from_path(path: &str) -> (r: String)
    ensures
        r@ == guessed_mime(path@),
{
    mime_guess::from_path(path).first_or_octet_stream().to_string()
}

/// The content type given what sniffing found and what the extension gave.
pub open spec fn content_type_of(sniffed: Option<Seq<char>>, guessed: Seq<char>) -> Seq<char> {
    match sniffed {
        Some(t) => t,
        None => guessed,
    }
}

/// Picks the sniffed type when there is one, else the type guessed from the extension.
pub fn choose_content_type(sniffed: Option<String>, guessed: String) -> (r: String)
    ensures
        r@ == content_type_of(
            match sniffed {
                Some(t) => Some(t@),
                None => None,
            },
            guessed@,
        ),
{
    match sniffed {
        Some(t) => t,
        None => guessed,
    }
}

/// The content type of a file with these bytes at this path.
pub fn content_type(content: &[u8], path: &str) -> (r: String)
    ensures
        r@ == content_type_of(sniffed_mime(content@), guessed_mime(path@)),
{
    let sniffed = sniff(content);
    let guessed = guess_from_path(path);
    choose_content_type(sniffed, guessed)
}

} // verus!
