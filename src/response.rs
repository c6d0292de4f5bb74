//! Building a response from a resolved path and what was read there, and
//! framing it with one header block shared by every kind of response.

use vstd::prelude::*;
use vstd::utf8::encode_utf8;
use crate::status::{Version, ResponseStatus, AcceptRanges, version_text, status_text, status_code};
use crate::request::HttpRequest;
use crate::resolve::{ResolvedPath, Kind};
use crate::mime::{content_type, content_type_of, sniffed_mime, guessed_mime};
use crate::listing::{render_listing, listing_page, string_views};
use crate::text::{decimal, decimal_string};

verus! {

/// The fixed body of a response for a path that does not exist.
pub const NOT_FOUND_PAGE: &'static str = "<html>\n<body>\n<h1>404 Not Found</h1>\n</body>\n</html>\n";

/// The fixed body of a response to a request path that leads outside the root.
pub const FORBIDDEN_PAGE: &'static str = "<html>\n<body>\n<h1>403 Forbidden</h1>\n</body>\n</html>\n";

/// The fixed body of a response to a request line that cannot be parsed.
pub const BAD_REQUEST_PAGE: &'static str = "<html>\n<body>\n<h1>400 Bad Request</h1>\n</body>\n</html>\n";

/// What was read at a resolved path: a file's bytes, the names of a
/// directory's immediate children, or nothing for a missing path.
#[derive(Debug, Clone)]
pub enum Content {
    Bytes(Vec<u8>),
    Listing(Vec<String>),
    Nothing,
}

/// Whether `content` is what is read at a path of this kind.
pub open spec fn content_fits(kind: Kind, content: Content) -> bool {
    match kind {
        Kind::File => content is Bytes,
        Kind::Directory => content is Listing,
        Kind::Missing => content is Nothing,
    }
}

/// A response: status line parts, headers and body.
///
/// Ranges are never served, so no response advertises byte ranges.
#[derive(Debug)]
pub struct HttpResponse {
    pub version: Version,
    pub status: ResponseStatus,
    pub content_length: usize,
    pub content_type: String,
    pub accept_ranges: AcceptRanges,
    pub response_body: Vec<u8>,
    /// The request path as the client sent it.
    pub current_path: String,
}

/// Status, content type and body of the response for the resolved path
/// `path` below `root`, given what was read there.
pub open spec fn response_model(root: Seq<char>, path: Seq<char>, content: Content) -> (ResponseStatus, Seq<char>, Seq<u8>) {
    match content {
        Content::Bytes(b) => (ResponseStatus::OK, content_type_of(sniffed_mime(b@), guessed_mime(path)), b@),
        Content::Listing(names) => (ResponseStatus::OK, "text/html"@, encode_utf8(listing_page(root, path, string_views(names@)))),
        Content::Nothing => (ResponseStatus::NotFound, "text/plain"@, encode_utf8(NOT_FOUND_PAGE@)),
    }
}

/// The header block: status line, content length and content type, then a blank line.
pub open spec fn head_text(v: Version, s: ResponseStatus, len: nat, ctype: Seq<char>) -> Seq<char> {
    version_text(v) + " "@ + status_text(s) + "\r\nContent-Length: "@ + decimal(len) + "\r\nContent-Type: "@
        + ctype + "\r\n\r\n"@
}

/// The response for an existing regular file carries the file's bytes
/// unchanged, with status OK; `new` also makes its declared length the body's.
pub proof fn law_file_response_is_the_file(root: Seq<char>, path: Seq<char>, bytes: Vec<u8>)
    ensures
        response_model(root, path, Content::Bytes(bytes)).0 == ResponseStatus::OK,
        response_model(root, path, Content::Bytes(bytes)).2 == bytes@,
        response_model(root, path, Content::Bytes(bytes)).2.len() == bytes@.len(),
{
}

/// The response for a missing path has status 404 and the fixed page as body,
/// whatever the path.
pub proof fn law_missing_is_not_found(root: Seq<char>, path: Seq<char>)
    ensures
        response_model(root, path, Content::Nothing).0 == ResponseStatus::NotFound,
        status_code(response_model(root, path, Content::Nothing).0) == 404,
        response_model(root, path, Content::Nothing).2 == encode_utf8(NOT_FOUND_PAGE@),
{
}

/// Two responses built for the same resolved path from the same filesystem
/// state have the same status, content type and body.
pub proof fn law_response_is_repeatable(
    root: Seq<char>,
    path: Seq<char>,
    content: Content,
    first: (ResponseStatus, Seq<char>, Seq<u8>),
    second: (ResponseStatus, Seq<char>, Seq<u8>),
)
    requires
        first == response_model(root, path, content),
        second == response_model(root, path, content),
    ensures
        first == second,
{
}

impl HttpResponse {
    /// The declared length is the body's length.
    pub open spec fn wf(&self) -> bool {
        self.content_length == self.response_body@.len()
    }

    /// Builds the response for `resolved`, a path at or below `root`, from
    /// what was read there: a file's bytes, a directory's child names, or
    /// nothing for a missing path.
    pub fn new(request: &HttpRequest, root: &str, resolved: &ResolvedPath, content: Content) -> (r: HttpResponse)
        requires
            content_fits(resolved.kind, content),
        ensures
            r.wf(),
            r.version == Version::V2_0,
            r.accept_ranges == AcceptRanges::NoRanges,
            r.current_path@ == request.path@,
            (r.status, r.content_type@, r.response_body@) == response_model(
                root@,
                resolved.absolute_path@,
                content,
            ),
    {
        let path = resolved.absolute_path.as_str();
        let (status, ctype, body) = match content {
            Content::Bytes(b) => {
                let t = content_type(b.as_slice(), path);
                (ResponseStatus::OK, t, b)
            },
            Content::Listing(names) => {
                let page = render_listing(root, path, &names);
                let bytes = page.as_str().as_bytes_vec();
                (ResponseStatus::OK, String::from_str("text/html"), bytes)
            },
            Content::Nothing => {
                let bytes = NOT_FOUND_PAGE.as_bytes_vec();
                (ResponseStatus::NotFound, String::from_str("text/plain"), bytes)
            },
        };
        HttpResponse {
            version: Version::V2_0,
            status,
            content_length: body.len(),
            content_type: ctype,
            accept_ranges: AcceptRanges::NoRanges,
            response_body: body,
            current_path: request.path.clone(),
        }
    }

    /// The response to a request line that cannot be parsed: status 400 and
    /// a fixed page.
    pub fn bad_request() -> (r: HttpResponse)
        ensures
            r.wf(),
            r.version == Version::V2_0,
            r.status == ResponseStatus::BadRequest,
            r.accept_ranges == AcceptRanges::NoRanges,
            r.content_type@ == "text/plain"@,
            r.response_body@ == encode_utf8(BAD_REQUEST_PAGE@),
            r.current_path@ == Seq::<char>::empty(),
    {
        let body = BAD_REQUEST_PAGE.as_bytes_vec();
        HttpResponse {
            version: Version::V2_0,
            status: ResponseStatus::BadRequest,
            content_length: body.len(),
            content_type: String::from_str("text/plain"),
            accept_ranges: AcceptRanges::NoRanges,
            response_body: body,
            current_path: String::new(),
        }
    }

    /// The response to a request whose path leads outside the root: status
    /// 403 and a fixed page, with nothing of any file in it.
    pub fn forbidden(request: &HttpRequest) -> (r: HttpResponse)
        ensures
            r.wf(),
            r.version == Version::V2_0,
            r.status == ResponseStatus::Forbidden,
            r.accept_ranges == AcceptRanges::NoRanges,
            r.content_type@ == "text/plain"@,
            r.response_body@ == encode_utf8(FORBIDDEN_PAGE@),
            r.current_path@ == request.path@,
    {
        let body = FORBIDDEN_PAGE.as_bytes_vec();
        HttpResponse {
            version: Version::V2_0,
            status: ResponseStatus::Forbidden,
            content_length: body.len(),
            content_type: String::from_str("text/plain"),
            accept_ranges: AcceptRanges::NoRanges,
            response_body: body,
            current_path: request.path.clone(),
        }
    }

    /// The header block of this response.
    pub fn head(&self) -> (r: String)
        ensures
            r@ == head_text(self.version, self.status, self.content_length as nat, self.content_type@),
    {
        let mut out = self.version.as_string();
        out.append(" ");
        let s = self.status.as_string();
        out.append(s.as_str());
        out.append("\r\nContent-Length: ");
        let n = decimal_string(self.content_length);
        out.append(n.as_str());
        out.append("\r\nContent-Type: ");
        out.append(self.content_type.as_str());
        out.append("\r\n\r\n");
        out
    }

    /// The whole response as sent: the header block, then the body.
    pub fn to_bytes(&self) -> (r: Vec<u8>)
        ensures
            r@ == encode_utf8(
                head_text(self.version, self.status, self.content_length as nat, self.content_type@),
            ) + self.response_body@,
    {
        let h = self.head();
        let mut out = h.as_str().as_bytes_vec();
        let ghost start = out@;
        let mut i: usize = 0;
        while i < self.response_body.len()
            invariant
                i <= self.response_body@.len(),
                out@ == start + self.response_body@.take(i as int),
            decreases self.response_body@.len() - i,
        {
            out.push(self.response_body[i]);
            i = i + 1;
            assert(out@ =~= start + self.response_body@.take(i as int));
        }
        assert(self.response_body@.take(self.response_body@.len() as int) =~= self.response_body@);
        out
    }
}

} // verus!
