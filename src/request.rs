//! Parsing the request line out of the first chunk read from a connection.
//!
//! Only the chunk handed in is looked at: a request line that does not end
//! within it is reported as truncated, never completed from later reads.

use vstd::prelude::*;
use crate::status::{Version, version_text};
use crate::text::{split_on, char_views, split_chars, take_chars, chars_of, chars_equal, string_of_chars};

verus! {

/// Why a request line was refused.
#[derive(Debug, Clone, Copy, PartialEq, Eq, Structural)]
pub enum ParseError {
    /// No line end within the chunk.
    Truncated,
    /// The line is not three non-empty fields separated by single spaces.
    Malformed,
    /// The third field names no known protocol version.
    UnknownVersion,
}

/// A parsed request line.
#[derive(Debug, Clone)]
pub struct HttpRequest {
    pub method: String,
    /// The requested path, still percent-encoded, as the client sent it.
    pub path: String,
    pub version: Version,
}

/// The index of the first `c` in `s`, if any.
pub open spec fn first_index(s: Seq<char>, c: char) -> Option<int>
    decreases s.len(),
{
    if s.len() == 0 {
        None
    } else if s[0] == c {
        Some(0)
    } else {
        match first_index(s.drop_first(), c) {
            Some(i) => Some(i + 1),
            None => None,
        }
    }
}

/// The first line of `buf` without its line end (`\n` or `\r\n`), if it has one.
pub open spec fn first_line(buf: Seq<char>) -> Option<Seq<char>> {
    match first_index(buf, '\n') {
        None => None,
        Some(i) => {
            let l = buf.take(i);
            Some(if l.len() > 0 && l.last() == '\r' { l.drop_last() } else { l })
        },
    }
}

/// The version that a request line's third field names.
pub open spec fn version_named(t: Seq<char>) -> Option<Version> {
    if t == version_text(Version::V1_0) {
        Some(Version::V1_0)
    } else if t == version_text(Version::V1_1) {
        Some(Version::V1_1)
    } else if t == version_text(Version::V2_0) {
        Some(Version::V2_0)
    } else {
        None
    }
}

/// What a chunk parses to: method, path and version, or the reason it is refused.
pub open spec fn parse_model(buf: Seq<char>) -> Result<(Seq<char>, Seq<char>, Version), ParseError> {
    match first_line(buf) {
        None => Err(ParseError::Truncated),
        Some(l) => {
            let f = split_on(l, ' ');
            if f.len() != 3 || f[0].len() == 0 || f[1].len() == 0 {
                Err(ParseError::Malformed)
            } else {
                match version_named(f[2]) {
                    None => Err(ParseError::UnknownVersion),
                    Some(v) => Ok((f[0], f[1], v)),
                }
            }
        },
    }
}

proof fn lemma_first_index(s: Seq<char>, c: char, i: int)
    requires
        0 <= i <= s.len(),
        forall|k: int| 0 <= k < i ==> s[k] != c,
    ensures
        i < s.len() && s[i] == c ==> first_index(s, c) == Some(i),
        i == s.len() ==> first_index(s, c) is None,
    decreases i,
{
    if i > 0 {
        lemma_first_index(s.drop_first(), c, i - 1);
    }
}

fn find_char(s: &Vec<char>, c: char) -> (r: Option<usize>)
    ensures
        match r {
            Some(i) => i < s@.len() && first_index(s@, c) == Some(i as int),
            None => first_index(s@, c) is None,
        },
{
    let mut i: usize = 0;
    while i < s.len()
        invariant
            i <= s@.len(),
            forall|k: int| 0 <= k < i ==> s@[k] != c,
        decreases s@.len() - i,
    {
        if s[i] == c {
            proof {
                lemma_first_index(s@, c, i as int);
            }
            return Some(i);
        }
        i = i + 1;
    }
    proof {
        lemma_first_index(s@, c, i as int);
    }
    None
}

fn version_of(t: &Vec<char>) -> (r: Option<Version>)
    ensures
        r == version_named(t@),
{
    let v10 = chars_of("HTTP/1.0");
    let v11 = chars_of("HTTP/1.1");
    let v20 = chars_of("HTTP/2.0");
    if chars_equal(t, &v10) {
        Some(Version::V1_0)
    } else if chars_equal(t, &v11) {
        Some(Version::V1_1)
    } else if chars_equal(t, &v20) {
        Some(Version::V2_0)
    } else {
        None
    }
}

impl HttpRequest {
    /// Parses the request line at the start of `buf`.
    pub fn new(buf: &str) -> (r: Result<HttpRequest, ParseError>)
        ensures
            match r {
                Ok(q) => parse_model(buf@) == Ok::<_, ParseError>((q.method@, q.path@, q.version)),
                Err(e) => parse_model(buf@) == Err::<(Seq<char>, Seq<char>, Version), _>(e),
            },
    {
        let chars = chars_of(buf);
        let end = match find_char(&chars, '\n') {
            None => return Err(ParseError::Truncated),
            Some(i) => i,
        };
        let mut line = take_chars(&chars, end);
        let ghost l0 = line@;
        if line.len() > 0 && line[line.len() - 1] == '\r' {
            line.pop();
            assert(line@ =~= l0.drop_last());
        }
        let fields = split_chars(&line, ' ');
        assert(char_views(fields@).len() == fields@.len());
        if fields.len() != 3 {
            return Err(ParseError::Malformed);
        }
        assert(char_views(fields@)[0] == fields@[0]@);
        assert(char_views(fields@)[1] == fields@[1]@);
        assert(char_views(fields@)[2] == fields@[2]@);
        if fields[0].len() == 0 || fields[1].len() == 0 {
            return Err(ParseError::Malformed);
        }
        match version_of(&fields[2]) {
            None => Err(ParseError::UnknownVersion),
            Some(v) => Ok(
                HttpRequest {
                    method: string_of_chars(&fields[0]),
                    path: string_of_chars(&fields[1]),
                    version: v,
                },
            ),
        }
    }
}

} // verus!
