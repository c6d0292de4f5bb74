//! The small closed vocabularies of a response: protocol version, status and
//! range support, each with the text it is written as on the wire.

use vstd::prelude::*;

verus! {

/// A protocol version that a request line may name.
#[derive(Debug, Clone, Copy, PartialEq, Eq, Structural)]
pub enum Version {
    V1_0,
    V1_1,
    V2_0,
}

/// How a version is written on the wire.
pub open spec fn version_text(v: Version) -> Seq<char> {
    match v {
        Version::V1_0 => "HTTP/1.0"@,
        Version::V1_1 => "HTTP/1.1"@,
        Version::V2_0 => "HTTP/2.0"@,
    }
}

impl Version {
    pub fn as_string(&self) -> (r: String)
        ensures
            r@ == version_text(*self),
    {
        match self {
            Version::V1_0 => String::from_str("HTTP/1.0"),
            Version::V1_1 => String::from_str("HTTP/1.1"),
            Version::V2_0 => String::from_str("HTTP/2.0"),
        }
    }
}

/// The status of a response.
#[derive(Debug, Clone, Copy, PartialEq, Eq, Structural)]
pub enum ResponseStatus {
    OK,
    BadRequest,
    Forbidden,
    NotFound,
}

/// The numeric code of a status.
pub open spec fn status_code(s: ResponseStatus) -> nat {
    match s {
        ResponseStatus::OK => 200,
        ResponseStatus::BadRequest => 400,
        ResponseStatus::Forbidden => 403,
        ResponseStatus::NotFound => 404,
    }
}

/// How a status is written in the status line.
pub open spec fn status_text(s: ResponseStatus) -> Seq<char> {
    match s {
        ResponseStatus::OK => "200 OK"@,
        ResponseStatus::BadRequest => "400 BAD REQUEST"@,
        ResponseStatus::Forbidden => "403 FORBIDDEN"@,
        ResponseStatus::NotFound => "404 NOT FOUND"@,
    }
}

impl ResponseStatus {
    pub fn code(&self) -> (r: u16)
        ensures
            r as nat == status_code(*self),
    {
        match self {
            ResponseStatus::OK => 200,
            ResponseStatus::BadRequest => 400,
            ResponseStatus::Forbidden => 403,
            ResponseStatus::NotFound => 404,
        }
    }

    pub fn as_string(&self) -> (r: String)
        ensures
            r@ == status_text(*self),
    {
        match self {
            ResponseStatus::OK => String::from_str("200 OK"),
            ResponseStatus::BadRequest => String::from_str("400 BAD REQUEST"),
            ResponseStatus::Forbidden => String::from_str("403 FORBIDDEN"),
            ResponseStatus::NotFound => String::from_str("404 NOT FOUND"),
        }
    }
}

/// Whether a response advertises byte-range support.
#[derive(Debug, Clone, Copy, PartialEq, Eq, Structural)]
pub enum AcceptRanges {
    Bytes,
    NoRanges,
}

/// How the range-support header line is written.
pub open spec fn accept_ranges_text(a: AcceptRanges) -> Seq<char> {
    match a {
        AcceptRanges::Bytes => "accept-ranges: bytes"@,
        AcceptRanges::NoRanges => "accept-ranges: none"@,
    }
}

impl AcceptRanges {
    pub fn as_string(&self) -> (r: String)
        ensures
            r@ == accept_ranges_text(*self),
    {
        match self {
            AcceptRanges::Bytes => String::from_str("accept-ranges: bytes"),
            AcceptRanges::NoRanges => String::from_str("accept-ranges: none"),
        }
    }
}

} // verus!
