//! What the library needs to know of one-shot HTTP requests: the header that announces
//! the body, and the response as plain values.

use crate::text::decimal;
use vstd::prelude::*;

verus! {

/// The response to a one-shot request.
#[derive(Debug)]
pub struct Response {
    pub status: u16,
    pub body: Vec<u8>,
    pub content_type: Option<String>,
}

impl Response {
    /// Whether the status is one of success, from 200 up to but not including 300.
    pub fn is_success(&self) -> (success: bool)
        ensures
            success == (200 <= self.status < 300),
    {
        200 <= self.status && self.status < 300
    }
}

/// A request header: its name and its value.
#[derive(Debug)]
pub struct Header {
    pub name: String,
    pub value: String,
}

/// The header that announces a body of `len` bytes.
pub fn content_length(len: usize) -> (header: Header)
    ensures
        header.name@ == "Content-Length"@,
        header.value@ == crate::text::decimal_text(len as nat),
{
    Header { name: String::from_str("Content-Length"), value: decimal(len as u64) }
}

/// The headers of a request with a body of `len` bytes: the given ones, and after them
/// the one that announces the body.
pub fn request_headers(headers: Vec<Header>, len: usize) -> (all: Vec<Header>)
    ensures
        all@.len() == headers@.len() + 1,
        all@.drop_last() == headers@,
        all@.last().name@ == "Content-Length"@,
        all@.last().value@ == crate::text::decimal_text(len as nat),
{
    let mut all = headers;
    all.push(content_length(len));
    assert(all@.drop_last() =~= headers@);
    all
}

/// How many bytes of a response are read at a time.
pub const CHUNK: usize = 256;

/// Adds the first `len` bytes of `chunk` to what was read of a body before, and says
/// whether more is to be read: reading ends with the first empty chunk.
pub fn absorb(body: &mut Vec<u8>, chunk: &[u8], len: usize) -> (more: bool)
    requires
        len <= chunk@.len(),
    ensures
        final(body)@ == old(body)@ + chunk@.subrange(0, len as int),
        more == (len != 0),
{
    let mut i: usize = 0;
    while i < len
        invariant
            i <= len <= chunk@.len(),
            body@ == old(body)@ + chunk@.subrange(0, i as int),
        decreases len - i,
    {
        body.push(chunk[i]);
        i = i + 1;
        assert(body@ =~= old(body)@ + chunk@.subrange(0, i as int));
    }
    assert(body@ =~= old(body)@ + chunk@.subrange(0, len as int));
    len != 0
}

} // verus!
