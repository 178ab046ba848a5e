//! Response envelopes for the REST layer: a success envelope with paging
//! hints, and an error envelope with a status, a machine-readable code
//! and an optional hint. The serving layer serializes them; here they are
//! plain data with builder methods.

use vstd::prelude::*;

verus! {

/// A successful response: an HTTP status, the content, and optional
/// paging hints.
#[derive(Debug)]
pub struct JsonResponse<T> {
    pub status: u16,
    pub content: T,
    pub total: Option<usize>,
    pub next: Option<String>,
    pub prev: Option<String>,
}

impl JsonResponse<()> {
    /// An empty OK response.
    pub fn new() -> (r: JsonResponse<()>)
        ensures
            r.status == 200,
            r.total is None,
            r.next is None,
            r.prev is None,
    {
        JsonResponse { status: 200, content: (), total: None, next: None, prev: None }
    }
}

impl<T> JsonResponse<T> {
    /// An OK response around the given content.
    pub fn with_content(content: T) -> (r: JsonResponse<T>)
        ensures
            r.status == 200,
            r.content == content,
            r.total is None,
            r.next is None,
            r.prev is None,
    {
        JsonResponse { status: 200, content, total: None, next: None, prev: None }
    }

    /// Set the link to the next page.
    pub fn next(self, next: String) -> (r: JsonResponse<T>)
        ensures
            r.next == Some(next),
            r.status == self.status,
            r.content == self.content,
            r.total == self.total,
            r.prev == self.prev,
    {
        JsonResponse { next: Some(next), ..self }
    }

    /// Set the link to the previous page.
    pub fn prev(self, prev: String) -> (r: JsonResponse<T>)
        ensures
            r.prev == Some(prev),
            r.status == self.status,
            r.content == self.content,
            r.total == self.total,
            r.next == self.next,
    {
        JsonResponse { prev: Some(prev), ..self }
    }

    /// Set the total number of matching records.
    pub fn total(self, total: usize) -> (r: JsonResponse<T>)
        ensures
            r.total == Some(total),
            r.status == self.status,
            r.content == self.content,
            r.next == self.next,
            r.prev == self.prev,
    {
        JsonResponse { total: Some(total), ..self }
    }

    /// Replace the content, keeping status and paging hints.
    pub fn content<B>(self, content: B) -> (r: JsonResponse<B>)
        ensures
            r.content == content,
            r.status == self.status,
            r.total == self.total,
            r.next == self.next,
            r.prev == self.prev,
    {
        JsonResponse {
            status: self.status,
            content,
            total: self.total,
            next: self.next,
            prev: self.prev,
        }
    }
}

/// An error response: an HTTP status, a machine-readable code, an
/// optional human hint, and optional content.
#[derive(Debug)]
pub struct JsonError<T> {
    pub status: u16,
    pub code: String,
    pub hint: Option<String>,
    pub content: T,
}

impl JsonError<()> {
    /// An error response without content. The status must be a
    /// three-digit HTTP status.
    pub fn new(status: u16, code: &str) -> (r: JsonError<()>)
        requires
            100 <= status < 1000,
        ensures
            r.status == status,
            r.code@ == code@,
            r.hint is None,
    {
        JsonError { status, code: code.to_owned(), hint: None, content: () }
    }
}

impl<T> JsonError<T> {
    /// An error response around the given content. The status must be a
    /// three-digit HTTP status.
    pub fn with_content(status: u16, code: &str, content: T) -> (r: JsonError<T>)
        requires
            100 <= status < 1000,
        ensures
            r.status == status,
            r.code@ == code@,
            r.hint is None,
            r.content == content,
    {
        JsonError { status, code: code.to_owned(), hint: None, content }
    }

    /// Set the human-readable hint.
    pub fn hint(self, hint: String) -> (r: JsonError<T>)
        ensures
            r.hint == Some(hint),
            r.status == self.status,
            r.code == self.code,
            r.content == self.content,
    {
        JsonError { hint: Some(hint), ..self }
    }

    /// Replace the content, keeping status, code and hint.
    pub fn content<B>(self, content: B) -> (r: JsonError<B>)
        ensures
            r.content == content,
            r.status == self.status,
            r.code == self.code,
            r.hint == self.hint,
    {
        JsonError { status: self.status, code: self.code, hint: self.hint, content }
    }
}

} // verus!
