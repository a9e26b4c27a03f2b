//! The plain data a dispatch reads and writes: methods, status codes,
//! requests and responses.

use vstd::prelude::*;

verus! {

/// The HTTP methods a route can be registered under.
#[derive(Clone, Copy, Debug, PartialEq, Eq, Hash, Structural)]
pub enum Method {
    Options,
    Get,
    Post,
    Put,
    Delete,
    Head,
    Trace,
    Connect,
    Patch,
}

/// The number of the status "OK".
pub const OK: u16 = 200;

/// The number of the status "Bad Request".
pub const BAD_REQUEST: u16 = 400;

/// The number of the status "Method Not Allowed".
pub const METHOD_NOT_ALLOWED: u16 = 405;

/// An HTTP status code, held as its number.
#[derive(Clone, Copy, Debug, PartialEq, Eq, Hash, Structural)]
pub struct StatusCode {
    pub code: u16,
}

impl StatusCode {
    pub fn new(code: u16) -> (status: StatusCode)
        ensures
            status.code == code,
    {
        StatusCode { code }
    }

    pub fn as_u16(&self) -> (code: u16)
        ensures
            code == self.code,
    {
        self.code
    }
}

/// A request as contracts see it: its method, its path and its body.
pub struct RequestView {
    pub method: Method,
    pub path: Seq<char>,
    pub body: Seq<u8>,
}

/// A response as contracts see it: its status and its body.
pub struct ResponseView {
    pub status: StatusCode,
    pub body: Seq<u8>,
}

impl ResponseView {
    /// This response with its status replaced.
    pub open spec fn with_status(self, status: StatusCode) -> ResponseView {
        ResponseView { status, body: self.body }
    }

    /// This response with its body replaced.
    pub open spec fn with_body(self, body: Seq<u8>) -> ResponseView {
        ResponseView { status: self.status, body }
    }
}

/// A parsed request, as the connection layer hands it over.
pub struct SyncRequest {
    method: Method,
    path: String,
    body: Vec<u8>,
}

impl View for SyncRequest {
    type V = RequestView;

    closed spec fn view(&self) -> RequestView {
        RequestView { method: self.method, path: self.path@, body: self.body@ }
    }
}

impl SyncRequest {
    pub fn new(method: Method, path: String, body: Vec<u8>) -> (req: SyncRequest)
        ensures
            req@ == (RequestView { method, path: path@, body: body@ }),
    {
        SyncRequest { method, path, body }
    }

    pub fn method(&self) -> (method: Method)
        ensures
            method == self@.method,
    {
        self.method
    }

    pub fn path(&self) -> (path: &str)
        ensures
            path@ == self@.path,
    {
        self.path.as_str()
    }

    pub fn body(&self) -> (body: &Vec<u8>)
        ensures
            body@ == self@.body,
    {
        &self.body
    }
}

/// The response under construction. Guards and delegates write into it; what
/// it holds when the controller returns is what the client receives.
pub struct SyncResponse {
    status: StatusCode,
    body: Vec<u8>,
}

impl View for SyncResponse {
    type V = ResponseView;

    closed spec fn view(&self) -> ResponseView {
        ResponseView { status: self.status, body: self.body@ }
    }
}

impl SyncResponse {
    /// A response with status 200 and an empty body.
    pub fn new() -> (res: SyncResponse)
        ensures
            res@ == (ResponseView { status: (StatusCode { code: OK }), body: Seq::empty() }),
    {
        SyncResponse { status: StatusCode { code: OK }, body: Vec::new() }
    }

    /// Sets the status code and leaves the body as it is.
    pub fn status(&mut self, status: StatusCode)
        ensures
            final(self)@ == old(self)@.with_status(status),
    {
        self.status = status;
    }

    /// Replaces the body and leaves the status as it is.
    pub fn set_body(&mut self, body: Vec<u8>)
        ensures
            final(self)@ == old(self)@.with_body(body@),
    {
        self.body = body;
    }

    pub fn status_code(&self) -> (status: StatusCode)
        ensures
            status == self@.status,
    {
        self.status
    }

    pub fn body(&self) -> (body: &Vec<u8>)
        ensures
            body@ == self@.body,
    {
        &self.body
    }
}

} // verus!
