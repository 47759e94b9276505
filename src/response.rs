//! Responses, and the fixed reply that stands in for a failed handler.

use vstd::prelude::*;

verus! {

#[verifier::external_type_specification]
#[verifier::external_body]
pub struct ExIoError(std::io::Error);

/// A response as the handler produces it: a status line and a body.
#[derive(Clone, Debug)]
pub struct Response {
    pub code: u16,
    pub reason: String,
    pub headers: Vec<(String, String)>,
    pub body: String,
}

impl Response {
    /// An empty `200 OK` response.
    pub fn new() -> (r: Response)
        ensures
            r.code == 200,
            r.reason@ == "OK"@,
            r.headers@.len() == 0,
            r.body@ == Seq::<char>::empty(),
    {
        Response {
            code: 200,
            reason: String::from_str("OK"),
            headers: Vec::new(),
            body: String::new(),
        }
    }

    /// Sets the status code and reason phrase.
    pub fn status_code(&mut self, code: u16, reason: &str)
        ensures
            final(self).code == code,
            final(self).reason@ == reason@,
            final(self).headers == old(self).headers,
            final(self).body == old(self).body,
    {
        self.code = code;
        self.reason = reason.to_string();
    }

    /// Adds a header line.
    pub fn header(&mut self, name: &str, value: &str)
        ensures
            final(self).code == old(self).code,
            final(self).reason == old(self).reason,
            final(self).headers@.len() == old(self).headers@.len() + 1,
            final(self).headers@.drop_last() == old(self).headers@,
            final(self).headers@.last().0@ == name@,
            final(self).headers@.last().1@ == value@,
            final(self).body == old(self).body,
    {
        self.headers.push((name.to_string(), value.to_string()));
    }

    /// Sets the body.
    pub fn body(&mut self, body: &str)
        ensures
            final(self).code == old(self).code,
            final(self).reason == old(self).reason,
            final(self).headers == old(self).headers,
            final(self).body@ == body@,
    {
        self.body = body.to_string();
    }
}

/// Whether `text` is the description that `e` displays as.
pub open spec fn describes(e: &std::io::Error, text: Seq<char>) -> bool {
    exists|d: String| vstd::string::to_string_from_display_ensures::<std::io::Error>(e, d) && d@ == text
}

/// The fixed reply for a failed handler: status 500, reason
/// "Internal Server Error", and the failure's description as the body.
pub fn service_error_rsp(description: &str) -> (r: Response)
    ensures
        r.code == 500,
        r.reason@ == "Internal Server Error"@,
        r.headers@.len() == 0,
        r.body@ == description@,
{
    let mut err_rsp = Response::new();
    err_rsp.status_code(500, "Internal Server Error");
    err_rsp.body(description);
    err_rsp
}

/// The fixed reply for a failed handler, with the error's description as
/// the body.
pub fn internal_error_rsp(e: std::io::Error) -> (r: Response)
    ensures
        r.code == 500,
        r.headers@.len() == 0,
        r.reason@ == "Internal Server Error"@,
        describes(&e, r.body@),
{
    let description = e.to_string();
    service_error_rsp(description.as_str())
}

/// The one response owed for a handled request: the handler's own, or the
/// fixed 500 reply when it failed.
pub fn response_for(result: std::io::Result<Response>) -> (r: Response)
    ensures
        result matches Ok(rsp) ==> r == rsp,
        result matches Err(e) ==> {
            &&& r.code == 500
            &&& r.reason@ == "Internal Server Error"@
            &&& r.headers@.len() == 0
            &&& describes(&e, r.body@)
        },
{
    match result {
        Ok(rsp) => rsp,
        Err(e) => internal_error_rsp(e),
    }
}

} // verus!
