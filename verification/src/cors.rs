//! The cross-origin policy: the headers that every response carries.

use vstd::prelude::*;
use vstd::string::StringExecFns;
use crate::text::starts_with;

verus! {

/// The cross-origin policy of the service.
pub struct CORS;

/// One response header.
#[derive(Debug)]
pub struct Header {
    pub name: String,
    pub value: String,
}

/// Whether an origin belongs to the trusted class of callers: the browser
/// extensions.
pub open spec fn trusted_origin(origin: Seq<char>) -> bool {
    "chrome-extension://"@.is_prefix_of(origin)
}

/// The origin that a response allows: the request's own origin where it is
/// trusted, and every origin otherwise.
pub open spec fn allowed_origin(origin: Option<Seq<char>>) -> Seq<char> {
    match origin {
        Some(o) if trusted_origin(o) => o,
        _ => "*"@,
    }
}

impl Header {
    /// Whether the header has the given name and value.
    pub open spec fn carries(&self, name: Seq<char>, value: Seq<char>) -> bool {
        self.name@ == name && self.value@ == value
    }

    /// A header of the given name and value.
    pub fn new(name: &str, value: &str) -> (header: Header)
        ensures
            header.carries(name@, value@),
    {
        Header { name: String::from_str(name), value: String::from_str(value) }
    }
}

impl CORS {
    /// The name under which the policy is attached to the server.
    pub fn name(&self) -> (name: &'static str)
        ensures
            name@ == "Add CORS headers to responses"@,
    {
        "Add CORS headers to responses"
    }

    /// The origin that the response to a request allows, given the request's
    /// `Origin` header.
    pub fn allow_origin<'a>(&self, origin: Option<&'a str>) -> (allowed: &'a str)
        ensures
            allowed@ == allowed_origin(
                match origin {
                    Some(o) => Some(o@),
                    None => None,
                },
            ),
    {
        match origin {
            Some(origin) => {
                if starts_with(origin, "chrome-extension://") {
                    origin
                } else {
                    "*"
                }
            },
            None => "*",
        }
    }

    /// The headers that the response to a request carries, whatever its
    /// status, given the request's `Origin` header.
    pub fn on_response(&self, origin: Option<&str>) -> (headers: Vec<Header>)
        ensures
            headers@.len() == 3,
            headers@[0].carries(
                "Access-Control-Allow-Origin"@,
                allowed_origin(
                    match origin {
                        Some(o) => Some(o@),
                        None => None,
                    },
                ),
            ),
            headers@[1].carries("Access-Control-Allow-Methods"@, "GET, POST, OPTIONS"@),
            headers@[2].carries("Access-Control-Allow-Headers"@, "Content-Type, Charset, Accept"@),
    {
        let mut headers: Vec<Header> = Vec::new();
        headers.push(Header::new("Access-Control-Allow-Origin", self.allow_origin(origin)));
        headers.push(Header::new("Access-Control-Allow-Methods", "GET, POST, OPTIONS"));
        headers.push(Header::new("Access-Control-Allow-Headers", "Content-Type, Charset, Accept"));
        headers
    }
}

} // verus!
