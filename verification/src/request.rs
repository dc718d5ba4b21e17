//! The structured form of a decoded request: method, target, protocol
//! version, headers, and body bytes.

use vstd::prelude::*;

use crate::ascii::eq_bytes;
use crate::headers::{Headers, HeaderView};

verus! {

/// The nine request methods of HTTP/1.1.
#[derive(Clone, Copy, Debug, PartialEq, Eq, Structural)]
pub enum Method {
    Get,
    Head,
    Post,
    Put,
    Delete,
    Connect,
    Options,
    Trace,
    Patch,
}

/// The one protocol version this engine speaks.
#[derive(Clone, Copy, Debug, PartialEq, Eq, Structural)]
pub enum Version {
    Http11,
}

/// The wire token of a method.
pub open spec fn method_token(m: Method) -> Seq<u8> {
    match m {
        Method::Get => seq![71u8, 69, 84],  // GET
        Method::Head => seq![72u8, 69, 65, 68],  // HEAD
        Method::Post => seq![80u8, 79, 83, 84],  // POST
        Method::Put => seq![80u8, 85, 84],  // PUT
        Method::Delete => seq![68u8, 69, 76, 69, 84, 69],  // DELETE
        Method::Connect => seq![67u8, 79, 78, 78, 69, 67, 84],  // CONNECT
        Method::Options => seq![79u8, 80, 84, 73, 79, 78, 83],  // OPTIONS
        Method::Trace => seq![84u8, 82, 65, 67, 69],  // TRACE
        Method::Patch => seq![80u8, 65, 84, 67, 72],  // PATCH
    }
}

/// The method a wire token names, if any.  Methods are case-sensitive.
pub open spec fn method_of(tok: Seq<u8>) -> Option<Method> {
    if tok == method_token(Method::Get) {
        Some(Method::Get)
    } else if tok == method_token(Method::Head) {
        Some(Method::Head)
    } else if tok == method_token(Method::Post) {
        Some(Method::Post)
    } else if tok == method_token(Method::Put) {
        Some(Method::Put)
    } else if tok == method_token(Method::Delete) {
        Some(Method::Delete)
    } else if tok == method_token(Method::Connect) {
        Some(Method::Connect)
    } else if tok == method_token(Method::Options) {
        Some(Method::Options)
    } else if tok == method_token(Method::Trace) {
        Some(Method::Trace)
    } else if tok == method_token(Method::Patch) {
        Some(Method::Patch)
    } else {
        None
    }
}

/// The wire token of a method, as bytes.
pub fn method_bytes(m: Method) -> (r: Vec<u8>)
    ensures
        r@ == method_token(m),
{
    let mut v: Vec<u8> = Vec::new();
    match m {
        Method::Get => {
            v.push(71);
            v.push(69);
            v.push(84);
            proof {
                assert(v@ =~= method_token(m));
            }
        },
        Method::Head => {
            v.push(72);
            v.push(69);
            v.push(65);
            v.push(68);
            proof {
                assert(v@ =~= method_token(m));
            }
        },
        Method::Post => {
            v.push(80);
            v.push(79);
            v.push(83);
            v.push(84);
            proof {
                assert(v@ =~= method_token(m));
            }
        },
        Method::Put => {
            v.push(80);
            v.push(85);
            v.push(84);
            proof {
                assert(v@ =~= method_token(m));
            }
        },
        Method::Delete => {
            v.push(68);
            v.push(69);
            v.push(76);
            v.push(69);
            v.push(84);
            v.push(69);
            proof {
                assert(v@ =~= method_token(m));
            }
        },
        Method::Connect => {
            v.push(67);
            v.push(79);
            v.push(78);
            v.push(78);
            v.push(69);
            v.push(67);
            v.push(84);
            proof {
                assert(v@ =~= method_token(m));
            }
        },
        Method::Options => {
            v.push(79);
            v.push(80);
            v.push(84);
            v.push(73);
            v.push(79);
            v.push(78);
            v.push(83);
            proof {
                assert(v@ =~= method_token(m));
            }
        },
        Method::Trace => {
            v.push(84);
            v.push(82);
            v.push(65);
            v.push(67);
            v.push(69);
            proof {
                assert(v@ =~= method_token(m));
            }
        },
        Method::Patch => {
            v.push(80);
            v.push(65);
            v.push(84);
            v.push(67);
            v.push(72);
            proof {
                assert(v@ =~= method_token(m));
            }
        },
    }
    v
}

/// Reads a method token.
pub fn parse_method(tok: &[u8]) -> (r: Option<Method>)
    ensures
        r == method_of(tok@),
{
    let candidates = [
        Method::Get,
        Method::Head,
        Method::Post,
        Method::Put,
        Method::Delete,
        Method::Connect,
        Method::Options,
        Method::Trace,
        Method::Patch,
    ];
    let mut i: usize = 0;
    while i < 9
        invariant
            0 <= i <= 9,
            candidates@.len() == 9,
            candidates@ =~= seq![
                Method::Get,
                Method::Head,
                Method::Post,
                Method::Put,
                Method::Delete,
                Method::Connect,
                Method::Options,
                Method::Trace,
                Method::Patch,
            ],
            forall|k: int| 0 <= k < i ==> tok@ != method_token(candidates@[k]),
        decreases 9 - i,
    {
        let m = candidates[i];
        let b = method_bytes(m);
        if eq_bytes(tok, b.as_slice()) {
            return Some(m);
        }
        i = i + 1;
    }
    None
}

/// A decoded request: the request line, the headers, and the body bytes
/// (already unframed; for a chunked request this is the payload with the
/// chunk framing removed).
pub struct Request {
    pub method: Method,
    pub target: Vec<u8>,
    pub version: Version,
    pub headers: Headers,
    pub body: Vec<u8>,
}

/// The mathematical image of a request.
pub struct RequestView {
    pub method: Method,
    pub target: Seq<u8>,
    pub version: Version,
    pub headers: Seq<HeaderView>,
    pub body: Seq<u8>,
}

impl View for Request {
    type V = RequestView;

    open spec fn view(&self) -> RequestView {
        RequestView {
            method: self.method,
            target: self.target@,
            version: self.version,
            headers: self.headers@,
            body: self.body@,
        }
    }
}

impl Request {
    /// The value of the first header with this name, compared without
    /// regard to ASCII case.
    pub fn header<'a>(&'a self, name: &[u8]) -> (r: Option<&'a Vec<u8>>)
        ensures
            match r {
                Some(v) => crate::headers::lookup(self@.headers, name@) == Some(v@),
                None => crate::headers::lookup(self@.headers, name@) is None,
            },
    {
        self.headers.get(name)
    }
}

} // verus!
