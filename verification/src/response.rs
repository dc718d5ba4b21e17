//! The structured form of a response a handler builds: status code,
//! headers, body, and the marker that asks for a protocol upgrade.

use vstd::prelude::*;

use crate::headers::{lookup, HeaderView, Headers};

verus! {

/// An outgoing body: its bytes, and whether its length counts as known.
/// A body with a known length travels verbatim under a `Content-Length`
/// header; one without travels under chunked framing.
pub struct Body {
    pub bytes: Vec<u8>,
    pub length_known: bool,
}

/// The mathematical image of a body.
pub struct BodyView {
    pub bytes: Seq<u8>,
    pub length_known: bool,
}

impl View for Body {
    type V = BodyView;

    open spec fn view(&self) -> BodyView {
        BodyView { bytes: self.bytes@, length_known: self.length_known }
    }
}

impl Body {
    /// A body of known length: exactly these bytes.
    pub fn fixed(bytes: Vec<u8>) -> (r: Body)
        ensures
            r@.bytes == bytes@,
            r@.length_known,
    {
        Body { bytes, length_known: true }
    }

    /// A body whose length does not count as known; it will travel under
    /// chunked framing.
    pub fn unbounded(bytes: Vec<u8>) -> (r: Body)
        ensures
            r@.bytes == bytes@,
            !r@.length_known,
    {
        Body { bytes, length_known: false }
    }

    /// An empty body of known length zero.
    pub fn empty() -> (r: Body)
        ensures
            r@.bytes == Seq::<u8>::empty(),
            r@.length_known,
    {
        Body { bytes: Vec::new(), length_known: true }
    }

    /// The length of the body, when it counts as known.
    pub fn len(&self) -> (r: Option<usize>)
        ensures
            self@.length_known <==> r is Some,
            r matches Some(n) ==> n == self@.bytes.len(),
    {
        if self.length_known {
            Some(self.bytes.len())
        } else {
            None
        }
    }
}

/// A response under construction by a handler: status code, headers, a
/// body, and the upgrade marker that — together with a 101 status — asks
/// the connection driver to hand the stream over after encoding.
pub struct Response {
    pub status: u16,
    pub headers: Headers,
    pub body: Body,
    pub upgrade: bool,
}

/// The mathematical image of a response.
pub struct ResponseView {
    pub status: u16,
    pub headers: Seq<HeaderView>,
    pub body: BodyView,
    pub upgrade: bool,
}

impl View for Response {
    type V = ResponseView;

    open spec fn view(&self) -> ResponseView {
        ResponseView {
            status: self.status,
            headers: self.headers@,
            body: self.body@,
            upgrade: self.upgrade,
        }
    }
}

impl Response {
    /// A response with the given status, no headers, an empty body, and
    /// no upgrade marker.
    pub fn new(status: u16) -> (r: Response)
        ensures
            r@.status == status,
            r@.headers == Seq::<HeaderView>::empty(),
            r@.body.bytes == Seq::<u8>::empty(),
            r@.body.length_known,
            !r@.upgrade,
    {
        Response { status, headers: Headers::new(), body: Body::empty(), upgrade: false }
    }

    /// The status code.
    pub fn status(&self) -> (r: u16)
        ensures
            r == self@.status,
    {
        self.status
    }

    /// Adds a header after all existing ones.
    pub fn append_header(&mut self, name: Vec<u8>, value: Vec<u8>)
        ensures
            final(self)@ == (ResponseView {
                headers: old(self)@.headers.push(HeaderView { name: name@, value: value@ }),
                ..old(self)@
            }),
    {
        self.headers.append(name, value);
    }

    /// The value of the first header with this name, compared without
    /// regard to ASCII case.
    pub fn header<'a>(&'a self, name: &[u8]) -> (r: Option<&'a Vec<u8>>)
        ensures
            match r {
                Some(v) => lookup(self@.headers, name@) == Some(v@),
                None => lookup(self@.headers, name@) is None,
            },
    {
        self.headers.get(name)
    }

    /// Replaces the body.
    pub fn set_body(&mut self, body: Body)
        ensures
            final(self)@ == (ResponseView { body: body@, ..old(self)@ }),
    {
        self.body = body;
    }

    /// Marks the response as carrying an upgrade: after a `101` exchange
    /// the driver hands the stream to the upgrade consumer.
    pub fn send_upgrade(&mut self)
        ensures
            final(self)@ == (ResponseView { upgrade: true, ..old(self)@ }),
    {
        self.upgrade = true;
    }

    /// Whether the response carries the upgrade marker.
    pub fn has_upgrade(&self) -> (r: bool)
        ensures
            r == self@.upgrade,
    {
        self.upgrade
    }
}

} // verus!
