//! The HTTP service loop: drives one connection's cycles with a
//! `Handler`, turning the handler's errors into responses, until the
//! connection closes or a handler asks the loop to stop.

use vstd::prelude::*;

use crate::request::Request;
use crate::response::Response;
use crate::server::{ConnectionStatus, Duplex, Server as Driver, ServerError};
use crate::service::{Handler, HttpContext, ResponseError, Service};

verus! {

/// Wraps a handler so that its errors become HTTP responses instead of
/// ending the connection, as the service loop requires.
pub struct Recover<H>(pub H);

impl<H: Service> Service for Recover<H> {
    type Context = H::Context;

    type Error = H::Error;
}

impl<H: Handler<Request, Response = Response>> Handler<Request> for Recover<H> where
    H::Error: ResponseError,
 {
    type Response = Response;

    fn call(&mut self, request: Request, cx: &mut Self::Context) -> Result<Response, H::Error> {
        match self.0.call(request, cx) {
            Ok(r) => Ok(r),
            Err(e) => Ok(e.to_response()),
        }
    }
}

/// One connection served by a root handler.
pub struct Server<H> {
    pub root: Recover<H>,
    pub server: Driver,
}

impl<H> Server<H> where
    H: Service<Context = HttpContext<H>> + Handler<Request, Response = Response>,
    H::Error: ResponseError,
 {
    /// A server over the given stream, rooted at `root`.
    pub fn new(root: H, io: Duplex) -> (r: Server<H>)
        ensures
            r.server.io == io,
            !r.server.upgraded,
    {
        Server { root: Recover(root), server: Driver::new(io) }
    }

    /// Runs request/response cycles until the connection closes: a
    /// handler error becomes a response; a `fatal` call from the handler
    /// or a protocol error ends the loop with that error.
    pub fn run(&mut self) -> (r: Result<(), ServerError<H::Error>>)
        requires
            old(self).server.io.wf(),
            old(self).server.io.closed,
            !old(self).server.upgraded,
        ensures
            final(self).server.io.wf(),
            final(self).server.io.input@ == old(self).server.io.input@,
            final(self).server.io.closed,
    {
        let mut cx: HttpContext<H> = HttpContext::make();
        if let Err(e) = self.root.0.started(&mut cx) {
            return Err(ServerError::Handler(e));
        }
        loop
            invariant_except_break
                !self.server.upgraded,
            invariant
                self.server.io.wf(),
                self.server.io.closed,
                self.server.io.input@ == old(self).server.io.input@,
            ensures
                self.server.io.wf(),
                self.server.io.closed,
                self.server.io.input@ == old(self).server.io.input@,
            decreases self.server.io.input@.len() - self.server.io.pos,
        {
            let ghost prev_pos = self.server.io.pos as int;
            let ghost inp = self.server.io.input@;
            match self.server.accept_one(&mut self.root, &mut cx, false) {
                Ok(ConnectionStatus::KeepAlive) => {
                    proof {
                        // a kept-alive cycle consumed a whole request, so
                        // the cursor moved strictly forward
                        crate::decode::lemma_parse_head_bounds(inp, prev_pos, true);
                        match crate::decode::parse_head(inp, prev_pos, true) {
                            crate::decode::HeadParse::Request(h) => {
                                crate::chunked::lemma_parse_bounds(inp, h.body_start);
                            },
                            _ => {},
                        }
                    }
                    if let Some(reason) = cx.stop_reason.take() {
                        return Err(ServerError::Handler(reason));
                    }
                },
                Ok(ConnectionStatus::Close) => {
                    break ;
                },
                Err(e) => {
                    return Err(e);
                },
            }
        }
        if let Err(e) = self.root.0.stopping(&mut cx) {
            return Err(ServerError::Handler(e));
        }
        Ok(())
    }
}

} // verus!
