//! The connection driver: one request/response cycle at a time over an
//! exclusively owned duplex byte stream, with keep-alive, close, and
//! protocol-upgrade handoff.
//!
//! The stream is in-memory: the bytes received so far, a cursor, a flag
//! saying whether the peer has closed its side, and the bytes written.
//! The surrounding program performs the reads and writes and the header
//! timer; the decisions all happen here.

use vstd::prelude::*;

use crate::decode::{decode, parse_body, parse_head, HeadOutcome, HeadParse};
use crate::chunked::{ChunkParse, ChunkedRead};
use crate::encode::{encode_response, response_wire};
use crate::headers::{has_list_token, has_token, lookup, HeaderView, Headers};
use crate::request::{Method, Request};
use crate::response::{Response, ResponseView};
use crate::service::Handler;
use crate::HttpError;

verus! {

/// An in-memory duplex byte stream: what the peer has sent so far, how
/// much of it has been consumed, whether the peer has closed its side,
/// and what has been written back.
pub struct Duplex {
    pub input: Vec<u8>,
    pub pos: usize,
    pub closed: bool,
    pub output: Vec<u8>,
}

impl Duplex {
    /// The cursor never passes the end of the input.
    pub open spec fn wf(&self) -> bool {
        self.pos <= self.input@.len()
    }

    /// A stream over the given received bytes.
    pub fn new(input: Vec<u8>, closed: bool) -> (r: Duplex)
        ensures
            r.input@ == input@,
            r.pos == 0,
            r.closed == closed,
            r.output@ == Seq::<u8>::empty(),
            r.wf(),
    {
        let r = Duplex { input, pos: 0, closed, output: Vec::new() };
        r
    }

    /// More bytes arrived from the peer.
    pub fn feed(&mut self, more: &[u8])
        requires
            !old(self).closed,
        ensures
            final(self).input@ == old(self).input@ + more@,
            final(self).pos == old(self).pos,
            final(self).closed == old(self).closed,
            final(self).output@ == old(self).output@,
            old(self).wf() ==> final(self).wf(),
    {
        crate::push_bytes(&mut self.input, more);
    }

    /// The peer closed its side; no more bytes will arrive.
    pub fn close(&mut self)
        ensures
            *final(self) == (Duplex { closed: true, ..*old(self) }),
    {
        self.closed = true;
    }
}

/// Configuration of the server: how long a header read may take before
/// the connection counts as closed, in milliseconds; `None` means no
/// limit.
#[derive(Clone, Copy, Debug)]
pub struct ServerOptions {
    pub headers_timeout: Option<u64>,
}

impl Default for ServerOptions {
    /// Sixty seconds.
    fn default() -> (r: Self)
        ensures
            r.headers_timeout == Some(60000u64),
    {
        ServerOptions { headers_timeout: Some(60000) }
    }
}

/// Whether the server may accept a subsequent request on this stream.
#[derive(Clone, Copy, Debug, PartialEq, Eq, Structural)]
pub enum ConnectionStatus {
    /// The server must not accept another request.
    Close,
    /// The server may accept another request.
    KeepAlive,
}

/// What ends a cycle with an error: a protocol fault on the wire, or the
/// handler's own error.
pub enum ServerError<E> {
    Protocol(HttpError),
    Handler(E),
}

/// The header name `connection`.
pub open spec fn name_connection() -> Seq<u8> {
    seq![99u8, 111, 110, 110, 101, 99, 116, 105, 111, 110]
}

/// The header name `upgrade`.
pub open spec fn name_upgrade() -> Seq<u8> {
    seq![117u8, 112, 103, 114, 97, 100, 101]
}

/// The `Connection` header token `upgrade`.
pub open spec fn token_upgrade() -> Seq<u8> {
    seq![117u8, 112, 103, 114, 97, 100, 101]
}

/// The `Connection` header token `close`.
pub open spec fn token_close() -> Seq<u8> {
    seq![99u8, 108, 111, 115, 101]
}

/// A request asks for an upgrade when it carries an `Upgrade` header and
/// a `Connection` header whose comma-separated tokens include `upgrade`.
pub open spec fn spec_upgrade_requested(hs: Seq<HeaderView>) -> bool {
    &&& lookup(hs, name_upgrade()) is Some
    &&& match lookup(hs, name_connection()) {
        Some(v) => has_list_token(v, token_upgrade()),
        None => false,
    }
}

/// A message asks to close the connection when its `Connection` header's
/// tokens include `close`.
pub open spec fn spec_wants_close(hs: Seq<HeaderView>) -> bool {
    match lookup(hs, name_connection()) {
        Some(v) => has_list_token(v, token_close()),
        None => false,
    }
}

/// A response completes an upgrade when its status is `101 Switching
/// Protocols` and it carries the upgrade marker.
pub open spec fn spec_upgrade_provided(r: ResponseView) -> bool {
    r.status == 101 && r.upgrade
}

/// The stream is handed over exactly when the request asked for an
/// upgrade and the response provided one.
pub open spec fn spec_upgraded(upgrade_requested: bool, r: ResponseView) -> bool {
    upgrade_requested && spec_upgrade_provided(r)
}

/// The verdict of one cycle: close after an upgrade or when either side
/// asked to close; otherwise keep the connection alive.
pub open spec fn spec_verdict(
    upgrade_requested: bool,
    req_close: bool,
    r: ResponseView,
) -> ConnectionStatus {
    if spec_upgraded(upgrade_requested, r) || req_close || spec_wants_close(r.headers) {
        ConnectionStatus::Close
    } else {
        ConnectionStatus::KeepAlive
    }
}

/// A `Connection: close` on either side forces the verdict `Close`, no
/// matter what else the cycle did.
pub proof fn lemma_close_wins(upgrade_requested: bool, req_close: bool, r: ResponseView)
    ensures
        req_close || spec_wants_close(r.headers) ==> spec_verdict(upgrade_requested, req_close, r)
            == ConnectionStatus::Close,
{
}

/// An upgrade always ends the HTTP loop on this stream, whatever the
/// `Connection` headers said.
pub proof fn lemma_upgrade_closes(upgrade_requested: bool, req_close: bool, r: ResponseView)
    ensures
        spec_upgraded(upgrade_requested, r) ==> spec_verdict(upgrade_requested, req_close, r)
            == ConnectionStatus::Close,
{
}

/// Decides whether `headers` ask for an upgrade.
pub fn upgrade_requested(headers: &Headers) -> (r: bool)
    ensures
        r == spec_upgrade_requested(headers@),
{
    let up = [117u8, 112, 103, 114, 97, 100, 101];
    proof {
        assert(up@ =~= name_upgrade());
        assert(up@ =~= token_upgrade());
    }
    let conn = [99u8, 111, 110, 110, 101, 99, 116, 105, 111, 110];
    proof {
        assert(conn@ =~= name_connection());
    }
    if headers.get(up.as_slice()).is_none() {
        return false;
    }
    match headers.get(conn.as_slice()) {
        Some(v) => has_token(v.as_slice(), up.as_slice()),
        None => false,
    }
}

/// Decides whether `headers` ask to close the connection.
pub fn wants_close(headers: &Headers) -> (r: bool)
    ensures
        r == spec_wants_close(headers@),
{
    let conn = [99u8, 111, 110, 110, 101, 99, 116, 105, 111, 110];
    proof {
        assert(conn@ =~= name_connection());
    }
    let close_tok = [99u8, 108, 111, 115, 101];
    proof {
        assert(close_tok@ =~= token_close());
    }
    match headers.get(conn.as_slice()) {
        Some(v) => has_token(v.as_slice(), close_tok.as_slice()),
        None => false,
    }
}

/// Encodes `res` onto `out` and decides the cycle's verdict, given what
/// the request side established: whether it asked for an upgrade and
/// whether it asked to close.  Returns the verdict and whether the
/// stream must now be handed to the upgrade consumer.
pub fn finish_cycle(
    upgrade_requested: bool,
    req_close: bool,
    method: Method,
    res: &Response,
    out: &mut Vec<u8>,
) -> (r: (ConnectionStatus, bool))
    ensures
        final(out)@ == old(out)@ + response_wire(res@, method),
        r.1 == spec_upgraded(upgrade_requested, res@),
        r.0 == spec_verdict(upgrade_requested, req_close, res@),
{
    let upgraded = upgrade_requested && res.status() == 101 && res.has_upgrade();
    let close = upgraded || req_close || wants_close(&res.headers);
    encode_response(res, method, out);
    if close {
        (ConnectionStatus::Close, upgraded)
    } else {
        (ConnectionStatus::KeepAlive, upgraded)
    }
}

/// One HTTP/1.1 server connection: the stream it exclusively owns, its
/// options, and whether the stream has been promised to an upgrade
/// consumer.
pub struct Server {
    pub io: Duplex,
    pub opts: ServerOptions,
    pub upgraded: bool,
}

impl Server {
    /// A server over the given stream with the default options.
    pub fn new(io: Duplex) -> (r: Server)
        ensures
            r.io == io,
            r.opts.headers_timeout == Some(60000u64),
            !r.upgraded,
    {
        Server { io, opts: ServerOptions::default(), upgraded: false }
    }

    /// The same server with the given options.
    pub fn with_opts(self, opts: ServerOptions) -> (r: Server)
        ensures
            r.io == self.io,
            r.opts == opts,
            r.upgraded == self.upgraded,
    {
        Server { io: self.io, opts, upgraded: self.upgraded }
    }

    /// After an upgraded cycle, the stream, handed over exactly once;
    /// `None` when no upgrade happened.
    pub fn take_upgrade(self) -> (r: Option<Duplex>)
        ensures
            self.upgraded ==> r == Some(self.io),
            !self.upgraded ==> r is None,
    {
        if self.upgraded {
            Some(self.io)
        } else {
            None
        }
    }

    /// Accepts one request: decodes it under the header timer, hands it
    /// to the handler, encodes the answer, and says whether the stream
    /// may carry another request.
    ///
    /// `timed_out` reports that the header timer the caller runs expired
    /// before a full header section arrived; that is treated exactly as
    /// a clean end of stream.  The cursor always moves past the whole
    /// request — headers and body — before the handler's answer goes
    /// out, so an unread body never desynchronizes the next cycle.
    pub fn accept_one<H: Handler<Request, Response = Response>>(
        &mut self,
        handler: &mut H,
        cx: &mut H::Context,
        timed_out: bool,
    ) -> (r: Result<ConnectionStatus, ServerError<H::Error>>)
        requires
            old(self).io.wf(),
            !old(self).upgraded,
            timed_out ==> old(self).opts.headers_timeout is Some,
            !timed_out ==> old(self).io.closed,
        ensures
            final(self).io.wf(),
            final(self).io.input@ == old(self).io.input@,
            final(self).io.closed == old(self).io.closed,
            final(self).opts == old(self).opts,
            old(self).io.pos <= final(self).io.pos,
            // a timer expiry is answered exactly as a clean end of stream:
            // verdict `Close`, no error, nothing consumed, nothing written
            timed_out ==> r == Ok::<_, ServerError<H::Error>>(ConnectionStatus::Close)
                && *final(self) == *old(self) && *final(handler) == *old(handler)
                && *final(cx) == *old(cx),
            !timed_out ==> match parse_head(
                old(self).io.input@,
                old(self).io.pos as int,
                true,
            ) {
                HeadParse::Clean => r == Ok::<_, ServerError<H::Error>>(ConnectionStatus::Close)
                    && *final(self) == *old(self) && *final(handler) == *old(handler) && *final(cx)
                    == *old(cx),
                HeadParse::Bad(e) => r == Err::<ConnectionStatus, _>(
                    ServerError::<H::Error>::Protocol(e),
                ) && *final(self) == *old(self) && *final(handler) == *old(handler) && *final(cx)
                    == *old(cx),
                HeadParse::Incomplete => false,
                HeadParse::Request(h) => match parse_body(
                    old(self).io.input@,
                    h.body_start,
                    h.framing,
                ) {
                    ChunkParse::Done { body, end } => {
                        &&& final(self).io.pos == end
                        &&& match r {
                            Ok(status) => exists|resv: ResponseView|
                                {
                                    &&& final(self).io.output@ == old(self).io.output@
                                        + #[trigger] response_wire(resv, h.method)
                                    &&& status == spec_verdict(
                                        spec_upgrade_requested(h.headers),
                                        spec_wants_close(h.headers),
                                        resv,
                                    )
                                    &&& final(self).upgraded == spec_upgraded(
                                        spec_upgrade_requested(h.headers),
                                        resv,
                                    )
                                },
                            Err(ServerError::Handler(_)) => final(self).io.output@
                                == old(self).io.output@ && !final(self).upgraded,
                            Err(ServerError::Protocol(_)) => false,
                        }
                    },
                    ChunkParse::Incomplete => r == Err::<ConnectionStatus, _>(
                        ServerError::<H::Error>::Protocol(HttpError::UnexpectedEof),
                    ) && *final(self) == *old(self),
                    ChunkParse::Malformed => r == Err::<ConnectionStatus, _>(
                        ServerError::<H::Error>::Protocol(HttpError::MalformedChunk),
                    ) && *final(self) == *old(self),
                },
            },
    {
        if timed_out {
            return Ok(ConnectionStatus::Close);
        }
        let head = match decode(self.io.input.as_slice(), self.io.pos, true) {
            Ok(HeadOutcome::Request(h)) => h,
            Ok(HeadOutcome::Clean) => {
                return Ok(ConnectionStatus::Close);
            },
            Ok(HeadOutcome::Incomplete) => {
                // a closed stream never reports an incomplete head
                proof {
                    assert(false);
                }
                return Ok(ConnectionStatus::Close);
            },
            Err(e) => {
                return Err(ServerError::Protocol(e));
            },
        };
        let (body, end) = match crate::decode::read_body(
            self.io.input.as_slice(),
            head.body_start,
            head.framing,
        ) {
            ChunkedRead::Done(body, end) => (body, end),
            ChunkedRead::Incomplete => {
                return Err(ServerError::Protocol(HttpError::UnexpectedEof));
            },
            ChunkedRead::Malformed => {
                return Err(ServerError::Protocol(HttpError::MalformedChunk));
            },
        };
        // the request side's say on upgrade and close, taken before the
        // request moves to the handler
        let wants_upgrade = upgrade_requested(&head.headers);
        let req_close = wants_close(&head.headers);
        let ghost head_view = head@;
        let method = head.method;
        let request = Request {
            method: head.method,
            target: head.target,
            version: head.version,
            headers: head.headers,
            body,
        };
        // the whole request is consumed now, whether or not the handler
        // reads the body
        self.io.pos = end;
        let res = match handler.call(request, cx) {
            Ok(res) => res,
            Err(e) => {
                return Err(ServerError::Handler(e));
            },
        };
        let (status, upgraded) = finish_cycle(
            wants_upgrade,
            req_close,
            method,
            &res,
            &mut self.io.output,
        );
        self.upgraded = upgraded;
        proof {
            // the response the handler produced witnesses the cycle's outcome
            assert(self.io.output@ == old(self).io.output@ + response_wire(
                res@,
                head_view.method,
            ));
            assert(status == spec_verdict(
                spec_upgrade_requested(head_view.headers),
                spec_wants_close(head_view.headers),
                res@,
            ));
            assert(self.upgraded == spec_upgraded(spec_upgrade_requested(head_view.headers), res@));
        }
        Ok(status)
    }
}

} // verus!
