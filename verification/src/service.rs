//! The actor-style service abstraction around the engine: a `Service` has
//! a context and an error type, a `Handler` answers requests, and `Layer`s
//! stack middleware around a service through the `Builder`.

use vstd::prelude::*;

use crate::response::Response;

verus! {

/// A marker trait for any actor, fixing its context and error types.
pub trait Service {
    type Context;

    type Error;

    /// Called once before the first request.
    fn started(&mut self, _cx: &mut Self::Context) -> Result<(), Self::Error> {
        Ok(())
    }

    /// Called once after the last request.
    fn stopping(&mut self, _cx: &mut Self::Context) -> Result<(), Self::Error> {
        Ok(())
    }
}

/// A service that can handle messages of type `R` and answer them.
pub trait Handler<R>: Service {
    type Response;

    /// Handle one message.
    fn call(&mut self, request: R, cx: &mut Self::Context) -> Result<
        Self::Response,
        Self::Error,
    >;
}

/// A layer wraps a service in another service.
pub trait Layer<S> {
    type Service;

    /// Wrap `inner`.
    fn wrap(&self, inner: S) -> Self::Service;
}

/// The layer `B` stacked on top of `A`.
pub struct Stack<A, B>(pub A, pub B);

impl<S, A: Layer<S>, B: Layer<A::Service>> Layer<S> for Stack<A, B> {
    type Service = B::Service;

    fn wrap(&self, inner: S) -> Self::Service {
        self.1.wrap(self.0.wrap(inner))
    }
}

/// The layer that returns the given service as it is.
#[derive(Clone, Copy, PartialEq, Eq, Structural)]
pub struct Identity;

impl<S> Layer<S> for Identity {
    type Service = S;

    fn wrap(&self, inner: S) -> Self::Service {
        inner
    }
}

/// Builds a service declaratively by stacking layers on top.
pub struct Builder<L>(pub L);

impl Builder<Identity> {
    /// An empty builder.
    pub fn new() -> (r: Self)
        ensures
            r.0 == Identity,
    {
        Builder(Identity)
    }
}

impl<L> Builder<L> {
    /// The stacked layers, surrendered.
    pub fn into_inner(self) -> (r: L)
        ensures
            r == self.0,
    {
        self.0
    }

    /// Stacks one more layer on top.
    pub fn layer<T>(self, layer: T) -> (r: Builder<Stack<T, L>>)
        ensures
            r.0 == Stack(layer, self.0),
    {
        Builder(Stack(layer, self.0))
    }

    /// Wraps `service` in every stacked layer.
    pub fn service<S>(&self, service: S) -> L::Service where L: Layer<S> {
        self.0.wrap(service)
    }
}

/// An error that can present itself as an HTTP response.
pub trait ResponseError {
    /// The status code of that response.
    fn status_code(&self) -> u16;

    /// The response: by default one with that status and an empty body.
    fn to_response(&self) -> Response {
        Response::new(self.status_code())
    }
}

/// The context a handler run by the HTTP server receives; `fatal` asks
/// the server loop to stop with the given error.
pub struct HttpContext<S: Service> {
    pub stop_reason: Option<S::Error>,
}

impl<S: Service> HttpContext<S> {
    /// A context with no stop reason.
    pub fn make() -> (r: Self)
        ensures
            r.stop_reason is None,
    {
        HttpContext { stop_reason: None }
    }

    /// Records an error that stops the server loop after this cycle.
    pub fn fatal(&mut self, error: S::Error)
        ensures
            final(self).stop_reason == Some(error),
    {
        self.stop_reason = Some(error);
    }
}

} // verus!
