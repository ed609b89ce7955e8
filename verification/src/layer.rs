//! Layers: a way to make one handler out of another.
use crate::handler::{is_copy, AndThenHandler, Handler};
use vstd::prelude::*;

verus! {

/// A layer (middleware) makes a handler out of a handler.
pub trait Layer<U>: Sized {
    /// Whether `outer` is what this layer may make of `inner`.
    spec fn wraps(&self, inner: Handler<U>, outer: Handler<U>) -> bool;

    /// Makes a handler out of `handler`.
    fn layer(&self, handler: Handler<U>) -> (r: Handler<U>)
        ensures
            self.wraps(handler, r),
    ;
}

/// The layer that runs a handler of its own before the handler that it is put around.
#[derive(Debug)]
pub struct AndThenLayerBefore<U: Clone> {
    handler: Box<Handler<U>>,
}

impl<U: Clone> AndThenLayerBefore<U> {
    /// The handler that this layer runs first.
    pub closed spec fn inner(&self) -> Handler<U> {
        *self.handler
    }

    /// The layer that runs `handler` before the handler that it is put around.
    pub fn new(handler: Handler<U>) -> (r: Self)
        ensures
            r.inner() == handler,
    {
        AndThenLayerBefore { handler: Box::new(handler) }
    }
}

impl<U: Clone> Clone for AndThenLayerBefore<U> {
    fn clone(&self) -> (r: Self)
        ensures
            is_copy(self.inner(), r.inner()),
    {
        AndThenLayerBefore { handler: Box::new((*self.handler).clone()) }
    }
}

impl<U: Clone> Layer<U> for AndThenLayerBefore<U> {
    /// The outer handler is a chain: a copy of this layer's own handler,
    /// then the inner handler as it is.
    open spec fn wraps(&self, inner: Handler<U>, outer: Handler<U>) -> bool {
        outer matches Handler::AndThen(chain) && is_copy(self.inner(), chain.first) && chain.second
            == inner
    }

    fn layer(&self, handler: Handler<U>) -> (r: Handler<U>) {
        Handler::AndThen(Box::new(AndThenHandler::new((*self.handler).clone(), handler)))
    }
}

} // verus!
