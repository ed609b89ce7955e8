//! The handlers that run for a call, and the order in which their parts run.
//!
//! A handler is the application's own code, or two handlers chained, or the
//! built-in fallback. What the application's code does is not modelled
//! here: this module says which piece runs next and when a run is over.
use crate::command::{AGICommand, Verbose};
use crate::AGIError;
use vstd::prelude::*;

verus! {

/// What runs for a call.
///
/// `U` is the application's own kind of handler; the library never looks
/// inside one.
#[derive(Debug)]
pub enum Handler<U> {
    /// A handler of the application
    User(U),
    /// Two handlers, the second of which runs if the first succeeded
    AndThen(Box<AndThenHandler<U>>),
    /// The built-in answer to a request that no route matches
    Fallback(FallbackHandler),
}

/// Runs one handler and, if it succeeded, another one after it.
#[derive(Debug)]
pub struct AndThenHandler<U> {
    pub first: Handler<U>,
    pub second: Handler<U>,
}

/// Answers a request that no route matches: it sends
/// `VERBOSE "Route not found"` and succeeds.
#[derive(Debug, Clone, Copy, PartialEq, Eq, Structural)]
pub struct FallbackHandler {}

impl FallbackHandler {
    /// The command that the fallback sends.
    pub fn command(&self) -> (c: Verbose)
        ensures
            c.wire_text() == "VERBOSE \""@ + "Route not found"@ + "\"\n"@,
    {
        Verbose::new("Route not found".to_owned())
    }
}

impl<U> AndThenHandler<U> {
    /// The handler that runs `first` and then, if that succeeded, `second`.
    pub fn new(first: Handler<U>, second: Handler<U>) -> (r: Self)
        ensures
            r.first == first,
            r.second == second,
    {
        AndThenHandler { first, second }
    }
}

/// `b` is a copy of `a`: of the same shape, with a clone in the place of
/// each handler of the application.
pub open spec fn is_copy<U: Clone>(a: Handler<U>, b: Handler<U>) -> bool
    decreases a,
{
    match a {
        Handler::User(x) => b matches Handler::User(y) && cloned(x, y),
        Handler::AndThen(p) => b matches Handler::AndThen(q) && is_copy(p.first, q.first)
            && is_copy(p.second, q.second),
        Handler::Fallback(_) => b is Fallback,
    }
}

impl<U: Clone> Clone for Handler<U> {
    fn clone(&self) -> (r: Self)
        ensures
            is_copy(*self, r),
        decreases self,
    {
        match self {
            Handler::User(u) => Handler::User(u.clone()),
            Handler::AndThen(p) => {
                let first = p.first.clone();
                let second = p.second.clone();
                Handler::AndThen(Box::new(AndThenHandler { first, second }))
            },
            Handler::Fallback(f) => Handler::Fallback(FallbackHandler {  }),
        }
    }
}

/// One piece of a handler that runs by itself.
pub enum Step<U> {
    /// A handler of the application
    User(U),
    /// The built-in fallback
    Fallback,
}

/// The pieces of `h` in the order in which they run, as long as each succeeds.
pub open spec fn steps<U>(h: Handler<U>) -> Seq<Step<U>>
    decreases h,
{
    match h {
        Handler::User(u) => seq![Step::User(u)],
        Handler::AndThen(p) => steps(p.first) + steps(p.second),
        Handler::Fallback(_) => seq![Step::Fallback],
    }
}

/// One piece of a handler that runs by itself, borrowed from the handler.
#[derive(Debug)]
pub enum Leaf<'a, U> {
    /// A handler of the application
    User(&'a U),
    /// The built-in fallback
    Fallback,
}

impl<'a, U> View for Leaf<'a, U> {
    type V = Step<U>;

    open spec fn view(&self) -> Step<U> {
        match self {
            Leaf::User(u) => Step::User(**u),
            Leaf::Fallback => Step::Fallback,
        }
    }
}

/// The values of a list of pieces.
pub open spec fn leaf_views<'a, U>(v: Seq<Leaf<'a, U>>) -> Seq<Step<U>> {
    Seq::new(v.len(), |i: int| v[i]@)
}

impl<U> Handler<U> {
    /// Appends the pieces of the handler to `out`, in the order in which they run.
    fn collect<'a>(&'a self, out: &mut Vec<Leaf<'a, U>>)
        ensures
            leaf_views(final(out)@) == leaf_views(old(out)@) + steps(*self),
        decreases self,
    {
        let ghost before = leaf_views(out@);
        match self {
            Handler::User(u) => {
                out.push(Leaf::User(u));
                assert(leaf_views(out@) =~= before + steps(*self));
            },
            Handler::AndThen(p) => {
                p.first.collect(out);
                p.second.collect(out);
                assert(before + (steps(p.first) + steps(p.second)) =~= (before + steps(p.first))
                    + steps(p.second));
            },
            Handler::Fallback(_) => {
                out.push(Leaf::Fallback);
                assert(leaf_views(out@) =~= before + steps(*self));
            },
        }
    }

    /// The pieces of the handler, in the order in which they run.
    pub fn plan<'a>(&'a self) -> (v: Vec<Leaf<'a, U>>)
        ensures
            leaf_views(v@) == steps(*self),
    {
        let mut v: Vec<Leaf<'a, U>> = Vec::new();
        self.collect(&mut v);
        assert(leaf_views(Seq::<Leaf<'a, U>>::empty()) =~= Seq::<Step<U>>::empty());
        assert(Seq::<Step<U>>::empty() + steps(*self) =~= steps(*self));
        v
    }
}

/// A handler has at least one piece.
pub proof fn lemma_steps_nonempty<U>(h: Handler<U>)
    ensures
        steps(h).len() > 0,
    decreases h,
{
    match h {
        Handler::AndThen(p) => {
            lemma_steps_nonempty(p.first);
        },
        _ => {},
    }
}

/// What to do next while a handler runs.
#[derive(Debug)]
pub enum NextStep<'a, U> {
    /// Run this piece, then report how it ended
    Run(Leaf<'a, U>),
    /// The run is over, with this result
    Finished(Result<(), AGIError>),
}

/// The run of one handler for one call: which of its pieces is next.
#[derive(Debug)]
pub struct HandlerRun<'a, U> {
    pending: Vec<Leaf<'a, U>>,
}

impl<'a, U> HandlerRun<'a, U> {
    /// The pieces that have not run yet, the next one last.
    pub closed spec fn pending(&self) -> Seq<Step<U>> {
        leaf_views(self.pending@)
    }

    /// Begins the run of `handler`: all its pieces are pending.
    pub fn new(handler: &'a Handler<U>) -> (r: Self)
        ensures
            r.pending() == steps(*handler).reverse(),
    {
        let plan = handler.plan();
        let mut pending: Vec<Leaf<'a, U>> = Vec::new();
        let mut plan = plan;
        let ghost all = leaf_views(plan@);
        while plan.len() > 0
            invariant
                leaf_views(pending@) + leaf_views(plan@).reverse() == all.reverse(),
            decreases plan@.len(),
        {
            let ghost done = leaf_views(pending@);
            let ghost rest = leaf_views(plan@);
            let leaf = plan.pop().unwrap();
            pending.push(leaf);
            proof {
                assert(leaf_views(plan@) =~= rest.drop_last());
                assert(leaf_views(pending@) =~= done.push(rest.last()));
                assert(rest.reverse() =~= seq![rest.last()] + rest.drop_last().reverse());
                assert(done.push(rest.last()) + rest.drop_last().reverse() =~= done
                    + rest.reverse());
            }
        }
        assert(leaf_views(plan@).reverse() =~= Seq::<Step<U>>::empty());
        assert(leaf_views(pending@) + Seq::<Step<U>>::empty() =~= leaf_views(pending@));
        HandlerRun { pending }
    }

    /// Says what to do next, given how the piece that ran last ended
    /// (`Ok(())` at the start of the run).
    ///
    /// After a failure the run is over with that error, and the pieces that
    /// are left never run. After a success the next piece runs; when none
    /// is left the run is over with success.
    pub fn next(&mut self, last: Result<(), AGIError>) -> (r: NextStep<'a, U>)
        ensures
            match last {
                Err(e) => r == NextStep::<'a, U>::Finished(Err(e)) && final(self).pending() == old(self).pending(),
                Ok(()) => if old(self).pending().len() == 0 {
                    r == NextStep::<'a, U>::Finished(Ok(())) && final(self).pending() == old(self).pending()
                } else {
                    (r matches NextStep::Run(leaf) && leaf@ == old(self).pending().last()) && final(self).pending() == old(self).pending().drop_last()
                },
            },
    {
        match last {
            Err(e) => NextStep::Finished(Err(e)),
            Ok(()) => {
                let ghost before = leaf_views(self.pending@);
                match self.pending.pop() {
                    Some(leaf) => {
                        assert(leaf_views(self.pending@) =~= before.drop_last());
                        NextStep::Run(leaf)
                    },
                    None => NextStep::Finished(Ok(())),
                }
            },
        }
    }
}

} // verus!
