//! Observers: where progress events go.
//!
//! Whoever emits events hands them to an observer one at a time and says in
//! its contract which events the observer has received when it returns. That
//! is how "every event is delivered once, and in order" is stated.

use vstd::prelude::*;

verus! {

/// Something that receives events of type `E`, one at a time.
pub trait Observer<E> {
    /// The observer's own invariant.
    spec fn wf(&self) -> bool;

    /// The events received so far, oldest first.
    spec fn seen(&self) -> Seq<E>;

    /// Receives one event.
    fn notify(&mut self, event: E)
        requires
            old(self).wf(),
        ensures
            final(self).wf(),
            final(self).seen() == old(self).seen().push(event),
    ;
}

/// An observer that hands each event to a function. It keeps no event;
/// what it has handed on exists for proofs only.
pub struct FnObserver<E, F> {
    f: F,
    seen: Ghost<Seq<E>>,
}

impl<E, F: FnMut(E)> FnObserver<E, F> {
    /// An observer that hands each event to `f`.
    pub fn new(f: F) -> (observer: Self)
        requires
            forall|event: E| call_requires(f, (event,)),
        ensures
            observer.wf(),
            observer.seen() == Seq::<E>::empty(),
    {
        FnObserver { f, seen: Ghost(Seq::empty()) }
    }
}

impl<E, F: FnMut(E)> Observer<E> for FnObserver<E, F> {
    closed spec fn wf(&self) -> bool {
        forall|event: E| call_requires(self.f, (event,))
    }

    closed spec fn seen(&self) -> Seq<E> {
        self.seen@
    }

    fn notify(&mut self, event: E) {
        proof {
            self.seen@ = self.seen@.push(event);
        }
        (self.f)(event);
    }
}

/// An observer that keeps every event.
pub struct EventLog<E> {
    /// The events received so far, oldest first.
    pub events: Vec<E>,
}

impl<E> EventLog<E> {
    /// A log without events.
    pub fn new() -> (log: Self)
        ensures
            log.wf(),
            log.seen() == Seq::<E>::empty(),
    {
        EventLog { events: Vec::new() }
    }
}

impl<E> Observer<E> for EventLog<E> {
    open spec fn wf(&self) -> bool {
        true
    }

    open spec fn seen(&self) -> Seq<E> {
        self.events@
    }

    fn notify(&mut self, event: E) {
        self.events.push(event);
    }
}

} // verus!
