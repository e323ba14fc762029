use vstd::prelude::*;
use crate::event::Event;

verus! {

#[verifier::external_type_specification]
#[verifier::external_body]
#[verifier::reject_recursive_types(T)]
pub struct ExConsumer<T>(ringbuf::Consumer<T>);

/// Relies on ringbuf::Consumer::len: a count of the events waiting. The
/// producer runs on another thread, so nothing is known of the count.
#[verifier::external_body]
pub(crate) fn pending_events(c: &ringbuf::Consumer<Event>) -> (r: usize) {
    c.len()
}

/// Relies on ringbuf::Consumer::pop: the oldest waiting event, if any. The
/// producer runs on another thread, so nothing is known of what comes back.
#[verifier::external_body]
pub(crate) fn pop_event(c: &mut ringbuf::Consumer<Event>) -> (r: Option<Event>) {
    c.pop()
}

} // verus!
