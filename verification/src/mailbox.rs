//! A single-slot staging container: a write replaces whatever is held, a
//! take empties the slot. Only the latest value survives.

use vstd::prelude::*;

verus! {

/// Holds at most one value. Writing never fails and never waits: an unread
/// value is dropped in favour of the new one.
pub struct Mailbox<T> {
    slot: Option<T>,
}

impl<T> View for Mailbox<T> {
    type V = Option<T>;

    closed spec fn view(&self) -> Option<T> {
        self.slot
    }
}

/// The content after `value` is written over `held`.
pub open spec fn after_write<T>(held: Option<T>, value: T) -> Option<T> {
    Some(value)
}

/// The content after each of `values` is written in turn, starting from
/// `held`.
pub open spec fn after_writes<T>(held: Option<T>, values: Seq<T>) -> Option<T>
    decreases values.len(),
{
    if values.len() == 0 {
        held
    } else {
        after_write(after_writes(held, values.drop_last()), values.last())
    }
}

/// What a take hands out when the content is `held`.
pub open spec fn taken<T>(held: Option<T>) -> Option<T> {
    held
}

/// The content after a take.
pub open spec fn after_take<T>(held: Option<T>) -> Option<T> {
    None
}

impl<T> Mailbox<T> {
    /// An empty mailbox.
    pub fn new() -> (mailbox: Self)
        ensures
            mailbox@ is None,
    {
        Mailbox { slot: None }
    }

    /// Replaces the content with `value`, whatever was held before.
    pub fn write(&mut self, value: T)
        ensures
            final(self)@ == after_write(old(self)@, value),
    {
        self.slot = Some(value);
    }

    /// Hands out the content, if any, and leaves the mailbox empty.
    pub fn take(&mut self) -> (out: Option<T>)
        ensures
            out == taken(old(self)@),
            final(self)@ == after_take(old(self)@),
    {
        self.slot.take()
    }

    /// Whether a value is waiting.
    pub fn is_full(&self) -> (full: bool)
        ensures
            full == self@ is Some,
    {
        self.slot.is_some()
    }
}

/// A take right after a write hands out the value written and empties the
/// mailbox, so that a second take finds nothing.
pub proof fn lemma_write_then_take<T>(held: Option<T>, value: T)
    ensures
        taken(after_write(held, value)) == Some(value),
        taken(after_take(after_write(held, value))) is None,
{
}

/// Taking from an empty mailbox changes nothing and hands out nothing.
pub proof fn lemma_take_when_empty<T>()
    ensures
        taken(None::<T>) is None,
        after_take(None::<T>) is None,
{
}

/// After any run of writes with no take in between, a take hands out the
/// last value written and nothing else, whatever was held before the run.
pub proof fn lemma_latest_write_wins<T>(held: Option<T>, values: Seq<T>)
    requires
        values.len() > 0,
    ensures
        taken(after_writes(held, values)) == Some(values.last()),
        after_take(after_writes(held, values)) is None,
{
}

} // verus!
