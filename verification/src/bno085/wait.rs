//! Waiting for a packet that the hub is expected to send.

use super::cargo::Reading;
use super::{Error, POLL_INTERVAL_MS, RESPONSE_TIMEOUT_MS};
use vstd::prelude::*;

verus! {

/// What to do next while waiting for a packet that says a `T`.
#[derive(Debug)]
pub enum Step<T, E> {
    /// Read the next transfer.
    Read,
    /// Wait for [`POLL_INTERVAL_MS`] and tell [`Waiting::paused`].
    Pause,
    /// The wait is over.
    Done(Result<T, Error<E>>),
}

/// How far a wait has got.
#[derive(Debug)]
pub struct Waiting<E> {
    /// The cargo being read.
    pub reading: Reading,
    /// How long has been waited, in milliseconds.
    pub waited_ms: u32,
    /// What went wrong last.
    pub last_error: Option<Error<E>>,
}

/// A wait that has just begun.
pub open spec fn begun<E>() -> Waiting<E> {
    Waiting { reading: Reading::Head, waited_ms: 0, last_error: None }
}

/// Why a wait that lasted too long failed.
pub open spec fn failure<E>(waiting: Waiting<E>) -> Error<E> {
    match waiting.last_error {
        Some(error) => error,
        None => Error::Timeout,
    }
}

/// A wait once another pause has passed.
pub open spec fn longer<E>(waiting: Waiting<E>) -> Waiting<E> {
    Waiting { waited_ms: (waiting.waited_ms + POLL_INTERVAL_MS) as u32, ..waiting }
}

/// A wait once `pauses` pauses have passed in which nothing was heard.
pub open spec fn longer_by<E>(waiting: Waiting<E>, pauses: nat) -> Waiting<E>
    decreases pauses,
{
    if pauses == 0 {
        waiting
    } else {
        longer(longer_by(waiting, (pauses - 1) as nat))
    }
}

impl<E> Waiting<E> {
    /// The wait can still go on.
    pub open spec fn wf(self) -> bool {
        &&& self.reading.wf()
        &&& self.waited_ms < RESPONSE_TIMEOUT_MS
    }

    /// Begins a wait.
    pub fn new() -> (waiting: Self)
        ensures
            waiting == begun::<E>(),
            waiting.wf(),
    {
        Self { reading: Reading::Head, waited_ms: 0, last_error: None }
    }

    /// Takes note of a pause, and gives up if the wait has lasted too long.
    pub fn paused<T>(&mut self) -> (step: Step<T, E>)
        requires
            old(self).wf(),
        ensures
            if longer(*old(self)).waited_ms >= RESPONSE_TIMEOUT_MS {
                step == Step::<T, E>::Done(Err(failure(*old(self))))
            } else {
                &&& step == Step::<T, E>::Read
                &&& *final(self) == longer(*old(self))
                &&& final(self).wf()
            },
    {
        self.waited_ms = self.waited_ms + POLL_INTERVAL_MS;
        if self.waited_ms >= RESPONSE_TIMEOUT_MS {
            let error = match self.last_error.take() {
                Some(error) => error,
                None => Error::Timeout,
            };
            return Step::Done(Err(error));
        }
        Step::Read
    }
}

/// A wait in which nothing is heard goes on until the pauses add up to
/// [`RESPONSE_TIMEOUT_MS`], and no longer.
pub proof fn law_wait_lasts_until_the_timeout<E>(pauses: nat)
    requires
        pauses * POLL_INTERVAL_MS <= RESPONSE_TIMEOUT_MS,
    ensures
        longer_by(begun::<E>(), pauses).waited_ms == pauses * POLL_INTERVAL_MS,
        longer_by(begun::<E>(), pauses).wf() <==> pauses * POLL_INTERVAL_MS < RESPONSE_TIMEOUT_MS,
        longer_by(begun::<E>(), pauses).reading == Reading::Head,
    decreases pauses,
{
    if pauses > 0 {
        law_wait_lasts_until_the_timeout::<E>((pauses - 1) as nat);
    }
}

} // verus!
