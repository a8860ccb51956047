//! Bringing the hub up: a reset, and then its identification.

use super::cargo::Frame;
#[allow(unused_imports)]
use super::cargo;
#[allow(unused_imports)]
use super::shtp::Channel;
use super::wait::{Step, Waiting};
#[allow(unused_imports)]
use super::wait;
use super::{Bno085, Error, ProductId};
use vstd::prelude::*;

verus! {

/// How far the hub has come up.
#[derive(Debug)]
pub enum Init<E> {
    /// The hub was told to reboot, and its notice is waited for.
    Resetting(Waiting<E>),
    /// The hub was asked what it is, and its answer is waited for.
    Identifying(Waiting<E>),
}

/// What to do next while the hub is brought up.
#[derive(Debug)]
pub enum InitStep<E> {
    /// Read the next transfer.
    Read,
    /// Wait for [`super::POLL_INTERVAL_MS`] and tell [`Init::paused`].
    Pause,
    /// Write the frame, then read the next transfer.
    Write(Frame),
    /// The hub is up, or could not be brought up.
    Done(Result<ProductId, Error<E>>),
}

/// The wait that is going on.
pub open spec fn current<E>(init: Init<E>) -> Waiting<E> {
    match init {
        Init::Resetting(waiting) => waiting,
        Init::Identifying(waiting) => waiting,
    }
}

impl<E> Init<E> {
    /// The wait can still go on.
    pub open spec fn wf(self) -> bool {
        current(self).wf()
    }

    /// The hub has been told to reboot.
    pub fn new() -> (init: Self)
        ensures
            init == Init::Resetting(wait::begun::<E>()),
            init.wf(),
    {
        Init::Resetting(Waiting::new())
    }

    /// How many bytes the next transfer is to read.
    pub fn want(&self) -> (want: usize)
        requires
            self.wf(),
        ensures
            want == cargo::transfer_len(current(*self).reading),
            want <= cargo::MAX_TRANSFER,
    {
        match self {
            Init::Resetting(waiting) => waiting.reading.want(),
            Init::Identifying(waiting) => waiting.reading.want(),
        }
    }

    /// Takes note of a pause, and gives up if the wait has lasted too long.
    pub fn paused(&mut self) -> (step: InitStep<E>)
        requires
            old(self).wf(),
        ensures
            if wait::longer(current(*old(self))).waited_ms >= super::RESPONSE_TIMEOUT_MS {
                step == InitStep::<E>::Done(Err(wait::failure(current(*old(self)))))
            } else {
                &&& step == InitStep::<E>::Read
                &&& final(self).wf()
                &&& *final(self) == match *old(self) {
                    Init::Resetting(waiting) => Init::Resetting(wait::longer(waiting)),
                    Init::Identifying(waiting) => Init::Identifying(wait::longer(waiting)),
                }
            },
    {
        let step: Step<ProductId, E> = match self {
            Init::Resetting(waiting) => waiting.paused(),
            Init::Identifying(waiting) => waiting.paused(),
        };
        match step {
            Step::Done(result) => InitStep::Done(result),
            _ => InitStep::Read,
        }
    }
}

impl<I2C, D> Bno085<I2C, D> {
    /// Resets the hub, as [`Bno085::soft_reset`] does, to read back its
    /// identification with [`Bno085::await_init`].
    ///
    /// No reports are enabled by a reset, so follow this with
    /// [`Bno085::enable_report`] for each sensor you want.
    pub fn init(&mut self) -> (frame: Frame)
        requires
            old(self).wf(),
        ensures
            final(self).wf(),
            final(self)@ == super::sent(old(self)@, Channel::Executable),
            frame.wf(),
            frame@ == super::outgoing(
                old(self)@,
                Channel::Executable,
                seq![super::EXECUTABLE_RESET],
            ),
    {
        self.soft_reset()
    }

    /// Takes the outcome of a transfer that was to read what [`Init::want`]
    /// asked for, and says what to do next. Once the hub has announced that it
    /// has rebooted, it is asked what it is.
    pub fn await_init<E>(&mut self, init: &mut Init<E>, outcome: Result<&[u8], E>) -> (step:
        InitStep<E>)
        requires
            old(self).wf(),
            old(init).wf(),
            outcome matches Ok(bytes) ==> bytes.len() == cargo::transfer_len(
                current(*old(init)).reading,
            ),
        ensures
            final(self).wf(),
            final(init).wf(),
            match *old(init) {
                Init::Resetting(waiting) => {
                    let (hub, after, next) = super::reset_awaited(
                        old(self)@,
                        waiting,
                        super::brought(outcome),
                    );
                    match next {
                        Step::Done(Ok(_)) => {
                            &&& step matches InitStep::Write(frame)
                            &&& frame.wf()
                            &&& frame@ == super::outgoing(
                                hub,
                                Channel::Control,
                                seq![super::REPORT_PRODUCT_ID_REQUEST, 0u8],
                            )
                            &&& final(self)@ == super::sent(hub, Channel::Control)
                            &&& *final(init) == Init::Identifying(wait::begun::<E>())
                        },
                        _ => {
                            &&& step == match next {
                                Step::Read => InitStep::<E>::Read,
                                Step::Pause => InitStep::Pause,
                                Step::Done(result) => InitStep::Done(Err(result->Err_0)),
                            }
                            &&& final(self)@ == hub
                            &&& *final(init) == Init::Resetting(after)
                        },
                    }
                },
                Init::Identifying(waiting) => {
                    let (hub, after, next) = super::product_id_awaited(
                        old(self)@,
                        waiting,
                        super::brought(outcome),
                    );
                    &&& step == match next {
                        Step::Read => InitStep::<E>::Read,
                        Step::Pause => InitStep::Pause,
                        Step::Done(result) => InitStep::Done(result),
                    }
                    &&& final(self)@ == hub
                    &&& *final(init) == Init::Identifying(after)
                },
            },
    {
        let ready = match init {
            Init::Resetting(waiting) => match self.await_reset(waiting, outcome) {
                Step::Read => {
                    return InitStep::Read;
                },
                Step::Pause => {
                    return InitStep::Pause;
                },
                Step::Done(Err(error)) => {
                    return InitStep::Done(Err(error));
                },
                Step::Done(Ok(_)) => self.product_id(),
            },
            Init::Identifying(waiting) => {
                return match self.await_product_id(waiting, outcome) {
                    Step::Read => InitStep::Read,
                    Step::Pause => InitStep::Pause,
                    Step::Done(result) => InitStep::Done(result),
                };
            },
        };
        *init = Init::Identifying(Waiting::new());
        InitStep::Write(ready)
    }
}

} // verus!
