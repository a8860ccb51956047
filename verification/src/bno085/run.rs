//! What comes of a whole wait, from its first transfer to its end.

#[allow(unused_imports)]
use super::cargo::Reading;
#[allow(unused_imports)]
use super::shtp::{Header, HEADER_LEN};
#[allow(unused_imports)]
use super::wait;
#[allow(unused_imports)]
use super::wait::{Step, Waiting};
#[allow(unused_imports)]
use super::{
    cargo_read, control_report_awaited, is_control_report, is_reset_notice, reset_awaited,
    Bno085View, Error, POLL_INTERVAL_MS, RESPONSE_TIMEOUT_MS,
};
use vstd::prelude::*;

verus! {

/// What a transfer brought to a wait for a `T`.
pub enum Heard<T, E> {
    /// Part of a cargo, or a cargo that is not waited for.
    Nothing,
    /// What is waited for.
    Wanted(T),
    /// The hub has nothing to send.
    Silence,
    /// The bus failed.
    Failed(Error<E>),
}

/// How often the hub had nothing to send or the bus failed.
pub open spec fn polls<T, E>(heard: Seq<Heard<T, E>>) -> nat
    decreases heard.len(),
{
    if heard.len() == 0 {
        0
    } else {
        (if heard[0] is Silence || heard[0] is Failed {
            1nat
        } else {
            0
        }) + polls(heard.drop_first())
    }
}

/// What went wrong last, `before` being what went wrong earlier.
pub open spec fn last_failure<T, E>(before: Option<Error<E>>, heard: Seq<Heard<T, E>>) -> Option<
    Error<E>,
>
    decreases heard.len(),
{
    if heard.len() == 0 {
        before
    } else {
        match heard[0] {
            Heard::Failed(error) => last_failure(Some(error), heard.drop_first()),
            _ => last_failure(before, heard.drop_first()),
        }
    }
}

/// Whether a wait is over with this. One that is `patient` outlasts failures of
/// the bus.
pub open spec fn ends<T, E>(patient: bool, heard: Heard<T, E>) -> bool {
    heard is Wanted || (!patient && heard is Failed)
}

/// Whether a wait is not over by the `count` first of what is heard.
pub open spec fn goes_on<T, E>(patient: bool, heard: Seq<Heard<T, E>>, count: int) -> bool {
    forall|at: int| 0 <= at < count ==> !ends(patient, #[trigger] heard[at])
}

/// What a wait that has lasted for `waited_ms` comes to, if it ends.
pub open spec fn waited_out<T, E>(
    patient: bool,
    waited_ms: int,
    last_error: Option<Error<E>>,
    heard: Seq<Heard<T, E>>,
) -> Option<Result<T, Error<E>>>
    decreases heard.len(),
{
    if heard.len() == 0 {
        None
    } else {
        let longer = waited_ms + POLL_INTERVAL_MS;
        let rest = heard.drop_first();
        match heard[0] {
            Heard::Nothing => waited_out(patient, waited_ms, last_error, rest),
            Heard::Wanted(wanted) => Some(Ok(wanted)),
            Heard::Silence => if longer >= RESPONSE_TIMEOUT_MS {
                Some(Err(given_up(last_error)))
            } else {
                waited_out(patient, longer, last_error, rest)
            },
            Heard::Failed(error) => if !patient {
                Some(Err(error))
            } else if longer >= RESPONSE_TIMEOUT_MS {
                Some(Err(error))
            } else {
                waited_out(patient, longer, Some(error), rest)
            },
        }
    }
}

/// Why a wait that lasted too long failed.
pub open spec fn given_up<E>(last_error: Option<Error<E>>) -> Error<E> {
    match last_error {
        Some(error) => error,
        None => Error::Timeout,
    }
}

/// Whether what is waited for comes with `heard[at]`, before anything else ends
/// the wait.
pub open spec fn comes_at<T, E>(patient: bool, heard: Seq<Heard<T, E>>, at: int) -> bool {
    &&& 0 <= at < heard.len()
    &&& heard[at] is Wanted
    &&& goes_on(patient, heard, at)
    &&& polls(heard.take(at)) * POLL_INTERVAL_MS < RESPONSE_TIMEOUT_MS
}

/// Whether the bus fails with `heard[at]`, before anything else ends the wait.
pub open spec fn fails_at<T, E>(heard: Seq<Heard<T, E>>, at: int) -> bool {
    &&& 0 <= at < heard.len()
    &&& heard[at] is Failed
    &&& goes_on(false, heard, at)
    &&& polls(heard.take(at)) * POLL_INTERVAL_MS < RESPONSE_TIMEOUT_MS
}

/// Whether the time is up with `heard[at]`, before anything else ends the
/// wait.
pub open spec fn is_up_at<T, E>(patient: bool, heard: Seq<Heard<T, E>>, at: int) -> bool {
    &&& 0 <= at < heard.len()
    &&& goes_on(patient, heard, at + 1)
    &&& polls(heard.take(at)) * POLL_INTERVAL_MS < RESPONSE_TIMEOUT_MS
    &&& polls(heard.take(at + 1)) * POLL_INTERVAL_MS >= RESPONSE_TIMEOUT_MS
}

/// What has been polled stays polled.
proof fn lemma_polls_grow<T, E>(heard: Seq<Heard<T, E>>, fewer: int, more: int)
    requires
        0 <= fewer <= more <= heard.len(),
    ensures
        polls(heard.take(fewer)) <= polls(heard.take(more)),
    decreases heard.len(),
{
    if fewer > 0 {
        let rest = heard.drop_first();
        lemma_polls_grow(rest, fewer - 1, more - 1);
        assert(heard.take(fewer).drop_first() == rest.take(fewer - 1));
        assert(heard.take(more).drop_first() == rest.take(more - 1));
    }
}

/// Where a wait ends, and why.
proof fn lemma_wait_ends<T, E>(
    patient: bool,
    waited_ms: int,
    last_error: Option<Error<E>>,
    heard: Seq<Heard<T, E>>,
) -> (at: int)
    requires
        waited_ms < RESPONSE_TIMEOUT_MS,
    ensures
        match waited_out(patient, waited_ms, last_error, heard) {
            None => {
                &&& goes_on(patient, heard, heard.len() as int)
                &&& waited_ms + polls(heard) * POLL_INTERVAL_MS < RESPONSE_TIMEOUT_MS
            },
            Some(result) => {
                &&& 0 <= at < heard.len()
                &&& goes_on(patient, heard, at)
                &&& waited_ms + polls(heard.take(at)) * POLL_INTERVAL_MS < RESPONSE_TIMEOUT_MS
                &&& match result {
                    Ok(wanted) => heard[at] == Heard::<T, E>::Wanted(wanted),
                    Err(error) => if !patient && heard[at] is Failed {
                        heard[at] == Heard::<T, E>::Failed(error)
                    } else {
                        &&& !ends(patient, heard[at])
                        &&& waited_ms + polls(heard.take(at + 1)) * POLL_INTERVAL_MS
                            >= RESPONSE_TIMEOUT_MS
                        &&& error == given_up(last_failure(last_error, heard.take(at + 1)))
                    },
                }
            },
        },
    decreases heard.len(),
{
    if heard.len() == 0 {
        0
    } else {
        let rest = heard.drop_first();
        let is_poll = heard[0] is Silence || heard[0] is Failed;
        let longer = if is_poll {
            waited_ms + POLL_INTERVAL_MS
        } else {
            waited_ms
        };
        let error = match heard[0] {
            Heard::Failed(error) => Some(error),
            _ => last_error,
        };
        assert(heard.take(0).len() == 0);
        let one = heard.take(1);
        assert(one.drop_first() == Seq::<Heard<T, E>>::empty());
        assert(polls(one.drop_first()) == 0);
        assert(last_failure(error, one.drop_first()) == error);
        assert(polls(one) == if is_poll {
            1nat
        } else {
            0
        });
        if ends(patient, heard[0]) || longer >= RESPONSE_TIMEOUT_MS {
            0
        } else {
            let at = lemma_wait_ends(patient, longer, error, rest);
            assert forall|i: int|
                0 <= i < heard.len() && (i == 0 || !ends(patient, rest[i - 1])) implies !ends(
                patient,
                #[trigger] heard[i],
            ) by {
                if i > 0 {
                    assert(heard[i] == rest[i - 1]);
                }
            }
            if waited_out(patient, longer, error, rest) is Some {
                assert(heard[at + 1] == rest[at]);
                assert(heard.take(at + 1).drop_first() == rest.take(at));
                assert(heard.take(at + 2).drop_first() == rest.take(at + 1));
                assert(heard.take(at + 1)[0] == heard[0]);
                assert(heard.take(at + 2)[0] == heard[0]);
            }
            at + 1
        }
    }
}

/// A wait succeeds exactly when what is waited for comes before the pauses add
/// up to [`RESPONSE_TIMEOUT_MS`] and, unless it is patient, before the bus
/// fails. Otherwise it ends with the failure of the bus, or, when the time is
/// up, with what went wrong last.
pub proof fn law_wait_ends_in_time<T, E>(patient: bool, heard: Seq<Heard<T, E>>)
    ensures
        ({
            let end = waited_out(patient, 0, None, heard);
            &&& forall|at: int| #[trigger]
                comes_at(patient, heard, at) ==> end == Some(
                    Ok::<T, Error<E>>(heard[at]->Wanted_0),
                )
            &&& forall|at: int|
                !patient && #[trigger] fails_at(heard, at) ==> end == Some(
                    Err::<T, Error<E>>(heard[at]->Failed_0),
                )
            &&& forall|at: int| #[trigger]
                is_up_at(patient, heard, at) ==> end == Some(
                    Err::<T, Error<E>>(given_up(last_failure(None, heard.take(at + 1)))),
                )
            &&& match end {
                Some(Ok(_)) => exists|at: int| #[trigger] comes_at(patient, heard, at),
                Some(Err(_)) => (exists|at: int| #[trigger] is_up_at(patient, heard, at)) || (
                !patient && exists|at: int| #[trigger] fails_at(heard, at)),
                None => true,
            }
        }),
{
    let end = waited_out(patient, 0, None, heard);
    let last = lemma_wait_ends(patient, 0, None, heard);
    assert(heard.take(heard.len() as int) == heard);
    if let Some(Err(_)) = end {
        if !patient && heard[last] is Failed {
            assert(fails_at(heard, last));
        } else {
            assert(is_up_at(patient, heard, last));
        }
    }
    if let Some(Ok(_)) = end {
        assert(comes_at(patient, heard, last));
    }
    assert forall|at: int| #[trigger] is_up_at(patient, heard, at) implies end == Some(
        Err::<T, Error<E>>(given_up(last_failure(None, heard.take(at + 1)))),
    ) by {
        lemma_polls_grow(heard, at + 1, heard.len() as int);
        if at < last {
            lemma_polls_grow(heard, at + 1, last);
        } else if at > last {
            assert(!ends(patient, heard[last]));
            lemma_polls_grow(heard, last + 1, at);
        } else {
            assert(!ends(patient, heard[last]));
        }
    }
    assert forall|at: int| #[trigger] comes_at(patient, heard, at) implies end == Some(
        Ok::<T, Error<E>>(heard[at]->Wanted_0),
    ) by {
        assert(ends(patient, heard[at]));
        if at > last && end is Some {
            assert(!ends(patient, heard[last]));
            lemma_polls_grow(heard, last + 1, at);
        }
    }
    assert forall|at: int| !patient && #[trigger] fails_at(heard, at) implies end == Some(
        Err::<T, Error<E>>(heard[at]->Failed_0),
    ) by {
        assert(ends(patient, heard[at]));
        if at > last && end is Some {
            assert(!ends(patient, heard[last]));
            lemma_polls_grow(heard, last + 1, at);
        }
    }
}

/// What a wait does with what it hears.
pub open spec fn taken<I2C, D, T, E>(
    patient: bool,
    hub: Bno085View<I2C, D>,
    waiting: Waiting<E>,
    heard: Heard<T, E>,
) -> (Bno085View<I2C, D>, Waiting<E>, Step<T, E>) {
    match heard {
        Heard::Nothing => (hub, waiting, Step::Read),
        Heard::Wanted(wanted) => (hub, waiting, Step::Done(Ok(wanted))),
        Heard::Silence => (hub, waiting, Step::Pause),
        Heard::Failed(error) => if patient {
            (hub, Waiting { last_error: Some(error), ..waiting }, Step::Pause)
        } else {
            (hub, waiting, Step::Done(Err(error)))
        },
    }
}

/// Whether `step` reads cargos, hears in their ends what `hear` does, and takes
/// it as a wait does. Only the bus fails.
pub open spec fn goes_by<I2C, D, T, E>(
    patient: bool,
    step: spec_fn(Bno085View<I2C, D>, Waiting<E>, Result<Seq<u8>, E>) -> (
        Bno085View<I2C, D>,
        Waiting<E>,
        Step<T, E>,
    ),
    hear: spec_fn(Bno085View<I2C, D>, Option<Result<Option<Header>, Error<E>>>) -> Heard<T, E>,
) -> bool {
    &&& forall|hub: Bno085View<I2C, D>, waiting: Waiting<E>, outcome: Result<Seq<u8>, E>| #[trigger]
        step(hub, waiting, outcome) == {
            let (after, reading, end) = cargo_read(hub, waiting.reading, outcome);
            taken(patient, after, Waiting { reading, ..waiting }, hear(after, end))
        }
    &&& forall|hub: Bno085View<I2C, D>, end: Option<Result<Option<Header>, Error<E>>>| #[trigger]
        hear(hub, end) matches Heard::Failed(error) ==> end == Some(
            Err::<Option<Header>, Error<E>>(error),
        ) && !(error is CargoTooLarge)
}

/// What a row of transfers brings to a wait that goes by `hear`.
pub open spec fn hearing<I2C, D, T, E>(
    hub: Bno085View<I2C, D>,
    reading: Reading,
    outcomes: Seq<Result<Seq<u8>, E>>,
    hear: spec_fn(Bno085View<I2C, D>, Option<Result<Option<Header>, Error<E>>>) -> Heard<T, E>,
) -> Seq<Heard<T, E>>
    decreases outcomes.len(),
{
    if outcomes.len() == 0 {
        Seq::empty()
    } else {
        let (hub, reading, end) = cargo_read(hub, reading, outcomes[0]);
        seq![hear(hub, end)] + hearing(hub, reading, outcomes.drop_first(), hear)
    }
}

/// What a wait comes to over a row of transfers, if it ends.
pub open spec fn run<I2C, D, T, E>(
    hub: Bno085View<I2C, D>,
    waiting: Waiting<E>,
    outcomes: Seq<Result<Seq<u8>, E>>,
    step: spec_fn(Bno085View<I2C, D>, Waiting<E>, Result<Seq<u8>, E>) -> (
        Bno085View<I2C, D>,
        Waiting<E>,
        Step<T, E>,
    ),
) -> Option<Result<T, Error<E>>>
    decreases outcomes.len(),
{
    if outcomes.len() == 0 {
        None
    } else {
        let (hub, waiting, next) = step(hub, waiting, outcomes[0]);
        let rest = outcomes.drop_first();
        match next {
            Step::Read => run(hub, waiting, rest, step),
            Step::Pause => if wait::longer(waiting).waited_ms >= RESPONSE_TIMEOUT_MS {
                Some(Err(wait::failure(waiting)))
            } else {
                run(hub, wait::longer(waiting), rest, step)
            },
            Step::Done(result) => Some(result),
        }
    }
}

/// A step of a wait for a reset.
pub open spec fn reset_step<I2C, D, E>() -> spec_fn(
    Bno085View<I2C, D>,
    Waiting<E>,
    Result<Seq<u8>, E>,
) -> (Bno085View<I2C, D>, Waiting<E>, Step<(), E>) {
    |hub: Bno085View<I2C, D>, waiting: Waiting<E>, outcome: Result<Seq<u8>, E>|
        reset_awaited(hub, waiting, outcome)
}

/// What the end of a cargo, as far as it has come, means to a wait for a
/// reset.
pub open spec fn reset_heard<I2C, D, E>() -> spec_fn(
    Bno085View<I2C, D>,
    Option<Result<Option<Header>, Error<E>>>,
) -> Heard<(), E> {
    |hub: Bno085View<I2C, D>, end: Option<Result<Option<Header>, Error<E>>>|
        heard_in(
            end,
            |header: Header|
                if is_reset_notice(header, hub.buf) {
                    Some(())
                } else {
                    None
                },
        )
}

/// A step of a wait for a report on the control channel.
pub open spec fn report_step<I2C, D, E>(report_id: u8, min_len: usize) -> spec_fn(
    Bno085View<I2C, D>,
    Waiting<E>,
    Result<Seq<u8>, E>,
) -> (Bno085View<I2C, D>, Waiting<E>, Step<usize, E>) {
    |hub: Bno085View<I2C, D>, waiting: Waiting<E>, outcome: Result<Seq<u8>, E>|
        control_report_awaited(hub, waiting, report_id, min_len, outcome)
}

/// What the end of a cargo, as far as it has come, means to a wait for a
/// report on the control channel.
pub open spec fn report_heard<I2C, D, E>(report_id: u8, min_len: usize) -> spec_fn(
    Bno085View<I2C, D>,
    Option<Result<Option<Header>, Error<E>>>,
) -> Heard<usize, E> {
    |hub: Bno085View<I2C, D>, end: Option<Result<Option<Header>, Error<E>>>|
        heard_in(
            end,
            |header: Header|
                if is_control_report(header, hub.buf, report_id, min_len) {
                    Some((header.cargo_len - HEADER_LEN) as usize)
                } else {
                    None
                },
        )
}

/// What the end of a cargo, as far as it has come, means to a wait for a cargo
/// in which `wanted` finds something.
pub open spec fn heard_in<T, E>(
    end: Option<Result<Option<Header>, Error<E>>>,
    wanted: spec_fn(Header) -> Option<T>,
) -> Heard<T, E> {
    match end {
        None => Heard::Nothing,
        Some(Ok(Some(header))) => match wanted(header) {
            Some(found) => Heard::Wanted(found),
            None => Heard::Nothing,
        },
        Some(Ok(None)) => Heard::Silence,
        Some(Err(Error::CargoTooLarge(_))) => Heard::Nothing,
        Some(Err(error)) => Heard::Failed(error),
    }
}

/// A wait for a reset outlasts failures of the bus, succeeds exactly when the
/// hub's notice comes in time, and otherwise ends with what went wrong last or
/// with [`Error::Timeout`]. A cargo that is too large never ends it.
pub proof fn law_reset_is_waited_for<I2C, D, E>(
    hub: Bno085View<I2C, D>,
    outcomes: Seq<Result<Seq<u8>, E>>,
)
    ensures
        ({
            let heard = hearing(hub, Reading::Head, outcomes, reset_heard());
            let end = run(hub, wait::begun::<E>(), outcomes, reset_step());
            &&& end == waited_out(true, 0, None, heard)
            &&& end == Some(Ok::<(), Error<E>>(())) <==> exists|at: int| #[trigger]
                comes_at(true, heard, at)
            &&& forall|at: int| #[trigger]
                is_up_at(true, heard, at) ==> end == Some(
                    Err::<(), Error<E>>(given_up(last_failure(None, heard.take(at + 1)))),
                )
            &&& end matches Some(Err(error)) ==> {
                &&& exists|at: int| #[trigger] is_up_at(true, heard, at)
                &&& error is I2c || error is Timeout
            }
        }),
{
    let heard = hearing(hub, Reading::Head, outcomes, reset_heard());
    assert(goes_by(true, reset_step::<I2C, D, E>(), reset_heard()));
    lemma_run_goes_by_hearing(
        true,
        hub,
        wait::begun::<E>(),
        outcomes,
        reset_step(),
        reset_heard(),
    );
    law_wait_ends_in_time(true, heard);
    assert forall|at: int| #[trigger] is_up_at(true, heard, at) implies given_up(
        last_failure(None, heard.take(at + 1)),
    ) is I2c || given_up(last_failure(None, heard.take(at + 1))) is Timeout by {
        lemma_only_the_bus_fails(None, heard.take(at + 1));
    }
}

/// A wait for a report on the control channel succeeds exactly when the report
/// comes in time and before the bus fails, and otherwise ends with that failure
/// or with [`Error::Timeout`]. A cargo that is too large never ends it.
pub proof fn law_report_is_waited_for<I2C, D, E>(
    hub: Bno085View<I2C, D>,
    report_id: u8,
    min_len: usize,
    outcomes: Seq<Result<Seq<u8>, E>>,
)
    ensures
        ({
            let heard = hearing(
                hub,
                Reading::Head,
                outcomes,
                report_heard(report_id, min_len),
            );
            let end = run(
                hub,
                wait::begun::<E>(),
                outcomes,
                report_step(report_id, min_len),
            );
            &&& end == waited_out(false, 0, None, heard)
            &&& forall|at: int| #[trigger]
                comes_at(false, heard, at) ==> end == Some(
                    Ok::<usize, Error<E>>(heard[at]->Wanted_0),
                )
            &&& forall|at: int| #[trigger]
                fails_at(heard, at) ==> end == Some(
                    Err::<usize, Error<E>>(heard[at]->Failed_0),
                )
            &&& forall|at: int| #[trigger]
                is_up_at(false, heard, at) ==> end == Some(Err::<usize, Error<E>>(Error::Timeout))
            &&& match end {
                Some(Ok(_)) => exists|at: int| #[trigger] comes_at(false, heard, at),
                Some(Err(error)) => {
                    ||| error is I2c && exists|at: int| #[trigger] fails_at(heard, at)
                    ||| error is Timeout && exists|at: int| #[trigger] is_up_at(false, heard, at)
                },
                None => true,
            }
        }),
{
    let hear = report_heard(report_id, min_len);
    let step = report_step(report_id, min_len);
    let heard = hearing(hub, Reading::Head, outcomes, hear);
    assert(goes_by(false, step, hear));
    lemma_run_goes_by_hearing(false, hub, wait::begun::<E>(), outcomes, step, hear);
    law_wait_ends_in_time(false, heard);
    assert forall|at: int| #[trigger] is_up_at(false, heard, at) implies last_failure(
        None,
        heard.take(at + 1),
    ) is None by {
        assert forall|i: int| 0 <= i < at + 1 implies !(#[trigger] heard.take(at + 1)[i]
            is Failed) by {
            assert(!ends(false, heard[i]));
        }
        lemma_nothing_failed(heard.take(at + 1));
    }
}

/// Where the bus did not fail, there is no failure.
proof fn lemma_nothing_failed<T, E>(heard: Seq<Heard<T, E>>)
    requires
        forall|at: int| 0 <= at < heard.len() ==> !(#[trigger] heard[at] is Failed),
    ensures
        last_failure(None, heard) is None,
    decreases heard.len(),
{
    if heard.len() > 0 {
        let rest = heard.drop_first();
        assert forall|at: int| 0 <= at < rest.len() implies !(#[trigger] rest[at] is Failed) by {
            assert(rest[at] == heard[at + 1]);
        }
        lemma_nothing_failed(rest);
    }
}

/// What fails is the bus.
proof fn lemma_only_the_bus_fails<T, E>(before: Option<Error<E>>, heard: Seq<Heard<T, E>>)
    requires
        before matches Some(error) ==> error is I2c,
        forall|at: int|
            0 <= at < heard.len() ==> (#[trigger] heard[at] matches Heard::Failed(error)
                ==> error is I2c),
    ensures
        last_failure(before, heard) matches Some(error) ==> error is I2c,
    decreases heard.len(),
{
    if heard.len() > 0 {
        let rest = heard.drop_first();
        assert forall|at: int| 0 <= at < rest.len() implies (#[trigger] rest[at] matches Heard::Failed(
            error,
        ) ==> error is I2c) by {
            assert(rest[at] == heard[at + 1]);
        }
        match heard[0] {
            Heard::Failed(error) => lemma_only_the_bus_fails(Some(error), rest),
            _ => lemma_only_the_bus_fails(before, rest),
        }
    }
}

/// A wait comes to what is heard in it.
proof fn lemma_run_goes_by_hearing<I2C, D, T, E>(
    patient: bool,
    hub: Bno085View<I2C, D>,
    waiting: Waiting<E>,
    outcomes: Seq<Result<Seq<u8>, E>>,
    step: spec_fn(Bno085View<I2C, D>, Waiting<E>, Result<Seq<u8>, E>) -> (
        Bno085View<I2C, D>,
        Waiting<E>,
        Step<T, E>,
    ),
    hear: spec_fn(Bno085View<I2C, D>, Option<Result<Option<Header>, Error<E>>>) -> Heard<T, E>,
)
    requires
        waiting.waited_ms < RESPONSE_TIMEOUT_MS,
        goes_by(patient, step, hear),
    ensures
        run(hub, waiting, outcomes, step) == waited_out(
            patient,
            waiting.waited_ms as int,
            waiting.last_error,
            hearing(hub, waiting.reading, outcomes, hear),
        ),
        forall|at: int|
            0 <= at < outcomes.len() ==> (#[trigger] hearing(
                hub,
                waiting.reading,
                outcomes,
                hear,
            )[at] matches Heard::Failed(error) ==> error is I2c),
        hearing(hub, waiting.reading, outcomes, hear).len() == outcomes.len(),
    decreases outcomes.len(),
{
    if outcomes.len() > 0 {
        let (after, next, action) = step(hub, waiting, outcomes[0]);
        let rest = outcomes.drop_first();
        let heard = hearing(hub, waiting.reading, outcomes, hear);
        assert(heard.drop_first() == hearing(after, next.reading, rest, hear));
        if wait::longer(next).waited_ms < RESPONSE_TIMEOUT_MS && action is Pause {
            lemma_run_goes_by_hearing(patient, after, wait::longer(next), rest, step, hear);
        } else {
            lemma_run_goes_by_hearing(patient, after, next, rest, step, hear);
        }
        assert forall|at: int| 0 <= at < outcomes.len() implies (#[trigger] heard[at] matches Heard::Failed(
            error,
        ) ==> error is I2c) by {
            if at > 0 {
                assert(heard[at] == heard.drop_first()[at - 1]);
            }
        }
    }
}

} // verus!
