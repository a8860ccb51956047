//! The button: one coordinate per press, however long it is held.
//!
//! The button pulls its pin low. A level has to last for [`DEBOUNCE_MS`] to
//! count, so that neither noise nor bouncing contacts are taken for a press or
//! for the end of one.

use vstd::prelude::*;

verus! {

/// How long the button has to stay down to count as pressed, or up to count
/// as released: longer than a switch's contact bounce, shorter than a tap.
pub const DEBOUNCE_MS: u64 = 30;

/// What the button is waited for.
#[derive(Clone, Copy, PartialEq, Eq, Debug)]
pub enum Stage {
    /// The button to go down.
    Up,
    /// The button to stay down.
    GoingDown,
    /// The button to go up.
    Down,
    /// The button to stay up.
    GoingUp,
}

/// What to do next.
#[derive(Clone, Copy, PartialEq, Eq, Debug)]
pub enum Action {
    /// Wait for the pin to go low.
    AwaitLow,
    /// Take the readings from when the button went down, before pressing it
    /// has had time to jog where the device points. Then wait for
    /// [`DEBOUNCE_MS`].
    TakeSighting,
    /// Report the sighting as that of the press with this number. Then wait
    /// for the pin to go high.
    Report(u32),
    /// Wait for the pin to go high.
    AwaitHigh,
    /// Wait for [`DEBOUNCE_MS`].
    Pause,
}

/// The button.
#[derive(Clone, Copy, PartialEq, Eq, Debug)]
pub struct Button {
    pub stage: Stage,
    /// How many presses there were, modulo 2^32.
    pub presses: u32,
}

/// What to do when the wait that `button` asked for is over and the pin is
/// `high` or low, and what the button is then.
pub open spec fn stepped(button: Button, high: bool) -> (Button, Action) {
    match button.stage {
        Stage::Up => (Button { stage: Stage::GoingDown, ..button }, Action::TakeSighting),
        Stage::GoingDown => if high {
            // Too short to be a press: noise, or contacts bouncing.
            (Button { stage: Stage::Up, ..button }, Action::AwaitLow)
        } else {
            let presses = ((button.presses + 1) % 0x1_0000_0000) as u32;
            (Button { stage: Stage::Down, presses }, Action::Report(presses))
        },
        Stage::Down => (Button { stage: Stage::GoingUp, ..button }, Action::Pause),
        Stage::GoingUp => if high {
            (Button { stage: Stage::Up, ..button }, Action::AwaitLow)
        } else {
            (Button { stage: Stage::Down, ..button }, Action::AwaitHigh)
        },
    }
}

impl Button {
    /// A button that is up and has not been pressed.
    pub fn new() -> (button: Self)
        ensures
            button == (Button { stage: Stage::Up, presses: 0 }),
    {
        Self { stage: Stage::Up, presses: 0 }
    }

    /// Takes note that the wait that was asked for is over and that the pin is
    /// `high` or low, and says what to do next.
    pub fn step(&mut self, high: bool) -> (action: Action)
        ensures
            (*final(self), action) == stepped(*old(self), high),
    {
        match self.stage {
            Stage::Up => {
                self.stage = Stage::GoingDown;
                Action::TakeSighting
            },
            Stage::GoingDown => {
                if high {
                    // Too short to be a press: noise, or contacts bouncing.
                    self.stage = Stage::Up;
                    return Action::AwaitLow;
                }
                self.stage = Stage::Down;
                self.presses = self.presses.wrapping_add(1);
                Action::Report(self.presses)
            },
            Stage::Down => {
                self.stage = Stage::GoingUp;
                Action::Pause
            },
            Stage::GoingUp => {
                if high {
                    self.stage = Stage::Up;
                    return Action::AwaitLow;
                }
                self.stage = Stage::Down;
                Action::AwaitHigh
            },
        }
    }
}

/// The numbers of the presses that are reported while the pin is found at
/// `levels`, one after the other, `true` being high.
pub open spec fn reported(button: Button, levels: Seq<bool>) -> Seq<u32>
    decreases levels.len(),
{
    if levels.len() == 0 {
        Seq::empty()
    } else {
        let (next, action) = stepped(button, levels[0]);
        let later = reported(next, levels.drop_first());
        match action {
            Action::Report(press) => seq![press] + later,
            _ => later,
        }
    }
}

/// A button that is held down is reported once, however long it is held: after
/// the report there is no other until the pin has been found high.
pub proof fn law_held_button_is_reported_once(button: Button, levels: Seq<bool>)
    requires
        forall|at: int| 0 <= at < levels.len() ==> !#[trigger] levels[at],
    ensures
        reported(button, levels).len() <= 1,
        button.stage is Down || button.stage is GoingUp ==> reported(button, levels).len() == 0,
    decreases levels.len(),
{
    if levels.len() > 0 {
        law_held_button_is_reported_once(stepped(button, levels[0]).0, levels.drop_first());
    }
}

/// A button whose pin is high again at the end of each wait after it went down
/// has only bounced, and nothing is reported.
pub proof fn law_bounces_are_not_reported(button: Button, levels: Seq<bool>)
    requires
        forall|at: int| 0 <= at < levels.len() ==> #[trigger] levels[at],
    ensures
        reported(button, levels).len() == 0,
    decreases levels.len(),
{
    if levels.len() > 0 {
        law_bounces_are_not_reported(stepped(button, levels[0]).0, levels.drop_first());
    }
}

/// Presses are numbered one after the other, and the count starts again at
/// zero when 32 bits no longer hold it.
pub proof fn law_presses_are_numbered_in_order(button: Button, levels: Seq<bool>, at: int)
    requires
        0 <= at < reported(button, levels).len(),
    ensures
        reported(button, levels)[at] == (button.presses + 1 + at) % 0x1_0000_0000,
    decreases levels.len(),
{
    let (next, action) = stepped(button, levels[0]);
    let rest = levels.drop_first();
    if action is Report {
        if at > 0 {
            law_presses_are_numbered_in_order(next, rest, at - 1);
        }
    } else {
        law_presses_are_numbered_in_order(next, rest, at);
    }
}

/// A button that goes down and is still down after the wait is reported, with
/// the next number. The readings are taken as it goes down.
pub proof fn law_press_is_reported(button: Button)
    requires
        button.stage is Up,
    ensures
        ({
            let (down, first) = stepped(button, false);
            let (held, second) = stepped(down, false);
            &&& first is TakeSighting
            &&& second is Report
            &&& second->Report_0 == (button.presses + 1) % 0x1_0000_0000
            &&& held.presses == second->Report_0
        }),
{
}

/// A button that is up, or that went down and was up again after the wait, is
/// waited for to go down. One that was reported is waited for to go up, and
/// only when it is up and still up after the wait does another press count.
pub proof fn law_press_ends_when_the_button_stays_up(button: Button, high: bool)
    ensures
        ({
            let (next, action) = stepped(button, high);
            &&& action is AwaitLow <==> next.stage is Up
            &&& action is Report ==> next.stage is Down && !high
            &&& action is Report <==> button.stage is GoingDown && !high
            &&& button.stage is GoingDown && high ==> next.stage is Up
            &&& button.stage is Down ==> next.stage is GoingUp && action is Pause
            &&& button.stage is GoingUp && high ==> next.stage is Up
            &&& button.stage is GoingUp && !high ==> next.stage is Down && action is AwaitHigh
            &&& !(action is Report) ==> next.presses == button.presses
        }),
{
}

/// A level counts once it has lasted for 30 ms.
pub proof fn law_bounce_is_waited_out()
    ensures
        DEBOUNCE_MS == 30,
{
}

} // verus!
