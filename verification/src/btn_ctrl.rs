//! The BOOT button: a short press turns the display page, a medium press toggles the DC output,
//! a long press resets the device to its defaults. How long a press was is known when it ends, so
//! the page and the DC output change on release; the reset comes as soon as it is due.

use crate::gpio_ctrl::{GpioPwmState, DC_OUT};
use crate::text;
use crate::text::push_dec;
use vstd::prelude::*;
use vstd::string::*;

verus! {

/// Milliseconds from which a press toggles the DC output.
pub const DCOUT_PRESS_MS: u64 = 3000;

/// Milliseconds after which the display announces a factory reset.
pub const RESET_NOTICE_MS: u64 = 6000;

/// Milliseconds from which a press resets the device.
pub const FACTORY_RESET_PRESS_MS: u64 = 10000;

/// What is known about the button between two samples of its pin.
#[derive(Copy, Clone, Debug, PartialEq, Eq, Structural)]
pub struct Button {
    /// Level of the pin at the last sample; high is released.
    pub last_high: bool,
    /// When the current press began.
    pub press_start: Option<u64>,
}

/// What a sample of the button asks for.
#[derive(Copy, Clone, Debug, PartialEq, Eq, Structural)]
pub enum Action {
    Nothing,
    /// Show the next display page.
    NextPage,
    /// The DC output changes over.
    ToggleDcOut,
    /// Erase the stored settings and restart.
    FactoryReset,
}

/// What a sample of the button does to the message on the display.
#[derive(Copy, Clone, Debug, PartialEq, Eq, Structural)]
pub enum Notice {
    Unchanged,
    /// A factory reset follows in this many seconds.
    Countdown(u64),
    /// The settings are being erased.
    Erasing,
    /// The message goes away.
    Clear,
}

/// Next state, action and notice.
pub struct Reaction {
    pub state: Button,
    pub action: Action,
    pub notice: Notice,
}

/// Milliseconds from `start` to `now`.
pub open spec fn elapsed(start: u64, now: u64) -> int {
    if now >= start {
        now - start
    } else {
        0
    }
}

/// Seconds left until the reset, rounded up.
pub open spec fn seconds_left(held: int) -> u64 {
    ((FACTORY_RESET_PRESS_MS - held + 999) / 1000) as u64
}

/// A sample with the button held since `start`.
pub open spec fn held(s: Button, start: u64, now: u64) -> Reaction {
    let t = elapsed(start, now);
    if t >= FACTORY_RESET_PRESS_MS {
        Reaction { state: s, action: Action::FactoryReset, notice: Notice::Erasing }
    } else {
        Reaction {
            state: s,
            action: Action::Nothing,
            notice: if t >= RESET_NOTICE_MS {
                Notice::Countdown(seconds_left(t))
            } else {
                Notice::Unchanged
            },
        }
    }
}

/// What the release of a press that lasted `t` milliseconds asks for.
pub open spec fn release_action(t: int) -> Action {
    if t >= FACTORY_RESET_PRESS_MS {
        Action::FactoryReset
    } else if t >= DCOUT_PRESS_MS {
        Action::ToggleDcOut
    } else {
        Action::NextPage
    }
}

/// A sample with the button released after a press that began at `start`.
pub open spec fn released(start: u64, now: u64) -> Reaction {
    let t = elapsed(start, now);
    Reaction {
        state: idle(),
        action: release_action(t),
        notice: if t >= FACTORY_RESET_PRESS_MS {
            Notice::Erasing
        } else if t >= RESET_NOTICE_MS {
            Notice::Clear
        } else {
            Notice::Unchanged
        },
    }
}

/// The button at rest.
pub open spec fn idle() -> Button {
    Button { last_high: true, press_start: None }
}

/// The button right after it went down at `now`.
pub open spec fn pressed(now: u64) -> Button {
    Button { last_high: false, press_start: Some(now) }
}

/// What a sample of the pin at time `now` leads to.
pub open spec fn react(s: Button, high: bool, now: u64) -> Reaction {
    let calm = Reaction { state: s, action: Action::Nothing, notice: Notice::Unchanged };
    if !high {
        if s.last_high {
            Reaction { state: pressed(now), ..calm }
        } else {
            match s.press_start {
                Some(start) => held(s, start, now),
                None => calm,
            }
        }
    } else if !s.last_high {
        match s.press_start {
            Some(start) => released(start, now),
            None => Reaction { state: idle(), ..calm },
        }
    } else {
        calm
    }
}

/// The outputs after an action.
pub open spec fn driven(gpio: Seq<bool>, action: Action) -> Seq<bool> {
    if action == Action::ToggleDcOut {
        gpio.update(DC_OUT as int, !gpio[DC_OUT as int])
    } else {
        gpio
    }
}

impl Button {
    /// A button at rest.
    pub fn new() -> (s: Button)
        ensures
            s == idle(),
    {
        Button { last_high: true, press_start: None }
    }

    /// Takes a sample of the pin at `now` milliseconds and carries out what concerns the outputs.
    pub fn sample(&mut self, high: bool, now: u64, gpio: &mut GpioPwmState) -> (r: (Action, Notice))
        requires
            old(gpio).wf(),
        ensures
            *final(self) == react(*old(self), high, now).state,
            r.0 == react(*old(self), high, now).action,
            r.1 == react(*old(self), high, now).notice,
            final(gpio).wf(),
            final(gpio).pwm() == old(gpio).pwm(),
            final(gpio).gpio() == driven(old(gpio).gpio(), r.0),
    {
        let mut action = Action::Nothing;
        let mut notice = Notice::Unchanged;
        if !high && self.last_high {
            self.press_start = Some(now);
        } else if !high {
            if let Some(start) = self.press_start {
                let t: u64 = now.saturating_sub(start);
                if t >= FACTORY_RESET_PRESS_MS {
                    action = Action::FactoryReset;
                    notice = Notice::Erasing;
                } else if t >= RESET_NOTICE_MS {
                    notice = Notice::Countdown((FACTORY_RESET_PRESS_MS - t + 999) / 1000);
                }
            }
        } else if !self.last_high {
            if let Some(start) = self.press_start {
                let t: u64 = now.saturating_sub(start);
                if t >= FACTORY_RESET_PRESS_MS {
                    action = Action::FactoryReset;
                    notice = Notice::Erasing;
                } else {
                    if t >= RESET_NOTICE_MS {
                        notice = Notice::Clear;
                    }
                    action = if t >= DCOUT_PRESS_MS {
                        Action::ToggleDcOut
                    } else {
                        Action::NextPage
                    };
                }
            }
            self.press_start = None;
        }
        self.last_high = high;
        if action == Action::ToggleDcOut {
            let on = gpio.get_gpio()[DC_OUT];
            gpio.set_gpio(DC_OUT, !on);
        }
        (action, notice)
    }
}

/// Title and text of the message that a notice puts on the display.
pub open spec fn message(notice: Notice) -> Option<(Seq<char>, Seq<char>)> {
    match notice {
        Notice::Countdown(n) => Some(
            (
                "FACTORY RESET"@,
                "Resetting to defaults in "@ + text::dec(n as nat) + " seconds..."@,
            ),
        ),
        Notice::Erasing => Some(("FACTORY RESET"@, "Erasing NVS... Please wait..."@)),
        _ => None,
    }
}

/// Title and text of the message that a notice puts on the display, if it puts one.
pub fn notice_message(notice: Notice) -> (m: Option<(String, String)>)
    ensures
        m is Some <==> message(notice) is Some,
        m matches Some((title, body)) ==> message(notice) == Some((title@, body@)),
{
    match notice {
        Notice::Countdown(n) => {
            let mut body = "Resetting to defaults in ".to_owned();
            push_dec(&mut body, n);
            body.append(" seconds...");
            Some(("FACTORY RESET".to_owned(), body))
        },
        Notice::Erasing => Some(
            ("FACTORY RESET".to_owned(), "Erasing NVS... Please wait...".to_owned()),
        ),
        _ => None,
    }
}

/// The button after samples with the button held.
pub open spec fn after_holding(s: Button, times: Seq<u64>) -> Button
    decreases times.len(),
{
    if times.len() == 0 {
        s
    } else {
        react(after_holding(s, times.drop_last()), false, times.last()).state
    }
}

/// How often such samples ask for an action.
pub open spec fn asked(s: Button, times: Seq<u64>, action: Action) -> nat
    decreases times.len(),
{
    if times.len() == 0 {
        0
    } else {
        let before = after_holding(s, times.drop_last());
        asked(s, times.drop_last(), action) + if react(before, false, times.last()).action
            == action {
            1nat
        } else {
            0nat
        }
    }
}

/// How often a whole press asks for an action: the button goes down at `t0`, is sampled while it
/// is held and is released at `t1`.
pub open spec fn asked_by_press(t0: u64, times: Seq<u64>, t1: u64, action: Action) -> nat {
    let down = react(idle(), false, t0);
    let up = react(after_holding(down.state, times), true, t1);
    (if down.action == action {
        1nat
    } else {
        0nat
    }) + asked(down.state, times, action) + if up.action == action {
        1nat
    } else {
        0nat
    }
}

/// Whether a press was sampled in order: each sample while it was held was before its release.
pub open spec fn in_order(times: Seq<u64>, t1: u64) -> bool {
    forall|i: int| 0 <= i < times.len() ==> #[trigger] times[i] <= t1
}

/// Holding the button changes nothing of what is known about it, never turns the page or toggles
/// the DC output, and resets nothing before ten seconds.
proof fn lemma_hold(t0: u64, times: Seq<u64>, t1: u64)
    requires
        in_order(times, t1),
    ensures
        after_holding(pressed(t0), times) == pressed(t0),
        asked(pressed(t0), times, Action::NextPage) == 0,
        asked(pressed(t0), times, Action::ToggleDcOut) == 0,
        elapsed(t0, t1) < FACTORY_RESET_PRESS_MS ==> asked(
            pressed(t0),
            times,
            Action::FactoryReset,
        ) == 0,
    decreases times.len(),
{
    if times.len() > 0 {
        let shorter = times.drop_last();
        assert(times[times.len() - 1] <= t1);
        assert forall|i: int| 0 <= i < shorter.len() implies #[trigger] shorter[i] <= t1 by {
            assert(times[i] <= t1);
        }
        lemma_hold(t0, shorter, t1);
    }
}

/// A press of less than three seconds turns the page once, leaves the DC output alone and resets
/// nothing, however often the pin is sampled.
pub proof fn law_short_press(t0: u64, times: Seq<u64>, t1: u64)
    requires
        in_order(times, t1),
        elapsed(t0, t1) < DCOUT_PRESS_MS,
    ensures
        asked_by_press(t0, times, t1, Action::NextPage) == 1,
        asked_by_press(t0, times, t1, Action::ToggleDcOut) == 0,
        asked_by_press(t0, times, t1, Action::FactoryReset) == 0,
{
    lemma_hold(t0, times, t1);
}

/// A press of at least three and less than ten seconds toggles the DC output exactly once, turns
/// no page and resets nothing.
pub proof fn law_medium_press(t0: u64, times: Seq<u64>, t1: u64)
    requires
        in_order(times, t1),
        DCOUT_PRESS_MS <= elapsed(t0, t1) < FACTORY_RESET_PRESS_MS,
    ensures
        asked_by_press(t0, times, t1, Action::ToggleDcOut) == 1,
        asked_by_press(t0, times, t1, Action::NextPage) == 0,
        asked_by_press(t0, times, t1, Action::FactoryReset) == 0,
{
    lemma_hold(t0, times, t1);
}

/// A press of ten seconds or more resets the device, never toggles the DC output and turns no
/// page.
pub proof fn law_long_press(t0: u64, times: Seq<u64>, t1: u64)
    requires
        in_order(times, t1),
        elapsed(t0, t1) >= FACTORY_RESET_PRESS_MS,
    ensures
        asked_by_press(t0, times, t1, Action::FactoryReset) >= 1,
        asked_by_press(t0, times, t1, Action::ToggleDcOut) == 0,
        asked_by_press(t0, times, t1, Action::NextPage) == 0,
{
    lemma_hold(t0, times, t1);
}

/// The reset comes at the first sample that finds the button held for ten seconds, without
/// waiting for its release.
pub proof fn law_reset_while_held(t0: u64, times: Seq<u64>, now: u64)
    requires
        in_order(times, now),
        elapsed(t0, now) >= FACTORY_RESET_PRESS_MS,
    ensures
        react(after_holding(pressed(t0), times), false, now).action == Action::FactoryReset,
        react(after_holding(pressed(t0), times), false, now).notice == Notice::Erasing,
{
    lemma_hold(t0, times, now);
}

/// No action but the toggle changes an output, and toggling twice changes none.
pub proof fn law_only_toggle_drives(gpio: Seq<bool>, action: Action)
    requires
        gpio.len() > DC_OUT,
    ensures
        action != Action::ToggleDcOut ==> driven(gpio, action) == gpio,
        driven(driven(gpio, Action::ToggleDcOut), Action::ToggleDcOut) =~= gpio,
{
}

/// What a release asks for, by how long the press was: less than three seconds turn the page, less
/// than ten toggle the DC output, and ten or more reset the device. The notice that a reset was
/// announced goes away if it did not come.
pub proof fn law_release_by_duration(t0: u64, t1: u64)
    requires
        t0 <= t1,
    ensures
        ({
            let r = react(pressed(t0), true, t1);
            let t = t1 - t0;
            &&& t < 3000 ==> r.action == Action::NextPage && r.notice == Notice::Unchanged
            &&& 3000 <= t < 6000 ==> r.action == Action::ToggleDcOut && r.notice
                == Notice::Unchanged
            &&& 6000 <= t < 10000 ==> r.action == Action::ToggleDcOut && r.notice == Notice::Clear
            &&& t >= 10000 ==> r.action == Action::FactoryReset && r.notice == Notice::Erasing
            &&& r.state.last_high && r.state.press_start is None
        }),
{
}

/// What is shown while the button is held, by how long it was: nothing for six seconds, then the
/// seconds that are left until the reset, rounded up, and from ten seconds on the reset.
pub proof fn law_hold_by_duration(t0: u64, now: u64)
    requires
        t0 <= now,
    ensures
        ({
            let r = react(pressed(t0), false, now);
            let t = now - t0;
            &&& t < 10000 ==> r.action == Action::Nothing
            &&& t < 6000 ==> r.notice == Notice::Unchanged
            &&& 6000 <= t < 10000 ==> {
                &&& r.notice is Countdown
                &&& 1000 * (r.notice->Countdown_0 - 1) < 10000 - t <= 1000 * r.notice->Countdown_0
            }
            &&& t >= 10000 ==> r.action == Action::FactoryReset && r.notice == Notice::Erasing
            &&& r.state == pressed(t0)
        }),
{
}

/// A press begins when the pin goes low and the button was up; a button that stays up, and one of
/// which no press is known, asks for nothing.
pub proof fn law_press_begins(now: u64)
    ensures
        ({
            let r = react(idle(), false, now);
            &&& r.action == Action::Nothing && r.notice == Notice::Unchanged
            &&& !r.state.last_high && r.state.press_start == Some(now)
        }),
        ({
            let r = react(idle(), true, now);
            &&& r.action == Action::Nothing && r.notice == Notice::Unchanged
            &&& r.state.last_high && r.state.press_start is None
        }),
{
}

/// The toggle changes over output 6 and leaves every other one alone.
pub proof fn law_toggle_is_of_the_dc_output(gpio: Seq<bool>, i: int)
    requires
        gpio.len() == 7,
        0 <= i < 7,
    ensures
        driven(gpio, Action::ToggleDcOut)[6] == !gpio[6],
        i != 6 ==> driven(gpio, Action::ToggleDcOut)[i] == gpio[i],
{
}

/// What is said of a factory reset.
pub proof fn law_notices(n: u64)
    ensures
        message(Notice::Countdown(n)) == Some(
            (
                "FACTORY RESET"@,
                "Resetting to defaults in "@ + text::dec(n as nat) + " seconds..."@,
            ),
        ),
        message(Notice::Erasing) == Some(("FACTORY RESET"@, "Erasing NVS... Please wait..."@)),
        message(Notice::Unchanged) is None,
        message(Notice::Clear) is None,
{
}

} // verus!
