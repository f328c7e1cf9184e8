//! Desired values of the digital and PWM outputs.

use vstd::prelude::*;

verus! {

/// The pin behind each digital output: indices 0-5 are GPIO4-9, index 6 is GPIO12.
pub const GPIO_PIN_MAP: [u8; 7] = [4, 5, 6, 7, 8, 9, 12];

/// The index of GPIO12, the DC power output.
pub const DC_OUT: usize = 6;

/// Desired outputs, written by requests and read by the loop that owns the pins.
pub struct GpioPwmState {
    gpio_states: [bool; 7],
    pwm_duties: [u8; 2],
}

/// The outputs with one of them set.
pub open spec fn with_output(gpio: Seq<bool>, index: int, value: bool) -> Seq<bool> {
    if index < 7 {
        gpio.update(index, value)
    } else {
        gpio
    }
}

/// The duties with one of them set, to 100 at most.
pub open spec fn with_duty(pwm: Seq<u8>, index: int, duty: u8) -> Seq<u8> {
    if index < 2 {
        pwm.update(
            index,
            if duty <= 100 {
                duty
            } else {
                100
            },
        )
    } else {
        pwm
    }
}

impl GpioPwmState {
    /// ON or OFF for each digital output.
    pub closed spec fn gpio(self) -> Seq<bool> {
        self.gpio_states@
    }

    /// Duty in percent for GPIO10 and GPIO11.
    pub closed spec fn pwm(self) -> Seq<u8> {
        self.pwm_duties@
    }

    /// Seven outputs, two duties of at most 100 percent.
    pub open spec fn wf(self) -> bool {
        &&& self.gpio().len() == 7
        &&& self.pwm().len() == 2
        &&& self.pwm()[0] <= 100
        &&& self.pwm()[1] <= 100
    }

    /// Everything off.
    pub fn new() -> (s: GpioPwmState)
        ensures
            s.wf(),
            s.gpio() == seq![false, false, false, false, false, false, false],
            s.pwm() == seq![0u8, 0u8],
    {
        let s = GpioPwmState { gpio_states: [false;7], pwm_duties: [0u8;2] };
        proof {
            assert(s.gpio() =~= seq![false, false, false, false, false, false, false]);
            assert(s.pwm() =~= seq![0u8, 0u8]);
        }
        s
    }

    /// The digital outputs.
    pub fn get_gpio(&self) -> (states: [bool; 7])
        ensures
            states@ == self.gpio(),
    {
        self.gpio_states
    }

    /// The PWM duties.
    pub fn get_pwm(&self) -> (duties: [u8; 2])
        ensures
            duties@ == self.pwm(),
    {
        self.pwm_duties
    }

    /// Sets one digital output; an index past the last one changes nothing.
    pub fn set_gpio(&mut self, index: usize, value: bool)
        requires
            old(self).wf(),
        ensures
            final(self).wf(),
            final(self).pwm() == old(self).pwm(),
            final(self).gpio() == with_output(old(self).gpio(), index as int, value),
    {
        if index < 7 {
            self.gpio_states[index] = value;
        }
    }

    /// Sets one PWM duty, at most 100 percent; an index past the last one changes nothing.
    pub fn set_pwm(&mut self, index: usize, duty: u8)
        requires
            old(self).wf(),
        ensures
            final(self).wf(),
            final(self).gpio() == old(self).gpio(),
            final(self).pwm() == with_duty(old(self).pwm(), index as int, duty),
    {
        if index < 2 {
            self.pwm_duties[index] = if duty <= 100 {
                duty
            } else {
                100
            };
        }
    }

    /// A copy of the state.
    pub fn snapshot(&self) -> (s: GpioPwmState)
        ensures
            s.gpio() == self.gpio(),
            s.pwm() == self.pwm(),
    {
        GpioPwmState { gpio_states: self.gpio_states, pwm_duties: self.pwm_duties }
    }
}

/// The pins of the digital outputs.
pub proof fn law_pins()
    ensures
        GPIO_PIN_MAP@ == seq![4u8, 5u8, 6u8, 7u8, 8u8, 9u8, 12u8],
        DC_OUT == 6,
{
    assert(GPIO_PIN_MAP@ =~= seq![4u8, 5u8, 6u8, 7u8, 8u8, 9u8, 12u8]);
}

/// Setting an output or a duty changes the one with that number and no other; a duty is at most 100.
pub proof fn law_set_one(g: Seq<bool>, p: Seq<u8>, k: int, i: int, value: bool, duty: u8)
    requires
        g.len() == 7,
        p.len() == 2,
        0 <= k,
        0 <= i,
    ensures
        k < 7 ==> with_output(g, k, value)[k] == value,
        i < 7 && i != k ==> with_output(g, k, value)[i] == g[i],
        k < 2 && duty <= 100 ==> with_duty(p, k, duty)[k] == duty,
        k < 2 && duty > 100 ==> with_duty(p, k, duty)[k] == 100,
        i < 2 && i != k ==> with_duty(p, k, duty)[i] == p[i],
        with_output(g, k, value).len() == 7,
        with_duty(p, k, duty).len() == 2,
{
}

} // verus!
