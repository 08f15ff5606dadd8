//! The interrupt scheduler: ON-key and Timer1 sources, each with an enable
//! and a pending flag, driven by an explicit countdown advanced in step with
//! the cycles the processor actually ran.
//!
//! Port 3 masks interrupts: writing a bit enables the source, and a source
//! whose bit is written as 0 has its pending flag dropped for good. Port 4
//! reads which sources are pending.

use vstd::prelude::*;

verus! {

/// Mask/status bit for the ON key.
pub const FLAG_ON: u8 = 0x01;

/// Mask/status bit for Timer1.
pub const FLAG_TIMER1: u8 = 0x02;

/// Abstract controller state. Times are in nanoseconds.
#[verifier::ext_equal]
pub struct InterruptView {
    pub timer1_period: nat,
    pub timer1_remaining: nat,
    pub timer1_enabled: bool,
    pub timer1_pending: bool,
    pub on_enabled: bool,
    pub on_pending: bool,
}

impl InterruptView {
    pub open spec fn wf(self) -> bool {
        &&& 1 <= self.timer1_period <= 0x1000_0000_0000_0000
        &&& self.timer1_remaining <= self.timer1_period
    }
}

/// Timers after the system has run for `duration`: if the countdown is
/// consumed, Timer1 becomes pending and the countdown reloads to the period
/// less any overshoot; an overshoot of a full extra period or more (skipped
/// interrupts) reloads to the whole period.
pub open spec fn advance_spec(v: InterruptView, duration: nat) -> InterruptView {
    if duration >= v.timer1_remaining {
        if duration >= v.timer1_remaining + v.timer1_period {
            InterruptView { timer1_pending: true, timer1_remaining: v.timer1_period, ..v }
        } else {
            InterruptView {
                timer1_pending: true,
                timer1_remaining: (v.timer1_period + v.timer1_remaining - duration) as nat,
                ..v
            }
        }
    } else {
        InterruptView { timer1_remaining: (v.timer1_remaining - duration) as nat, ..v }
    }
}

/// A mask-port write: each source is enabled exactly when its bit is set, and
/// a pending flag survives only while its source stays enabled, so disabling
/// drops it and re-enabling later cannot resurrect it.
pub open spec fn write_mask_spec(v: InterruptView, value: u8) -> InterruptView {
    InterruptView {
        on_enabled: value & FLAG_ON != 0,
        on_pending: v.on_pending && value & FLAG_ON != 0,
        timer1_enabled: value & FLAG_TIMER1 != 0,
        timer1_pending: v.timer1_pending && value & FLAG_TIMER1 != 0,
        ..v
    }
}

/// Whether the interrupt-request line should be asserted: some enabled source
/// is pending.
pub open spec fn irq_spec(v: InterruptView) -> bool {
    (v.timer1_pending && v.timer1_enabled) || (v.on_pending && v.on_enabled)
}

/// Mask-port read-back: a bit per enabled source.
pub open spec fn mask_spec(v: InterruptView) -> u8 {
    ((if v.on_enabled {
        FLAG_ON
    } else {
        0
    }) + (if v.timer1_enabled {
        FLAG_TIMER1
    } else {
        0
    })) as u8
}

/// Status-port value: a bit per pending source.
pub open spec fn status_spec(v: InterruptView) -> u8 {
    ((if v.on_pending {
        FLAG_ON
    } else {
        0
    }) + (if v.timer1_pending {
        FLAG_TIMER1
    } else {
        0
    })) as u8
}

/// Advancing by a full period always fires Timer1; a mask write with the
/// Timer1 bit clear then reads pending back as false, and writing the bit
/// again afterward does not resurrect the cleared pending state.
pub proof fn lemma_mask_write_clears_timer1_for_good(v: InterruptView, off: u8, on: u8)
    requires
        v.wf(),
        off & FLAG_TIMER1 == 0,
        on & FLAG_TIMER1 != 0,
    ensures
        ({
            let fired = advance_spec(v, v.timer1_period);
            let cleared = write_mask_spec(fired, off);
            let reenabled = write_mask_spec(cleared, on);
            &&& fired.timer1_pending
            &&& !cleared.timer1_pending
            &&& status_spec(cleared) & FLAG_TIMER1 == 0
            &&& !reenabled.timer1_pending
            &&& status_spec(reenabled) & FLAG_TIMER1 == 0
        }),
{
    let cleared = write_mask_spec(advance_spec(v, v.timer1_period), off);
    assert(status_spec(cleared) == (if cleared.on_pending {
        FLAG_ON
    } else {
        0
    }));
    assert(0x01u8 & 0x02 == 0 && 0x00u8 & 0x02 == 0) by (bit_vector);
}

/// Handles interrupts for the calculator's two implemented sources, the ON
/// key and Timer1.
pub struct InterruptController {
    /// Timer1 fires about 118 times a second.
    timer1_period: u64,
    timer1_remaining: u64,
    timer1_enabled: bool,
    timer1_pending: bool,
    on_enabled: bool,
    on_pending: bool,
}

impl View for InterruptController {
    type V = InterruptView;

    closed spec fn view(&self) -> InterruptView {
        InterruptView {
            timer1_period: self.timer1_period as nat,
            timer1_remaining: self.timer1_remaining as nat,
            timer1_enabled: self.timer1_enabled,
            timer1_pending: self.timer1_pending,
            on_enabled: self.on_enabled,
            on_pending: self.on_pending,
        }
    }
}

impl InterruptController {
    pub open spec fn wf(self) -> bool {
        self@.wf()
    }

    /// Both sources enabled and idle, with a full countdown to the first
    /// Timer1 interrupt.
    pub fn new() -> (r: InterruptController)
        ensures
            r.wf(),
            r@.timer1_period == 1_000_000_000int / 118,
            r@.timer1_remaining == r@.timer1_period,
            r@.timer1_enabled && !r@.timer1_pending,
            r@.on_enabled && !r@.on_pending,
    {
        let timer1_period: u64 = 1_000_000_000 / 118;
        InterruptController {
            timer1_period,
            timer1_remaining: timer1_period,
            timer1_enabled: true,
            timer1_pending: false,
            on_enabled: true,
            on_pending: false,
        }
    }

    /// The ON key was pressed; its interrupt becomes pending.
    pub fn on_pressed(&mut self)
        requires
            old(self).wf(),
        ensures
            final(self).wf(),
            final(self)@ =~= (InterruptView { on_pending: true, ..old(self)@ }),
    {
        self.on_pending = true;
    }

    /// Whether any source is pending, enabled or not.
    pub fn is_pending(&self) -> (r: bool)
        ensures
            r == (self@.timer1_pending || self@.on_pending),
    {
        self.timer1_pending || self.on_pending
    }

    /// Update timers as if the system has run for `duration` nanoseconds.
    ///
    /// This drives Timer1 and should be called after any processor run.
    pub fn advance(&mut self, duration: u64)
        requires
            old(self).wf(),
        ensures
            final(self).wf(),
            final(self)@ =~= advance_spec(old(self)@, duration as nat),
    {
        if duration >= self.timer1_remaining {
            self.timer1_pending = true;
            if duration >= self.timer1_remaining + self.timer1_period {
                // The step overshot by a full period or more: interrupts were
                // skipped; start a fresh countdown.
                self.timer1_remaining = self.timer1_period;
            } else {
                self.timer1_remaining = self.timer1_period + self.timer1_remaining - duration;
            }
        } else {
            self.timer1_remaining = self.timer1_remaining - duration;
        }
    }

    /// Poll for pending interrupts: whether the interrupt-request line should
    /// be asserted, and the time in nanoseconds until Timer1 next fires, if
    /// it is enabled.
    pub fn poll(&mut self) -> (r: (bool, Option<u64>))
        requires
            old(self).wf(),
        ensures
            *final(self) == *old(self),
            r.0 == irq_spec(old(self)@),
            r.1 == if old(self)@.timer1_enabled {
                Some(old(self)@.timer1_remaining as u64)
            } else {
                None::<u64>
            },
    {
        let pending = (self.timer1_pending && self.timer1_enabled) || (self.on_pending
            && self.on_enabled);
        let next = if self.timer1_enabled {
            Some(self.timer1_remaining)
        } else {
            None
        };
        (pending, next)
    }

    /// Read port 3, returning the enable status of the sources.
    pub fn read_mask_port(&self) -> (r: u8)
        ensures
            r == mask_spec(self@),
    {
        let mut out: u8 = 0;
        if self.on_enabled {
            out = out + FLAG_ON;
        }
        if self.timer1_enabled {
            out = out + FLAG_TIMER1;
        }
        out
    }

    /// Write port 3, setting the enable status; a pending flag survives only
    /// if its source stays enabled.
    pub fn write_mask_port(&mut self, value: u8)
        requires
            old(self).wf(),
        ensures
            final(self).wf(),
            final(self)@ =~= write_mask_spec(old(self)@, value),
    {
        self.on_enabled = value & FLAG_ON != 0;
        self.on_pending = self.on_pending && self.on_enabled;
        self.timer1_enabled = value & FLAG_TIMER1 != 0;
        self.timer1_pending = self.timer1_pending && self.timer1_enabled;
    }

    /// Read port 4, getting the pending flags.
    pub fn read_status_port(&mut self) -> (r: u8)
        requires
            old(self).wf(),
        ensures
            *final(self) == *old(self),
            r == status_spec(old(self)@),
    {
        let mut out: u8 = 0;
        if self.on_pending {
            out = out + FLAG_ON;
        }
        if self.timer1_pending {
            out = out + FLAG_TIMER1;
        }
        out
    }
}

} // verus!
