//! Debouncing a water level sensor: a change is reported only once the pin
//! has been quiet for the debounce delay, so that turbulence in the water does
//! not raise several events where one is meant.
use vstd::prelude::*;

use crate::hydro::gpio::Level;
use crate::hydro::signal::{Message, Signal};

verus! {

/// One sensor's debouncer. Times are in milliseconds on a monotonic clock.
pub struct Debouncer {
    pub delay: u64,
    pub level: Level,
    pub message: Message,
    /// Whether a report is pending.
    pub running: bool,
    /// When the pending report is due: the last start or reset plus the delay.
    pub due_at: u64,
}

impl Debouncer {
    pub open spec fn wf(self) -> bool {
        self.due_at >= self.delay
    }

    /// The debouncer after an interrupt at `now` with the pin at `level`.
    pub open spec fn after_interrupt(self, level: Level, now: u64) -> Debouncer {
        Debouncer {
            running: true,
            due_at: (now + self.delay) as u64,
            level: if self.running {
                level
            } else {
                self.level
            },
            ..self
        }
    }

    /// The debouncer after a poll at `now`, and the report the poll makes.
    pub open spec fn after_poll(self, now: u64) -> (Debouncer, Option<Signal>) {
        if self.running && now >= self.due_at {
            (Debouncer { running: false, ..self }, Some(Signal { level: self.level, message: self.message }))
        } else {
            (self, None)
        }
    }

    /// A debouncer for the sensor reporting `message`; nothing pending, and
    /// the level taken as low until a reset says otherwise.
    pub fn new(delay: u64, message: Message) -> (r: Debouncer)
        ensures
            r.wf(),
            r.delay == delay,
            r.message == message,
            r.level == Level::Low,
            !r.running,
    {
        Debouncer { delay, level: Level::Low, message, running: false, due_at: delay }
    }

    /// The pin changed again before the report was due: remember its level
    /// and start the quiet period over from `now`.
    pub fn reset_deadline(&mut self, level: Level, now: u64)
        requires
            now + old(self).delay <= u64::MAX,
        ensures
            final(self).wf(),
            final(self).level == level,
            final(self).due_at == now + old(self).delay,
            final(self).running == old(self).running,
            final(self).delay == old(self).delay,
            final(self).message == old(self).message,
    {
        self.level = level;
        self.due_at = now + self.delay;
    }

    /// Starts a report due one delay after `now`.
    pub fn start(&mut self, now: u64)
        requires
            now + old(self).delay <= u64::MAX,
        ensures
            final(self).wf(),
            final(self).running,
            final(self).due_at == now + old(self).delay,
            final(self).level == old(self).level,
            final(self).delay == old(self).delay,
            final(self).message == old(self).message,
    {
        self.running = true;
        self.due_at = now + self.delay;
    }

    /// An interrupt from the pin: while a report is pending it resets the
    /// quiet period with the new level; otherwise it starts a report.
    pub fn handle_interrupt(&mut self, level: Level, now: u64)
        requires
            now + old(self).delay <= u64::MAX,
        ensures
            final(self).wf(),
            *final(self) == old(self).after_interrupt(level, now),
    {
        if self.running {
            self.reset_deadline(level, now);
        } else {
            self.start(now);
        }
    }

    /// The report, once the quiet period has passed by `now`: the sensor's
    /// message with the level last recorded. Nothing before that, and nothing
    /// when no report is pending.
    pub fn poll(&mut self, now: u64) -> (r: Option<Signal>)
        requires
            old(self).wf(),
        ensures
            final(self).wf(),
            (*final(self), r) == old(self).after_poll(now),
    {
        if self.running && now >= self.due_at {
            self.running = false;
            Some(Signal { level: self.level, message: self.message })
        } else {
            None
        }
    }
}

/// After an interrupt at `at`, a poll at `now` reports exactly when a full
/// delay has passed since the interrupt, with the level recorded (the new one
/// when a report was already pending); and once it has reported, polling
/// again reports nothing until the next interrupt.
pub proof fn lemma_report_after_quiet(d: Debouncer, level: Level, at: u64, now: u64, later: u64)
    requires
        d.wf(),
        at + d.delay <= u64::MAX,
    ensures
        ({
            let a = d.after_interrupt(level, at);
            let (b, report) = a.after_poll(now);
            &&& (report is Some) == (now >= at + d.delay)
            &&& report matches Some(sig) ==> sig.level == (if d.running {
                level
            } else {
                d.level
            }) && sig.message == d.message
            &&& report is Some ==> b.after_poll(later).1 is None
        }),
{
}

} // verus!
