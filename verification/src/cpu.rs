use vstd::prelude::*;

verus! {

/// Per-CPU bookkeeping for cooperative preemption.
///
/// One sandboxed strand runs per CPU at a time.  Rescheduling is forbidden
/// while `preempt_counter` is raised (page-table edits and instance
/// construction run under it), and a preemption that arrives meanwhile is
/// only recorded in `preempt_requested`, to be honored once the counter
/// returns to zero with interrupts enabled.
///
/// In the kernel this record lives in core-local storage and only the
/// owning core ever touches it; here each core's record is an explicit
/// exclusively-owned value, which proves the same single-writer discipline
/// by construction.
pub struct Cpu {
    /// The id of the core this record belongs to (starts at 0).
    pub cpu_id: u32,
    /// Depth of interrupt handlers currently on this core's stack.
    pub in_irq: u32,
    /// How many times preemption has been disabled and not yet re-enabled.
    pub preempt_counter: u32,
    /// Whether a preemption arrived while the counter was raised.
    pub preempt_requested: bool,
}

impl Cpu {
    /// A fresh record for core `cpu_id`: preemption allowed, none pending.
    pub fn new(cpu_id: u32) -> (r: Cpu)
        ensures
            r.cpu_id == cpu_id,
            r.in_irq == 0,
            r.preempt_counter == 0,
            r.preempt_requested == false,
    {
        Cpu { cpu_id, in_irq: 0, preempt_counter: 0, preempt_requested: false }
    }

    /// The current preemption-disable depth.
    pub fn counter(&self) -> (r: u32)
        ensures
            r == self.preempt_counter,
    {
        self.preempt_counter
    }

    /// Whether a preemption is pending.
    pub fn requested(&self) -> (r: bool)
        ensures
            r == self.preempt_requested,
    {
        self.preempt_requested
    }

    /// Whether rescheduling is allowed right now.
    pub fn allowed(&self) -> (r: bool)
        ensures
            r == (self.preempt_counter == 0),
    {
        self.preempt_counter == 0
    }

    /// Enter a critical section: raise the preemption-disable counter.
    pub fn disable(&mut self)
        requires
            old(self).preempt_counter < u32::MAX,
        ensures
            *final(self) == (Cpu {
                preempt_counter: (old(self).preempt_counter + 1) as u32,
                ..*old(self)
            }),
    {
        self.preempt_counter = self.preempt_counter + 1;
    }

    /// Leave a critical section: lower the counter, and decide whether the
    /// scheduler must run now.  Returns true exactly when the counter
    /// reached zero with a preemption pending and interrupts enabled; the
    /// pending flag is consumed in that case.  The caller performs the
    /// actual reschedule.
    pub fn enable(&mut self, irqs_enabled: bool) -> (reschedule: bool)
        requires
            old(self).preempt_counter > 0,
        ensures
            final(self).preempt_counter == old(self).preempt_counter - 1,
            final(self).cpu_id == old(self).cpu_id,
            final(self).in_irq == old(self).in_irq,
            reschedule <==> (old(self).preempt_counter == 1 && old(self).preempt_requested
                && irqs_enabled),
            reschedule ==> final(self).preempt_requested == false,
            !reschedule ==> final(self).preempt_requested == old(self).preempt_requested,
    {
        self.preempt_counter = self.preempt_counter - 1;
        if self.allowed() && self.requested() && irqs_enabled {
            self.preempt_requested = false;
            true
        } else {
            false
        }
    }

    /// Request a preemption.  Returns true exactly when it may happen right
    /// away (the caller then reschedules); otherwise the request is left
    /// pending for the matching `enable`.
    pub fn preempt(&mut self) -> (reschedule: bool)
        ensures
            final(self).preempt_counter == old(self).preempt_counter,
            final(self).cpu_id == old(self).cpu_id,
            final(self).in_irq == old(self).in_irq,
            reschedule <==> old(self).preempt_counter == 0,
            reschedule ==> final(self).preempt_requested == false,
            !reschedule ==> final(self).preempt_requested == true,
    {
        if self.allowed() {
            self.preempt_requested = false;
            true
        } else {
            self.preempt_requested = true;
            false
        }
    }
}

} // verus!
