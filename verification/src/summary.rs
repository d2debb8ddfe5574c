//! What a record of accesses adds up to.

use crate::mmio::{Access, Log, Reg16, Shadow};
use crate::usb::types::UsbIrqEvent;
use vstd::prelude::*;

verus! {

/// The three per-pipe interrupt enable masks.
pub struct EnableMasks {
    pub brdy: u16,
    pub nrdy: u16,
    pub bemp: u16,
}

impl EnableMasks {
    /// No interrupt enabled.
    pub open spec fn zero() -> EnableMasks {
        EnableMasks { brdy: 0, nrdy: 0, bemp: 0 }
    }

    /// The masks with one of them replaced.
    pub open spec fn with(self, which: Shadow, mask: u16) -> EnableMasks {
        match which {
            Shadow::Brdyenb => EnableMasks { brdy: mask, ..self },
            Shadow::Nrdyenb => EnableMasks { nrdy: mask, ..self },
            Shadow::Bempenb => EnableMasks { bemp: mask, ..self },
        }
    }
}

/// The latch after a record of accesses.
pub struct Latch {
    /// The event last stored, the empty event before that.
    pub event: UsbIrqEvent,
    /// Whether the latch was last said to hold something.
    pub pending: bool,
    /// Whether every load, of the event or of the announcement, returned what was stored last.
    pub faithful: bool,
}

impl Latch {
    /// The latch before any access.
    pub open spec fn start() -> Latch {
        Latch { event: UsbIrqEvent::none(), pending: false, faithful: true }
    }

    /// The latch after one more access.
    pub open spec fn then_access(self, access: Access) -> Latch {
        match access {
            Access::StoreLatched { value } => Latch { event: value, ..self },
            Access::LoadLatched { value } => Latch {
                faithful: self.faithful && value == self.event,
                ..self
            },
            Access::StorePending { value } => Latch { pending: value, ..self },
            Access::LoadPending { value } => Latch {
                faithful: self.faithful && value == self.pending,
                ..self
            },
            _ => self,
        }
    }

    /// An event that waits in the latch is announced.
    pub open spec fn announced(self) -> bool {
        self.event.is_empty() || self.pending
    }
}

/// What a record of accesses adds up to.
pub struct Summary {
    /// The interrupt enable masks last published to the interrupt handler, zero before that.
    pub published: EnableMasks,
    /// The interrupt enable masks last written to the registers, zero before that.
    pub programmed: EnableMasks,
    /// How many critical sections are open.
    pub depth: int,
    /// Whether no critical section was left that was not open, and the latched event was accessed
    /// in critical sections only.
    pub guarded: bool,
    /// The value last written to the protection register, zero before that.
    pub prcr: u16,
    /// The latch between the interrupt handler and the bus.
    pub latch: Latch,
}

impl Summary {
    /// The summary of nothing.
    pub open spec fn start() -> Summary {
        Summary {
            published: EnableMasks::zero(),
            programmed: EnableMasks::zero(),
            depth: 0,
            guarded: true,
            prcr: 0,
            latch: Latch::start(),
        }
    }

    /// The summary after one more access.
    pub open spec fn then_access(self, access: Access) -> Summary {
        match access {
            Access::StoreShadow { which, value } => Summary {
                published: self.published.with(which, value),
                ..self
            },
            Access::Write16 { reg, value } => {
                if reg == Reg16::Brdyenb {
                    Summary { programmed: self.programmed.with(Shadow::Brdyenb, value), ..self }
                } else if reg == Reg16::Nrdyenb {
                    Summary { programmed: self.programmed.with(Shadow::Nrdyenb, value), ..self }
                } else if reg == Reg16::Bempenb {
                    Summary { programmed: self.programmed.with(Shadow::Bempenb, value), ..self }
                } else if reg == Reg16::Prcr {
                    Summary { prcr: value, ..self }
                } else {
                    self
                }
            },
            Access::Enter => Summary { depth: self.depth + 1, ..self },
            Access::Leave => Summary {
                depth: self.depth - 1,
                guarded: self.guarded && self.depth > 0,
                ..self
            },
            Access::LoadLatched { .. } | Access::StoreLatched { .. } => Summary {
                guarded: self.guarded && self.depth > 0,
                latch: self.latch.then_access(access),
                ..self
            },
            Access::LoadPending { .. } | Access::StorePending { .. } => Summary {
                latch: self.latch.then_access(access),
                ..self
            },
            _ => self,
        }
    }

    /// The summary after an interrupt enable mask was published and written.
    pub open spec fn with_mask(self, which: Shadow, mask: u16) -> Summary {
        Summary {
            published: self.published.with(which, mask),
            programmed: self.programmed.with(which, mask),
            ..self
        }
    }

    /// The summary after all three interrupt enable masks were published and written.
    pub open spec fn with_masks(self, masks: EnableMasks) -> Summary {
        Summary { published: masks, programmed: masks, ..self }
    }

    /// Outside of critical sections, with the latched event never touched outside of them.
    pub open spec fn settled(self) -> bool {
        self.depth == 0 && self.guarded
    }
}

/// What the accesses of `log` add up to.
#[verifier::opaque]
pub open spec fn summary(log: Log) -> Summary
    decreases log.len(),
{
    if log.len() == 0 {
        Summary::start()
    } else {
        summary(log.drop_last()).then_access(log.last())
    }
}

/// The latch after the accesses of `log`.
pub open spec fn latch(log: Log) -> Latch {
    summary(log).latch
}

/// The summary after one more access follows from the summary before it.
pub broadcast proof fn lemma_summary_push(log: Log, access: Access)
    ensures
        #[trigger] summary(log.push(access)) == summary(log).then_access(access),
{
    reveal(summary);
    assert(log.push(access).drop_last() =~= log);
}

/// The summary of nothing is where every summary starts.
pub proof fn lemma_summary_empty()
    ensures
        summary(Seq::<Access>::empty()) == Summary::start(),
{
    reveal(summary);
}

} // verus!
