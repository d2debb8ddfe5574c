//! The boundary between the driver and the chip.
//!
//! Everything the driver does to the outside world goes through [`Mmio`]: register accesses, busy
//! waits, interrupt controller requests and the cells that mainline code shares with the interrupt
//! handler. [`Mmio`] carries a ghost record of all of it, so a contract can say exactly which
//! accesses a function makes, in which order, and how each one depends on the values that earlier
//! reads returned.
//!
//! What a read returns is up to the hardware. A specification therefore takes the record of a whole
//! run as an argument: `log` is what has happened so far, `run` is any longer record that begins
//! with it, and the value that the next read returns is the one that stands in `run` at position
//! `log.len()`.

use crate::usb::types::{UsbIrqEvent, UsbIrqLocalState};
use vstd::prelude::*;

verus! {

/// Registers accessed one byte at a time.
#[derive(Clone, Copy, Debug, PartialEq, Eq)]
pub enum Reg8 {
    /// Byte lane of the CFIFO port.
    Cfifo,
    /// Byte lane of the D0FIFO port.
    D0fifo,
    /// High-speed on-chip oscillator control.
    Hococr,
    /// High-speed on-chip oscillator control 2.
    Hococr2,
    /// Operating power control.
    Opccr,
    /// Memory wait cycle control.
    Memwait,
    /// System clock source.
    Sckscr,
    /// Oscillation stabilization flags.
    Oscsf,
    /// Main clock oscillator control.
    Mosccr,
    /// Main clock oscillator mode.
    Momcr,
    /// Main clock oscillator wait control.
    Moscwtcr,
    /// PLL control.
    Pllcr,
    /// PLL clock control 2.
    Pllccr2,
    /// Reset status 0.
    Rstsr0,
    /// Pin function write protection.
    Pwpr,
}

/// Registers accessed as half-words.
#[derive(Clone, Copy, Debug, PartialEq, Eq)]
pub enum Reg16 {
    /// USB system configuration.
    Syscfg,
    /// USB system status 0.
    Syssts0,
    /// USB device state control 0.
    Dvstctr0,
    /// CFIFO port.
    Cfifo,
    /// CFIFO port select.
    Cfifosel,
    /// CFIFO port control.
    Cfifoctr,
    /// D0FIFO port select.
    D0fifosel,
    /// D0FIFO port control.
    D0fifoctr,
    /// D1FIFO port select.
    D1fifosel,
    /// USB interrupt enable 0.
    Intenb0,
    /// USB interrupt enable 1.
    Intenb1,
    /// Buffer ready interrupt enable, one bit per pipe.
    Brdyenb,
    /// Buffer not ready interrupt enable, one bit per pipe.
    Nrdyenb,
    /// Buffer empty interrupt enable, one bit per pipe.
    Bempenb,
    /// USB interrupt status 0.
    Intsts0,
    /// USB interrupt status 1.
    Intsts1,
    /// Buffer ready status, one bit per pipe.
    Brdysts,
    /// Buffer not ready status, one bit per pipe.
    Nrdysts,
    /// Buffer empty status, one bit per pipe.
    Bempsts,
    /// First half-word of the received SETUP packet.
    Usbreq,
    /// Second half-word of the received SETUP packet.
    Usbval,
    /// Third half-word of the received SETUP packet.
    Usbindx,
    /// Fourth half-word of the received SETUP packet.
    Usbleng,
    /// Default control pipe configuration.
    Dcpcfg,
    /// Default control pipe packet size.
    Dcpmaxp,
    /// Default control pipe control.
    Dcpctr,
    /// Pipe window select.
    Pipesel,
    /// Configuration of the selected pipe.
    Pipecfg,
    /// Packet size of the selected pipe.
    Pipemaxp,
    /// Cycle control of the selected pipe.
    Pipeperi,
    /// Control of pipe `n + 1`, for `n` from 0 to 4.
    Pipectr(u8),
    /// Control of pipe `n + 6`, for `n` from 0 to 3.
    Pipectr2(u8),
    /// Register write protection.
    Prcr,
    /// Reset status 1.
    Rstsr1,
    /// Flash cache enable.
    Fcachee,
    /// Flash cache invalidate.
    Fcacheiv,
}

/// Registers accessed as words.
#[derive(Clone, Copy, Debug, PartialEq, Eq)]
pub enum Reg32 {
    /// Module stop control B.
    Mstpcrb,
    /// System clock division control.
    Sckdivcr,
    /// Pin function select of one pin.
    PmnPfs { port: u8, pin: u8 },
}

/// Event of a peripheral that can be linked to an interrupt.
#[derive(Clone, Copy, Debug, PartialEq, Eq)]
pub enum InterruptEvent {
    /// The USBFS interrupt.
    UsbfsUsbi,
}

/// Request to the interrupt controllers about the interrupt bound to the driver.
#[derive(Clone, Copy, Debug, PartialEq, Eq)]
pub enum IrqOp {
    /// Mask the interrupt.
    Disable,
    /// Link a peripheral event to the interrupt.
    Link(InterruptEvent),
    /// Drop a pending request.
    Unpend,
    /// Unmask the interrupt.
    Enable,
}

/// Copies of the per-pipe interrupt enable masks that the interrupt handler filters with.
#[derive(Clone, Copy, Debug, PartialEq, Eq)]
pub enum Shadow {
    Brdyenb,
    Nrdyenb,
    Bempenb,
}

/// One thing the driver did, with the value that went in or came out.
#[allow(inconsistent_fields)]
#[derive(Clone, Copy, Debug, PartialEq, Eq)]
pub enum Access {
    Read8 { reg: Reg8, value: u8 },
    Write8 { reg: Reg8, value: u8 },
    Read16 { reg: Reg16, value: u16 },
    Write16 { reg: Reg16, value: u16 },
    Read32 { reg: Reg32, value: u32 },
    Write32 { reg: Reg32, value: u32 },
    /// Blocked until `reg & mask == value`.
    Wait8 { reg: Reg8, mask: u8, value: u8 },
    /// Blocked until `reg & mask == value`.
    Wait16 { reg: Reg16, mask: u16, value: u16 },
    Delay { cycles: u32 },
    Irq { op: IrqOp },
    /// Entered a critical section.
    Enter,
    /// Left a critical section.
    Leave,
    LoadShadow { which: Shadow, value: u16 },
    StoreShadow { which: Shadow, value: u16 },
    LoadPending { value: bool },
    StorePending { value: bool },
    LoadLatched { value: UsbIrqEvent },
    StoreLatched { value: UsbIrqEvent },
    LoadLocal { value: UsbIrqLocalState },
    StoreLocal { value: UsbIrqLocalState },
}

/// A USBFS peripheral together with the chip it sits in.
///
/// No method promises anything about the value it returns.
pub trait Instance: Sized {
    /// Reads a byte register.
    fn read8(&mut self, reg: Reg8) -> u8;

    /// Writes a byte register.
    fn write8(&mut self, reg: Reg8, value: u8);

    /// Reads a half-word register.
    fn read16(&mut self, reg: Reg16) -> u16;

    /// Writes a half-word register.
    fn write16(&mut self, reg: Reg16, value: u16);

    /// Reads a word register.
    fn read32(&mut self, reg: Reg32) -> u32;

    /// Writes a word register.
    fn write32(&mut self, reg: Reg32, value: u32);

    /// Reads a byte register until the bits under `mask` equal `value`.
    fn wait8(&mut self, reg: Reg8, mask: u8, value: u8);

    /// Reads a half-word register until the bits under `mask` equal `value`.
    fn wait16(&mut self, reg: Reg16, mask: u16, value: u16);

    /// Busy-waits for at least `cycles` processor cycles.
    fn delay(&mut self, cycles: u32);

    /// Passes a request to the interrupt controllers.
    fn irq(&mut self, op: IrqOp);

    /// Enters a critical section.
    fn enter(&mut self);

    /// Leaves the critical section entered last.
    fn leave(&mut self);

    /// Loads an interrupt enable mask as the interrupt handler sees it.
    fn load_shadow(&mut self, which: Shadow) -> u16;

    /// Publishes an interrupt enable mask to the interrupt handler.
    fn store_shadow(&mut self, which: Shadow, value: u16);

    /// Loads the flag that says whether an event is latched.
    fn load_pending(&mut self) -> bool;

    /// Stores the flag that says whether an event is latched.
    fn store_pending(&mut self, value: bool);

    /// Loads the latched event.
    fn load_latched(&mut self) -> UsbIrqEvent;

    /// Stores the latched event.
    fn store_latched(&mut self, value: UsbIrqEvent);

    /// Loads what the interrupt handler remembers between two interrupts.
    fn load_local(&mut self) -> UsbIrqLocalState;

    /// Stores what the interrupt handler remembers between two interrupts.
    fn store_local(&mut self, value: UsbIrqLocalState);
}

/// Record of accesses, oldest first.
pub type Log = Seq<Access>;

/// `log` is the beginning of `run`.
pub closed spec fn begins(log: Log, run: Log) -> bool {
    log.is_prefix_of(run)
}

/// A record is the beginning of itself.
pub proof fn lemma_begins_itself(log: Log)
    ensures
        begins(log, log),
{
    assert(log.subrange(0, log.len() as int) =~= log);
}

/// `longer` continues `log`: every run that begins with `longer` begins with `log`.
pub open spec fn grows(log: Log, longer: Log) -> bool {
    forall|run: Log| #[trigger] begins(longer, run) ==> begins(log, run)
}

/// A record continues exactly the records that it begins with.
pub proof fn law_grows_is_prefix(log: Log, longer: Log)
    ensures
        grows(log, longer) <==> log.is_prefix_of(longer),
{
    lemma_begins_itself(longer);
    if begins(log, longer) {
        assert forall|run: Log| #[trigger] begins(longer, run) implies begins(log, run) by {
            lemma_begins(log, longer);
            lemma_begins(longer, run);
            assert(log =~= run.subrange(0, log.len() as int));
        }
    }
}

/// What `begins` says of lengths and entries.
pub proof fn lemma_begins(log: Log, run: Log)
    requires
        begins(log, run),
    ensures
        log.len() <= run.len(),
        forall|i: int| 0 <= i < log.len() ==> log[i] == #[trigger] run[i],
{
    assert forall|i: int| 0 <= i < log.len() implies log[i] == #[trigger] run[i] by {
        assert(log[i] == run.subrange(0, log.len() as int)[i]);
    }
}

/// One more access begins with what came before, and fixes the next entry of every run.
proof fn lemma_push(log: Log, access: Access)
    ensures
        grows(log, log.push(access)),
        forall|run: Log|
            #![trigger begins(log.push(access), run)]
            begins(log.push(access), run) ==> run[log.len() as int] == access,
{
    assert(log =~= log.push(access).subrange(0, log.len() as int));
    law_grows_is_prefix(log, log.push(access));
    assert forall|run: Log| #![trigger begins(log.push(access), run)] begins(
        log.push(access),
        run,
    ) implies run[log.len() as int] == access by {
        lemma_begins(log.push(access), run);
        assert(log.push(access)[log.len() as int] == access);
    }
}

/// The byte that the next access of `run` after `log` returned.
pub open spec fn in8(log: Log, run: Log) -> u8 {
    run[log.len() as int]->Read8_value
}

/// The half-word that the next access of `run` after `log` returned.
pub open spec fn in16(log: Log, run: Log) -> u16 {
    run[log.len() as int]->Read16_value
}

/// The word that the next access of `run` after `log` returned.
pub open spec fn in32(log: Log, run: Log) -> u32 {
    run[log.len() as int]->Read32_value
}

/// The interrupt enable mask that the next access of `run` after `log` returned.
pub open spec fn in_shadow(log: Log, run: Log) -> u16 {
    run[log.len() as int]->LoadShadow_value
}

/// The pending flag that the next access of `run` after `log` returned.
pub open spec fn in_pending(log: Log, run: Log) -> bool {
    run[log.len() as int]->LoadPending_value
}

/// The latched event that the next access of `run` after `log` returned.
pub open spec fn in_latched(log: Log, run: Log) -> UsbIrqEvent {
    run[log.len() as int]->LoadLatched_value
}

/// The interrupt handler memory that the next access of `run` after `log` returned.
pub open spec fn in_local(log: Log, run: Log) -> UsbIrqLocalState {
    run[log.len() as int]->LoadLocal_value
}

/// `log` followed by a byte read.
pub open spec fn rd8(log: Log, reg: Reg8, run: Log) -> Log {
    log.push(Access::Read8 { reg, value: in8(log, run) })
}

/// `log` followed by a half-word read.
pub open spec fn rd16(log: Log, reg: Reg16, run: Log) -> Log {
    log.push(Access::Read16 { reg, value: in16(log, run) })
}

/// `log` followed by a word read.
pub open spec fn rd32(log: Log, reg: Reg32, run: Log) -> Log {
    log.push(Access::Read32 { reg, value: in32(log, run) })
}

/// `log` followed by a load of an interrupt enable mask.
pub open spec fn ld_shadow(log: Log, which: Shadow, run: Log) -> Log {
    log.push(Access::LoadShadow { which, value: in_shadow(log, run) })
}

/// `log` followed by a load of the pending flag.
pub open spec fn ld_pending(log: Log, run: Log) -> Log {
    log.push(Access::LoadPending { value: in_pending(log, run) })
}

/// `log` followed by a load of the latched event.
pub open spec fn ld_latched(log: Log, run: Log) -> Log {
    log.push(Access::LoadLatched { value: in_latched(log, run) })
}

/// `log` followed by a load of the interrupt handler memory.
pub open spec fn ld_local(log: Log, run: Log) -> Log {
    log.push(Access::LoadLocal { value: in_local(log, run) })
}

/// `log` followed by a byte write.
pub open spec fn wr8(log: Log, reg: Reg8, value: u8) -> Log {
    log.push(Access::Write8 { reg, value })
}

/// `log` followed by a half-word write.
pub open spec fn wr16(log: Log, reg: Reg16, value: u16) -> Log {
    log.push(Access::Write16 { reg, value })
}

/// `log` followed by a word write.
pub open spec fn wr32(log: Log, reg: Reg32, value: u32) -> Log {
    log.push(Access::Write32 { reg, value })
}

/// `log` followed by a read of `reg` and a write of `(read & keep) | set`.
pub open spec fn mod8(log: Log, reg: Reg8, keep: u8, set: u8, run: Log) -> Log {
    wr8(rd8(log, reg, run), reg, (in8(log, run) & keep) | set)
}

/// The registers and shared cells of a chip, with the record of what was done to them.
pub struct Mmio<I: Instance> {
    instance: I,
    log: Ghost<Log>,
}

impl<I: Instance> Mmio<I> {
    /// Everything that was done through `self`, oldest first.
    pub closed spec fn log(&self) -> Log {
        self.log@
    }

    /// The chip behind `self`.
    pub closed spec fn chip(&self) -> I {
        self.instance
    }

    /// Takes charge of a chip. Nothing has been recorded yet.
    pub fn new(instance: I) -> (r: Self)
        ensures
            r.log() == Seq::<Access>::empty(),
            r.chip() == instance,
    {
        Mmio { instance, log: Ghost(Seq::empty()) }
    }

    /// The chip behind `self`.
    pub fn instance(&self) -> (r: &I)
        ensures
            *r == self.chip(),
    {
        &self.instance
    }

    /// Reads a byte register.
    pub fn read8(&mut self, reg: Reg8) -> (r: u8)
        ensures
            final(self).log() == old(self).log().push(Access::Read8 { reg, value: r }),
            grows(old(self).log(), final(self).log()),
            forall|run: Log|
                #![trigger begins(final(self).log(), run)]
                begins(final(self).log(), run) ==> r == in8(old(self).log(), run),
    {
        let r: u8 = self.instance.read8(reg);
        proof {
            lemma_push(self.log@, Access::Read8 { reg, value: r });
            self.log@ = self.log@.push(Access::Read8 { reg, value: r });
        }
        r
    }

    /// Reads a half-word register.
    pub fn read16(&mut self, reg: Reg16) -> (r: u16)
        ensures
            final(self).log() == old(self).log().push(Access::Read16 { reg, value: r }),
            grows(old(self).log(), final(self).log()),
            forall|run: Log|
                #![trigger begins(final(self).log(), run)]
                begins(final(self).log(), run) ==> r == in16(old(self).log(), run),
    {
        let r: u16 = self.instance.read16(reg);
        proof {
            lemma_push(self.log@, Access::Read16 { reg, value: r });
            self.log@ = self.log@.push(Access::Read16 { reg, value: r });
        }
        r
    }

    /// Reads a word register.
    pub fn read32(&mut self, reg: Reg32) -> (r: u32)
        ensures
            final(self).log() == old(self).log().push(Access::Read32 { reg, value: r }),
            grows(old(self).log(), final(self).log()),
            forall|run: Log|
                #![trigger begins(final(self).log(), run)]
                begins(final(self).log(), run) ==> r == in32(old(self).log(), run),
    {
        let r: u32 = self.instance.read32(reg);
        proof {
            lemma_push(self.log@, Access::Read32 { reg, value: r });
            self.log@ = self.log@.push(Access::Read32 { reg, value: r });
        }
        r
    }

    /// Loads an interrupt enable mask as the interrupt handler sees it.
    pub fn load_shadow(&mut self, which: Shadow) -> (r: u16)
        ensures
            final(self).log() == old(self).log().push(Access::LoadShadow { which, value: r }),
            grows(old(self).log(), final(self).log()),
            forall|run: Log|
                #![trigger begins(final(self).log(), run)]
                begins(final(self).log(), run) ==> r == in_shadow(old(self).log(), run),
    {
        let r: u16 = self.instance.load_shadow(which);
        proof {
            lemma_push(self.log@, Access::LoadShadow { which, value: r });
            self.log@ = self.log@.push(Access::LoadShadow { which, value: r });
        }
        r
    }

    /// Loads the flag that says whether an event is latched.
    pub fn load_pending(&mut self) -> (r: bool)
        ensures
            final(self).log() == old(self).log().push(Access::LoadPending { value: r }),
            grows(old(self).log(), final(self).log()),
            forall|run: Log|
                #![trigger begins(final(self).log(), run)]
                begins(final(self).log(), run) ==> r == in_pending(old(self).log(), run),
    {
        let r: bool = self.instance.load_pending();
        proof {
            lemma_push(self.log@, Access::LoadPending { value: r });
            self.log@ = self.log@.push(Access::LoadPending { value: r });
        }
        r
    }

    /// Loads the latched event.
    pub fn load_latched(&mut self) -> (r: UsbIrqEvent)
        ensures
            final(self).log() == old(self).log().push(Access::LoadLatched { value: r }),
            grows(old(self).log(), final(self).log()),
            forall|run: Log|
                #![trigger begins(final(self).log(), run)]
                begins(final(self).log(), run) ==> r == in_latched(old(self).log(), run),
    {
        let r = self.instance.load_latched();
        proof {
            lemma_push(self.log@, Access::LoadLatched { value: r });
            self.log@ = self.log@.push(Access::LoadLatched { value: r });
        }
        r
    }

    /// Loads what the interrupt handler remembers between two interrupts.
    pub fn load_local(&mut self) -> (r: UsbIrqLocalState)
        ensures
            final(self).log() == old(self).log().push(Access::LoadLocal { value: r }),
            grows(old(self).log(), final(self).log()),
            forall|run: Log|
                #![trigger begins(final(self).log(), run)]
                begins(final(self).log(), run) ==> r == in_local(old(self).log(), run),
    {
        let r = self.instance.load_local();
        proof {
            lemma_push(self.log@, Access::LoadLocal { value: r });
            self.log@ = self.log@.push(Access::LoadLocal { value: r });
        }
        r
    }

    /// Writes a byte register.
    pub fn write8(&mut self, reg: Reg8, value: u8)
        ensures
            final(self).log() == old(self).log().push(Access::Write8 { reg, value }),
            grows(old(self).log(), final(self).log()),
    {
        self.instance.write8(reg, value);
        proof {
            lemma_push(self.log@, Access::Write8 { reg, value });
            self.log@ = self.log@.push(Access::Write8 { reg, value });
        }
    }

    /// Writes a half-word register.
    pub fn write16(&mut self, reg: Reg16, value: u16)
        ensures
            final(self).log() == old(self).log().push(Access::Write16 { reg, value }),
            grows(old(self).log(), final(self).log()),
    {
        self.instance.write16(reg, value);
        proof {
            lemma_push(self.log@, Access::Write16 { reg, value });
            self.log@ = self.log@.push(Access::Write16 { reg, value });
        }
    }

    /// Writes a word register.
    pub fn write32(&mut self, reg: Reg32, value: u32)
        ensures
            final(self).log() == old(self).log().push(Access::Write32 { reg, value }),
            grows(old(self).log(), final(self).log()),
    {
        self.instance.write32(reg, value);
        proof {
            lemma_push(self.log@, Access::Write32 { reg, value });
            self.log@ = self.log@.push(Access::Write32 { reg, value });
        }
    }

    /// Blocks until the bits of a byte register under `mask` equal `value`.
    pub fn wait8(&mut self, reg: Reg8, mask: u8, value: u8)
        ensures
            final(self).log() == old(self).log().push(Access::Wait8 { reg, mask, value }),
            grows(old(self).log(), final(self).log()),
    {
        self.instance.wait8(reg, mask, value);
        proof {
            lemma_push(self.log@, Access::Wait8 { reg, mask, value });
            self.log@ = self.log@.push(Access::Wait8 { reg, mask, value });
        }
    }

    /// Blocks until the bits of a half-word register under `mask` equal `value`.
    pub fn wait16(&mut self, reg: Reg16, mask: u16, value: u16)
        ensures
            final(self).log() == old(self).log().push(Access::Wait16 { reg, mask, value }),
            grows(old(self).log(), final(self).log()),
    {
        self.instance.wait16(reg, mask, value);
        proof {
            lemma_push(self.log@, Access::Wait16 { reg, mask, value });
            self.log@ = self.log@.push(Access::Wait16 { reg, mask, value });
        }
    }

    /// Busy-waits for at least `cycles` processor cycles.
    pub fn delay(&mut self, cycles: u32)
        ensures
            final(self).log() == old(self).log().push(Access::Delay { cycles }),
            grows(old(self).log(), final(self).log()),
    {
        self.instance.delay(cycles);
        proof {
            lemma_push(self.log@, Access::Delay { cycles });
            self.log@ = self.log@.push(Access::Delay { cycles });
        }
    }

    /// Passes a request to the interrupt controllers.
    pub fn irq(&mut self, op: IrqOp)
        ensures
            final(self).log() == old(self).log().push(Access::Irq { op }),
            grows(old(self).log(), final(self).log()),
    {
        self.instance.irq(op);
        proof {
            lemma_push(self.log@, Access::Irq { op });
            self.log@ = self.log@.push(Access::Irq { op });
        }
    }

    /// Enters a critical section.
    pub fn enter(&mut self)
        ensures
            final(self).log() == old(self).log().push(Access::Enter),
            grows(old(self).log(), final(self).log()),
    {
        self.instance.enter();
        proof {
            lemma_push(self.log@, Access::Enter);
            self.log@ = self.log@.push(Access::Enter);
        }
    }

    /// Leaves the critical section entered last.
    pub fn leave(&mut self)
        ensures
            final(self).log() == old(self).log().push(Access::Leave),
            grows(old(self).log(), final(self).log()),
    {
        self.instance.leave();
        proof {
            lemma_push(self.log@, Access::Leave);
            self.log@ = self.log@.push(Access::Leave);
        }
    }

    /// Publishes an interrupt enable mask to the interrupt handler.
    pub fn store_shadow(&mut self, which: Shadow, value: u16)
        ensures
            final(self).log() == old(self).log().push(Access::StoreShadow { which, value }),
            grows(old(self).log(), final(self).log()),
    {
        self.instance.store_shadow(which, value);
        proof {
            lemma_push(self.log@, Access::StoreShadow { which, value });
            self.log@ = self.log@.push(Access::StoreShadow { which, value });
        }
    }

    /// Stores the flag that says whether an event is latched.
    pub fn store_pending(&mut self, value: bool)
        ensures
            final(self).log() == old(self).log().push(Access::StorePending { value }),
            grows(old(self).log(), final(self).log()),
    {
        self.instance.store_pending(value);
        proof {
            lemma_push(self.log@, Access::StorePending { value });
            self.log@ = self.log@.push(Access::StorePending { value });
        }
    }

    /// Stores the latched event.
    pub fn store_latched(&mut self, value: UsbIrqEvent)
        ensures
            final(self).log() == old(self).log().push(Access::StoreLatched { value }),
            grows(old(self).log(), final(self).log()),
    {
        self.instance.store_latched(value);
        proof {
            lemma_push(self.log@, Access::StoreLatched { value });
            self.log@ = self.log@.push(Access::StoreLatched { value });
        }
    }

    /// Stores what the interrupt handler remembers between two interrupts.
    pub fn store_local(&mut self, value: UsbIrqLocalState)
        ensures
            final(self).log() == old(self).log().push(Access::StoreLocal { value }),
            grows(old(self).log(), final(self).log()),
    {
        self.instance.store_local(value);
        proof {
            lemma_push(self.log@, Access::StoreLocal { value });
            self.log@ = self.log@.push(Access::StoreLocal { value });
        }
    }
}

} // verus!
