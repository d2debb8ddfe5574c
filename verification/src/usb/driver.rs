//! The hardware-facing USBFS driver.

use core::marker::PhantomData;
use crate::clocks::{PRCR_LOCK, PRCR_UNLOCK};
use crate::mmio::{
    begins, grows, in16, in32, in_latched, in_local, in_pending, in_shadow, ld_latched, ld_local,
    ld_pending, ld_shadow, rd16, rd32, wr16, wr32, wr8, Access, Instance, InterruptEvent, IrqOp,
    Log, Mmio, Reg16, Reg32, Reg8, Shadow,
};
use crate::summary::{latch, lemma_summary_empty, lemma_summary_push, summary, Latch, Summary};
use crate::usb::regs::{
    bit, high_byte, law_half_word_round_trip, low_byte, to_le_bytes, BRDY_BEMP_MASK, USB_CS_RDDS,
    USB_CS_WRDS, USB_CS_WRND, USB_CTRT, USB_DCFM, USB_DPRPU, USB_DRPD, USB_DVSQ, USB_DVST,
    USB_MBW_16, USB_MBW_8, USB_RESM, USB_SCKE, USB_SOFR, USB_SQCLR, USB_USBE,
};
use crate::usb::types::{
    Bempsts, Brdysts, Error, Intsts0, Intsts1, Nrdysts, UsbIrqEvent, UsbIrqLocalState,
};
use vstd::prelude::*;

verus! {

broadcast use lemma_summary_push;

pub const FORCE_RESET_DELAY_CYCLES: u32 = 480_000;

/// Module stop bit of the USBFS.
pub const MSTPB11: u32 = 0x0800;

/// Pin function select value that hands a pin to the USBFS.
pub const USBFS_PIN: u32 = 0x1301_0000;

/// Interrupts that the driver enables: buffer empty, ready and not ready, VBUS, device state and
/// control transfer stage.
pub const INTENB0_VALUE: u16 = 0x9f00;

/// Flags of the interrupt status register 0 that an event keeps.
pub const CAPTURED_INTSTS0: u16 = USB_DVSQ | USB_RESM | USB_SOFR | USB_DVST | USB_CTRT;

/// Driver configuration.
#[derive(Clone, Copy, Debug, PartialEq, Eq, Structural)]
pub struct Config {
    /// Whether to leave and rejoin the bus when the driver starts.
    pub force_reset_on_init: bool,
}

impl Default for Config {
    fn default() -> (r: Self)
        ensures
            r.force_reset_on_init,
    {
        Config { force_reset_on_init: true }
    }
}

/// Driver of a USBFS peripheral.
pub struct Driver<I: Instance> {
    /// The peripheral.
    pub io: Mmio<I>,
    /// Whether the device shows itself to the host.
    pub attached: bool,
    /// Whether the interrupt was enabled.
    pub irq_enabled: bool,
    /// The configuration the driver was made with.
    pub config: Config,
}

/// Binds the interrupt of a USBFS peripheral to the driver.
pub struct InterruptHandler<I: Instance> {
    _phantom: PhantomData<I>,
}

/// `log` followed by what starts the clock of the USBFS.
#[verifier::opaque]
pub open spec fn init_usbfs_module_log(log: Log, run: Log) -> Log {
    let log1 = wr16(log, Reg16::Prcr, PRCR_UNLOCK);
    let log2 = rd32(log1, Reg32::Mstpcrb, run);
    let log3 = wr32(log2, Reg32::Mstpcrb, in32(log1, run) & !MSTPB11);
    wr16(log3, Reg16::Prcr, PRCR_LOCK)
}

/// `log` followed by what hands the USB pins to the USBFS.
#[verifier::opaque]
pub open spec fn configure_usbfs_pins_log(log: Log) -> Log {
    let log1 = wr8(log, Reg8::Pwpr, 0x00);
    let log2 = wr8(log1, Reg8::Pwpr, 0x40);
    let log3 = wr32(log2, Reg32::PmnPfs { port: 4, pin: 7 }, USBFS_PIN);
    let log4 = wr32(log3, Reg32::PmnPfs { port: 9, pin: 14 }, USBFS_PIN);
    let log5 = wr32(log4, Reg32::PmnPfs { port: 9, pin: 15 }, USBFS_PIN);
    wr8(log5, Reg8::Pwpr, 0x80)
}

/// `log` followed by what sets up the USBFS as a device that is not attached.
#[verifier::opaque]
pub open spec fn init_usbfs_registers_log(log: Log, run: Log) -> Log {
    let log1 = rd16(log, Reg16::Syscfg, run);
    let log2 = wr16(log1, Reg16::Syscfg, in16(log, run) | USB_SCKE);
    let log3 = log2.push(
        Access::Wait16 { reg: Reg16::Syscfg, mask: USB_SCKE, value: USB_SCKE },
    );
    let log4 = rd16(log3, Reg16::Syscfg, run);
    let log5 = wr16(
        log4,
        Reg16::Syscfg,
        (in16(log3, run) & !(USB_DCFM | USB_DRPD | USB_DPRPU)) | (USB_USBE | USB_SCKE),
    );
    let log6 = wr16(log5, Reg16::Cfifosel, USB_MBW_8);
    let log7 = wr16(log6, Reg16::D0fifosel, USB_MBW_16);
    let log8 = wr16(log7, Reg16::D1fifosel, USB_MBW_8);
    let log9 = wr16(log8, Reg16::Intsts0, 0);
    let log10 = wr16(log9, Reg16::Intenb0, INTENB0_VALUE);
    wr16(log10, Reg16::Intenb1, 0)
}

/// `log` followed by what shows the device to the host.
pub open spec fn attach_log(log: Log, run: Log) -> Log {
    wr16(rd16(log, Reg16::Syscfg, run), Reg16::Syscfg, in16(log, run) | USB_DPRPU)
}

/// `log` followed by what hides the device from the host.
pub open spec fn detach_log(log: Log, run: Log) -> Log {
    wr16(rd16(log, Reg16::Syscfg, run), Reg16::Syscfg, in16(log, run) & !USB_DPRPU)
}

/// `log` followed by what makes the host enumerate the device again.
#[verifier::opaque]
pub open spec fn force_reset_log(log: Log, run: Log) -> Log {
    let log1 = detach_log(log, run);
    let log2 = rd16(log1, Reg16::Syscfg, run);
    let log3 = wr16(log2, Reg16::Syscfg, in16(log1, run) & !(USB_DRPD | USB_DCFM));
    let log4 = wr16(log3, Reg16::Dcpcfg, 0);
    let log5 = rd16(log4, Reg16::Dcpmaxp, run);
    let log6 = wr16(log5, Reg16::Dcpmaxp, in16(log4, run));
    let log7 = wr16(log6, Reg16::Dcpctr, USB_SQCLR);
    let log8 = log7.push(Access::Delay { cycles: FORCE_RESET_DELAY_CYCLES });
    attach_log(log8, run).push(Access::Irq { op: IrqOp::Unpend })
}

/// `log` followed by the start of the driver, and whether the peripheral could be started. A
/// peripheral whose module stop bit stays set cannot.
pub open spec fn bring_up_log(log: Log, config: Config, run: Log) -> (Log, bool) {
    let log1 = init_usbfs_module_log(log, run);
    let log2 = rd32(log1, Reg32::Mstpcrb, run);
    if in32(log1, run) & MSTPB11 != 0 {
        (log2, false)
    } else {
        let log3 = init_usbfs_registers_log(configure_usbfs_pins_log(log2), run);
        if config.force_reset_on_init {
            (force_reset_log(log3, run), true)
        } else {
            (log3, true)
        }
    }
}

/// `log` followed by what hands the latched event over and leaves an empty one behind.
#[verifier::opaque]
pub open spec fn take_events_log(log: Log, run: Log) -> Log {
    let log1 = log.push(Access::StorePending { value: false });
    let log2 = log1.push(Access::Enter);
    let log3 = ld_latched(log2, run);
    let log4 = log3.push(Access::StoreLatched { value: UsbIrqEvent::none() });
    log4.push(Access::Leave)
}

/// The event that is handed over after `log`.
pub open spec fn taken_event(log: Log, run: Log) -> UsbIrqEvent {
    in_latched(log.push(Access::StorePending { value: false }).push(Access::Enter), run)
}

/// `log` followed by what drops the latched event and forgets the VALID flag.
#[verifier::opaque]
pub open spec fn clear_capture_state_log(log: Log, run: Log) -> Log {
    let log1 = log.push(Access::StorePending { value: false });
    let log2 = log1.push(Access::Enter);
    let log3 = log2.push(Access::StoreLatched { value: UsbIrqEvent::none() });
    let log4 = ld_local(log3, run);
    let log5 = log4.push(
        Access::StoreLocal {
            value: UsbIrqLocalState { capture_valid_latched: false, ..in_local(log3, run) },
        },
    );
    log5.push(Access::Leave)
}

/// Whether a control transfer stage starts with a SETUP packet: the data stage of a read or a
/// write, or the status stage of a write without data.
pub open spec fn follows_setup(ctsq: u16) -> bool {
    ctsq == USB_CS_RDDS || ctsq == USB_CS_WRDS || ctsq == USB_CS_WRND
}

/// A SETUP packet as the four registers that hold it.
pub open spec fn packed_setup(usbreq: u16, usbval: u16, usbindx: u16, usbleng: u16) -> [u8; 8] {
    [
        low_byte(usbreq),
        high_byte(usbreq),
        low_byte(usbval),
        high_byte(usbval),
        low_byte(usbindx),
        high_byte(usbindx),
        low_byte(usbleng),
        high_byte(usbleng),
    ]
}

/// `log` followed by what an interrupt handler looks at, and the event that it makes of it.
#[verifier::opaque]
pub open spec fn sample_log(log: Log, run: Log) -> (Log, UsbIrqEvent) {
    let log1 = log.push(Access::Enter);
    let local = in_local(log1, run);
    let log2 = ld_local(log1, run).push(Access::Leave);
    let seqno = local.capture_seqno.wrapping_add(1);

    let intsts0 = in16(log2, run);
    let log3 = rd16(log2, Reg16::Intsts0, run);
    let ists0 = intsts0 & in16(log3, run);
    let log4 = rd16(log3, Reg16::Intenb0, run);
    let intsts1 = in16(log4, run);
    let log5 = rd16(log4, Reg16::Intsts1, run);
    let ists1 = intsts1 & in16(log5, run);
    let log6 = rd16(log5, Reg16::Intenb1, run);

    let ctrt = Intsts0(ists0).ctrt();
    let ctsq = if ctrt {
        Intsts0(in16(log6, run)).ctsq()
    } else {
        0
    };
    let log7 = if ctrt {
        rd16(log6, Reg16::Intsts0, run)
    } else {
        log6
    };

    let valid_high = Intsts0(intsts0).valid();
    let valid_rising = valid_high && !local.capture_valid_latched;
    let log8 = log7.push(
        Access::StoreLocal {
            value: UsbIrqLocalState { capture_valid_latched: valid_high, capture_seqno: seqno },
        },
    );

    let setup_valid = valid_rising || follows_setup(ctsq);
    let log9 = rd16(log8, Reg16::Usbreq, run);
    let log10 = rd16(log9, Reg16::Usbval, run);
    let log11 = rd16(log10, Reg16::Usbindx, run);
    let log12 = if setup_valid {
        rd16(log11, Reg16::Usbleng, run)
    } else {
        log8
    };
    let setup_packet = if setup_valid {
        packed_setup(in16(log8, run), in16(log9, run), in16(log10, run), in16(log11, run))
    } else {
        [0u8, 0, 0, 0, 0, 0, 0, 0]
    };

    let log13 = rd16(log12, Reg16::Brdysts, run);
    let log14 = ld_shadow(log13, Shadow::Brdyenb, run);
    let log15 = rd16(log14, Reg16::Nrdysts, run);
    let log16 = ld_shadow(log15, Shadow::Nrdyenb, run);
    let log17 = rd16(log16, Reg16::Bempsts, run);
    let log18 = ld_shadow(log17, Shadow::Bempenb, run);
    let event = UsbIrqEvent {
        intsts0: Intsts0(ists0 & CAPTURED_INTSTS0),
        intsts1: Intsts1(ists1),
        ctrt_ctsq: ctsq,
        seqno,
        valid_high,
        valid_rising,
        brdysts: Brdysts((in16(log12, run) & in_shadow(log13, run)) & BRDY_BEMP_MASK),
        nrdysts: Nrdysts((in16(log14, run) & in_shadow(log15, run)) & BRDY_BEMP_MASK),
        bempsts: Bempsts((in16(log16, run) & in_shadow(log17, run)) & BRDY_BEMP_MASK),
        setup_valid,
        setup_packet,
    };
    (log18, event)
}

/// `log` followed by what latches an event: it is merged into the latched one and announced.
#[verifier::opaque]
pub open spec fn latch_log(log: Log, event: UsbIrqEvent, run: Log) -> Log {
    let log1 = log.push(Access::Enter);
    let latched = in_latched(log1, run);
    let log2 = ld_latched(log1, run);
    let log3 = log2.push(Access::StoreLatched { value: latched.merged(event) });
    let log4 = log3.push(Access::StorePending { value: true });
    log4.push(Access::Leave)
}

/// `log` followed by all that an interrupt handler does. An event that reports nothing is dropped.
pub open spec fn capture_log(log: Log, run: Log) -> Log {
    let (log1, event) = sample_log(log, run);
    if event.is_empty() {
        log1
    } else {
        latch_log(log1, event, run)
    }
}

/// `log` followed by the requests that enable the interrupt of the driver.
pub open spec fn enable_interrupts_log(log: Log) -> Log {
    let log1 = log.push(Access::Irq { op: IrqOp::Disable });
    let log2 = log1.push(Access::Irq { op: IrqOp::Link(InterruptEvent::UsbfsUsbi) });
    let log3 = log2.push(Access::Irq { op: IrqOp::Unpend });
    log3.push(Access::Irq { op: IrqOp::Enable })
}

impl<I: Instance> Driver<I> {
    /// All but the record of accesses is the same.
    pub open spec fn same_settings(&self, other: &Self) -> bool {
        &&& self.attached == other.attached
        &&& self.irq_enabled == other.irq_enabled
        &&& self.config == other.config
    }

    /// Starts a peripheral with [`bring_up`].
    ///
    /// Fails, always with [`Error::Busy`], where the peripheral does not start.
    pub fn new(instance: I, config: Config) -> (r: Result<Self, Error>)
        ensures
            match r {
                Ok(driver) => {
                    &&& driver.attached == config.force_reset_on_init
                    &&& !driver.irq_enabled
                    &&& driver.config == config
                    &&& summary(driver.io.log()) == (Summary {
                        prcr: PRCR_LOCK,
                        ..Summary::start()
                    })
                    &&& forall|run: Log|
                        #![trigger begins(driver.io.log(), run)]
                        begins(driver.io.log(), run) ==> (driver.io.log(), true) == bring_up_log(
                            Seq::empty(),
                            config,
                            run,
                        )
                },
                Err(error) => error == Error::Busy,
            },
    {
        proof {
            lemma_summary_empty();
        }
        let mut io = Mmio::new(instance);
        match bring_up(&mut io, config) {
            Ok(attached) => Ok(Driver { io, attached, irq_enabled: false, config }),
            Err(error) => Err(error),
        }
    }

    /// Enables the interrupt of the driver. Does nothing from the second call on.
    pub fn enable_interrupts(&mut self)
        ensures
            grows(old(self).io.log(), final(self).io.log()),
            summary(final(self).io.log()) == summary(old(self).io.log()),
            final(self).io.log() == if old(self).irq_enabled {
                old(self).io.log()
            } else {
                enable_interrupts_log(old(self).io.log())
            },
            final(self).irq_enabled,
            final(self).attached == old(self).attached,
            final(self).config == old(self).config,
    {
        if self.irq_enabled {
            return ;
        }
        self.io.irq(IrqOp::Disable);
        self.io.irq(IrqOp::Link(InterruptEvent::UsbfsUsbi));
        self.io.irq(IrqOp::Unpend);
        self.io.irq(IrqOp::Enable);
        self.irq_enabled = true;
    }

    /// Shows the device to the host.
    pub fn attach(&mut self)
        ensures
            grows(old(self).io.log(), final(self).io.log()),
            summary(final(self).io.log()) == summary(old(self).io.log()),
            forall|run: Log|
                #![trigger begins(final(self).io.log(), run)]
                begins(final(self).io.log(), run) ==> final(self).io.log() == attach_log(
                    old(self).io.log(),
                    run,
                ),
            final(self).attached,
            final(self).irq_enabled == old(self).irq_enabled,
            final(self).config == old(self).config,
    {
        pull_up(&mut self.io);
        self.attached = true;
    }

    /// Hides the device from the host.
    pub fn detach(&mut self)
        ensures
            grows(old(self).io.log(), final(self).io.log()),
            summary(final(self).io.log()) == summary(old(self).io.log()),
            forall|run: Log|
                #![trigger begins(final(self).io.log(), run)]
                begins(final(self).io.log(), run) ==> final(self).io.log() == detach_log(
                    old(self).io.log(),
                    run,
                ),
            !final(self).attached,
            final(self).irq_enabled == old(self).irq_enabled,
            final(self).config == old(self).config,
    {
        let syscfg: u16 = self.io.read16(Reg16::Syscfg);
        self.io.write16(Reg16::Syscfg, syscfg & !USB_DPRPU);
        self.attached = false;
    }

    /// Leaves the bus and joins it again, so that the host enumerates the device anew.
    pub fn force_reset(&mut self) -> (r: Result<(), Error>)
        ensures
            r == Ok::<(), Error>(()),
            grows(old(self).io.log(), final(self).io.log()),
            summary(final(self).io.log()) == summary(old(self).io.log()),
            forall|run: Log|
                #![trigger begins(final(self).io.log(), run)]
                begins(final(self).io.log(), run) ==> final(self).io.log() == force_reset_log(
                    old(self).io.log(),
                    run,
                ),
            final(self).attached,
            final(self).irq_enabled == old(self).irq_enabled,
            final(self).config == old(self).config,
    {
        rejoin(&mut self.io);
        self.attached = true;
        Ok(())
    }

    /// Handles an interrupt of the peripheral.
    pub fn on_interrupt(&mut self)
        ensures
            grows(old(self).io.log(), final(self).io.log()),
            summary(old(self).io.log()).depth >= 0 ==> summary(final(self).io.log()) == (Summary {
                latch: latch(final(self).io.log()),
                ..summary(old(self).io.log())
            }),
            forall|run: Log|
                #![trigger begins(final(self).io.log(), run)]
                begins(final(self).io.log(), run) ==> final(self).io.log() == capture_log(
                    old(self).io.log(),
                    run,
                ).push(Access::Irq { op: IrqOp::Unpend }),
            final(self).attached == old(self).attached,
            final(self).irq_enabled == old(self).irq_enabled,
            final(self).config == old(self).config,
    {
        capture_irq_event(&mut self.io);
        self.io.irq(IrqOp::Unpend);
    }

    /// Takes the latched event.
    pub fn take_events(&mut self) -> (r: UsbIrqEvent)
        ensures
            grows(old(self).io.log(), final(self).io.log()),
            summary(old(self).io.log()).depth >= 0 ==> summary(final(self).io.log()) == (Summary {
                latch: latch(final(self).io.log()),
                ..summary(old(self).io.log())
            }),
            forall|run: Log|
                #![trigger begins(final(self).io.log(), run)]
                begins(final(self).io.log(), run) ==> {
                    &&& final(self).io.log() == take_events_log(old(self).io.log(), run)
                    &&& r == taken_event(old(self).io.log(), run)
                },
            latch(final(self).io.log()).event == UsbIrqEvent::none(),
            !latch(final(self).io.log()).pending,
            latch(final(self).io.log()).faithful ==> latch(old(self).io.log()).faithful && r
                == latch(old(self).io.log()).event,
            final(self).attached == old(self).attached,
            final(self).irq_enabled == old(self).irq_enabled,
            final(self).config == old(self).config,
    {
        proof {
            reveal(take_events_log);
        }
        self.io.store_pending(false);
        self.io.enter();
        let event = self.io.load_latched();
        self.io.store_latched(UsbIrqEvent::default());
        self.io.leave();
        event
    }

    /// Whether an event is latched.
    pub fn irq_pending(&mut self) -> (r: bool)
        ensures
            grows(old(self).io.log(), final(self).io.log()),
            summary(final(self).io.log()) == (Summary {
                latch: latch(final(self).io.log()),
                ..summary(old(self).io.log())
            }),
            latch(final(self).io.log()) == (Latch {
                faithful: latch(old(self).io.log()).faithful && r == latch(
                    old(self).io.log(),
                ).pending,
                ..latch(old(self).io.log())
            }),
            forall|run: Log|
                #![trigger begins(final(self).io.log(), run)]
                begins(final(self).io.log(), run) ==> {
                    &&& final(self).io.log() == ld_pending(old(self).io.log(), run)
                    &&& r == in_pending(old(self).io.log(), run)
                },
            final(self).attached == old(self).attached,
            final(self).irq_enabled == old(self).irq_enabled,
            final(self).config == old(self).config,
    {
        self.io.load_pending()
    }

    /// Whether the device shows itself to the host.
    pub fn is_attached(&self) -> (r: bool)
        ensures
            r == self.attached,
    {
        self.attached
    }

    /// Handles an interrupt of the peripheral without a driver at hand.
    pub fn on_interrupt_static(io: &mut Mmio<I>)
        ensures
            grows(old(io).log(), final(io).log()),
            summary(old(io).log()).depth >= 0 ==> summary(final(io).log()) == (Summary {
                latch: latch(final(io).log()),
                ..summary(old(io).log())
            }),
            forall|run: Log|
                #![trigger begins(final(io).log(), run)]
                begins(final(io).log(), run) ==> final(io).log() == capture_log(
                    old(io).log(),
                    run,
                ).push(Access::Irq { op: IrqOp::Unpend }),
    {
        capture_irq_event(io);
        io.irq(IrqOp::Unpend);
    }

    /// Drops the latched event and forgets the VALID flag.
    pub fn clear_capture_state_static(io: &mut Mmio<I>)
        ensures
            grows(old(io).log(), final(io).log()),
            summary(old(io).log()).depth >= 0 ==> summary(final(io).log()) == (Summary {
                latch: latch(final(io).log()),
                ..summary(old(io).log())
            }),
            latch(final(io).log()) == (Latch {
                event: UsbIrqEvent::none(),
                pending: false,
                ..latch(old(io).log())
            }),
            forall|run: Log|
                #![trigger begins(final(io).log(), run)]
                begins(final(io).log(), run) ==> final(io).log() == clear_capture_state_log(
                    old(io).log(),
                    run,
                ),
    {
        proof {
            reveal(clear_capture_state_log);
        }
        io.store_pending(false);
        io.enter();
        io.store_latched(UsbIrqEvent::default());
        let mut local = io.load_local();
        local.capture_valid_latched = false;
        io.store_local(local);
        io.leave();
    }
}

impl<I: Instance> InterruptHandler<I> {
    /// The only handler of its type.
    pub closed spec fn the_handler() -> Self {
        InterruptHandler { _phantom: PhantomData }
    }

    /// Makes a handler.
    pub fn new() -> (r: Self)
        ensures
            r == Self::the_handler(),
    {
        InterruptHandler { _phantom: PhantomData }
    }

    /// Handles an interrupt of the peripheral.
    pub fn on_interrupt(io: &mut Mmio<I>)
        ensures
            grows(old(io).log(), final(io).log()),
            summary(old(io).log()).depth >= 0 ==> summary(final(io).log()) == (Summary {
                latch: latch(final(io).log()),
                ..summary(old(io).log())
            }),
            forall|run: Log|
                #![trigger begins(final(io).log(), run)]
                begins(final(io).log(), run) ==> final(io).log() == capture_log(
                    old(io).log(),
                    run,
                ).push(Access::Irq { op: IrqOp::Unpend }),
    {
        Driver::<I>::on_interrupt_static(io);
    }
}

/// Switches the pull-up on, which shows the device to the host.
fn pull_up<I: Instance>(io: &mut Mmio<I>)
    ensures
        grows(old(io).log(), final(io).log()),
        summary(final(io).log()) == summary(old(io).log()),
        forall|run: Log|
            #![trigger begins(final(io).log(), run)]
            begins(final(io).log(), run) ==> final(io).log() == attach_log(old(io).log(), run),
{
    let syscfg: u16 = io.read16(Reg16::Syscfg);
    io.write16(Reg16::Syscfg, syscfg | USB_DPRPU);
}

/// Leaves the bus and joins it again.
fn rejoin<I: Instance>(io: &mut Mmio<I>)
    ensures
        grows(old(io).log(), final(io).log()),
        summary(final(io).log()) == summary(old(io).log()),
        forall|run: Log|
            #![trigger begins(final(io).log(), run)]
            begins(final(io).log(), run) ==> final(io).log() == force_reset_log(
                old(io).log(),
                run,
            ),
{
    proof {
        reveal(force_reset_log);
    }
    let syscfg: u16 = io.read16(Reg16::Syscfg);
    io.write16(Reg16::Syscfg, syscfg & !USB_DPRPU);

    let syscfg: u16 = io.read16(Reg16::Syscfg);
    io.write16(Reg16::Syscfg, syscfg & !(USB_DRPD | USB_DCFM));

    io.write16(Reg16::Dcpcfg, 0);
    let dcpmaxp: u16 = io.read16(Reg16::Dcpmaxp);
    io.write16(Reg16::Dcpmaxp, dcpmaxp);
    io.write16(Reg16::Dcpctr, USB_SQCLR);

    io.delay(FORCE_RESET_DELAY_CYCLES);
    pull_up(io);
    io.irq(IrqOp::Unpend);
}

/// Starts the USBFS. Returns whether the device shows itself to the host then.
///
/// Fails with [`Error::Busy`] exactly if the peripheral still reads as stopped after its clock was
/// requested. Neither a pin nor a register of the USBFS is touched in that case.
pub fn bring_up<I: Instance>(io: &mut Mmio<I>, config: Config) -> (r: Result<bool, Error>)
    ensures
        grows(old(io).log(), final(io).log()),
        summary(final(io).log()) == (Summary { prcr: PRCR_LOCK, ..summary(old(io).log()) }),
        r is Ok ==> r == Ok::<bool, Error>(config.force_reset_on_init),
        r is Err ==> r == Err::<bool, Error>(Error::Busy),
        forall|run: Log|
            #![trigger begins(final(io).log(), run)]
            begins(final(io).log(), run) ==> (final(io).log(), r is Ok) == bring_up_log(
                old(io).log(),
                config,
                run,
            ),
{
    init_usbfs_module(io);
    if usbfs_module_stopped(io) {
        return Err(Error::Busy);
    }
    configure_usbfs_pins(io);
    init_usbfs_registers(io);
    if config.force_reset_on_init {
        rejoin(io);
    }
    Ok(config.force_reset_on_init)
}

/// Starts the clock of the USBFS.
pub fn init_usbfs_module<I: Instance>(io: &mut Mmio<I>)
    ensures
        grows(old(io).log(), final(io).log()),
        summary(final(io).log()) == (Summary { prcr: PRCR_LOCK, ..summary(old(io).log()) }),
        forall|run: Log|
            #![trigger begins(final(io).log(), run)]
            begins(final(io).log(), run) ==> final(io).log() == init_usbfs_module_log(
                old(io).log(),
                run,
            ),
{
    proof {
        reveal(init_usbfs_module_log);
    }
    io.write16(Reg16::Prcr, PRCR_UNLOCK);
    let mstpcrb: u32 = io.read32(Reg32::Mstpcrb);
    io.write32(Reg32::Mstpcrb, mstpcrb & !MSTPB11);
    io.write16(Reg16::Prcr, PRCR_LOCK);
}

/// Whether the USBFS is stopped.
pub fn usbfs_module_stopped<I: Instance>(io: &mut Mmio<I>) -> (r: bool)
    ensures
        grows(old(io).log(), final(io).log()),
        summary(final(io).log()) == summary(old(io).log()),
        forall|run: Log|
            #![trigger begins(final(io).log(), run)]
            begins(final(io).log(), run) ==> {
                &&& final(io).log() == rd32(old(io).log(), Reg32::Mstpcrb, run)
                &&& r == (in32(old(io).log(), run) & MSTPB11 != 0)
            },
{
    io.read32(Reg32::Mstpcrb) & MSTPB11 != 0
}

/// Hands the USB pins to the USBFS.
pub fn configure_usbfs_pins<I: Instance>(io: &mut Mmio<I>)
    ensures
        grows(old(io).log(), final(io).log()),
        summary(final(io).log()) == summary(old(io).log()),
        final(io).log() == configure_usbfs_pins_log(old(io).log()),
{
    proof {
        reveal(configure_usbfs_pins_log);
    }
    io.write8(Reg8::Pwpr, 0x00);
    io.write8(Reg8::Pwpr, 0x40);
    io.write32(Reg32::PmnPfs { port: 4, pin: 7 }, USBFS_PIN);
    io.write32(Reg32::PmnPfs { port: 9, pin: 14 }, USBFS_PIN);
    io.write32(Reg32::PmnPfs { port: 9, pin: 15 }, USBFS_PIN);
    io.write8(Reg8::Pwpr, 0x80);
}

/// Captures what caused an interrupt and merges it into the latched event.
pub fn capture_irq_event<I: Instance>(io: &mut Mmio<I>)
    ensures
        grows(old(io).log(), final(io).log()),
        summary(old(io).log()).depth >= 0 ==> summary(final(io).log()) == (Summary {
            latch: latch(final(io).log()),
            ..summary(old(io).log())
        }),
        forall|run: Log|
            #![trigger begins(final(io).log(), run)]
            begins(final(io).log(), run) ==> final(io).log() == capture_log(old(io).log(), run),
{
    proof {
        reveal(sample_log);
        reveal(latch_log);
    }
    io.enter();
    let mut local = io.load_local();
    io.leave();
    local.capture_seqno = local.capture_seqno.wrapping_add(1);

    let intsts0 = Intsts0(io.read16(Reg16::Intsts0));
    let intenb0: u16 = io.read16(Reg16::Intenb0);
    let ists0 = Intsts0(intsts0.0 & intenb0);
    let intsts1: u16 = io.read16(Reg16::Intsts1);
    let intenb1: u16 = io.read16(Reg16::Intenb1);
    let ists1 = Intsts1(intsts1 & intenb1);

    let ctrt_ctsq: u16 = if ists0.ctrt() {
        Intsts0(io.read16(Reg16::Intsts0)).ctsq()
    } else {
        0
    };

    let valid_high = intsts0.valid();
    let valid_rising = if valid_high {
        if local.capture_valid_latched {
            false
        } else {
            local.capture_valid_latched = true;
            true
        }
    } else {
        local.capture_valid_latched = false;
        false
    };
    io.store_local(local);

    let capture_setup = valid_rising || ctrt_ctsq == USB_CS_RDDS || ctrt_ctsq == USB_CS_WRDS
        || ctrt_ctsq == USB_CS_WRND;
    let setup_packet = if capture_setup {
        let usbreq = to_le_bytes(io.read16(Reg16::Usbreq));
        let usbval = to_le_bytes(io.read16(Reg16::Usbval));
        let usbindx = to_le_bytes(io.read16(Reg16::Usbindx));
        let usbleng = to_le_bytes(io.read16(Reg16::Usbleng));
        [usbreq.0, usbreq.1, usbval.0, usbval.1, usbindx.0, usbindx.1, usbleng.0, usbleng.1]
    } else {
        [0u8, 0, 0, 0, 0, 0, 0, 0]
    };

    let brdysts: u16 = io.read16(Reg16::Brdysts);
    let brdyenb: u16 = io.load_shadow(Shadow::Brdyenb);
    let nrdysts: u16 = io.read16(Reg16::Nrdysts);
    let nrdyenb: u16 = io.load_shadow(Shadow::Nrdyenb);
    let bempsts: u16 = io.read16(Reg16::Bempsts);
    let bempenb: u16 = io.load_shadow(Shadow::Bempenb);

    let event = UsbIrqEvent {
        intsts0: Intsts0(ists0.0 & CAPTURED_INTSTS0),
        intsts1: ists1,
        ctrt_ctsq,
        seqno: local.capture_seqno,
        valid_high,
        valid_rising,
        brdysts: Brdysts((brdysts & brdyenb) & BRDY_BEMP_MASK),
        nrdysts: Nrdysts((nrdysts & nrdyenb) & BRDY_BEMP_MASK),
        bempsts: Bempsts((bempsts & bempenb) & BRDY_BEMP_MASK),
        setup_valid: capture_setup,
        setup_packet,
    };

    if event.is_empty() {
        return ;
    }
    io.enter();
    let mut slot = io.load_latched();
    slot.merge_from(event);
    io.store_latched(slot);
    io.store_pending(true);
    io.leave();
}

/// Sets up the USBFS as a device that is not attached.
pub fn init_usbfs_registers<I: Instance>(io: &mut Mmio<I>)
    ensures
        grows(old(io).log(), final(io).log()),
        summary(final(io).log()) == summary(old(io).log()),
        forall|run: Log|
            #![trigger begins(final(io).log(), run)]
            begins(final(io).log(), run) ==> final(io).log() == init_usbfs_registers_log(
                old(io).log(),
                run,
            ),
{
    proof {
        reveal(init_usbfs_registers_log);
    }
    let syscfg: u16 = io.read16(Reg16::Syscfg);
    io.write16(Reg16::Syscfg, syscfg | USB_SCKE);
    io.wait16(Reg16::Syscfg, USB_SCKE, USB_SCKE);

    let syscfg: u16 = io.read16(Reg16::Syscfg);
    io.write16(
        Reg16::Syscfg,
        (syscfg & !(USB_DCFM | USB_DRPD | USB_DPRPU)) | (USB_USBE | USB_SCKE),
    );

    io.write16(Reg16::Cfifosel, USB_MBW_8);
    io.write16(Reg16::D0fifosel, USB_MBW_16);
    io.write16(Reg16::D1fifosel, USB_MBW_8);
    io.write16(Reg16::Intsts0, 0);
    io.write16(Reg16::Intenb0, INTENB0_VALUE);
    io.write16(Reg16::Intenb1, 0);
}

/// The bytes of a captured SETUP packet are those of the four registers in little-endian order.
pub proof fn law_packed_setup_is_little_endian(
    usbreq: u16,
    usbval: u16,
    usbindx: u16,
    usbleng: u16,
)
    ensures
        ({
            let packet = packed_setup(usbreq, usbval, usbindx, usbleng)@;
            &&& packet[0] + 256 * packet[1] == usbreq
            &&& packet[2] + 256 * packet[3] == usbval
            &&& packet[4] + 256 * packet[5] == usbindx
            &&& packet[6] + 256 * packet[7] == usbleng
        }),
{
    law_half_word_round_trip(usbreq);
    law_half_word_round_trip(usbval);
    law_half_word_round_trip(usbindx);
    law_half_word_round_trip(usbleng);
}

/// A captured status mask reports a pipe if and only if the pipe raised its flag, its interrupt is
/// enabled and it is one of the ten pipes.
pub proof fn law_captured_status_is_enabled(status: u16, enabled: u16, pipe: int)
    requires
        0 <= pipe < 16,
    ensures
        (status & enabled) & BRDY_BEMP_MASK & bit(pipe) != 0 <==> status & bit(pipe) != 0 && enabled
            & bit(pipe) != 0 && pipe < 10,
{
    let p = pipe as u16;
    assert((status & enabled) & 0x03ffu16 & (1u16 << p) != 0 <==> status & (1u16 << p) != 0
        && enabled & (1u16 << p) != 0 && p < 10) by (bit_vector)
        requires
            p < 16,
    ;
}

/// A SETUP packet is captured on a rising edge of the VALID flag, that is, at the first interrupt
/// that finds the flag high after one that found it low or after a bus reset, and at the start of
/// every stage that follows a SETUP packet. Every other interrupt captures none.
pub proof fn law_setup_capture(log: Log, run: Log)
    ensures
        ({
            let event = sample_log(log, run).1;
            let local = in_local(log.push(Access::Enter), run);
            &&& event.valid_rising <==> event.valid_high && !local.capture_valid_latched
            &&& event.setup_valid <==> event.valid_rising || follows_setup(event.ctrt_ctsq)
            &&& event.seqno == local.capture_seqno.wrapping_add(1)
        }),
{
    reveal(sample_log);
}

} // verus!
