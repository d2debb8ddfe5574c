//! What starting the driver and joining the bus do to the chip.

use crate::mmio::{Access, InterruptEvent, IrqOp, Log, Reg16, Reg32, Reg8};
use crate::trace::{
    lemma_read16_push, lemma_seen_push, lemma_written16_push, read16, seen, written16,
};
use crate::usb::captured::memory_accesses;
use crate::usb::driver::{
    attach_log, bring_up_log, clear_capture_state_log, configure_usbfs_pins_log, detach_log,
    enable_interrupts_log, force_reset_log, init_usbfs_module_log, init_usbfs_registers_log, Config,
};
use vstd::prelude::*;

verus! {

/// What concerns the module stop bit and its protection.
pub open spec fn module_traffic() -> spec_fn(Access) -> bool {
    |access: Access|
        match access {
            Access::Write16 { reg, .. } => reg == Reg16::Prcr,
            Access::Read32 { reg, .. } | Access::Write32 { reg, .. } => reg == Reg32::Mstpcrb,
            _ => false,
        }
}

/// What concerns the pins and their protection.
pub open spec fn pin_traffic() -> spec_fn(Access) -> bool {
    |access: Access|
        match access {
            Access::Write8 { reg, .. } => reg == Reg8::Pwpr,
            Access::Write32 { reg, .. } => reg is PmnPfs,
            _ => false,
        }
}

/// What concerns the connection to the host.
pub open spec fn line_traffic() -> spec_fn(Access) -> bool {
    |access: Access|
        match access {
            Access::Write16 { reg, .. } => reg == Reg16::Syscfg,
            Access::Wait16 { .. } | Access::Delay { .. } | Access::Irq { .. } => true,
            _ => false,
        }
}

/// The start clears the module stop bit, which is bit 11, and no other, with the protection lifted
/// for that alone, and succeeds if and only if the bit then reads as clear. If it does not, nothing
/// else is touched. If it does, the three USB pins are handed over with their protection lifted for
/// that alone.
#[verifier::rlimit(60)]
pub proof fn law_bring_up_starts_the_module(log: Log, config: Config, run: Log)
    ensures
        ({
            let (after, started) = bring_up_log(log, config, run);
            let module = seen(after, module_traffic()).skip(
                seen(log, module_traffic()).len() as int,
            );
            let pins = seen(after, pin_traffic()).skip(seen(log, pin_traffic()).len() as int);
            let line = seen(after, line_traffic()).skip(seen(log, line_traffic()).len() as int);
            &&& module.len() == 5
            &&& module[0] == (Access::Write16 { reg: Reg16::Prcr, value: 0xA503 })
            &&& module[1] is Read32
            &&& module[2] == (Access::Write32 {
                reg: Reg32::Mstpcrb,
                value: module[1]->Read32_value & 0xffff_f7ff,
            })
            &&& module[3] == (Access::Write16 { reg: Reg16::Prcr, value: 0xA500 })
            &&& module[4] is Read32
            &&& started <==> module[4]->Read32_value & 0x0800 == 0
            &&& !started ==> pins.len() == 0 && line.len() == 0 && after.len() == log.len() + 5
            &&& started ==> pins == seq![
                Access::Write8 { reg: Reg8::Pwpr, value: 0x00 },
                Access::Write8 { reg: Reg8::Pwpr, value: 0x40 },
                Access::Write32 { reg: Reg32::PmnPfs { port: 4, pin: 7 }, value: 0x1301_0000 },
                Access::Write32 { reg: Reg32::PmnPfs { port: 9, pin: 14 }, value: 0x1301_0000 },
                Access::Write32 { reg: Reg32::PmnPfs { port: 9, pin: 15 }, value: 0x1301_0000 },
                Access::Write8 { reg: Reg8::Pwpr, value: 0x80 },
            ]
        }),
{
    broadcast use lemma_seen_push;

    reveal(init_usbfs_module_log);
    reveal(configure_usbfs_pins_log);
    reveal(init_usbfs_registers_log);
    reveal(force_reset_log);
    assert(!0x0800u32 == 0xffff_f7ffu32) by (bit_vector);
    let (after, started) = bring_up_log(log, config, run);
    let pins = seen(after, pin_traffic()).skip(seen(log, pin_traffic()).len() as int);
    if started {
        assert(pins =~= seq![
            Access::Write8 { reg: Reg8::Pwpr, value: 0x00 },
            Access::Write8 { reg: Reg8::Pwpr, value: 0x40 },
            Access::Write32 { reg: Reg32::PmnPfs { port: 4, pin: 7 }, value: 0x1301_0000 },
            Access::Write32 { reg: Reg32::PmnPfs { port: 9, pin: 14 }, value: 0x1301_0000 },
            Access::Write32 { reg: Reg32::PmnPfs { port: 9, pin: 15 }, value: 0x1301_0000 },
            Access::Write8 { reg: Reg8::Pwpr, value: 0x80 },
        ]);
    }
}

/// What is left of the system configuration by a start that does not force a reset: the clock, bit
/// 10, is switched on and waited for first, then operation, bit 0, is switched on, with the pull-
/// up, bit 4, the pull-downs, bit 5, and the host function, bit 6, off. The interrupts of interest
/// are enabled, with no flag of the device left over.
pub proof fn law_bring_up_leaves_a_device(log: Log, config: Config, run: Log)
    requires
        bring_up_log(log, config, run).1,
        !config.force_reset_on_init,
    ensures
        ({
            let after = bring_up_log(log, config, run).0;
            let line = seen(after, line_traffic()).skip(seen(log, line_traffic()).len() as int);
            &&& line.len() == 3
            &&& line[0] is Write16 && line[0]->Write16_value & 0x0400 != 0
            &&& line[1] == (Access::Wait16 { reg: Reg16::Syscfg, mask: 0x0400, value: 0x0400 })
            &&& line[2] is Write16 && line[2]->Write16_value & 0x0471 == 0x0401
            &&& line[2]->Write16_value & !0x0471u16 == read16(after, Reg16::Syscfg).last()
                & !0x0471u16
            &&& written16(after, Reg16::Intsts0) == written16(log, Reg16::Intsts0).push(0)
            &&& written16(after, Reg16::Intenb0) == written16(log, Reg16::Intenb0).push(0x9f00)
            &&& written16(after, Reg16::Intenb1) == written16(log, Reg16::Intenb1).push(0)
            &&& written16(after, Reg16::Cfifosel) == written16(log, Reg16::Cfifosel).push(0)
            &&& written16(after, Reg16::D0fifosel) == written16(log, Reg16::D0fifosel).push(0x0400)
            &&& written16(after, Reg16::D1fifosel) == written16(log, Reg16::D1fifosel).push(0)
        }),
{
    broadcast use {lemma_seen_push, lemma_written16_push, lemma_read16_push};

    reveal(init_usbfs_module_log);
    reveal(configure_usbfs_pins_log);
    reveal(init_usbfs_registers_log);
    assert forall|x: u16| (#[trigger] (x | 0x0400u16)) & 0x0400 != 0 by {
        lemma_line_flags(x);
    }
    assert forall|x: u16| {
        let v = (#[trigger] (x & !(0x0040u16 | 0x0020u16 | 0x0010u16))) | (0x0001u16 | 0x0400u16);
        v & 0x0471 == 0x0401 && v & !0x0471u16 == x & !0x0471u16
    } by {
        lemma_line_flags(x);
    }
}

/// What switching flags of the system configuration does.
proof fn lemma_line_flags(x: u16)
    ensures
        (x | 0x0400u16) & 0x0400 != 0,
        ({
            let v = (x & !(0x0040u16 | 0x0020u16 | 0x0010u16)) | (0x0001u16 | 0x0400u16);
            v & 0x0471 == 0x0401 && v & !0x0471u16 == x & !0x0471u16
        }),
        (x | 0x0010u16) & 0x0010 != 0,
        (x | 0x0010u16) & !0x0010u16 == x & !0x0010u16,
        (x & !0x0010u16) & 0x0010 == 0,
        (x & !0x0010u16) & !0x0010u16 == x & !0x0010u16,
        (x & !(0x0020u16 | 0x0040u16)) & 0x0060 == 0,
        (x & !(0x0020u16 | 0x0040u16)) & !0x0060u16 == x & !0x0060u16,
{
    assert({
        let v = (x & !(0x0040u16 | 0x0020u16 | 0x0010u16)) | (0x0001u16 | 0x0400u16);
        &&& (x | 0x0400u16) & 0x0400 != 0
        &&& v & 0x0471 == 0x0401 && v & !0x0471u16 == x & !0x0471u16
        &&& (x | 0x0010u16) & 0x0010 != 0 && (x | 0x0010u16) & !0x0010u16 == x & !0x0010u16
        &&& (x & !0x0010u16) & 0x0010 == 0 && (x & !0x0010u16) & !0x0010u16 == x & !0x0010u16
        &&& (x & !(0x0020u16 | 0x0040u16)) & 0x0060 == 0
        &&& (x & !(0x0020u16 | 0x0040u16)) & !0x0060u16 == x & !0x0060u16
    }) by (bit_vector);
}

/// Attaching switches the pull-up on, which is bit 4 of the system configuration, detaching
/// switches it off, and neither touches any other bit or any other register.
pub proof fn law_attach_switches_the_pull_up(log: Log, run: Log)
    ensures
        ({
            let after = attach_log(log, run);
            let value = written16(after, Reg16::Syscfg).last();
            let read = read16(after, Reg16::Syscfg).last();
            &&& after.len() == log.len() + 2
            &&& written16(after, Reg16::Syscfg).len() == written16(log, Reg16::Syscfg).len() + 1
            &&& value & 0x0010 != 0
            &&& value & !0x0010u16 == read & !0x0010u16
        }),
        ({
            let after = detach_log(log, run);
            let value = written16(after, Reg16::Syscfg).last();
            let read = read16(after, Reg16::Syscfg).last();
            &&& after.len() == log.len() + 2
            &&& written16(after, Reg16::Syscfg).len() == written16(log, Reg16::Syscfg).len() + 1
            &&& value & 0x0010 == 0
            &&& value & !0x0010u16 == read & !0x0010u16
        }),
{
    broadcast use {lemma_written16_push, lemma_read16_push};

    assert forall|x: u16| (#[trigger] (x | 0x0010u16)) & 0x0010 != 0 && (x | 0x0010u16) & !0x0010u16
        == x & !0x0010u16 by {
        lemma_line_flags(x);
    }
    assert forall|x: u16| (#[trigger] (x & !0x0010u16)) & 0x0010 == 0 && (x & !0x0010u16)
        & !0x0010u16 == x & !0x0010u16 by {
        lemma_line_flags(x);
    }
}

/// A forced reset switches the pull-up off, then the host function and the pull-downs, keeps the
/// device away for at least 480000 cycles, switches the pull-up on again and drops a pending
/// interrupt. The control pipe keeps its packet size and has its data toggle reset, which is bit 8.
pub proof fn law_forced_reset_leaves_and_joins(log: Log, run: Log)
    ensures
        ({
            let after = force_reset_log(log, run);
            let line = seen(after, line_traffic()).skip(seen(log, line_traffic()).len() as int);
            &&& line.len() == 5
            &&& line[0] is Write16 && line[0]->Write16_value & 0x0010 == 0
            &&& line[1] is Write16 && line[1]->Write16_value & 0x0060 == 0
            &&& line[2] == (Access::Delay { cycles: 480_000 })
            &&& line[3] is Write16 && line[3]->Write16_value & 0x0010 != 0
            &&& line[4] == (Access::Irq { op: IrqOp::Unpend })
            &&& written16(after, Reg16::Dcpcfg) == written16(log, Reg16::Dcpcfg).push(0)
            &&& written16(after, Reg16::Dcpmaxp) == written16(log, Reg16::Dcpmaxp).push(
                read16(after, Reg16::Dcpmaxp).last(),
            )
            &&& written16(after, Reg16::Dcpctr) == written16(log, Reg16::Dcpctr).push(0x0100)
        }),
{
    broadcast use {lemma_seen_push, lemma_written16_push, lemma_read16_push};

    reveal(force_reset_log);
    assert forall|x: u16| (#[trigger] (x | 0x0010u16)) & 0x0010 != 0 by {
        lemma_line_flags(x);
    }
    assert forall|x: u16| (#[trigger] (x & !0x0010u16)) & 0x0010 == 0 by {
        lemma_line_flags(x);
    }
    assert forall|x: u16| (#[trigger] (x & !(0x0020u16 | 0x0040u16))) & 0x0060 == 0 by {
        lemma_line_flags(x);
    }
}

/// A start that forces a reset ends with one, so the device shows itself to the host.
#[verifier::rlimit(60)]
pub proof fn law_forced_start_joins_the_bus(log: Log, config: Config, run: Log)
    requires
        bring_up_log(log, config, run).1,
        config.force_reset_on_init,
    ensures
        ({
            let after = bring_up_log(log, config, run).0;
            let line = seen(after, line_traffic()).skip(seen(log, line_traffic()).len() as int);
            &&& line.len() == 8
            &&& line[5] == (Access::Delay { cycles: 480_000 })
            &&& line[6] is Write16 && line[6]->Write16_value & 0x0010 != 0
            &&& line[7] == (Access::Irq { op: IrqOp::Unpend })
            &&& written16(after, Reg16::Intenb0) == written16(log, Reg16::Intenb0).push(0x9f00)
        }),
{
    broadcast use {lemma_seen_push, lemma_written16_push};

    reveal(init_usbfs_module_log);
    reveal(configure_usbfs_pins_log);
    reveal(init_usbfs_registers_log);
    reveal(force_reset_log);
    assert forall|x: u16| (#[trigger] (x | 0x0010u16)) & 0x0010 != 0 by {
        lemma_line_flags(x);
    }
}

/// Enabling the interrupt masks it, links the USB event to it, drops what is pending and unmasks
/// it, in this order.
pub proof fn law_interrupt_is_linked_before_it_is_enabled(log: Log)
    ensures
        enable_interrupts_log(log) == log + seq![
            Access::Irq { op: IrqOp::Disable },
            Access::Irq { op: IrqOp::Link(InterruptEvent::UsbfsUsbi) },
            Access::Irq { op: IrqOp::Unpend },
            Access::Irq { op: IrqOp::Enable },
        ],
{
    assert(enable_interrupts_log(log) =~= log + seq![
        Access::Irq { op: IrqOp::Disable },
        Access::Irq { op: IrqOp::Link(InterruptEvent::UsbfsUsbi) },
        Access::Irq { op: IrqOp::Unpend },
        Access::Irq { op: IrqOp::Enable },
    ]);
}

/// Forgetting what was captured has the next SETUP packet flag count as risen, and keeps the number
/// of the last interrupt.
pub proof fn law_forgetting_rearms_the_setup_flag(log: Log, run: Log)
    ensures
        ({
            let after = clear_capture_state_log(log, run);
            let memory = seen(after, memory_accesses()).skip(
                seen(log, memory_accesses()).len() as int,
            );
            &&& memory.len() == 2
            &&& memory[0] is LoadLocal
            &&& memory[1] is StoreLocal
            &&& !memory[1]->StoreLocal_value.capture_valid_latched
            &&& memory[1]->StoreLocal_value.capture_seqno
                == memory[0]->LoadLocal_value.capture_seqno
        }),
{
    broadcast use lemma_seen_push;

    reveal(clear_capture_state_log);
}

} // verus!
