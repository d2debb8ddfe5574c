//! What an interrupt makes of the registers that it finds.

use crate::bits::lemma_word;
use crate::mmio::{Access, Log, Reg16, Shadow};
use crate::trace::{lemma_read16_push, lemma_seen_push, read16, seen};
use crate::usb::driver::{law_packed_setup_is_little_endian, sample_log};
use crate::usb::types::UsbIrqLocalState;
use vstd::prelude::*;

verus! {

/// Looks at the four registers that hold a SETUP packet.
pub open spec fn setup_looks() -> spec_fn(Access) -> bool {
    |access: Access|
        access is Read16 && {
            let reg = access->Read16_reg;
            reg == Reg16::Usbreq || reg == Reg16::Usbval || reg == Reg16::Usbindx || reg
                == Reg16::Usbleng
        }
}

/// Looks at the reports of the pipes and at the masks that say which of them count.
pub open spec fn report_looks() -> spec_fn(Access) -> bool {
    |access: Access|
        access is LoadShadow || (access is Read16 && {
            let reg = access->Read16_reg;
            reg == Reg16::Brdysts || reg == Reg16::Nrdysts || reg == Reg16::Bempsts
        })
}

/// Accesses to what the interrupt handler remembers.
pub open spec fn memory_accesses() -> spec_fn(Access) -> bool {
    |access: Access| access is LoadLocal || access is StoreLocal
}

/// An interrupt that captures a SETUP packet looks once at each of the four registers that hold it,
/// and the bytes of the packet are those of the registers, low byte first: request type and
/// request, value, index, length. An interrupt that captures none looks at none of them.
pub proof fn law_captured_packet_is_what_the_registers_held(log: Log, run: Log)
    ensures
        ({
            let (after, event) = sample_log(log, run);
            let p = event.setup_packet@;
            seen(after, setup_looks()) == seen(log, setup_looks()) + if event.setup_valid {
                seq![
                    Access::Read16 { reg: Reg16::Usbreq, value: (p[0] + 256 * p[1]) as u16 },
                    Access::Read16 { reg: Reg16::Usbval, value: (p[2] + 256 * p[3]) as u16 },
                    Access::Read16 { reg: Reg16::Usbindx, value: (p[4] + 256 * p[5]) as u16 },
                    Access::Read16 { reg: Reg16::Usbleng, value: (p[6] + 256 * p[7]) as u16 },
                ]
            } else {
                Seq::empty()
            }
        }),
{
    broadcast use lemma_seen_push;

    reveal(sample_log);
    let (after, event) = sample_log(log, run);
    let old = seen(log, setup_looks());
    let new = seen(after, setup_looks());
    if event.setup_valid {
        assert(new.len() == old.len() + 4);
        law_packed_setup_is_little_endian(
            new[old.len() as int]->Read16_value,
            new[old.len() as int + 1]->Read16_value,
            new[old.len() as int + 2]->Read16_value,
            new[old.len() as int + 3]->Read16_value,
        );
    }
    let p = event.setup_packet@;
    let expected = if event.setup_valid {
        seq![
            Access::Read16 { reg: Reg16::Usbreq, value: (p[0] + 256 * p[1]) as u16 },
            Access::Read16 { reg: Reg16::Usbval, value: (p[2] + 256 * p[3]) as u16 },
            Access::Read16 { reg: Reg16::Usbindx, value: (p[4] + 256 * p[5]) as u16 },
            Access::Read16 { reg: Reg16::Usbleng, value: (p[6] + 256 * p[7]) as u16 },
        ]
    } else {
        Seq::empty()
    };
    assert(new =~= old + expected);
}

/// What an event says of the device and of the control transfer. The flags are those of the status
/// register that are enabled and of interest: device state, resume, frame number, device state
/// change and control transfer stage. A change of the stage has the stage read anew. The SETUP
/// packet flag has risen if it is high and was not at the last interrupt, which is what the handler
/// remembers for the next one. A packet is captured if the flag has risen or the stage is the first
/// one after a packet: 1, 3 or 5.
#[verifier::rlimit(60)]
pub proof fn law_captured_event_reports_the_device(log: Log, run: Log)
    ensures
        ({
            let (after, event) = sample_log(log, run);
            let known = read16(log, Reg16::Intsts0).len() as int;
            let looks = read16(after, Reg16::Intsts0).skip(known);
            let enabled = looks[0] & read16(after, Reg16::Intenb0).last();
            let staged = enabled & 0x0800 != 0;
            let memory = seen(after, memory_accesses()).skip(
                seen(log, memory_accesses()).len() as int,
            );
            let local = memory[0]->LoadLocal_value;
            &&& looks.len() == if staged {
                2int
            } else {
                1
            }
            &&& event.intsts0.0 == enabled & 0x7870
            &&& event.intsts1.0 == read16(after, Reg16::Intsts1).last() & read16(
                after,
                Reg16::Intenb1,
            ).last()
            &&& event.ctrt_ctsq == if staged {
                looks[1] % 8
            } else {
                0
            }
            &&& event.valid_high == (looks[0] & 0x0008 != 0)
            &&& event.valid_rising == (event.valid_high && !local.capture_valid_latched)
            &&& event.setup_valid == (event.valid_rising || event.ctrt_ctsq == 1 || event.ctrt_ctsq
                == 3 || event.ctrt_ctsq == 5)
            &&& event.seqno == (local.capture_seqno + 1) % 0x1_0000_0000
            &&& memory.len() == 2
            &&& memory[0] is LoadLocal
            &&& memory[1] == (Access::StoreLocal {
                value: UsbIrqLocalState {
                    capture_valid_latched: event.valid_high,
                    capture_seqno: event.seqno,
                },
            })
        }),
{
    broadcast use {lemma_seen_push, lemma_read16_push};

    reveal(sample_log);
    assert((0x0070u16 | 0x4000u16 | 0x2000u16 | 0x1000u16 | 0x0800u16) == 0x7870u16)
        by (bit_vector);
    assert forall|x: u16| #[trigger] (x & 0x0007u16) == x % 8 by {
        lemma_word(x);
    }
}

/// What an event says of the pipes: a pipe is reported if and only if its flag is up, it is one of
/// the ten pipes and the mask that the bus has published for the flag has it.
pub proof fn law_captured_event_reports_the_pipes(log: Log, run: Log)
    ensures
        ({
            let (after, event) = sample_log(log, run);
            let looks = seen(after, report_looks()).skip(seen(log, report_looks()).len() as int);
            let brdy = looks[0]->Read16_value & looks[1]->LoadShadow_value;
            let nrdy = looks[2]->Read16_value & looks[3]->LoadShadow_value;
            let bemp = looks[4]->Read16_value & looks[5]->LoadShadow_value;
            &&& looks.len() == 6
            &&& looks[0] is Read16 && looks[0]->Read16_reg == Reg16::Brdysts
            &&& looks[1] is LoadShadow && looks[1]->LoadShadow_which == Shadow::Brdyenb
            &&& looks[2] is Read16 && looks[2]->Read16_reg == Reg16::Nrdysts
            &&& looks[3] is LoadShadow && looks[3]->LoadShadow_which == Shadow::Nrdyenb
            &&& looks[4] is Read16 && looks[4]->Read16_reg == Reg16::Bempsts
            &&& looks[5] is LoadShadow && looks[5]->LoadShadow_which == Shadow::Bempenb
            &&& event.brdysts.0 == brdy & 0x03ff
            &&& event.nrdysts.0 == nrdy & 0x03ff
            &&& event.bempsts.0 == bemp & 0x03ff
        }),
{
    broadcast use lemma_seen_push;

    reveal(sample_log);
}

} // verus!
