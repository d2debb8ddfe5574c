//! Low-level USBFS register helpers.
//!
//! Every function here comes with a specification function that says which accesses it appends to
//! the record. See [`crate::mmio`] for how `log` and `run` are to be read.

use crate::mmio::{
    begins, grows, in16, rd16, wr16, Access, Instance, Log, Mmio, Reg16, Reg8, Shadow,
};
use crate::summary::{lemma_summary_push, summary, EnableMasks};
use crate::usb::endpoint::{EndpointType, UsbDirection};
use crate::usb::types::PipeBinding;
use vstd::prelude::*;

verus! {

broadcast use lemma_summary_push;

pub const USB_USBE: u16 = 0x0001;
pub const USB_DPRPU: u16 = 0x0010;
pub const USB_DRPD: u16 = 0x0020;
pub const USB_DCFM: u16 = 0x0040;
pub const USB_SCKE: u16 = 0x0400;
pub const USB_ISEL: u16 = 0x0020;
pub const USB_MBW_8: u16 = 0x0000;
pub const USB_MBW_16: u16 = 0x0400;
pub const USB_MBW_MASK: u16 = 0x0c00;
pub const USB_CURPIPE: u16 = 0x000f;
pub const USB_RCNT: u16 = 0x8000;
pub const USB_BVAL: u16 = 0x8000;
pub const USB_BCLR: u16 = 0x4000;
pub const USB_FRDY: u16 = 0x2000;
pub const USB_DTLN: u16 = 0x0fff;
pub const USB_BRDY0: u16 = 0x0001;
pub const USB_NRDY0: u16 = 0x0001;
pub const USB_BEMP0: u16 = 0x0001;
pub const USB_PIPECFG_BULK: u16 = 0x4000;
pub const USB_PIPECFG_INTERRUPT: u16 = 0x8000;
pub const USB_PIPECFG_DBLBON: u16 = 0x0200;
pub const USB_PIPECFG_BFREON: u16 = 0x0400;
pub const USB_PIPECFG_SHTNAK: u16 = 0x0080;
pub const USB_PIPECFG_DIR_IN: u16 = 0x0010;
pub const USB_PIPEMAXP_MASK: u16 = 0x01ff;
pub const USB_SQCLR: u16 = 0x0100;
pub const USB_SQSET: u16 = 0x0080;
pub const USB_ACLRM: u16 = 0x0200;
pub const USB_CSCLR: u16 = 0x2000;
pub const USB_CCPL: u16 = 0x0004;
pub const USB_PID_MASK: u16 = 0x0003;
pub const USB_PID_STALL: u16 = 0x0002;
pub const USB_PID_BUF: u16 = 0x0001;
pub const USB_PID_NAK: u16 = 0x0000;
pub const USB_PBUSY: u16 = 0x0020;
pub const USB_RESM: u16 = 0x4000;
pub const USB_SOFR: u16 = 0x2000;
pub const USB_DVST: u16 = 0x1000;
pub const USB_CTRT: u16 = 0x0800;
pub const USB_VALID: u16 = 0x0008;
pub const USB_DVSQ: u16 = 0x0070;
pub const USB_DS_DFLT: u16 = 0x0010;
pub const USB_CTSQ: u16 = 0x0007;
pub const USB_CS_RDDS: u16 = 0x0001;
pub const USB_CS_WRDS: u16 = 0x0003;
pub const USB_CS_WRND: u16 = 0x0005;
pub const USB_CS_RDSS: u16 = 0x0002;
pub const BRDY_BEMP_MASK: u16 = 0x03ff;
pub const CFIFO_READY_SPINS: usize = 10_000;
pub const PIPE0_READY_ATTEMPTS: usize = 8;
pub const READY_DELAY_CYCLES: u32 = 480;

/// How a pipe answers the host.
#[derive(Clone, Copy, Debug, PartialEq, Eq, Structural)]
pub enum PipePid {
    /// Not ready.
    Nak,
    /// According to the state of the buffer.
    Buf,
    /// Stalled.
    Stall,
}

impl PipePid {
    pub open spec fn bits_spec(self) -> u16 {
        match self {
            PipePid::Nak => USB_PID_NAK,
            PipePid::Buf => USB_PID_BUF,
            PipePid::Stall => USB_PID_STALL,
        }
    }

    /// The response in the encoding of the control registers.
    #[verifier::when_used_as_spec(bits_spec)]
    pub fn bits(self) -> (r: u16)
        ensures
            r == self.bits_spec(),
    {
        match self {
            PipePid::Nak => USB_PID_NAK,
            PipePid::Buf => USB_PID_BUF,
            PipePid::Stall => USB_PID_STALL,
        }
    }
}

/// The bit that stands for pipe or endpoint `n` in a mask.
pub open spec fn bit(n: int) -> u16 {
    1u16 << n
}

/// Setting and clearing the bit of one pipe or endpoint does so, and leaves the bits of the others
/// alone.
pub proof fn law_mask_bits(mask: u16, n: int, other: int)
    requires
        0 <= n < 16,
        0 <= other < 16,
    ensures
        (mask | bit(n)) & bit(n) != 0,
        (mask & !bit(n)) & bit(n) == 0,
        n != other ==> (mask | bit(n)) & bit(other) == mask & bit(other),
        n != other ==> (mask & !bit(n)) & bit(other) == mask & bit(other),
{
    let a = n as u16;
    let b = other as u16;
    assert({
        &&& (mask | (1u16 << a)) & (1u16 << a) != 0
        &&& (mask & !(1u16 << a)) & (1u16 << a) == 0
        &&& a != b ==> (mask | (1u16 << a)) & (1u16 << b) == mask & (1u16 << b)
        &&& a != b ==> (mask & !(1u16 << a)) & (1u16 << b) == mask & (1u16 << b)
    }) by (bit_vector)
        requires
            a < 16,
            b < 16,
    ;
}

/// A write that clears a flag of one pipe writes zero for this pipe and one for every other, so
/// that no other flag is lost.
pub proof fn law_clear_status_spares_others(pipe: int, other: int)
    requires
        0 <= pipe < 10,
        0 <= other < 10,
    ensures
        !bit(pipe) & BRDY_BEMP_MASK & bit(pipe) == 0,
        pipe != other ==> !bit(pipe) & BRDY_BEMP_MASK & bit(other) != 0,
{
    let a = pipe as u16;
    let b = other as u16;
    assert({
        &&& !(1u16 << a) & 0x03ffu16 & (1u16 << a) == 0
        &&& a != b ==> !(1u16 << a) & 0x03ffu16 & (1u16 << b) != 0
    }) by (bit_vector)
        requires
            a < 10,
            b < 10,
    ;
}

/// The answer of a pipe is the low two bits of its control register: 0 is NAK, 1 is according to
/// the buffer, 2 is STALL. Setting it leaves the other bits alone, and completing the status stage
/// sets bit 2 besides.
pub proof fn law_answer_field(current: u16)
    ensures
        ((current & !USB_PID_MASK) | PipePid::Nak.bits()) == current - current % 4,
        ((current & !USB_PID_MASK) | PipePid::Buf.bits()) == current - current % 4 + 1,
        ((current & !USB_PID_MASK) | PipePid::Stall.bits()) == current - current % 4 + 2,
        dcp_pid_value(current, PipePid::Buf, true) % 8 == 5,
        current & !USB_PID_BUF == current - current % 2,
{
    assert({
        &&& ((current & !0x0003u16) | 0) == current - current % 4
        &&& ((current & !0x0003u16) | 1) == current - current % 4 + 1
        &&& ((current & !0x0003u16) | 2) == current - current % 4 + 2
        &&& (((current & !0x0003u16) | 1) | 4) % 8 == 5
        &&& current & !0x0001u16 == current - current % 2
    }) by (bit_vector);
}

/// `log` followed by reads of `reg` until one of them satisfies `read & mask == want`, but no more
/// than `tries` of them.
#[verifier::opaque]
pub open spec fn spin_log(log: Log, reg: Reg16, mask: u16, want: u16, tries: nat, run: Log) -> Log
    decreases tries,
{
    if tries == 0 {
        log
    } else if in16(log, run) & mask == want {
        rd16(log, reg, run)
    } else {
        spin_log(rd16(log, reg, run), reg, mask, want, (tries - 1) as nat, run)
    }
}

/// Reads a register until the bits under `mask` equal `want`, but no more than `tries` times.
fn spin<I: Instance>(io: &mut Mmio<I>, reg: Reg16, mask: u16, want: u16, tries: usize)
    ensures
        grows(old(io).log(), final(io).log()),
        summary(final(io).log()) == summary(old(io).log()),
        forall|run: Log|
            #![trigger begins(final(io).log(), run)]
            begins(final(io).log(), run) ==> final(io).log() == spin_log(
                old(io).log(),
                reg,
                mask,
                want,
                tries as nat,
                run,
            ),
{
    proof {
        reveal(spin_log);
    }
    let mut i: usize = 0;
    while i < tries
        invariant
            i <= tries,
            grows(old(io).log(), io.log()),
            summary(io.log()) == summary(old(io).log()),
            forall|run: Log|
                #![trigger begins(io.log(), run)]
                begins(io.log(), run) ==> spin_log(
                    old(io).log(),
                    reg,
                    mask,
                    want,
                    tries as nat,
                    run,
                ) == spin_log(io.log(), reg, mask, want, (tries - i) as nat, run),
        decreases tries - i,
    {
        proof {
            reveal(spin_log);
        }
        let value: u16 = io.read16(reg);
        if value & mask == want {
            return ;
        }
        i += 1;
    }
}

#[verifier::opaque]
pub open spec fn select_pipe0_log(log: Log, in_direction: bool, run: Log) -> Log {
    let value = if in_direction {
        USB_MBW_8 | USB_ISEL
    } else {
        USB_MBW_8
    };
    spin_log(
        wr16(log, Reg16::Cfifosel, value),
        Reg16::Cfifosel,
        USB_ISEL | USB_RCNT,
        value & (USB_ISEL | USB_RCNT),
        CFIFO_READY_SPINS as nat,
        run,
    )
}

/// Connects the CFIFO port to the control pipe.
pub fn select_pipe0<I: Instance>(io: &mut Mmio<I>, in_direction: bool)
    ensures
        grows(old(io).log(), final(io).log()),
        summary(final(io).log()) == summary(old(io).log()),
        forall|run: Log|
            #![trigger begins(final(io).log(), run)]
            begins(final(io).log(), run) ==> final(io).log() == select_pipe0_log(
                old(io).log(),
                in_direction,
                run,
            ),
{
    proof {
        reveal(select_pipe0_log);
    }
    let mut value: u16 = USB_MBW_8;
    if in_direction {
        value = value | USB_ISEL;
    }
    io.write16(Reg16::Cfifosel, value);
    spin(
        io,
        Reg16::Cfifosel,
        USB_ISEL | USB_RCNT,
        value & (USB_ISEL | USB_RCNT),
        CFIFO_READY_SPINS,
    );
}

/// Value that connects the CFIFO port to a pipe.
pub open spec fn cfifosel_value(pipe: u8, in_direction: bool, read_count: bool) -> u16 {
    let value = USB_MBW_16 | pipe as u16;
    let value = if in_direction {
        value | USB_ISEL
    } else {
        value
    };
    if read_count {
        value | USB_RCNT
    } else {
        value
    }
}

#[verifier::opaque]
pub open spec fn select_cfifo_log(
    log: Log,
    pipe: u8,
    in_direction: bool,
    read_count: bool,
    run: Log,
) -> Log {
    let value = cfifosel_value(pipe, in_direction, read_count);
    let checked = USB_CURPIPE | USB_ISEL | USB_RCNT;
    spin_log(
        wr16(log, Reg16::Cfifosel, value),
        Reg16::Cfifosel,
        checked,
        value & checked,
        CFIFO_READY_SPINS as nat,
        run,
    )
}

/// Connects the CFIFO port to a pipe.
pub fn select_cfifo<I: Instance>(
    io: &mut Mmio<I>,
    pipe: u8,
    in_direction: bool,
    read_count: bool,
)
    ensures
        grows(old(io).log(), final(io).log()),
        summary(final(io).log()) == summary(old(io).log()),
        forall|run: Log|
            #![trigger begins(final(io).log(), run)]
            begins(final(io).log(), run) ==> final(io).log() == select_cfifo_log(
                old(io).log(),
                pipe,
                in_direction,
                read_count,
                run,
            ),
{
    proof {
        reveal(select_cfifo_log);
    }
    let mut value: u16 = USB_MBW_16 | pipe as u16;
    if in_direction {
        value = value | USB_ISEL;
    }
    if read_count {
        value = value | USB_RCNT;
    }
    io.write16(Reg16::Cfifosel, value);
    let checked: u16 = USB_CURPIPE | USB_ISEL | USB_RCNT;
    spin(io, Reg16::Cfifosel, checked, value & checked, CFIFO_READY_SPINS);
}

#[verifier::opaque]
pub open spec fn select_d0fifo_log(log: Log, pipe: u8, run: Log) -> Log {
    let expected = USB_MBW_16 | pipe as u16;
    spin_log(
        wr16(log, Reg16::D0fifosel, expected),
        Reg16::D0fifosel,
        USB_CURPIPE | USB_MBW_16,
        expected,
        CFIFO_READY_SPINS as nat,
        run,
    )
}

/// Connects the D0FIFO port to a pipe.
pub fn select_d0fifo<I: Instance>(io: &mut Mmio<I>, pipe: u8)
    ensures
        grows(old(io).log(), final(io).log()),
        summary(final(io).log()) == summary(old(io).log()),
        forall|run: Log|
            #![trigger begins(final(io).log(), run)]
            begins(final(io).log(), run) ==> final(io).log() == select_d0fifo_log(
                old(io).log(),
                pipe,
                run,
            ),
{
    proof {
        reveal(select_d0fifo_log);
    }
    let expected: u16 = USB_MBW_16 | pipe as u16;
    io.write16(Reg16::D0fifosel, expected);
    spin(io, Reg16::D0fifosel, USB_CURPIPE | USB_MBW_16, expected, CFIFO_READY_SPINS);
}

/// `log` followed by a wait for the FRDY flag of the port control register `ctr`, and whether the
/// flag came up within `tries` reads.
#[verifier::opaque]
pub open spec fn fifo_ready_log(log: Log, ctr: Reg16, tries: nat, run: Log) -> (Log, bool)
    decreases tries,
{
    if tries == 0 {
        (log, false)
    } else {
        let log1 = rd16(log, ctr, run);
        if in16(log, run) & USB_FRDY != 0 {
            (log1, true)
        } else {
            let log2 = rd16(log1, Reg16::Syscfg, run);
            let log3 = rd16(log2, Reg16::Syssts0, run);
            let log4 = log3.push(Access::Delay { cycles: READY_DELAY_CYCLES });
            fifo_ready_log(log4, ctr, (tries - 1) as nat, run)
        }
    }
}

fn fifo_ready<I: Instance>(io: &mut Mmio<I>, ctr: Reg16) -> (r: bool)
    ensures
        grows(old(io).log(), final(io).log()),
        summary(final(io).log()) == summary(old(io).log()),
        forall|run: Log|
            #![trigger begins(final(io).log(), run)]
            begins(final(io).log(), run) ==> (final(io).log(), r) == fifo_ready_log(
                old(io).log(),
                ctr,
                CFIFO_READY_SPINS as nat,
                run,
            ),
{
    proof {
        reveal(fifo_ready_log);
    }
    let mut i: usize = 0;
    while i < CFIFO_READY_SPINS
        invariant
            i <= CFIFO_READY_SPINS,
            grows(old(io).log(), io.log()),
            summary(io.log()) == summary(old(io).log()),
            forall|run: Log|
                #![trigger begins(io.log(), run)]
                begins(io.log(), run) ==> fifo_ready_log(
                    old(io).log(),
                    ctr,
                    CFIFO_READY_SPINS as nat,
                    run,
                ) == fifo_ready_log(io.log(), ctr, (CFIFO_READY_SPINS - i) as nat, run),
        decreases CFIFO_READY_SPINS - i,
    {
        proof {
            reveal(fifo_ready_log);
        }
        let value: u16 = io.read16(ctr);
        if value & USB_FRDY != 0 {
            return true;
        }
        let _ = io.read16(Reg16::Syscfg);
        let _ = io.read16(Reg16::Syssts0);
        io.delay(READY_DELAY_CYCLES);
        i += 1;
    }
    false
}

/// Waits until the CFIFO port can be accessed. Returns whether it can.
pub fn cfifo_ready<I: Instance>(io: &mut Mmio<I>) -> (r: bool)
    ensures
        grows(old(io).log(), final(io).log()),
        summary(final(io).log()) == summary(old(io).log()),
        forall|run: Log|
            #![trigger begins(final(io).log(), run)]
            begins(final(io).log(), run) ==> (final(io).log(), r) == fifo_ready_log(
                old(io).log(),
                Reg16::Cfifoctr,
                CFIFO_READY_SPINS as nat,
                run,
            ),
{
    fifo_ready(io, Reg16::Cfifoctr)
}

/// Waits until the D0FIFO port can be accessed. Returns whether it can.
pub fn d0fifo_ready<I: Instance>(io: &mut Mmio<I>) -> (r: bool)
    ensures
        grows(old(io).log(), final(io).log()),
        summary(final(io).log()) == summary(old(io).log()),
        forall|run: Log|
            #![trigger begins(final(io).log(), run)]
            begins(final(io).log(), run) ==> (final(io).log(), r) == fifo_ready_log(
                old(io).log(),
                Reg16::D0fifoctr,
                CFIFO_READY_SPINS as nat,
                run,
            ),
{
    fifo_ready(io, Reg16::D0fifoctr)
}

/// `log` followed by up to `tries` attempts to connect the CFIFO port to the control pipe, and
/// whether one of them succeeded.
#[verifier::opaque]
pub open spec fn select_pipe0_ready_log(log: Log, in_direction: bool, tries: nat, run: Log) -> (
    Log,
    bool,
)
    decreases tries,
{
    if tries == 0 {
        (log, false)
    } else {
        let (log1, ready) = fifo_ready_log(
            select_pipe0_log(log, in_direction, run),
            Reg16::Cfifoctr,
            CFIFO_READY_SPINS as nat,
            run,
        );
        if ready {
            (log1, true)
        } else {
            select_pipe0_ready_log(log1, in_direction, (tries - 1) as nat, run)
        }
    }
}

/// Connects the CFIFO port to the control pipe and waits until it can be accessed. Returns whether
/// it can.
pub fn select_pipe0_ready<I: Instance>(io: &mut Mmio<I>, in_direction: bool) -> (r: bool)
    ensures
        grows(old(io).log(), final(io).log()),
        summary(final(io).log()) == summary(old(io).log()),
        forall|run: Log|
            #![trigger begins(final(io).log(), run)]
            begins(final(io).log(), run) ==> (final(io).log(), r) == select_pipe0_ready_log(
                old(io).log(),
                in_direction,
                PIPE0_READY_ATTEMPTS as nat,
                run,
            ),
{
    proof {
        reveal(select_pipe0_ready_log);
    }
    let mut i: usize = 0;
    while i < PIPE0_READY_ATTEMPTS
        invariant
            i <= PIPE0_READY_ATTEMPTS,
            grows(old(io).log(), io.log()),
            summary(io.log()) == summary(old(io).log()),
            forall|run: Log|
                #![trigger begins(io.log(), run)]
                begins(io.log(), run) ==> select_pipe0_ready_log(
                    old(io).log(),
                    in_direction,
                    PIPE0_READY_ATTEMPTS as nat,
                    run,
                ) == select_pipe0_ready_log(
                    io.log(),
                    in_direction,
                    (PIPE0_READY_ATTEMPTS - i) as nat,
                    run,
                ),
        decreases PIPE0_READY_ATTEMPTS - i,
    {
        proof {
            reveal(select_pipe0_ready_log);
        }
        select_pipe0(io, in_direction);
        if cfifo_ready(io) {
            return true;
        }
        i += 1;
    }
    false
}

/// `log` followed by one byte write to `reg` for each byte of `data`, in order.
#[verifier::opaque]
pub open spec fn wr_bytes(log: Log, reg: Reg8, data: Seq<u8>) -> Log {
    log + Seq::new(data.len(), |i: int| Access::Write8 { reg, value: data[i] })
}

fn write_bytes<I: Instance>(io: &mut Mmio<I>, reg: Reg8, buf: &[u8])
    ensures
        grows(old(io).log(), final(io).log()),
        summary(final(io).log()) == summary(old(io).log()),
        final(io).log() == wr_bytes(old(io).log(), reg, buf@),
{
    proof {
        reveal(wr_bytes);
        assert(io.log() =~= wr_bytes(io.log(), reg, buf@.take(0)));
    }
    let mut i: usize = 0;
    while i < buf.len()
        invariant
            i <= buf@.len(),
            grows(old(io).log(), io.log()),
            summary(io.log()) == summary(old(io).log()),
            io.log() == wr_bytes(old(io).log(), reg, buf@.take(i as int)),
        decreases buf@.len() - i,
    {
        proof {
            reveal(wr_bytes);
        }
        io.write8(reg, buf[i]);
        assert(io.log() =~= wr_bytes(old(io).log(), reg, buf@.take(i + 1)));
        i += 1;
    }
    assert(buf@.take(i as int) =~= buf@);
}

/// Puts a packet into the CFIFO port.
pub fn write_cfifo<I: Instance>(io: &mut Mmio<I>, buf: &[u8])
    ensures
        grows(old(io).log(), final(io).log()),
        summary(final(io).log()) == summary(old(io).log()),
        final(io).log() == wr_bytes(old(io).log(), Reg8::Cfifo, buf@),
{
    write_bytes(io, Reg8::Cfifo, buf);
}

#[verifier::opaque]
pub open spec fn write_d0fifo_log(log: Log, data: Seq<u8>, run: Log) -> Log {
    if data.len() == 0 {
        log
    } else {
        let fifosel = in16(log, run);
        let log1 = rd16(log, Reg16::D0fifosel, run);
        let log2 = wr16(log1, Reg16::D0fifosel, (fifosel & !USB_MBW_MASK) | USB_MBW_8);
        let log3 = wr_bytes(log2, Reg8::D0fifo, data);
        wr16(log3, Reg16::D0fifosel, (fifosel & !USB_MBW_MASK) | USB_MBW_16)
    }
}

/// Puts a packet into the D0FIFO port, with the port switched to byte access meanwhile.
pub fn write_d0fifo<I: Instance>(io: &mut Mmio<I>, buf: &[u8])
    ensures
        grows(old(io).log(), final(io).log()),
        summary(final(io).log()) == summary(old(io).log()),
        forall|run: Log|
            #![trigger begins(final(io).log(), run)]
            begins(final(io).log(), run) ==> final(io).log() == write_d0fifo_log(
                old(io).log(),
                buf@,
                run,
            ),
{
    proof {
        reveal(write_d0fifo_log);
    }
    if buf.len() == 0 {
        return ;
    }
    let fifosel: u16 = io.read16(Reg16::D0fifosel);
    io.write16(Reg16::D0fifosel, (fifosel & !USB_MBW_MASK) | USB_MBW_8);
    write_bytes(io, Reg8::D0fifo, buf);
    io.write16(Reg16::D0fifosel, (fifosel & !USB_MBW_MASK) | USB_MBW_16);
}

/// The low byte of a half-word.
pub open spec fn low_byte(word: u16) -> u8 {
    (word & 0xff) as u8
}

/// The high byte of a half-word.
pub open spec fn high_byte(word: u16) -> u8 {
    (word >> 8) as u8
}

/// Splits a half-word into its low and its high byte.
pub fn to_le_bytes(word: u16) -> (r: (u8, u8))
    ensures
        r == (low_byte(word), high_byte(word)),
{
    ((word & 0xff) as u8, (word >> 8) as u8)
}

/// The two bytes of a half-word make up the half-word.
pub proof fn law_half_word_round_trip(word: u16)
    ensures
        low_byte(word) + 256 * high_byte(word) == word,
{
    assert(((word & 0xff) as u8) + 256 * ((word >> 8) as u8) == word) by (bit_vector);
}

/// `log` followed by `words` half-word reads of the CFIFO port.
#[verifier::opaque]
pub open spec fn rd_words(log: Log, words: nat, run: Log) -> Log
    decreases words,
{
    if words == 0 {
        log
    } else {
        rd16(rd_words(log, (words - 1) as nat, run), Reg16::Cfifo, run)
    }
}

/// The byte at position `i` of a packet whose half-words were read from the CFIFO port after `log`,
/// low byte first.
pub open spec fn fifo_byte(log: Log, i: int, run: Log) -> u8 {
    let word = run[log.len() + i / 2]->Read16_value;
    if i % 2 == 0 {
        low_byte(word)
    } else {
        high_byte(word)
    }
}

/// A packet of `len` bytes whose half-words were read from the CFIFO port after `log`.
pub open spec fn fifo_bytes(log: Log, len: nat, run: Log) -> Seq<u8> {
    Seq::new(len, |i: int| fifo_byte(log, i, run))
}

proof fn lemma_rd_words_len(log: Log, words: nat, run: Log)
    ensures
        rd_words(log, words, run).len() == log.len() + words,
    decreases words,
{
    reveal(rd_words);
    if words > 0 {
        lemma_rd_words_len(log, (words - 1) as nat, run);
    }
}

/// Fills `buf` from the CFIFO port.
pub fn read_cfifo<I: Instance>(io: &mut Mmio<I>, buf: &mut [u8])
    ensures
        grows(old(io).log(), final(io).log()),
        summary(final(io).log()) == summary(old(io).log()),
        forall|run: Log|
            #![trigger begins(final(io).log(), run)]
            begins(final(io).log(), run) ==> {
                &&& final(io).log() == rd_words(
                    old(io).log(),
                    ((old(buf)@.len() + 1) / 2) as nat,
                    run,
                )
                &&& final(buf)@ == fifo_bytes(old(io).log(), old(buf)@.len(), run)
            },
{
    proof {
        reveal(rd_words);
    }
    let len: usize = buf.len();
    let mut i: usize = 0;
    while i < len
        invariant
            i <= len,
            i % 2 == 0 || i == len,
            buf@.len() == len,
            len == old(buf)@.len(),
            grows(old(io).log(), io.log()),
            summary(io.log()) == summary(old(io).log()),
            forall|run: Log|
                #![trigger begins(io.log(), run)]
                begins(io.log(), run) ==> {
                    &&& io.log() == rd_words(old(io).log(), ((i + 1) / 2) as nat, run)
                    &&& forall|j: int|
                        0 <= j < i ==> #[trigger] buf@[j] == fifo_byte(old(io).log(), j, run)
                },
        decreases len - i,
    {
        proof {
            reveal(rd_words);
        }
        let ghost before = io.log();
        let ghost done = buf@;
        let ghost at = i as int;
        let word: u16 = io.read16(Reg16::Cfifo);
        let (low, high) = to_le_bytes(word);
        buf[i] = low;
        i += 1;
        if i < len {
            buf[i] = high;
            i += 1;
        }
        proof {
            assert forall|run: Log| #![trigger begins(io.log(), run)] begins(
                io.log(),
                run,
            ) implies {
                &&& io.log() == rd_words(old(io).log(), ((i + 1) / 2) as nat, run)
                &&& forall|j: int|
                    0 <= j < i ==> #[trigger] buf@[j] == fifo_byte(old(io).log(), j, run)
            } by {
                assert(begins(before, run));
                lemma_rd_words_len(old(io).log(), (at / 2) as nat, run);
                assert((at + 1) / 2 == at / 2);
                assert((i + 1) / 2 == at / 2 + 1);
                assert forall|j: int| 0 <= j < i implies #[trigger] buf@[j] == fifo_byte(
                    old(io).log(),
                    j,
                    run,
                ) by {
                    if j < at {
                        assert(done[j] == fifo_byte(old(io).log(), j, run));
                    } else {
                        assert(j / 2 == at / 2);
                    }
                }
            }
        }
    }
    proof {
        assert forall|run: Log| #![trigger begins(io.log(), run)] begins(io.log(), run) implies buf@
            == fifo_bytes(old(io).log(), old(buf)@.len(), run) by {
            assert(buf@ =~= fifo_bytes(old(io).log(), old(buf)@.len(), run));
        }
    }
}

/// Number of bytes waiting in the CFIFO port.
pub fn cfifo_dtln<I: Instance>(io: &mut Mmio<I>) -> (r: usize)
    ensures
        grows(old(io).log(), final(io).log()),
        summary(final(io).log()) == summary(old(io).log()),
        forall|run: Log|
            #![trigger begins(final(io).log(), run)]
            begins(final(io).log(), run) ==> {
                &&& final(io).log() == rd16(old(io).log(), Reg16::Cfifoctr, run)
                &&& r == (in16(old(io).log(), run) & USB_DTLN) as usize
            },
{
    (io.read16(Reg16::Cfifoctr) & USB_DTLN) as usize
}

/// Drops what the CFIFO port holds.
pub fn clear_cfifo_buffer<I: Instance>(io: &mut Mmio<I>)
    ensures
        grows(old(io).log(), final(io).log()),
        summary(final(io).log()) == summary(old(io).log()),
        final(io).log() == wr16(old(io).log(), Reg16::Cfifoctr, USB_BCLR),
{
    io.write16(Reg16::Cfifoctr, USB_BCLR);
}

/// Releases a short packet in the CFIFO port for sending.
pub fn set_cfifo_bval<I: Instance>(io: &mut Mmio<I>)
    ensures
        grows(old(io).log(), final(io).log()),
        summary(final(io).log()) == summary(old(io).log()),
        final(io).log() == wr16(old(io).log(), Reg16::Cfifoctr, USB_BVAL),
{
    io.write16(Reg16::Cfifoctr, USB_BVAL);
}

/// Drops what the D0FIFO port holds.
pub fn clear_d0fifo_buffer<I: Instance>(io: &mut Mmio<I>)
    ensures
        grows(old(io).log(), final(io).log()),
        summary(final(io).log()) == summary(old(io).log()),
        final(io).log() == wr16(old(io).log(), Reg16::D0fifoctr, USB_BCLR),
{
    io.write16(Reg16::D0fifoctr, USB_BCLR);
}

/// Releases a short packet in the D0FIFO port for sending.
pub fn set_d0fifo_bval<I: Instance>(io: &mut Mmio<I>)
    ensures
        grows(old(io).log(), final(io).log()),
        summary(final(io).log()) == summary(old(io).log()),
        final(io).log() == wr16(old(io).log(), Reg16::D0fifoctr, USB_BVAL),
{
    io.write16(Reg16::D0fifoctr, USB_BVAL);
}

/// `log` followed by the write that clears the flags `mask` of the interrupt status register 0.
/// Flags are cleared by writing zero.
pub open spec fn clear_intsts0_log(log: Log, mask: u16) -> Log {
    wr16(log, Reg16::Intsts0, !mask)
}

/// Clears flags of the interrupt status register 0.
pub fn clear_intsts0<I: Instance>(io: &mut Mmio<I>, mask: u16)
    ensures
        grows(old(io).log(), final(io).log()),
        summary(final(io).log()) == summary(old(io).log()),
        final(io).log() == clear_intsts0_log(old(io).log(), mask),
{
    io.write16(Reg16::Intsts0, !mask);
}

/// Clears the SETUP packet flag.
pub fn clear_valid<I: Instance>(io: &mut Mmio<I>)
    ensures
        grows(old(io).log(), final(io).log()),
        summary(final(io).log()) == summary(old(io).log()),
        final(io).log() == clear_intsts0_log(old(io).log(), USB_VALID),
{
    clear_intsts0(io, USB_VALID);
}

/// Clears the device state flag.
pub fn clear_dvst<I: Instance>(io: &mut Mmio<I>)
    ensures
        grows(old(io).log(), final(io).log()),
        summary(final(io).log()) == summary(old(io).log()),
        final(io).log() == clear_intsts0_log(old(io).log(), USB_DVST),
{
    clear_intsts0(io, USB_DVST);
}

/// Clears the frame number flag.
pub fn clear_sofr<I: Instance>(io: &mut Mmio<I>)
    ensures
        grows(old(io).log(), final(io).log()),
        summary(final(io).log()) == summary(old(io).log()),
        final(io).log() == clear_intsts0_log(old(io).log(), USB_SOFR),
{
    clear_intsts0(io, USB_SOFR);
}

/// Clears the resume flag.
pub fn clear_resm<I: Instance>(io: &mut Mmio<I>)
    ensures
        grows(old(io).log(), final(io).log()),
        summary(final(io).log()) == summary(old(io).log()),
        final(io).log() == clear_intsts0_log(old(io).log(), USB_RESM),
{
    clear_intsts0(io, USB_RESM);
}

/// Clears the control transfer stage flag.
pub fn clear_ctrt<I: Instance>(io: &mut Mmio<I>)
    ensures
        grows(old(io).log(), final(io).log()),
        summary(final(io).log()) == summary(old(io).log()),
        final(io).log() == clear_intsts0_log(old(io).log(), USB_CTRT),
{
    clear_intsts0(io, USB_CTRT);
}

/// `log` followed by the write that clears the flags `bits` of a per-pipe status register. Flags
/// are cleared by writing zero.
pub open spec fn clear_status_log(log: Log, reg: Reg16, bits: u16) -> Log {
    wr16(log, reg, !bits & BRDY_BEMP_MASK)
}

/// Clears the buffer ready flag of the control pipe.
pub fn clear_brdy0<I: Instance>(io: &mut Mmio<I>)
    ensures
        grows(old(io).log(), final(io).log()),
        summary(final(io).log()) == summary(old(io).log()),
        final(io).log() == clear_status_log(old(io).log(), Reg16::Brdysts, USB_BRDY0),
{
    io.write16(Reg16::Brdysts, !USB_BRDY0 & BRDY_BEMP_MASK);
}

/// Clears the buffer not ready flag of the control pipe.
pub fn clear_nrdy0<I: Instance>(io: &mut Mmio<I>)
    ensures
        grows(old(io).log(), final(io).log()),
        summary(final(io).log()) == summary(old(io).log()),
        final(io).log() == clear_status_log(old(io).log(), Reg16::Nrdysts, USB_NRDY0),
{
    io.write16(Reg16::Nrdysts, !USB_NRDY0 & BRDY_BEMP_MASK);
}

/// Clears the buffer empty flag of the control pipe.
pub fn clear_bemp0<I: Instance>(io: &mut Mmio<I>)
    ensures
        grows(old(io).log(), final(io).log()),
        summary(final(io).log()) == summary(old(io).log()),
        final(io).log() == clear_status_log(old(io).log(), Reg16::Bempsts, USB_BEMP0),
{
    io.write16(Reg16::Bempsts, !USB_BEMP0 & BRDY_BEMP_MASK);
}

/// Clears the buffer ready flag of a pipe.
pub fn clear_brdy<I: Instance>(io: &mut Mmio<I>, pipe: u8)
    requires
        pipe < 16,
    ensures
        grows(old(io).log(), final(io).log()),
        summary(final(io).log()) == summary(old(io).log()),
        final(io).log() == clear_status_log(old(io).log(), Reg16::Brdysts, bit(pipe as int)),
{
    let bit: u16 = 1u16 << pipe;
    io.write16(Reg16::Brdysts, !bit & BRDY_BEMP_MASK);
}

/// Clears the buffer not ready flag of a pipe.
pub fn clear_nrdy<I: Instance>(io: &mut Mmio<I>, pipe: u8)
    requires
        pipe < 16,
    ensures
        grows(old(io).log(), final(io).log()),
        summary(final(io).log()) == summary(old(io).log()),
        final(io).log() == clear_status_log(old(io).log(), Reg16::Nrdysts, bit(pipe as int)),
{
    let bit: u16 = 1u16 << pipe;
    io.write16(Reg16::Nrdysts, !bit & BRDY_BEMP_MASK);
}

/// Clears the buffer empty flag of a pipe.
pub fn clear_bemp<I: Instance>(io: &mut Mmio<I>, pipe: u8)
    requires
        pipe < 16,
    ensures
        grows(old(io).log(), final(io).log()),
        summary(final(io).log()) == summary(old(io).log()),
        final(io).log() == clear_status_log(old(io).log(), Reg16::Bempsts, bit(pipe as int)),
{
    let bit: u16 = 1u16 << pipe;
    io.write16(Reg16::Bempsts, !bit & BRDY_BEMP_MASK);
}

/// The register behind an interrupt enable mask.
pub open spec fn enable_reg(which: Shadow) -> Reg16 {
    match which {
        Shadow::Brdyenb => Reg16::Brdyenb,
        Shadow::Nrdyenb => Reg16::Nrdyenb,
        Shadow::Bempenb => Reg16::Bempenb,
    }
}

/// `log` followed by the publication of an interrupt enable mask, to the interrupt handler first
/// and to the register then.
pub open spec fn write_enb_log(log: Log, which: Shadow, mask: u16) -> Log {
    wr16(log.push(Access::StoreShadow { which, value: mask }), enable_reg(which), mask)
}

/// An interrupt enable mask with `set_bits` set and then `clear_bits` cleared.
pub open spec fn updated(mask: u16, set_bits: u16, clear_bits: u16) -> u16 {
    (mask | set_bits) & !clear_bits
}

/// Sets the buffer ready interrupt enable mask.
pub fn write_brdyenb<I: Instance>(io: &mut Mmio<I>, shadow: &mut u16, mask: u16)
    ensures
        grows(old(io).log(), final(io).log()),
        summary(final(io).log()) == summary(old(io).log()).with_mask(Shadow::Brdyenb, mask),
        final(io).log() == write_enb_log(old(io).log(), Shadow::Brdyenb, mask),
        *final(shadow) == mask,
{
    *shadow = mask;
    io.store_shadow(Shadow::Brdyenb, mask);
    io.write16(Reg16::Brdyenb, mask);
}

/// Sets the buffer not ready interrupt enable mask.
pub fn write_nrdyenb<I: Instance>(io: &mut Mmio<I>, shadow: &mut u16, mask: u16)
    ensures
        grows(old(io).log(), final(io).log()),
        summary(final(io).log()) == summary(old(io).log()).with_mask(Shadow::Nrdyenb, mask),
        final(io).log() == write_enb_log(old(io).log(), Shadow::Nrdyenb, mask),
        *final(shadow) == mask,
{
    *shadow = mask;
    io.store_shadow(Shadow::Nrdyenb, mask);
    io.write16(Reg16::Nrdyenb, mask);
}

/// Sets the buffer empty interrupt enable mask.
pub fn write_bempenb<I: Instance>(io: &mut Mmio<I>, shadow: &mut u16, mask: u16)
    ensures
        grows(old(io).log(), final(io).log()),
        summary(final(io).log()) == summary(old(io).log()).with_mask(Shadow::Bempenb, mask),
        final(io).log() == write_enb_log(old(io).log(), Shadow::Bempenb, mask),
        *final(shadow) == mask,
{
    *shadow = mask;
    io.store_shadow(Shadow::Bempenb, mask);
    io.write16(Reg16::Bempenb, mask);
}

/// Sets and clears bits of the buffer ready interrupt enable mask.
pub fn update_brdyenb<I: Instance>(
    io: &mut Mmio<I>,
    shadow: &mut u16,
    set_bits: u16,
    clear_bits: u16,
)
    ensures
        grows(old(io).log(), final(io).log()),
        summary(final(io).log()) == summary(old(io).log()).with_mask(
            Shadow::Brdyenb,
            updated(*old(shadow), set_bits, clear_bits),
        ),
        *final(shadow) == updated(*old(shadow), set_bits, clear_bits),
        final(io).log() == write_enb_log(
            old(io).log(),
            Shadow::Brdyenb,
            updated(*old(shadow), set_bits, clear_bits),
        ),
{
    let next: u16 = (*shadow | set_bits) & !clear_bits;
    write_brdyenb(io, shadow, next);
}

/// Sets and clears bits of the buffer not ready interrupt enable mask.
pub fn update_nrdyenb<I: Instance>(
    io: &mut Mmio<I>,
    shadow: &mut u16,
    set_bits: u16,
    clear_bits: u16,
)
    ensures
        grows(old(io).log(), final(io).log()),
        summary(final(io).log()) == summary(old(io).log()).with_mask(
            Shadow::Nrdyenb,
            updated(*old(shadow), set_bits, clear_bits),
        ),
        *final(shadow) == updated(*old(shadow), set_bits, clear_bits),
        final(io).log() == write_enb_log(
            old(io).log(),
            Shadow::Nrdyenb,
            updated(*old(shadow), set_bits, clear_bits),
        ),
{
    let next: u16 = (*shadow | set_bits) & !clear_bits;
    write_nrdyenb(io, shadow, next);
}

/// Sets and clears bits of the buffer empty interrupt enable mask.
pub fn update_bempenb<I: Instance>(
    io: &mut Mmio<I>,
    shadow: &mut u16,
    set_bits: u16,
    clear_bits: u16,
)
    ensures
        grows(old(io).log(), final(io).log()),
        summary(final(io).log()) == summary(old(io).log()).with_mask(
            Shadow::Bempenb,
            updated(*old(shadow), set_bits, clear_bits),
        ),
        *final(shadow) == updated(*old(shadow), set_bits, clear_bits),
        final(io).log() == write_enb_log(
            old(io).log(),
            Shadow::Bempenb,
            updated(*old(shadow), set_bits, clear_bits),
        ),
{
    let next: u16 = (*shadow | set_bits) & !clear_bits;
    write_bempenb(io, shadow, next);
}

/// The control register of a pipe, for pipes 1 to 9.
pub open spec fn pipectr_reg(pipe: u8) -> Option<Reg16> {
    if 1 <= pipe <= 5 {
        Some(Reg16::Pipectr((pipe - 1) as u8))
    } else if 6 <= pipe <= 9 {
        Some(Reg16::Pipectr2((pipe - 6) as u8))
    } else {
        None
    }
}

pub open spec fn read_pipectr_log(log: Log, pipe: u8, run: Log) -> Log {
    match pipectr_reg(pipe) {
        Some(reg) => rd16(log, reg, run),
        None => log,
    }
}

/// What the control register of a pipe reads as after `log`.
pub open spec fn pipectr_in(log: Log, pipe: u8, run: Log) -> u16 {
    match pipectr_reg(pipe) {
        Some(_) => in16(log, run),
        None => 0,
    }
}

pub open spec fn write_pipectr_log(log: Log, pipe: u8, value: u16) -> Log {
    match pipectr_reg(pipe) {
        Some(reg) => wr16(log, reg, value),
        None => log,
    }
}

/// Reads the control register of a pipe. A pipe without one reads as zero.
pub fn read_pipectr<I: Instance>(io: &mut Mmio<I>, pipe: u8) -> (r: u16)
    ensures
        grows(old(io).log(), final(io).log()),
        summary(final(io).log()) == summary(old(io).log()),
        forall|run: Log|
            #![trigger begins(final(io).log(), run)]
            begins(final(io).log(), run) ==> {
                &&& final(io).log() == read_pipectr_log(old(io).log(), pipe, run)
                &&& r == pipectr_in(old(io).log(), pipe, run)
            },
{
    if 1 <= pipe && pipe <= 5 {
        io.read16(Reg16::Pipectr(pipe - 1))
    } else if 6 <= pipe && pipe <= 9 {
        io.read16(Reg16::Pipectr2(pipe - 6))
    } else {
        0
    }
}

/// Writes the control register of a pipe.
pub fn write_pipectr<I: Instance>(io: &mut Mmio<I>, pipe: u8, value: u16)
    ensures
        grows(old(io).log(), final(io).log()),
        summary(final(io).log()) == summary(old(io).log()),
        final(io).log() == write_pipectr_log(old(io).log(), pipe, value),
{
    write_pipectr_reason(io, pipe, value, 0);
}

/// Writes the control register of a pipe. A pipe without one is left alone. The reason takes no
/// part.
pub fn write_pipectr_reason<I: Instance>(io: &mut Mmio<I>, pipe: u8, value: u16, _reason: u8)
    ensures
        grows(old(io).log(), final(io).log()),
        summary(final(io).log()) == summary(old(io).log()),
        final(io).log() == write_pipectr_log(old(io).log(), pipe, value),
{
    if 1 <= pipe && pipe <= 5 {
        io.write16(Reg16::Pipectr(pipe - 1), value);
    } else if 6 <= pipe && pipe <= 9 {
        io.write16(Reg16::Pipectr2(pipe - 6), value);
    }
}

pub open spec fn set_pipectr_bits_log(log: Log, pipe: u8, bits: u16, run: Log) -> Log {
    write_pipectr_log(read_pipectr_log(log, pipe, run), pipe, pipectr_in(log, pipe, run) | bits)
}

pub open spec fn clear_pipectr_bits_log(log: Log, pipe: u8, bits: u16, run: Log) -> Log {
    write_pipectr_log(read_pipectr_log(log, pipe, run), pipe, pipectr_in(log, pipe, run) & !bits)
}

pub open spec fn pulse_pipectr_bits_log(log: Log, pipe: u8, bits: u16, run: Log) -> Log {
    clear_pipectr_bits_log(set_pipectr_bits_log(log, pipe, bits, run), pipe, bits, run)
}

/// Sets bits of the control register of a pipe.
pub fn set_pipectr_bits<I: Instance>(io: &mut Mmio<I>, pipe: u8, bits: u16)
    ensures
        grows(old(io).log(), final(io).log()),
        summary(final(io).log()) == summary(old(io).log()),
        forall|run: Log|
            #![trigger begins(final(io).log(), run)]
            begins(final(io).log(), run) ==> final(io).log() == set_pipectr_bits_log(
                old(io).log(),
                pipe,
                bits,
                run,
            ),
{
    let current: u16 = read_pipectr(io, pipe);
    write_pipectr(io, pipe, current | bits);
}

/// Clears bits of the control register of a pipe.
pub fn clear_pipectr_bits<I: Instance>(io: &mut Mmio<I>, pipe: u8, bits: u16)
    ensures
        grows(old(io).log(), final(io).log()),
        summary(final(io).log()) == summary(old(io).log()),
        forall|run: Log|
            #![trigger begins(final(io).log(), run)]
            begins(final(io).log(), run) ==> final(io).log() == clear_pipectr_bits_log(
                old(io).log(),
                pipe,
                bits,
                run,
            ),
{
    let current: u16 = read_pipectr(io, pipe);
    write_pipectr(io, pipe, current & !bits);
}

/// Sets bits of the control register of a pipe and clears them again.
pub fn pulse_pipectr_bits<I: Instance>(io: &mut Mmio<I>, pipe: u8, bits: u16)
    ensures
        grows(old(io).log(), final(io).log()),
        summary(final(io).log()) == summary(old(io).log()),
        forall|run: Log|
            #![trigger begins(final(io).log(), run)]
            begins(final(io).log(), run) ==> final(io).log() == pulse_pipectr_bits_log(
                old(io).log(),
                pipe,
                bits,
                run,
            ),
{
    set_pipectr_bits(io, pipe, bits);
    clear_pipectr_bits(io, pipe, bits);
}

#[verifier::opaque]
pub open spec fn set_pipe_pid_log(log: Log, pipe: u8, pid: PipePid, run: Log) -> Log {
    write_pipectr_log(
        read_pipectr_log(log, pipe, run),
        pipe,
        (pipectr_in(log, pipe, run) & !USB_PID_MASK) | pid.bits(),
    )
}

/// Sets how a pipe answers the host.
pub fn set_pipe_pid<I: Instance>(io: &mut Mmio<I>, pipe: u8, pid: PipePid)
    ensures
        grows(old(io).log(), final(io).log()),
        summary(final(io).log()) == summary(old(io).log()),
        forall|run: Log|
            #![trigger begins(final(io).log(), run)]
            begins(final(io).log(), run) ==> final(io).log() == set_pipe_pid_log(
                old(io).log(),
                pipe,
                pid,
                run,
            ),
{
    proof {
        reveal(set_pipe_pid_log);
    }
    let current: u16 = read_pipectr(io, pipe);
    write_pipectr(io, pipe, (current & !USB_PID_MASK) | pid.bits());
}

/// Whether a pipe answers the host according to its buffer.
pub fn pipe_pid_is_buf<I: Instance>(io: &mut Mmio<I>, pipe: u8) -> (r: bool)
    ensures
        grows(old(io).log(), final(io).log()),
        summary(final(io).log()) == summary(old(io).log()),
        forall|run: Log|
            #![trigger begins(final(io).log(), run)]
            begins(final(io).log(), run) ==> {
                &&& final(io).log() == read_pipectr_log(old(io).log(), pipe, run)
                &&& r == (pipectr_in(old(io).log(), pipe, run) & USB_PID_MASK == USB_PID_BUF)
            },
{
    read_pipectr(io, pipe) & USB_PID_MASK == USB_PID_BUF
}

/// Whether a transaction is in progress on a pipe.
pub fn pipe_busy<I: Instance>(io: &mut Mmio<I>, pipe: u8) -> (r: bool)
    ensures
        grows(old(io).log(), final(io).log()),
        summary(final(io).log()) == summary(old(io).log()),
        forall|run: Log|
            #![trigger begins(final(io).log(), run)]
            begins(final(io).log(), run) ==> {
                &&& final(io).log() == read_pipectr_log(old(io).log(), pipe, run)
                &&& r == (pipectr_in(old(io).log(), pipe, run) & USB_PBUSY != 0)
            },
{
    read_pipectr(io, pipe) & USB_PBUSY != 0
}

/// The control register of the default control pipe with another response, and with the CCPL flag
/// set where the status stage is to be completed.
pub open spec fn dcp_pid_value(current: u16, pid: PipePid, complete: bool) -> u16 {
    let value = (current & !USB_PID_MASK) | pid.bits();
    if complete {
        value | USB_CCPL
    } else {
        value
    }
}

#[verifier::opaque]
pub open spec fn set_dcp_pid_log(log: Log, pid: PipePid, complete: bool, run: Log) -> Log {
    wr16(
        rd16(log, Reg16::Dcpctr, run),
        Reg16::Dcpctr,
        dcp_pid_value(in16(log, run), pid, complete),
    )
}

/// Sets how the control pipe answers the host, and completes the status stage if asked to.
pub fn set_dcp_pid<I: Instance>(io: &mut Mmio<I>, pid: PipePid, complete: bool)
    ensures
        grows(old(io).log(), final(io).log()),
        summary(final(io).log()) == summary(old(io).log()),
        forall|run: Log|
            #![trigger begins(final(io).log(), run)]
            begins(final(io).log(), run) ==> final(io).log() == set_dcp_pid_log(
                old(io).log(),
                pid,
                complete,
                run,
            ),
{
    proof {
        reveal(set_dcp_pid_log);
    }
    let current: u16 = io.read16(Reg16::Dcpctr);
    let mut value: u16 = (current & !USB_PID_MASK) | pid.bits();
    if complete {
        value = value | USB_CCPL;
    }
    io.write16(Reg16::Dcpctr, value);
}

#[verifier::opaque]
pub open spec fn set_pipe_nak_wait_log(log: Log, pipe: u8, run: Log) -> Log {
    match pipectr_reg(pipe) {
        Some(reg) => spin_log(
            wr16(rd16(log, reg, run), reg, in16(log, run) & !USB_PID_BUF),
            reg,
            USB_PBUSY,
            0,
            CFIFO_READY_SPINS as nat,
            run,
        ),
        None => log,
    }
}

/// Makes a pipe answer NAK and waits until the transaction in progress has ended.
pub fn set_pipe_nak_wait<I: Instance>(io: &mut Mmio<I>, pipe: u8)
    ensures
        grows(old(io).log(), final(io).log()),
        summary(final(io).log()) == summary(old(io).log()),
        forall|run: Log|
            #![trigger begins(final(io).log(), run)]
            begins(final(io).log(), run) ==> final(io).log() == set_pipe_nak_wait_log(
                old(io).log(),
                pipe,
                run,
            ),
{
    proof {
        reveal(set_pipe_nak_wait_log);
    }
    let current: u16 = read_pipectr(io, pipe);
    // Clear BUF first, then wait for PBUSY to drop.
    write_pipectr_reason(io, pipe, current & !USB_PID_BUF, 1);
    if 1 <= pipe && pipe <= 5 {
        spin(io, Reg16::Pipectr(pipe - 1), USB_PBUSY, 0, CFIFO_READY_SPINS);
    } else if 6 <= pipe && pipe <= 9 {
        spin(io, Reg16::Pipectr2(pipe - 6), USB_PBUSY, 0, CFIFO_READY_SPINS);
    }
}

/// `log` followed by what brings the control register of a pipe back to its initial state: toggle
/// bit and split state cleared, buffer emptied, answer NAK.
#[verifier::opaque]
pub open spec fn reset_pipe_control_log(log: Log, pipe: u8, run: Log) -> Log {
    let log1 = write_pipectr_log(log, pipe, USB_SQCLR | USB_PID_NAK);
    let log2 = set_pipectr_bits_log(log1, pipe, USB_CSCLR, run);
    pulse_pipectr_bits_log(log2, pipe, USB_ACLRM, run)
}

/// Brings the control register of a pipe back to its initial state.
pub fn reset_pipe_control<I: Instance>(io: &mut Mmio<I>, pipe: u8)
    ensures
        grows(old(io).log(), final(io).log()),
        summary(final(io).log()) == summary(old(io).log()),
        forall|run: Log|
            #![trigger begins(final(io).log(), run)]
            begins(final(io).log(), run) ==> final(io).log() == reset_pipe_control_log(
                old(io).log(),
                pipe,
                run,
            ),
{
    proof {
        reveal(reset_pipe_control_log);
    }
    write_pipectr_reason(io, pipe, USB_SQCLR | USB_PID_NAK, 2);
    set_pipectr_bits(io, pipe, USB_CSCLR);
    pulse_pipectr_bits(io, pipe, USB_ACLRM);
}

/// `log` followed by the writes that clear all three status flags of a pipe.
pub open spec fn clear_pipe_status_log(log: Log, pipe: u8) -> Log {
    let log1 = clear_status_log(log, Reg16::Brdysts, bit(pipe as int));
    let log2 = clear_status_log(log1, Reg16::Nrdysts, bit(pipe as int));
    clear_status_log(log2, Reg16::Bempsts, bit(pipe as int))
}

/// `log` followed by what sets up a pipe through the pipe window and resets it.
#[verifier::opaque]
pub open spec fn setup_pipe_log(log: Log, pipe: u8, pipecfg: u16, maxp: u16, run: Log) -> Log {
    let log1 = set_pipe_nak_wait_log(log, pipe, run);
    let log2 = wr16(log1, Reg16::Pipesel, pipe as u16);
    let log3 = wr16(log2, Reg16::Pipecfg, pipecfg);
    let log4 = wr16(log3, Reg16::Pipemaxp, maxp);
    let log5 = wr16(log4, Reg16::Pipeperi, 0);
    let log6 = wr16(log5, Reg16::Pipesel, 0);
    clear_pipe_status_log(reset_pipe_control_log(log6, pipe, run), pipe)
}

/// Whether the hardware has pipes for a transfer type.
pub open spec fn has_pipes(ep_type: EndpointType) -> bool {
    ep_type == EndpointType::Bulk || ep_type == EndpointType::Interrupt
}

/// Configuration of a pipe in the encoding of the pipe configuration register.
pub open spec fn pipecfg_value(binding: PipeBinding) -> u16 {
    let out = binding.ep_addr.direction() == UsbDirection::Out;
    let bulk = binding.ep_type == EndpointType::Bulk;
    let bf_re = if out {
        0u16
    } else {
        USB_PIPECFG_BFREON
    };
    let out_rx_mode = if out && bulk {
        USB_PIPECFG_SHTNAK
    } else {
        0u16
    };
    let pipe_type = if bulk {
        USB_PIPECFG_BULK | USB_PIPECFG_DBLBON
    } else {
        USB_PIPECFG_INTERRUPT
    };
    let pipe_dir = if out {
        0u16
    } else {
        USB_PIPECFG_DIR_IN
    };
    bf_re | out_rx_mode | pipe_type | pipe_dir | binding.ep_addr.index() as u16
}

/// The interrupt enable masks once a pipe is configured: a pipe that receives reports buffer ready
/// and not ready, a pipe that sends reports nothing.
pub open spec fn configured_masks(
    masks: EnableMasks,
    pipe: u8,
    binding: PipeBinding,
) -> EnableMasks {
    let bit = bit(pipe as int);
    if !has_pipes(binding.ep_type) {
        masks
    } else if binding.ep_addr.direction() == UsbDirection::Out {
        EnableMasks { brdy: masks.brdy | bit, nrdy: masks.nrdy | bit, bemp: masks.bemp & !bit }
    } else {
        EnableMasks { brdy: masks.brdy & !bit, nrdy: masks.nrdy & !bit, bemp: masks.bemp & !bit }
    }
}

/// `log` followed by the publication of all three interrupt enable masks.
pub open spec fn write_masks_log(log: Log, masks: EnableMasks) -> Log {
    let log1 = write_enb_log(log, Shadow::Brdyenb, masks.brdy);
    let log2 = write_enb_log(log1, Shadow::Nrdyenb, masks.nrdy);
    write_enb_log(log2, Shadow::Bempenb, masks.bemp)
}

#[verifier::opaque]
pub open spec fn configure_pipe_log(
    log: Log,
    masks: EnableMasks,
    pipe: u8,
    binding: PipeBinding,
    run: Log,
) -> Log {
    if has_pipes(binding.ep_type) {
        write_masks_log(
            setup_pipe_log(
                log,
                pipe,
                pipecfg_value(binding),
                binding.max_packet & USB_PIPEMAXP_MASK,
                run,
            ),
            configured_masks(masks, pipe, binding),
        )
    } else {
        log
    }
}

/// Sets up a pipe for the endpoint bound to it. Does nothing for a transfer type that the hardware
/// has no pipes for.
pub fn configure_pipe<I: Instance>(
    io: &mut Mmio<I>,
    brdyenb_shadow: &mut u16,
    nrdyenb_shadow: &mut u16,
    bempenb_shadow: &mut u16,
    pipe: u8,
    binding: PipeBinding,
)
    requires
        pipe < 16,
    ensures
        grows(old(io).log(), final(io).log()),
        summary(final(io).log()) == if has_pipes(binding.ep_type) {
            summary(old(io).log()).with_masks(
                EnableMasks {
                    brdy: *final(brdyenb_shadow),
                    nrdy: *final(nrdyenb_shadow),
                    bemp: *final(bempenb_shadow),
                },
            )
        } else {
            summary(old(io).log())
        },
        (EnableMasks {
            brdy: *final(brdyenb_shadow),
            nrdy: *final(nrdyenb_shadow),
            bemp: *final(bempenb_shadow),
        }) == configured_masks(
            EnableMasks {
                brdy: *old(brdyenb_shadow),
                nrdy: *old(nrdyenb_shadow),
                bemp: *old(bempenb_shadow),
            },
            pipe,
            binding,
        ),
        forall|run: Log|
            #![trigger begins(final(io).log(), run)]
            begins(final(io).log(), run) ==> final(io).log() == configure_pipe_log(
                old(io).log(),
                EnableMasks {
                    brdy: *old(brdyenb_shadow),
                    nrdy: *old(nrdyenb_shadow),
                    bemp: *old(bempenb_shadow),
                },
                pipe,
                binding,
                run,
            ),
{
    proof {
        reveal(setup_pipe_log);
        reveal(configure_pipe_log);
    }
    let pipe_type: u16 = match binding.ep_type {
        EndpointType::Bulk => USB_PIPECFG_BULK | USB_PIPECFG_DBLBON,
        EndpointType::Interrupt => USB_PIPECFG_INTERRUPT,
        _ => {
            return ;
        },
    };
    let out = match binding.ep_addr.direction() {
        UsbDirection::Out => true,
        UsbDirection::In => false,
    };
    let bulk = match binding.ep_type {
        EndpointType::Bulk => true,
        _ => false,
    };
    let pipe_dir: u16 = if out {
        0
    } else {
        USB_PIPECFG_DIR_IN
    };

    set_pipe_nak_wait(io, pipe);
    io.write16(Reg16::Pipesel, pipe as u16);
    let bf_re: u16 = if out {
        0
    } else {
        USB_PIPECFG_BFREON
    };
    let out_rx_mode: u16 = if out && bulk {
        USB_PIPECFG_SHTNAK
    } else {
        0
    };
    io.write16(
        Reg16::Pipecfg,
        bf_re | out_rx_mode | pipe_type | pipe_dir | binding.ep_addr.index() as u16,
    );
    io.write16(Reg16::Pipemaxp, binding.max_packet & USB_PIPEMAXP_MASK);
    io.write16(Reg16::Pipeperi, 0);
    io.write16(Reg16::Pipesel, 0);
    reset_pipe_control(io, pipe);
    clear_brdy(io, pipe);
    clear_nrdy(io, pipe);
    clear_bemp(io, pipe);
    let bit: u16 = 1u16 << pipe;
    let brdy: u16 = *brdyenb_shadow;
    let nrdy: u16 = *nrdyenb_shadow;
    let bemp: u16 = *bempenb_shadow;
    if out {
        write_brdyenb(io, brdyenb_shadow, brdy | bit);
        write_nrdyenb(io, nrdyenb_shadow, nrdy | bit);
        write_bempenb(io, bempenb_shadow, bemp & !bit);
    } else {
        write_brdyenb(io, brdyenb_shadow, brdy & !bit);
        write_nrdyenb(io, nrdyenb_shadow, nrdy & !bit);
        write_bempenb(io, bempenb_shadow, bemp & !bit);
    }
}

/// Takes a pipe out of use.
pub fn clear_pipe_config<I: Instance>(io: &mut Mmio<I>, pipe: u8)
    requires
        pipe < 16,
    ensures
        grows(old(io).log(), final(io).log()),
        summary(final(io).log()) == summary(old(io).log()),
        forall|run: Log|
            #![trigger begins(final(io).log(), run)]
            begins(final(io).log(), run) ==> final(io).log() == setup_pipe_log(
                old(io).log(),
                pipe,
                0,
                0,
                run,
            ),
{
    proof {
        reveal(setup_pipe_log);
    }
    set_pipe_nak_wait(io, pipe);
    io.write16(Reg16::Pipesel, pipe as u16);
    io.write16(Reg16::Pipecfg, 0);
    io.write16(Reg16::Pipemaxp, 0);
    io.write16(Reg16::Pipeperi, 0);
    io.write16(Reg16::Pipesel, 0);
    reset_pipe_control(io, pipe);
    clear_brdy(io, pipe);
    clear_nrdy(io, pipe);
    clear_bemp(io, pipe);
}

#[verifier::opaque]
pub open spec fn start_out_receive_log(log: Log, brdy: u16, nrdy: u16, pipe: u8, run: Log) -> Log {
    if 1 <= pipe <= 9 {
        let bit = bit(pipe as int);
        let log1 = set_pipe_nak_wait_log(log, pipe, run);
        let log2 = select_cfifo_log(log1, pipe, false, false, run);
        let log3 = clear_status_log(log2, Reg16::Brdysts, bit);
        let log4 = clear_status_log(log3, Reg16::Nrdysts, bit);
        let log5 = set_pipe_pid_log(log4, pipe, PipePid::Buf, run);
        let log6 = write_enb_log(log5, Shadow::Brdyenb, brdy | bit);
        write_enb_log(log6, Shadow::Nrdyenb, nrdy | bit)
    } else {
        log
    }
}

/// An interrupt enable mask once reception on a pipe is started.
pub open spec fn receiving_mask(mask: u16, pipe: u8) -> u16 {
    if 1 <= pipe <= 9 {
        mask | bit(pipe as int)
    } else {
        mask
    }
}

/// Makes a pipe ready to receive a packet. Does nothing for the control pipe.
pub fn start_out_receive<I: Instance>(
    io: &mut Mmio<I>,
    brdyenb_shadow: &mut u16,
    nrdyenb_shadow: &mut u16,
    pipe: u8,
    _max_packet: u16,
    _requested_len: u32,
)
    ensures
        grows(old(io).log(), final(io).log()),
        summary(final(io).log()) == if 1 <= pipe <= 9 {
            summary(old(io).log()).with_mask(Shadow::Brdyenb, *final(brdyenb_shadow)).with_mask(
                Shadow::Nrdyenb,
                *final(nrdyenb_shadow),
            )
        } else {
            summary(old(io).log())
        },
        *final(brdyenb_shadow) == receiving_mask(*old(brdyenb_shadow), pipe),
        *final(nrdyenb_shadow) == receiving_mask(*old(nrdyenb_shadow), pipe),
        forall|run: Log|
            #![trigger begins(final(io).log(), run)]
            begins(final(io).log(), run) ==> final(io).log() == start_out_receive_log(
                old(io).log(),
                *old(brdyenb_shadow),
                *old(nrdyenb_shadow),
                pipe,
                run,
            ),
{
    proof {
        reveal(start_out_receive_log);
        reveal(set_pipe_pid_log);
    }
    if pipe < 1 || pipe > 9 {
        return ;
    }
    let bit: u16 = 1u16 << pipe;
    set_pipe_nak_wait(io, pipe);
    select_cfifo(io, pipe, false, false);
    clear_brdy(io, pipe);
    clear_nrdy(io, pipe);
    let current: u16 = read_pipectr(io, pipe);
    write_pipectr_reason(io, pipe, (current & !USB_PID_MASK) | USB_PID_BUF, 5);
    let brdy: u16 = *brdyenb_shadow;
    write_brdyenb(io, brdyenb_shadow, brdy | bit);
    let nrdy: u16 = *nrdyenb_shadow;
    write_nrdyenb(io, nrdyenb_shadow, nrdy | bit);
}

} // verus!
