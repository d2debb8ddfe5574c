//! What the serial port program is made of: the PLL bring-up, the reports it logs and the echo.

use crate::clocks::{divider, PRCR_LOCK, PRCR_UNLOCK};
use crate::mmio::{
    begins, grows, in8, mod8, rd8, wr16, wr32, wr8, Access, Instance, Log, Mmio, Reg16, Reg32, Reg8,
};
use crate::summary::{lemma_summary_push, summary, Summary};
use crate::usb::endpoint::UsbError;
use vstd::prelude::*;

verus! {

broadcast use lemma_summary_push;

/// How long to wait after the clocks are set up and before the stack starts.
pub const BOOT_PAUSE_CYCLES: u32 = 4_800_000;

/// How long to wait after the device showed itself to the host.
pub const ATTACH_SETTLE_CYCLES: u32 = 480_000;

/// How often a stabilization flag is looked at before giving up.
pub const CLOCK_SPINS: u32 = 100_000;

/// How often the flag of the main clock oscillator is looked at before giving up.
pub const MOSC_SPINS: u32 = 5_000_000;

/// The high-speed on-chip oscillator is stable.
pub const HOCOSF: u8 = 0x01;

/// The main clock oscillator is stable.
pub const MOSCSF: u8 = 0x08;

/// The PLL is stable.
pub const PLLSF: u8 = 0x20;

/// Power mode and transition flag of the operating power control register.
pub const OPCM_BUSY: u8 = 0x13;

/// State of a USB device.
#[derive(Clone, Copy, Debug, PartialEq, Eq, Structural)]
pub enum UsbDeviceState {
    /// Connected, without an address.
    Default,
    /// The host has assigned an address.
    Addressed,
    /// The host has chosen a configuration.
    Configured,
    /// The bus is suspended.
    Suspend,
}

pub open spec fn state_code(state: UsbDeviceState) -> u8 {
    match state {
        UsbDeviceState::Default => 0,
        UsbDeviceState::Addressed => 1,
        UsbDeviceState::Configured => 2,
        UsbDeviceState::Suspend => 3,
    }
}

pub open spec fn coded_state(code: u8) -> Option<UsbDeviceState> {
    if code == 0 {
        Some(UsbDeviceState::Default)
    } else if code == 1 {
        Some(UsbDeviceState::Addressed)
    } else if code == 2 {
        Some(UsbDeviceState::Configured)
    } else if code == 3 {
        Some(UsbDeviceState::Suspend)
    } else {
        None
    }
}

/// Encodes a device state as a number.
pub fn encode_state(state: UsbDeviceState) -> (r: u8)
    ensures
        r == state_code(state),
{
    match state {
        UsbDeviceState::Default => 0,
        UsbDeviceState::Addressed => 1,
        UsbDeviceState::Configured => 2,
        UsbDeviceState::Suspend => 3,
    }
}

/// Decodes a device state. Numbers from 4 on stand for no state.
pub fn decode_state(code: u8) -> (r: Option<UsbDeviceState>)
    ensures
        r == coded_state(code),
{
    match code {
        0 => Some(UsbDeviceState::Default),
        1 => Some(UsbDeviceState::Addressed),
        2 => Some(UsbDeviceState::Configured),
        3 => Some(UsbDeviceState::Suspend),
        _ => None,
    }
}

/// Decoding gives back what was encoded, and nothing else is decoded. The states are numbered in
/// the order in which a device goes through them, with suspension last.
pub proof fn law_state_code_round_trip(state: UsbDeviceState, code: u8)
    ensures
        coded_state(0) == Some(UsbDeviceState::Default),
        coded_state(1) == Some(UsbDeviceState::Addressed),
        coded_state(2) == Some(UsbDeviceState::Configured),
        coded_state(3) == Some(UsbDeviceState::Suspend),
        coded_state(state_code(state)) == Some(state),
        coded_state(code) == Some(state) ==> code == state_code(state),
        coded_state(code) is None <==> code > 3,
{
}

/// The line that announces a device state.
pub fn log_state(state: UsbDeviceState) -> (r: &'static str)
    ensures
        r@ == match state {
            UsbDeviceState::Default => "usb state=Default"@,
            UsbDeviceState::Addressed => "usb state=Addressed"@,
            UsbDeviceState::Configured => "usb state=Configured"@,
            UsbDeviceState::Suspend => "usb state=Suspend"@,
        },
{
    match state {
        UsbDeviceState::Default => "usb state=Default",
        UsbDeviceState::Addressed => "usb state=Addressed",
        UsbDeviceState::Configured => "usb state=Configured",
        UsbDeviceState::Suspend => "usb state=Suspend",
    }
}

/// Lifts the protection of the clock registers.
pub fn unlock_prcr<I: Instance>(io: &mut Mmio<I>)
    ensures
        grows(old(io).log(), final(io).log()),
        summary(final(io).log()) == (Summary { prcr: PRCR_UNLOCK, ..summary(old(io).log()) }),
        final(io).log() == wr16(old(io).log(), Reg16::Prcr, 0xA503),
{
    io.write16(Reg16::Prcr, PRCR_UNLOCK);
}

/// Restores the protection of the clock registers.
pub fn lock_prcr<I: Instance>(io: &mut Mmio<I>)
    ensures
        grows(old(io).log(), final(io).log()),
        summary(final(io).log()) == (Summary { prcr: PRCR_LOCK, ..summary(old(io).log()) }),
        final(io).log() == wr16(old(io).log(), Reg16::Prcr, 0xA500),
{
    io.write16(Reg16::Prcr, PRCR_LOCK);
}

/// The dividers for a 48 MHz PLL in the encoding of the division register: `FCLK` and `PCLKB`
/// halved.
pub fn quickstart_sckdivcr() -> (r: u32)
    ensures
        r == 0x1001_0100u32,
        divider(r, 28) == 1 && divider(r, 24) == 0 && divider(r, 12) == 0 && divider(r, 8) == 1
            && divider(r, 4) == 0 && divider(r, 0) == 0,
{
    assert(((1u32 << 28u32 | 0u32 << 24u32) | 1u32 << 16u32 | 0u32 << 12u32 | 1u32 << 8u32
        | 0u32 << 4u32) == 0x1001_0100u32) by (bit_vector);
    assert({
        &&& (0x1001_0100u32 >> 28u32) & 7 == 1
        &&& (0x1001_0100u32 >> 24u32) & 7 == 0
        &&& (0x1001_0100u32 >> 12u32) & 7 == 0
        &&& (0x1001_0100u32 >> 8u32) & 7 == 1
        &&& (0x1001_0100u32 >> 4u32) & 7 == 0
        &&& (0x1001_0100u32 >> 0u32) & 7 == 0
    }) by (bit_vector);
    1u32 << 28u32 | 0u32 << 24u32 | 1u32 << 16u32 | 0u32 << 12u32 | 1u32 << 8u32 | 0u32 << 4u32
}

/// Waits for the supply to settle.
pub fn boot_pause<I: Instance>(io: &mut Mmio<I>)
    ensures
        grows(old(io).log(), final(io).log()),
        summary(final(io).log()) == summary(old(io).log()),
        final(io).log() == old(io).log().push(Access::Delay { cycles: 4_800_000 }),
{
    io.delay(BOOT_PAUSE_CYCLES);
}

/// Waits for the host to notice the device.
pub fn attach_settle_pause<I: Instance>(io: &mut Mmio<I>)
    ensures
        grows(old(io).log(), final(io).log()),
        summary(final(io).log()) == summary(old(io).log()),
        final(io).log() == old(io).log().push(Access::Delay { cycles: 480_000 }),
{
    io.delay(ATTACH_SETTLE_CYCLES);
}

/// `log` followed by reads of `reg` until one of them satisfies `read & mask == want`, but no more
/// than `tries` of them, and whether one did.
#[verifier::opaque]
pub open spec fn spin8_log(log: Log, reg: Reg8, mask: u8, want: u8, tries: nat, run: Log) -> (
    Log,
    bool,
)
    decreases tries,
{
    if tries == 0 {
        (log, false)
    } else if in8(log, run) & mask == want {
        (rd8(log, reg, run), true)
    } else {
        spin8_log(rd8(log, reg, run), reg, mask, want, (tries - 1) as nat, run)
    }
}

/// Reads a register until the bits under `mask` equal `want`, but no more than `tries` times.
/// Returns whether they did.
fn spin8<I: Instance>(io: &mut Mmio<I>, reg: Reg8, mask: u8, want: u8, tries: u32) -> (r: bool)
    ensures
        grows(old(io).log(), final(io).log()),
        summary(final(io).log()) == summary(old(io).log()),
        forall|run: Log|
            #![trigger begins(final(io).log(), run)]
            begins(final(io).log(), run) ==> (final(io).log(), r) == spin8_log(
                old(io).log(),
                reg,
                mask,
                want,
                tries as nat,
                run,
            ),
{
    proof {
        reveal(spin8_log);
    }
    let mut i: u32 = 0;
    while i < tries
        invariant
            i <= tries,
            grows(old(io).log(), io.log()),
            summary(io.log()) == summary(old(io).log()),
            forall|run: Log|
                #![trigger begins(io.log(), run)]
                begins(io.log(), run) ==> spin8_log(
                    old(io).log(),
                    reg,
                    mask,
                    want,
                    tries as nat,
                    run,
                ) == spin8_log(io.log(), reg, mask, want, (tries - i) as nat, run),
        decreases tries - i,
    {
        proof {
            reveal(spin8_log);
        }
        let value: u8 = io.read8(reg);
        if value & mask == want {
            return true;
        }
        i += 1;
    }
    false
}

/// A clock that did not stabilize in time.
#[derive(Clone, Copy, Debug, PartialEq, Eq, Structural)]
pub enum ClockTimeout {
    /// The high-speed on-chip oscillator.
    Hoco,
    /// The operating power mode.
    Opcm,
    /// The main clock oscillator.
    Mosc,
    /// The PLL.
    Pll,
}

impl ClockTimeout {
    /// What to say when giving up.
    pub fn message(self) -> (r: &'static str)
        ensures
            r@ == match self {
                ClockTimeout::Hoco => "HOCO timeout"@,
                ClockTimeout::Opcm => "OPCM timeout"@,
                ClockTimeout::Mosc => "MOSC timeout"@,
                ClockTimeout::Pll => "PLL timeout"@,
            },
    {
        match self {
            ClockTimeout::Hoco => "HOCO timeout",
            ClockTimeout::Opcm => "OPCM timeout",
            ClockTimeout::Mosc => "MOSC timeout",
            ClockTimeout::Pll => "PLL timeout",
        }
    }
}

/// `log` followed by the start of the high-speed on-chip oscillator, and whether it stabilized.
#[verifier::opaque]
pub open spec fn hoco_stage(log: Log, run: Log) -> (Log, bool) {
    spin8_log(
        mod8(log, Reg8::Hococr, !0x01u8, 0, run),
        Reg8::Oscsf,
        HOCOSF,
        HOCOSF,
        CLOCK_SPINS as nat,
        run,
    )
}

/// `log` followed by the switch to high-speed mode, and whether it was completed.
#[verifier::opaque]
pub open spec fn opcm_stage(log: Log, run: Log) -> (Log, bool) {
    spin8_log(
        mod8(log, Reg8::Opccr, !0x03u8, 0, run),
        Reg8::Opccr,
        OPCM_BUSY,
        0,
        CLOCK_SPINS as nat,
        run,
    )
}

/// `log` followed by the start of the main clock oscillator, unless it runs already, and whether it
/// stabilized.
#[verifier::opaque]
pub open spec fn mosc_stage(log: Log, run: Log) -> (Log, bool) {
    let log1 = rd8(log, Reg8::Mosccr, run);
    let log2 = if in8(log, run) != 0 {
        let waited = log1.push(Access::Wait8 { reg: Reg8::Oscsf, mask: MOSCSF, value: 0 });
        let moded = mod8(waited, Reg8::Momcr, !0x48u8, 0, run);
        mod8(wr8(moded, Reg8::Moscwtcr, 0x09), Reg8::Mosccr, !0x01u8, 0, run)
    } else {
        log1
    };
    spin8_log(log2, Reg8::Oscsf, MOSCSF, MOSCSF, MOSC_SPINS as nat, run)
}

/// `log` followed by the start of the PLL, unless it runs already, and whether it stabilized.
#[verifier::opaque]
pub open spec fn pll_stage(log: Log, run: Log) -> (Log, bool) {
    let log1 = rd8(log, Reg8::Pllcr, run);
    let log2 = if in8(log, run) != 0 {
        let multiplied = wr8(log1, Reg8::Pllccr2, 0x47);
        wr8(multiplied.push(Access::Delay { cycles: 64 }), Reg8::Pllcr, 0)
    } else {
        log1
    };
    spin8_log(log2, Reg8::Oscsf, PLLSF, PLLSF, CLOCK_SPINS as nat, run)
}

/// `log` followed by the switch of the system clock to the PLL.
#[verifier::opaque]
pub open spec fn switch_stage(log: Log, run: Log) -> Log {
    let log1 = mod8(log, Reg8::Memwait, !0x01u8, 0x01, run);
    let log2 = wr32(log1, Reg32::Sckdivcr, 0x1001_0100);
    mod8(log2, Reg8::Sckscr, !0x07u8, 0x05, run)
}

/// `log` followed by all that brings the PLL up, up to the first clock that does not stabilize, and
/// which one that is.
#[verifier::opaque]
pub open spec fn bring_up_stages(log: Log, run: Log) -> (Log, Result<(), ClockTimeout>) {
    let (log1, hoco) = hoco_stage(log, run);
    let (log2, opcm) = opcm_stage(log1, run);
    let (log3, mosc) = mosc_stage(log2, run);
    let (log4, pll) = pll_stage(log3, run);
    if !hoco {
        (log1, Err(ClockTimeout::Hoco))
    } else if !opcm {
        (log2, Err(ClockTimeout::Opcm))
    } else if !mosc {
        (log3, Err(ClockTimeout::Mosc))
    } else if !pll {
        (log4, Err(ClockTimeout::Pll))
    } else {
        (switch_stage(log4, run), Ok(()))
    }
}

/// `log` followed by the bring-up of the PLL between the lifting and the restoring of the
/// protection of the clock registers, and its outcome.
pub open spec fn setup_pll_log(log: Log, run: Log) -> (Log, Result<(), ClockTimeout>) {
    let (log1, outcome) = bring_up_stages(wr16(log, Reg16::Prcr, PRCR_UNLOCK), run);
    (wr16(log1, Reg16::Prcr, PRCR_LOCK), outcome)
}

fn start_hoco<I: Instance>(io: &mut Mmio<I>) -> (r: bool)
    ensures
        grows(old(io).log(), final(io).log()),
        summary(final(io).log()) == summary(old(io).log()),
        forall|run: Log|
            #![trigger begins(final(io).log(), run)]
            begins(final(io).log(), run) ==> (final(io).log(), r) == hoco_stage(
                old(io).log(),
                run,
            ),
{
    proof {
        reveal(hoco_stage);
    }
    modify8(io, Reg8::Hococr, !0x01u8, 0);
    spin8(io, Reg8::Oscsf, HOCOSF, HOCOSF, CLOCK_SPINS)
}

fn start_high_speed<I: Instance>(io: &mut Mmio<I>) -> (r: bool)
    ensures
        grows(old(io).log(), final(io).log()),
        summary(final(io).log()) == summary(old(io).log()),
        forall|run: Log|
            #![trigger begins(final(io).log(), run)]
            begins(final(io).log(), run) ==> (final(io).log(), r) == opcm_stage(
                old(io).log(),
                run,
            ),
{
    proof {
        reveal(opcm_stage);
    }
    modify8(io, Reg8::Opccr, !0x03u8, 0);
    spin8(io, Reg8::Opccr, OPCM_BUSY, 0, CLOCK_SPINS)
}

fn start_mosc<I: Instance>(io: &mut Mmio<I>) -> (r: bool)
    ensures
        grows(old(io).log(), final(io).log()),
        summary(final(io).log()) == summary(old(io).log()),
        forall|run: Log|
            #![trigger begins(final(io).log(), run)]
            begins(final(io).log(), run) ==> (final(io).log(), r) == mosc_stage(
                old(io).log(),
                run,
            ),
{
    proof {
        reveal(mosc_stage);
    }
    let mosccr: u8 = io.read8(Reg8::Mosccr);
    if mosccr != 0 {
        io.wait8(Reg8::Oscsf, MOSCSF, 0);
        modify8(io, Reg8::Momcr, !0x48u8, 0);
        io.write8(Reg8::Moscwtcr, 0x09);
        modify8(io, Reg8::Mosccr, !0x01u8, 0);
    }
    spin8(io, Reg8::Oscsf, MOSCSF, MOSCSF, MOSC_SPINS)
}

fn start_pll<I: Instance>(io: &mut Mmio<I>) -> (r: bool)
    ensures
        grows(old(io).log(), final(io).log()),
        summary(final(io).log()) == summary(old(io).log()),
        forall|run: Log|
            #![trigger begins(final(io).log(), run)]
            begins(final(io).log(), run) ==> (final(io).log(), r) == pll_stage(old(io).log(), run),
{
    proof {
        reveal(pll_stage);
    }
    let pllcr: u8 = io.read8(Reg8::Pllcr);
    if pllcr != 0 {
        io.write8(Reg8::Pllccr2, 0x47);
        io.delay(64);
        io.write8(Reg8::Pllcr, 0x00);
    }
    spin8(io, Reg8::Oscsf, PLLSF, PLLSF, CLOCK_SPINS)
}

/// Reads a register and writes it back with the bits outside of `keep` cleared and `set` set.
fn modify8<I: Instance>(io: &mut Mmio<I>, reg: Reg8, keep: u8, set: u8)
    ensures
        grows(old(io).log(), final(io).log()),
        summary(final(io).log()) == summary(old(io).log()),
        forall|run: Log|
            #![trigger begins(final(io).log(), run)]
            begins(final(io).log(), run) ==> final(io).log() == mod8(
                old(io).log(),
                reg,
                keep,
                set,
                run,
            ),
{
    let value: u8 = io.read8(reg);
    io.write8(reg, (value & keep) | set);
}

fn switch_to_pll<I: Instance>(io: &mut Mmio<I>)
    ensures
        grows(old(io).log(), final(io).log()),
        summary(final(io).log()) == summary(old(io).log()),
        forall|run: Log|
            #![trigger begins(final(io).log(), run)]
            begins(final(io).log(), run) ==> final(io).log() == switch_stage(old(io).log(), run),
{
    proof {
        reveal(switch_stage);
    }
    modify8(io, Reg8::Memwait, !0x01u8, 0x01);
    io.write32(Reg32::Sckdivcr, quickstart_sckdivcr());
    modify8(io, Reg8::Sckscr, !0x07u8, 0x05);
}

fn bring_up<I: Instance>(io: &mut Mmio<I>) -> (r: Result<(), ClockTimeout>)
    ensures
        grows(old(io).log(), final(io).log()),
        summary(final(io).log()) == summary(old(io).log()),
        forall|run: Log|
            #![trigger begins(final(io).log(), run)]
            begins(final(io).log(), run) ==> (final(io).log(), r) == bring_up_stages(
                old(io).log(),
                run,
            ),
{
    proof {
        reveal(bring_up_stages);
    }
    if !start_hoco(io) {
        return Err(ClockTimeout::Hoco);
    }
    if !start_high_speed(io) {
        return Err(ClockTimeout::Opcm);
    }
    if !start_mosc(io) {
        return Err(ClockTimeout::Mosc);
    }
    if !start_pll(io) {
        return Err(ClockTimeout::Pll);
    }
    switch_to_pll(io);
    Ok(())
}

/// Makes the system run from the PLL at 48 MHz.
///
/// Fails exactly if a clock does not stabilize, with the first one that does not. The clock
/// registers are protected again in any case.
pub fn setup_pll_48mhz<I: Instance>(io: &mut Mmio<I>) -> (r: Result<(), ClockTimeout>)
    ensures
        grows(old(io).log(), final(io).log()),
        summary(final(io).log()) == (Summary { prcr: PRCR_LOCK, ..summary(old(io).log()) }),
        forall|run: Log|
            #![trigger begins(final(io).log(), run)]
            begins(final(io).log(), run) ==> (final(io).log(), r) == setup_pll_log(
                old(io).log(),
                run,
            ),
{
    unlock_prcr(io);
    let r = bring_up(io);
    lock_prcr(io);
    r
}

/// What was last logged of the device and of the serial port.
#[derive(Clone, Copy, Debug, PartialEq, Eq, Structural)]
pub struct Monitor {
    pub last_state: UsbDeviceState,
    pub last_dtr: bool,
}

impl Monitor {
    /// A monitor of a device that is not connected yet.
    pub fn new() -> (r: Self)
        ensures
            r == (Monitor { last_state: UsbDeviceState::Default, last_dtr: false }),
    {
        Monitor { last_state: UsbDeviceState::Default, last_dtr: false }
    }

    /// Takes note of an encoded device state. Returns it if it is a state and has changed.
    pub fn observe_state(&mut self, code: u8) -> (r: Option<UsbDeviceState>)
        ensures
            r == if coded_state(code) is Some && coded_state(code) != Some(old(self).last_state) {
                coded_state(code)
            } else {
                None
            },
            final(self).last_state == if coded_state(code) is Some {
                coded_state(code)->0
            } else {
                old(self).last_state
            },
            final(self).last_dtr == old(self).last_dtr,
    {
        if let Some(state) = decode_state(code) {
            if state != self.last_state {
                self.last_state = state;
                return Some(state);
            }
        }
        None
    }

    /// Takes note of the DTR line. Returns it if it has changed.
    pub fn observe_dtr(&mut self, dtr: bool) -> (r: Option<bool>)
        ensures
            r == if dtr != old(self).last_dtr {
                Some(dtr)
            } else {
                None
            },
            final(self).last_dtr == dtr,
            final(self).last_state == old(self).last_state,
    {
        if dtr != self.last_dtr {
            self.last_dtr = dtr;
            return Some(dtr);
        }
        None
    }
}

/// Bytes on their way back to the host.
pub struct Echo {
    buf: [u8; 64],
    len: usize,
    off: usize,
}

/// What the echo has to do next.
#[derive(Clone, Copy, Debug, PartialEq, Eq, Structural)]
pub enum EchoAction {
    /// Read bytes from the host.
    Read,
    /// Write the pending bytes to the host.
    Write,
    /// Nothing.
    Wait,
}

/// What became of an action of the echo.
pub enum EchoEvent {
    /// Bytes came from the host.
    Received(Seq<u8>),
    /// So many of the pending bytes went to the host.
    Sent(nat),
    /// The pending bytes could not be sent.
    Dropped,
}

/// The pending bytes after one more event.
pub open spec fn pending_after(pending: Seq<u8>, event: EchoEvent) -> Seq<u8> {
    match event {
        EchoEvent::Received(data) => data,
        EchoEvent::Sent(count) => pending.skip(count as int),
        EchoEvent::Dropped => Seq::empty(),
    }
}

/// What a read of the serial port means to the echo: a failed read is one that brings nothing.
pub open spec fn read_event(buf: Seq<u8>, result: Result<usize, UsbError>) -> EchoEvent {
    match result {
        Ok(count) => EchoEvent::Received(buf.take(count as int)),
        Err(_) => EchoEvent::Received(Seq::empty()),
    }
}

/// What a write to the serial port means to the echo: a write that would block is one that takes
/// nothing, and any other failure drops what is pending.
pub open spec fn write_event(result: Result<usize, UsbError>) -> EchoEvent {
    match result {
        Ok(count) => EchoEvent::Sent(count as nat),
        Err(error) => if error == UsbError::WouldBlock {
            EchoEvent::Sent(0)
        } else {
            EchoEvent::Dropped
        },
    }
}

impl Echo {
    /// The window of pending bytes lies in the buffer, and an empty window lies at its beginning.
    pub closed spec fn wf(&self) -> bool {
        &&& self.off <= self.len <= 64
        &&& self.off == self.len ==> self.len == 0
    }

    /// The bytes that were read and not written yet.
    pub closed spec fn pending(&self) -> Seq<u8> {
        self.buf@.subrange(self.off as int, self.len as int)
    }

    /// An echo with nothing pending.
    pub fn new() -> (r: Self)
        ensures
            r.wf(),
            r.pending() == Seq::<u8>::empty(),
    {
        let r = Echo { buf: [0u8;64], len: 0, off: 0 };
        assert(r.pending() =~= Seq::<u8>::empty());
        r
    }

    /// Decides what to do next. The host is listened to only while it is ready and nothing is
    /// pending.
    pub fn next_action(&self, dtr_active: bool) -> (r: EchoAction)
        requires
            self.wf(),
        ensures
            r == if self.pending().len() > 0 {
                EchoAction::Write
            } else if dtr_active {
                EchoAction::Read
            } else {
                EchoAction::Wait
            },
    {
        if self.len == 0 {
            if dtr_active {
                EchoAction::Read
            } else {
                EchoAction::Wait
            }
        } else {
            EchoAction::Write
        }
    }

    /// Takes over the outcome of a read of the serial port into `buf`.
    pub fn on_read(&mut self, buf: [u8; 64], result: Result<usize, UsbError>)
        requires
            old(self).wf(),
            old(self).pending().len() == 0,
            result matches Ok(count) ==> count <= 64,
        ensures
            final(self).wf(),
            final(self).pending() == pending_after(old(self).pending(), read_event(buf@, result)),
    {
        self.buf = buf;
        if let Ok(count) = result {
            if count > 0 {
                self.len = count;
                self.off = 0;
            }
        }
        assert(self.pending() =~= pending_after(old(self).pending(), read_event(buf@, result)));
    }

    /// The bytes to write next.
    pub fn rest(&self) -> (r: &[u8])
        requires
            self.wf(),
        ensures
            r@ == self.pending(),
    {
        let r = &self.buf[self.off..self.len];
        assert(r@ =~= self.pending());
        r
    }

    /// Takes over the outcome of a write of the pending bytes to the serial port.
    pub fn on_write(&mut self, result: Result<usize, UsbError>)
        requires
            old(self).wf(),
            old(self).pending().len() > 0,
            result matches Ok(count) ==> count <= old(self).pending().len(),
        ensures
            final(self).wf(),
            final(self).pending() == pending_after(old(self).pending(), write_event(result)),
    {
        match result {
            Ok(written) => {
                if written > 0 {
                    self.off = self.off + written;
                    if self.off == self.len {
                        self.len = 0;
                        self.off = 0;
                    }
                }
            },
            Err(UsbError::WouldBlock) => {},
            Err(_) => {
                self.len = 0;
                self.off = 0;
            },
        }
        assert(self.pending() =~= pending_after(old(self).pending(), write_event(result)));
    }
}

/// What a read or a write means to what is pending. A read replaces it by the bytes read, and by
/// nothing if it fails. A write takes the bytes written off its beginning, a write that would block
/// leaves all of it, and a write that fails otherwise drops all of it.
pub proof fn law_echo_takes_off_what_was_sent(
    pending: Seq<u8>,
    buf: Seq<u8>,
    count: usize,
    error: UsbError,
)
    requires
        count <= buf.len(),
        count <= pending.len(),
    ensures
        pending_after(pending, read_event(buf, Ok(count))) == buf.take(count as int),
        pending_after(pending, read_event(buf, Err(error))).len() == 0,
        pending == pending.take(count as int) + pending_after(pending, write_event(Ok(count))),
        error == UsbError::WouldBlock ==> pending_after(pending, write_event(Err(error)))
            == pending,
        error != UsbError::WouldBlock ==> pending_after(
            pending,
            write_event(Err(error)),
        ).len() == 0,
{
    assert(pending =~= pending.take(count as int) + pending.skip(count as int));
    assert(pending.skip(0) =~= pending);
}

/// The pending bytes after a history of events, starting with none.
pub open spec fn pending_of(events: Seq<EchoEvent>) -> Seq<u8>
    decreases events.len(),
{
    if events.len() == 0 {
        Seq::empty()
    } else {
        pending_after(pending_of(events.drop_last()), events.last())
    }
}

/// All bytes that came from the host, in order.
pub open spec fn bytes_in(events: Seq<EchoEvent>) -> Seq<u8>
    decreases events.len(),
{
    if events.len() == 0 {
        Seq::empty()
    } else {
        match events.last() {
            EchoEvent::Received(data) => bytes_in(events.drop_last()) + data,
            _ => bytes_in(events.drop_last()),
        }
    }
}

/// All bytes that went to the host, in order.
pub open spec fn bytes_out(events: Seq<EchoEvent>) -> Seq<u8>
    decreases events.len(),
{
    if events.len() == 0 {
        Seq::empty()
    } else {
        let before = events.drop_last();
        match events.last() {
            EchoEvent::Sent(count) => bytes_out(before) + pending_of(before).take(count as int),
            _ => bytes_out(before),
        }
    }
}

/// A history that the echo can have without losing bytes: it reads only while nothing is pending,
/// no write takes more than what is pending, and no write fails for good.
pub open spec fn lossless(events: Seq<EchoEvent>) -> bool
    decreases events.len(),
{
    events.len() == 0 || {
        let before = events.drop_last();
        &&& lossless(before)
        &&& match events.last() {
            EchoEvent::Received(_) => pending_of(before).len() == 0,
            EchoEvent::Sent(count) => count <= pending_of(before).len(),
            EchoEvent::Dropped => false,
        }
    }
}

/// The echo returns exactly the bytes that came in, in order: what went out and what is pending
/// make up what came in.
pub proof fn law_echo_is_faithful(events: Seq<EchoEvent>)
    requires
        lossless(events),
    ensures
        bytes_out(events) + pending_of(events) == bytes_in(events),
    decreases events.len(),
{
    if events.len() > 0 {
        let before = events.drop_last();
        law_echo_is_faithful(before);
        match events.last() {
            EchoEvent::Received(data) => {
                assert(bytes_out(events) + data =~= (bytes_out(before) + pending_of(before))
                    + data);
            },
            EchoEvent::Sent(count) => {
                let pending = pending_of(before);
                assert(pending.take(count as int) + pending.skip(count as int) =~= pending);
                assert((bytes_out(before) + pending.take(count as int)) + pending.skip(
                    count as int,
                ) =~= bytes_out(before) + pending);
            },
            EchoEvent::Dropped => {},
        }
    }
}

} // verus!
