//! Views of a record of accesses that single out what matters for one purpose.

use crate::bits::lemma_word;
use crate::mmio::{rd16, Access, Log, Reg16, Reg8};
use crate::usb::regs::{
    fifo_ready_log, select_pipe0_log, select_pipe0_ready_log, spin_log, wr_bytes, CFIFO_READY_SPINS,
    READY_DELAY_CYCLES,
};
use vstd::prelude::*;

verus! {

/// The accesses of a record that satisfy a condition, oldest first.
#[verifier::opaque]
pub open spec fn seen(log: Log, keep: spec_fn(Access) -> bool) -> Log
    decreases log.len(),
{
    if log.len() == 0 {
        log
    } else if keep(log.last()) {
        seen(log.drop_last(), keep).push(log.last())
    } else {
        seen(log.drop_last(), keep)
    }
}

/// The values read from a half-word register, oldest first.
#[verifier::opaque]
pub open spec fn read16(log: Log, reg: Reg16) -> Seq<u16>
    decreases log.len(),
{
    if log.len() == 0 {
        Seq::empty()
    } else if log.last() is Read16 && log.last()->Read16_reg == reg {
        read16(log.drop_last(), reg).push(log.last()->Read16_value)
    } else {
        read16(log.drop_last(), reg)
    }
}

/// The values written to a half-word register, oldest first.
#[verifier::opaque]
pub open spec fn written16(log: Log, reg: Reg16) -> Seq<u16>
    decreases log.len(),
{
    if log.len() == 0 {
        Seq::empty()
    } else if log.last() is Write16 && log.last()->Write16_reg == reg {
        written16(log.drop_last(), reg).push(log.last()->Write16_value)
    } else {
        written16(log.drop_last(), reg)
    }
}

/// What a half-word register was last seen to hold: the value last read from it or written to it.
#[verifier::opaque]
pub open spec fn held16(log: Log, reg: Reg16) -> Option<u16>
    decreases log.len(),
{
    if log.len() == 0 {
        None
    } else if log.last() is Write16 && log.last()->Write16_reg == reg {
        Some(log.last()->Write16_value)
    } else if log.last() is Read16 && log.last()->Read16_reg == reg {
        Some(log.last()->Read16_value)
    } else {
        held16(log.drop_last(), reg)
    }
}

/// The control register of one of the pipes 1 to 9.
pub open spec fn control_register(pipe: int) -> Reg16 {
    if pipe <= 5 {
        Reg16::Pipectr((pipe - 1) as u8)
    } else {
        Reg16::Pipectr2((pipe - 6) as u8)
    }
}

/// What the pipe window was told about one pipe.
pub struct Window {
    /// The pipe that the window shows.
    pub selected: u16,
    /// The configuration last written while the window showed the pipe.
    pub config: Option<u16>,
    /// The packet size last written while the window showed the pipe.
    pub packet_size: Option<u16>,
}

impl Window {
    /// The window after one more access.
    pub open spec fn then_access(self, access: Access, pipe: u16) -> Window {
        match access {
            Access::Write16 { reg: Reg16::Pipesel, value } => Window { selected: value, ..self },
            Access::Write16 { reg: Reg16::Pipecfg, value } => if self.selected == pipe {
                Window { config: Some(value), ..self }
            } else {
                self
            },
            Access::Write16 { reg: Reg16::Pipemaxp, value } => if self.selected == pipe {
                Window { packet_size: Some(value), ..self }
            } else {
                self
            },
            _ => self,
        }
    }
}

/// What the pipe window was told about a pipe.
#[verifier::opaque]
pub open spec fn window(log: Log, pipe: u16) -> Window
    decreases log.len(),
{
    if log.len() == 0 {
        Window { selected: 0, config: None, packet_size: None }
    } else {
        window(log.drop_last(), pipe).then_access(log.last(), pipe)
    }
}

/// What is seen after one more access.
pub broadcast proof fn lemma_seen_push(log: Log, access: Access, keep: spec_fn(Access) -> bool)
    ensures
        #[trigger] seen(log.push(access), keep) == if keep(access) {
            seen(log, keep).push(access)
        } else {
            seen(log, keep)
        },
{
    reveal(seen);
    assert(log.push(access).drop_last() =~= log);
}

/// What was read after one more access.
pub broadcast proof fn lemma_read16_push(log: Log, access: Access, reg: Reg16)
    ensures
        #[trigger] read16(log.push(access), reg) == if access is Read16 && access->Read16_reg
            == reg {
            read16(log, reg).push(access->Read16_value)
        } else {
            read16(log, reg)
        },
{
    reveal(read16);
    assert(log.push(access).drop_last() =~= log);
}

/// What was written after one more access.
pub broadcast proof fn lemma_written16_push(log: Log, access: Access, reg: Reg16)
    ensures
        #[trigger] written16(log.push(access), reg) == if access is Write16 && access->Write16_reg
            == reg {
            written16(log, reg).push(access->Write16_value)
        } else {
            written16(log, reg)
        },
{
    reveal(written16);
    assert(log.push(access).drop_last() =~= log);
}

/// The pipe window after one more access.
pub broadcast proof fn lemma_window_push(log: Log, access: Access, pipe: u16)
    ensures
        #[trigger] window(log.push(access), pipe) == window(log, pipe).then_access(access, pipe),
{
    reveal(window);
    assert(log.push(access).drop_last() =~= log);
}

/// What a register holds after one more access.
pub broadcast proof fn lemma_held16_push(log: Log, access: Access, reg: Reg16)
    ensures
        #[trigger] held16(log.push(access), reg) == if access is Write16 && access->Write16_reg
            == reg {
            Some(access->Write16_value)
        } else if access is Read16 && access->Read16_reg == reg {
            Some(access->Read16_value)
        } else {
            held16(log, reg)
        },
{
    reveal(held16);
    assert(log.push(access).drop_last() =~= log);
}

/// Waiting for a register shows nothing of the others.
pub broadcast proof fn lemma_held16_spin(
    log: Log,
    reg: Reg16,
    mask: u16,
    want: u16,
    tries: nat,
    run: Log,
    other: Reg16,
)
    requires
        reg != other,
    ensures
        #[trigger] held16(spin_log(log, reg, mask, want, tries, run), other) == held16(log, other),
    decreases tries,
{
    broadcast use lemma_held16_push;

    reveal(spin_log);
    if tries > 0 {
        lemma_held16_spin(rd16(log, reg, run), reg, mask, want, (tries - 1) as nat, run, other);
    }
}

/// Waiting for a register shows nothing to who does not watch it.
pub broadcast proof fn lemma_seen_spin(
    log: Log,
    reg: Reg16,
    mask: u16,
    want: u16,
    tries: nat,
    run: Log,
    keep: spec_fn(Access) -> bool,
)
    requires
        forall|value: u16| !#[trigger] keep(Access::Read16 { reg, value }),
    ensures
        #[trigger] seen(spin_log(log, reg, mask, want, tries, run), keep) == seen(log, keep),
    decreases tries,
{
    broadcast use lemma_seen_push;

    reveal(spin_log);
    if tries > 0 {
        lemma_seen_spin(rd16(log, reg, run), reg, mask, want, (tries - 1) as nat, run, keep);
    }
}

/// Waiting for a register reads no other.
pub broadcast proof fn lemma_read16_spin(
    log: Log,
    reg: Reg16,
    mask: u16,
    want: u16,
    tries: nat,
    run: Log,
    other: Reg16,
)
    requires
        reg != other,
    ensures
        #[trigger] read16(spin_log(log, reg, mask, want, tries, run), other) == read16(log, other),
    decreases tries,
{
    broadcast use lemma_read16_push;

    reveal(spin_log);
    if tries > 0 {
        lemma_read16_spin(rd16(log, reg, run), reg, mask, want, (tries - 1) as nat, run, other);
    }
}

/// Waiting for a register writes none.
pub broadcast proof fn lemma_written16_spin(
    log: Log,
    reg: Reg16,
    mask: u16,
    want: u16,
    tries: nat,
    run: Log,
    other: Reg16,
)
    ensures
        #[trigger] written16(spin_log(log, reg, mask, want, tries, run), other) == written16(
            log,
            other,
        ),
    decreases tries,
{
    broadcast use lemma_written16_push;

    reveal(spin_log);
    if tries > 0 {
        lemma_written16_spin(
            rd16(log, reg, run),
            reg,
            mask,
            want,
            (tries - 1) as nat,
            run,
            other,
        );
    }
}

/// Waiting for a register leaves the pipe window alone.
pub broadcast proof fn lemma_window_spin(
    log: Log,
    reg: Reg16,
    mask: u16,
    want: u16,
    tries: nat,
    run: Log,
    pipe: u16,
)
    ensures
        #[trigger] window(spin_log(log, reg, mask, want, tries, run), pipe) == window(log, pipe),
    decreases tries,
{
    broadcast use lemma_window_push;

    reveal(spin_log);
    if tries > 0 {
        lemma_window_spin(rd16(log, reg, run), reg, mask, want, (tries - 1) as nat, run, pipe);
    }
}

/// Whether a condition overlooks what waiting for a port takes: looks at its control register and
/// at two more, and delays.
pub open spec fn overlooks_waiting(keep: spec_fn(Access) -> bool, ctr: Reg16) -> bool {
    &&& forall|value: u16| !#[trigger] keep(Access::Read16 { reg: ctr, value })
    &&& forall|value: u16| !#[trigger] keep(Access::Read16 { reg: Reg16::Syscfg, value })
    &&& forall|value: u16| !#[trigger] keep(Access::Read16 { reg: Reg16::Syssts0, value })
    &&& forall|cycles: u32| !#[trigger] keep(Access::Delay { cycles })
}

/// Waiting for a port shows nothing to who overlooks it.
pub broadcast proof fn lemma_seen_ready(
    log: Log,
    ctr: Reg16,
    tries: nat,
    run: Log,
    keep: spec_fn(Access) -> bool,
)
    requires
        overlooks_waiting(keep, ctr),
    ensures
        #[trigger] seen(fifo_ready_log(log, ctr, tries, run).0, keep) == seen(log, keep),
    decreases tries,
{
    broadcast use lemma_seen_push;

    reveal(fifo_ready_log);
    if tries > 0 {
        let log1 = rd16(log, ctr, run);
        let log3 = rd16(rd16(log1, Reg16::Syscfg, run), Reg16::Syssts0, run);
        let log4 = log3.push(Access::Delay { cycles: READY_DELAY_CYCLES });
        lemma_seen_ready(log4, ctr, (tries - 1) as nat, run, keep);
    }
}

/// Waiting for a port reads no data.
pub broadcast proof fn lemma_read16_ready(
    log: Log,
    ctr: Reg16,
    tries: nat,
    run: Log,
    other: Reg16,
)
    requires
        ctr != other,
        other != Reg16::Syscfg,
        other != Reg16::Syssts0,
    ensures
        #[trigger] read16(fifo_ready_log(log, ctr, tries, run).0, other) == read16(log, other),
    decreases tries,
{
    broadcast use lemma_read16_push;

    reveal(fifo_ready_log);
    if tries > 0 {
        let log1 = rd16(log, ctr, run);
        let log3 = rd16(rd16(log1, Reg16::Syscfg, run), Reg16::Syssts0, run);
        let log4 = log3.push(Access::Delay { cycles: READY_DELAY_CYCLES });
        lemma_read16_ready(log4, ctr, (tries - 1) as nat, run, other);
    }
}

/// Waiting for a port writes nothing.
pub broadcast proof fn lemma_written16_ready(
    log: Log,
    ctr: Reg16,
    tries: nat,
    run: Log,
    other: Reg16,
)
    ensures
        #[trigger] written16(fifo_ready_log(log, ctr, tries, run).0, other) == written16(
            log,
            other,
        ),
    decreases tries,
{
    broadcast use lemma_written16_push;

    reveal(fifo_ready_log);
    if tries > 0 {
        let log1 = rd16(log, ctr, run);
        let log3 = rd16(rd16(log1, Reg16::Syscfg, run), Reg16::Syssts0, run);
        let log4 = log3.push(Access::Delay { cycles: READY_DELAY_CYCLES });
        lemma_written16_ready(log4, ctr, (tries - 1) as nat, run, other);
    }
}

/// Connecting the control pipe shows nothing to who watches neither waiting nor the selection.
pub broadcast proof fn lemma_seen_pipe0(
    log: Log,
    in_direction: bool,
    tries: nat,
    run: Log,
    keep: spec_fn(Access) -> bool,
)
    requires
        overlooks_waiting(keep, Reg16::Cfifoctr),
        forall|value: u16| !#[trigger] keep(Access::Read16 { reg: Reg16::Cfifosel, value }),
        forall|value: u16| !#[trigger] keep(Access::Write16 { reg: Reg16::Cfifosel, value }),
    ensures
        #[trigger] seen(select_pipe0_ready_log(log, in_direction, tries, run).0, keep) == seen(
            log,
            keep,
        ),
    decreases tries,
{
    broadcast use {lemma_seen_push, lemma_seen_spin, lemma_seen_ready};

    reveal(select_pipe0_ready_log);
    if tries > 0 {
        reveal(select_pipe0_log);
        let log1 = select_pipe0_log(log, in_direction, run);
        let log2 = fifo_ready_log(log1, Reg16::Cfifoctr, CFIFO_READY_SPINS as nat, run).0;
        lemma_seen_pipe0(log2, in_direction, (tries - 1) as nat, run, keep);
    }
}

/// Connecting the control pipe reads nothing but control registers.
pub broadcast proof fn lemma_read16_pipe0(
    log: Log,
    in_direction: bool,
    tries: nat,
    run: Log,
    other: Reg16,
)
    requires
        other != Reg16::Cfifosel,
        other != Reg16::Cfifoctr,
        other != Reg16::Syscfg,
        other != Reg16::Syssts0,
    ensures
        #[trigger] read16(select_pipe0_ready_log(log, in_direction, tries, run).0, other) == read16(
            log,
            other,
        ),
    decreases tries,
{
    broadcast use {lemma_read16_push, lemma_read16_spin, lemma_read16_ready};

    reveal(select_pipe0_ready_log);
    if tries > 0 {
        reveal(select_pipe0_log);
        let log1 = select_pipe0_log(log, in_direction, run);
        let log2 = fifo_ready_log(log1, Reg16::Cfifoctr, CFIFO_READY_SPINS as nat, run).0;
        lemma_read16_pipe0(log2, in_direction, (tries - 1) as nat, run, other);
    }
}

/// Byte writes, as they are seen by who watches the register.
pub broadcast proof fn lemma_seen_bytes(
    log: Log,
    reg: Reg8,
    data: Seq<u8>,
    keep: spec_fn(Access) -> bool,
)
    requires
        forall|value: u8| #[trigger] keep(Access::Write8 { reg, value }),
    ensures
        #[trigger] seen(wr_bytes(log, reg, data), keep) == seen(log, keep) + Seq::new(
            data.len(),
            |i: int| Access::Write8 { reg, value: data[i] },
        ),
    decreases data.len(),
{
    broadcast use lemma_seen_push;

    reveal(wr_bytes);
    let bytes = Seq::new(data.len(), |i: int| Access::Write8 { reg, value: data[i] });
    if data.len() == 0 {
        assert(wr_bytes(log, reg, data) =~= log);
        assert(seen(log, keep) + bytes =~= seen(log, keep));
    } else {
        let head = data.drop_last();
        lemma_seen_bytes(log, reg, head, keep);
        let last = Access::Write8 { reg, value: data.last() };
        assert(wr_bytes(log, reg, data) =~= wr_bytes(log, reg, head).push(last));
        assert(seen(log, keep) + bytes =~= (seen(log, keep) + Seq::new(
            head.len(),
            |i: int| Access::Write8 { reg, value: head[i] },
        )).push(last));
    }
}

/// Byte writes write no half-word.
pub broadcast proof fn lemma_written16_bytes(log: Log, reg: Reg8, data: Seq<u8>, other: Reg16)
    ensures
        #[trigger] written16(wr_bytes(log, reg, data), other) == written16(log, other),
    decreases data.len(),
{
    broadcast use lemma_written16_push;

    reveal(wr_bytes);
    if data.len() == 0 {
        assert(wr_bytes(log, reg, data) =~= log);
    } else {
        let head = data.drop_last();
        lemma_written16_bytes(log, reg, head, other);
        assert(wr_bytes(log, reg, data) =~= wr_bytes(log, reg, head).push(
            Access::Write8 { reg, value: data.last() },
        ));
    }
}

/// Byte writes read nothing.
pub broadcast proof fn lemma_read16_bytes(log: Log, reg: Reg8, data: Seq<u8>, other: Reg16)
    ensures
        #[trigger] read16(wr_bytes(log, reg, data), other) == read16(log, other),
    decreases data.len(),
{
    broadcast use lemma_read16_push;

    reveal(wr_bytes);
    if data.len() == 0 {
        assert(wr_bytes(log, reg, data) =~= log);
    } else {
        let head = data.drop_last();
        lemma_read16_bytes(log, reg, head, other);
        assert(wr_bytes(log, reg, data) =~= wr_bytes(log, reg, head).push(
            Access::Write8 { reg, value: data.last() },
        ));
    }
}

/// Connecting the control pipe writes the selection of the CFIFO port, always the same, and no
/// other register.
pub proof fn lemma_written16_pipe0(
    log: Log,
    in_direction: bool,
    tries: nat,
    run: Log,
    other: Reg16,
)
    ensures
        ({
            let old = written16(log, other);
            let new = written16(
                select_pipe0_ready_log(log, in_direction, tries, run).0,
                other,
            );
            &&& other != Reg16::Cfifosel ==> new == old
            &&& old.len() <= new.len()
            &&& new.take(old.len() as int) == old
            &&& forall|i: int|
                old.len() <= i < new.len() ==> #[trigger] new[i] == if in_direction {
                    0x0020u16
                } else {
                    0
                }
            &&& other == Reg16::Cfifosel && tries > 0 ==> new.len() > old.len()
        }),
    decreases tries,
{
    broadcast use {lemma_written16_push, lemma_written16_spin, lemma_written16_ready};

    reveal(select_pipe0_ready_log);
    let old = written16(log, other);
    assert(old.take(old.len() as int) =~= old);
    if tries > 0 {
        reveal(select_pipe0_log);
        lemma_word(0x0020);
        let log1 = select_pipe0_log(log, in_direction, run);
        let (log2, ready) = fifo_ready_log(log1, Reg16::Cfifoctr, CFIFO_READY_SPINS as nat, run);
        let mid = written16(log2, other);
        assert(mid.take(old.len() as int) =~= old);
        if !ready {
            lemma_written16_pipe0(log2, in_direction, (tries - 1) as nat, run, other);
            let new = written16(
                select_pipe0_ready_log(log2, in_direction, (tries - 1) as nat, run).0,
                other,
            );
            assert(new.take(old.len() as int) =~= new.take(mid.len() as int).take(
                old.len() as int,
            ));
            assert forall|i: int| old.len() <= i < new.len() implies #[trigger] new[i]
                == if in_direction {
                0x0020u16
            } else {
                0
            } by {
                if i < mid.len() {
                    assert(new[i] == new.take(mid.len() as int)[i]);
                }
            }
        }
    }
}

} // verus!
