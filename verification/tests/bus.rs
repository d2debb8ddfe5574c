//! The bus as the USB stack uses it.

use ra4_hal::usb::bus::pipes::max_packet_for_pipe;
use ra4_hal::usb::endpoint::{
    EndpointAddress, EndpointType, PollResult, UsbDirection, UsbError,
};
use ra4_hal::usb::types::{Bempsts, Brdysts, Intsts0, Nrdysts};
use ra4_hal::usb::{Bus, Config, Driver};
use ra4_hal::mmio::{Access, IrqOp, Reg16, Reg32, Reg8, Shadow};
use ra4_hal::usb::{Instance, UsbIrqEvent, UsbIrqLocalState};
use std::cell::RefCell;
use std::rc::Rc;

/// What the simulated chip holds.
#[derive(Default)]
struct Cells {
    log: Vec<Access>,
    quiet: bool,
    memory8: Vec<(Reg8, u8)>,
    memory16: Vec<(Reg16, u16)>,
    memory32: Vec<(Reg32, u32)>,
    script8: Vec<(Reg8, u8)>,
    script16: Vec<(Reg16, u16)>,
    fixed16: Vec<(Reg16, u16)>,
    fixed32: Vec<(Reg32, u32)>,
    shadow: [u16; 3],
    pending: bool,
    latched: UsbIrqEvent,
    arriving: Vec<UsbIrqEvent>,
    local: UsbIrqLocalState,
}

/// A chip whose registers read as what was written last, unless a test says otherwise.
#[derive(Clone, Default)]
struct Chip(Rc<RefCell<Cells>>);

#[allow(dead_code)]
impl Chip {
    fn log(&self) -> Vec<Access> {
        self.0.borrow().log.clone()
    }
    fn forget(&self) {
        self.0.borrow_mut().log.clear();
    }
    fn quiet(&self) {
        self.0.borrow_mut().quiet = true;
    }
    /// The register reads as `value` for good.
    fn fix16(&self, reg: Reg16, value: u16) {
        self.0.borrow_mut().fixed16.retain(|e| e.0 != reg);
        self.0.borrow_mut().fixed16.push((reg, value));
    }
    fn stick32(&self, reg: Reg32, value: u32) {
        self.0.borrow_mut().fixed32.push((reg, value));
    }
    fn unfix16(&self, reg: Reg16) {
        self.0.borrow_mut().fixed16.retain(|e| e.0 != reg);
    }
    /// The next read of the register returns `value`.
    fn next16(&self, reg: Reg16, value: u16) {
        self.0.borrow_mut().script16.push((reg, value));
    }
    fn next8(&self, reg: Reg8, value: u8) {
        self.0.borrow_mut().script8.push((reg, value));
    }
    fn set8(&self, reg: Reg8, value: u8) {
        self.0.borrow_mut().memory8.retain(|e| e.0 != reg);
        self.0.borrow_mut().memory8.push((reg, value));
    }
    fn set16(&self, reg: Reg16, value: u16) {
        self.0.borrow_mut().memory16.retain(|e| e.0 != reg);
        self.0.borrow_mut().memory16.push((reg, value));
    }
    fn set32(&self, reg: Reg32, value: u32) {
        self.0.borrow_mut().memory32.retain(|e| e.0 != reg);
        self.0.borrow_mut().memory32.push((reg, value));
    }
    fn get16(&self, reg: Reg16) -> u16 {
        let cells = self.0.borrow();
        cells.memory16.iter().find(|e| e.0 == reg).map_or(0, |e| e.1)
    }
    /// The interrupt handler latches the next event that is due, if the latch is free.
    fn arrive(&self) {
        let mut cells = self.0.borrow_mut();
        if !cells.pending && !cells.arriving.is_empty() {
            cells.latched = cells.arriving.remove(0);
            cells.pending = true;
        }
    }
    fn note(&self, access: Access) {
        let mut cells = self.0.borrow_mut();
        if !cells.quiet {
            cells.log.push(access);
        }
    }
}

impl Instance for Chip {
    fn read8(&mut self, reg: Reg8) -> u8 {
        let mut cells = self.0.borrow_mut();
        let value = match cells.script8.iter().position(|e| e.0 == reg) {
            Some(at) => cells.script8.remove(at).1,
            None => cells.memory8.iter().find(|e| e.0 == reg).map_or(0, |e| e.1),
        };
        drop(cells);
        self.note(Access::Read8 { reg, value });
        value
    }
    fn write8(&mut self, reg: Reg8, value: u8) {
        self.set8(reg, value);
        self.note(Access::Write8 { reg, value });
    }
    fn read16(&mut self, reg: Reg16) -> u16 {
        let mut cells = self.0.borrow_mut();
        let value = match cells.script16.iter().position(|e| e.0 == reg) {
            Some(at) => cells.script16.remove(at).1,
            None => match cells.fixed16.iter().find(|e| e.0 == reg) {
                Some(e) => e.1,
                None => cells.memory16.iter().find(|e| e.0 == reg).map_or(0, |e| e.1),
            },
        };
        drop(cells);
        self.note(Access::Read16 { reg, value });
        value
    }
    fn write16(&mut self, reg: Reg16, value: u16) {
        self.set16(reg, value);
        self.note(Access::Write16 { reg, value });
    }
    fn read32(&mut self, reg: Reg32) -> u32 {
        let cells = self.0.borrow();
        let value = match cells.fixed32.iter().find(|e| e.0 == reg) {
            Some(e) => e.1,
            None => cells.memory32.iter().find(|e| e.0 == reg).map_or(0, |e| e.1),
        };
        drop(cells);
        self.note(Access::Read32 { reg, value });
        value
    }
    fn write32(&mut self, reg: Reg32, value: u32) {
        self.set32(reg, value);
        self.note(Access::Write32 { reg, value });
    }
    fn wait8(&mut self, reg: Reg8, mask: u8, value: u8) {
        self.note(Access::Wait8 { reg, mask, value });
    }
    fn wait16(&mut self, reg: Reg16, mask: u16, value: u16) {
        self.note(Access::Wait16 { reg, mask, value });
    }
    fn delay(&mut self, cycles: u32) {
        self.note(Access::Delay { cycles });
    }
    fn irq(&mut self, op: IrqOp) {
        self.note(Access::Irq { op });
    }
    fn enter(&mut self) {
        self.note(Access::Enter);
    }
    fn leave(&mut self) {
        self.note(Access::Leave);
    }
    fn load_shadow(&mut self, which: Shadow) -> u16 {
        let value = self.0.borrow().shadow[which as usize];
        self.note(Access::LoadShadow { which, value });
        value
    }
    fn store_shadow(&mut self, which: Shadow, value: u16) {
        self.0.borrow_mut().shadow[which as usize] = value;
        self.note(Access::StoreShadow { which, value });
    }
    fn load_pending(&mut self) -> bool {
        self.arrive();
        let value = self.0.borrow().pending;
        self.note(Access::LoadPending { value });
        value
    }
    fn store_pending(&mut self, value: bool) {
        self.0.borrow_mut().pending = value;
        self.note(Access::StorePending { value });
    }
    fn load_latched(&mut self) -> UsbIrqEvent {
        let value = self.0.borrow().latched;
        self.note(Access::LoadLatched { value });
        value
    }
    fn store_latched(&mut self, value: UsbIrqEvent) {
        self.0.borrow_mut().latched = value;
        self.note(Access::StoreLatched { value });
    }
    fn load_local(&mut self) -> UsbIrqLocalState {
        let value = self.0.borrow().local;
        self.note(Access::LoadLocal { value });
        value
    }
    fn store_local(&mut self, value: UsbIrqLocalState) {
        self.0.borrow_mut().local = value;
        self.note(Access::StoreLocal { value });
    }
}

const EP0_OUT: EndpointAddress = EndpointAddress(0x00);
const EP0_IN: EndpointAddress = EndpointAddress(0x80);

fn fresh() -> (Chip, Bus<Chip>) {
    let chip = Chip::default();
    let driver = Driver::new(chip.clone(), Config { force_reset_on_init: false }).unwrap();
    let bus = Bus::new(driver);
    chip.forget();
    (chip, bus)
}

fn bulk(bus: &mut Bus<Chip>, dir: UsbDirection, size: u16) -> EndpointAddress {
    bus.alloc_ep(dir, None, EndpointType::Bulk, size, 0).unwrap()
}

/// A bus with control endpoints of 64 bytes, bulk endpoint 1 OUT on pipe 1 and 1 IN on pipe 2.
fn ready() -> (Chip, Bus<Chip>) {
    let (chip, mut bus) = fresh();
    bus.alloc_ep(UsbDirection::Out, Some(EP0_OUT), EndpointType::Control, 64, 0).unwrap();
    bus.alloc_ep(UsbDirection::In, Some(EP0_IN), EndpointType::Control, 64, 0).unwrap();
    assert_eq!(bulk(&mut bus, UsbDirection::Out, 64), EndpointAddress(0x01));
    assert_eq!(bulk(&mut bus, UsbDirection::In, 64), EndpointAddress(0x81));
    chip.fix16(Reg16::Cfifoctr, 0x2000);
    chip.fix16(Reg16::D0fifoctr, 0x2000);
    chip.forget();
    (chip, bus)
}

/// The masks in the state, in the registers and before the interrupt handler agree.
fn assert_in_step(chip: &Chip, bus: &Bus<Chip>) {
    let state = bus.state();
    let shadow = chip.0.borrow().shadow;
    assert_eq!(shadow, [state.brdyenb_shadow, state.nrdyenb_shadow, state.bempenb_shadow]);
    assert_eq!(chip.get16(Reg16::Brdyenb), state.brdyenb_shadow);
    assert_eq!(chip.get16(Reg16::Nrdyenb), state.nrdyenb_shadow);
    assert_eq!(chip.get16(Reg16::Bempenb), state.bempenb_shadow);
    assert_attentive(bus);
}

/// Receivers report packets, and busy pipes report the end of theirs.
fn assert_attentive(bus: &Bus<Chip>) {
    let state = bus.state();
    for pipe in 1..=9usize {
        let bit = 1u16 << pipe;
        let direction = state.pipe_bindings[pipe].map(|b| b.ep_addr.direction());
        let receives = direction == Some(UsbDirection::Out);
        assert_eq!(state.brdyenb_shadow & bit != 0, receives);
        assert_eq!(state.nrdyenb_shadow & bit != 0, receives);
        if state.in_busy_mask & bit != 0 {
            assert_eq!(direction, Some(UsbDirection::In));
            assert!(state.bempenb_shadow & bit != 0);
        }
    }
}

fn snapshot(bus: &mut Bus<Chip>, event: UsbIrqEvent) {
    bus.merge_irq_event(&event);
}

#[test]
fn control_endpoints_are_allocated_once_and_agree_on_size() {
    let (_, mut bus) = fresh();
    let control = EndpointType::Control;
    assert_eq!(
        bus.alloc_ep(UsbDirection::Out, None, control, 65, 0),
        Err(UsbError::Unsupported)
    );
    assert_eq!(
        bus.alloc_ep(UsbDirection::Out, Some(EndpointAddress(1)), control, 64, 0),
        Err(UsbError::InvalidEndpoint)
    );
    assert_eq!(
        bus.alloc_ep(UsbDirection::Out, Some(EP0_IN), control, 64, 0),
        Err(UsbError::InvalidEndpoint)
    );
    assert_eq!(bus.alloc_ep(UsbDirection::Out, None, control, 64, 0), Ok(EP0_OUT));
    assert_eq!(
        bus.alloc_ep(UsbDirection::Out, None, control, 64, 0),
        Err(UsbError::InvalidEndpoint)
    );
    assert_eq!(
        bus.alloc_ep(UsbDirection::In, None, control, 32, 0),
        Err(UsbError::EndpointMemoryOverflow)
    );
    assert_eq!(bus.alloc_ep(UsbDirection::In, Some(EP0_IN), control, 64, 0), Ok(EP0_IN));
    assert_eq!(
        bus.alloc_ep(UsbDirection::In, None, control, 64, 0),
        Err(UsbError::InvalidEndpoint)
    );
    assert_eq!(bus.state().ep0_max_packet, 64);
}

#[test]
fn isochronous_endpoints_are_not_supported() {
    let (chip, mut bus) = fresh();
    assert_eq!(
        bus.alloc_ep(UsbDirection::In, None, EndpointType::Isochronous, 64, 0),
        Err(UsbError::Unsupported)
    );
    assert!(chip.log().is_empty());
}

#[test]
fn bulk_endpoints_get_the_lowest_index_and_pipe() {
    let (_, mut bus) = fresh();
    for n in 1..=5u8 {
        let size = if n <= 2 { 256 } else { 32 };
        assert_eq!(bulk(&mut bus, UsbDirection::In, size), EndpointAddress(0x80 | n));
        let binding = bus.state().pipe_bindings[n as usize].unwrap();
        assert_eq!(binding.ep_addr, EndpointAddress(0x80 | n));
        assert_eq!(binding.max_packet, size);
    }
    assert_eq!(
        bus.alloc_ep(UsbDirection::In, None, EndpointType::Bulk, 64, 0),
        Err(UsbError::EndpointOverflow)
    );
    assert_eq!(bus.state().allocated_in_mask, 0x003e);
    assert_eq!(bus.state().allocated_out_mask, 0);
}

#[test]
fn interrupt_endpoints_sit_on_pipes_6_to_9() {
    let (_, mut bus) = fresh();
    for n in 6..=9usize {
        bus.alloc_ep(UsbDirection::Out, None, EndpointType::Interrupt, 64, 1).unwrap();
        assert!(bus.state().pipe_bindings[n].is_some());
    }
    assert_eq!(
        bus.alloc_ep(UsbDirection::In, None, EndpointType::Interrupt, 8, 1),
        Err(UsbError::EndpointOverflow)
    );
}

#[test]
fn requested_addresses_are_honoured_or_refused() {
    let (_, mut bus) = fresh();
    let address = EndpointAddress(0x83);
    assert_eq!(
        bus.alloc_ep(UsbDirection::In, Some(address), EndpointType::Bulk, 64, 0),
        Ok(address)
    );
    assert_eq!(
        bus.alloc_ep(UsbDirection::In, Some(address), EndpointType::Bulk, 64, 0),
        Err(UsbError::InvalidEndpoint)
    );
    assert_eq!(
        bus.alloc_ep(UsbDirection::Out, Some(EndpointAddress(0x84)), EndpointType::Bulk, 64, 0),
        Err(UsbError::InvalidEndpoint)
    );
    assert_eq!(
        bus.alloc_ep(UsbDirection::Out, Some(EndpointAddress(0x03)), EndpointType::Bulk, 64, 0),
        Ok(EndpointAddress(0x03))
    );
    assert_eq!(
        bus.alloc_ep(UsbDirection::Out, Some(EP0_OUT), EndpointType::Bulk, 64, 0),
        Ok(EndpointAddress(0x01))
    );
}

#[test]
fn packet_sizes_per_pipe() {
    let bulk = EndpointType::Bulk;
    let interrupt = EndpointType::Interrupt;
    assert_eq!(max_packet_for_pipe(bulk, 1, 256), Ok(256));
    assert_eq!(max_packet_for_pipe(bulk, 2, 1), Ok(1));
    assert_eq!(max_packet_for_pipe(bulk, 2, 257), Err(UsbError::Unsupported));
    assert_eq!(max_packet_for_pipe(bulk, 1, 0), Err(UsbError::Unsupported));
    for size in [8u16, 16, 32, 64] {
        assert_eq!(max_packet_for_pipe(bulk, 4, size), Ok(size));
    }
    assert_eq!(max_packet_for_pipe(bulk, 3, 24), Err(UsbError::Unsupported));
    assert_eq!(max_packet_for_pipe(bulk, 6, 64), Err(UsbError::Unsupported));
    assert_eq!(max_packet_for_pipe(interrupt, 6, 64), Ok(64));
    assert_eq!(max_packet_for_pipe(interrupt, 9, 65), Err(UsbError::Unsupported));
    assert_eq!(max_packet_for_pipe(interrupt, 9, 0), Err(UsbError::Unsupported));
    assert_eq!(max_packet_for_pipe(interrupt, 5, 8), Err(UsbError::Unsupported));
    assert_eq!(max_packet_for_pipe(EndpointType::Control, 0, 8), Err(UsbError::Unsupported));
}

#[test]
fn unsupported_size_marks_the_index_only() {
    let (chip, mut bus) = fresh();
    assert_eq!(
        bus.alloc_ep(UsbDirection::In, None, EndpointType::Bulk, 512, 0),
        Err(UsbError::Unsupported)
    );
    assert_eq!(bus.state().allocated_in_mask, 0x0002);
    assert!(bus.state().pipe_bindings.iter().all(|b| b.is_none()));
    assert!(chip.log().is_empty());
}

#[test]
fn allocating_a_receiver_sets_its_pipe_up() {
    let (chip, mut bus) = fresh();
    bulk(&mut bus, UsbDirection::Out, 64);
    let ctr = Reg16::Pipectr(0);
    assert_eq!(
        chip.log(),
        vec![
            Access::Read16 { reg: ctr, value: 0 },
            Access::Write16 { reg: ctr, value: 0 },
            Access::Read16 { reg: ctr, value: 0 },
            Access::Write16 { reg: Reg16::Pipesel, value: 1 },
            Access::Write16 { reg: Reg16::Pipecfg, value: 0x4281 },
            Access::Write16 { reg: Reg16::Pipemaxp, value: 64 },
            Access::Write16 { reg: Reg16::Pipeperi, value: 0 },
            Access::Write16 { reg: Reg16::Pipesel, value: 0 },
            Access::Write16 { reg: ctr, value: 0x0100 },
            Access::Read16 { reg: ctr, value: 0x0100 },
            Access::Write16 { reg: ctr, value: 0x2100 },
            Access::Read16 { reg: ctr, value: 0x2100 },
            Access::Write16 { reg: ctr, value: 0x2300 },
            Access::Read16 { reg: ctr, value: 0x2300 },
            Access::Write16 { reg: ctr, value: 0x2100 },
            Access::Write16 { reg: Reg16::Brdysts, value: 0x03fd },
            Access::Write16 { reg: Reg16::Nrdysts, value: 0x03fd },
            Access::Write16 { reg: Reg16::Bempsts, value: 0x03fd },
            Access::StoreShadow { which: Shadow::Brdyenb, value: 0x0002 },
            Access::Write16 { reg: Reg16::Brdyenb, value: 0x0002 },
            Access::StoreShadow { which: Shadow::Nrdyenb, value: 0x0002 },
            Access::Write16 { reg: Reg16::Nrdyenb, value: 0x0002 },
            Access::StoreShadow { which: Shadow::Bempenb, value: 0 },
            Access::Write16 { reg: Reg16::Bempenb, value: 0 },
            Access::Read16 { reg: ctr, value: 0x2100 },
            Access::Write16 { reg: ctr, value: 0x2100 },
            Access::Read16 { reg: ctr, value: 0x2100 },
            Access::Write16 { reg: Reg16::Cfifosel, value: 0x0401 },
            Access::Read16 { reg: Reg16::Cfifosel, value: 0x0401 },
            Access::Write16 { reg: Reg16::Brdysts, value: 0x03fd },
            Access::Write16 { reg: Reg16::Nrdysts, value: 0x03fd },
            Access::Read16 { reg: ctr, value: 0x2100 },
            Access::Write16 { reg: ctr, value: 0x2101 },
            Access::StoreShadow { which: Shadow::Brdyenb, value: 0x0002 },
            Access::Write16 { reg: Reg16::Brdyenb, value: 0x0002 },
            Access::StoreShadow { which: Shadow::Nrdyenb, value: 0x0002 },
            Access::Write16 { reg: Reg16::Nrdyenb, value: 0x0002 },
        ]
    );
    assert_in_step(&chip, &bus);
}

#[test]
fn pipe_configuration_of_other_endpoints() {
    let (chip, mut bus) = fresh();
    bulk(&mut bus, UsbDirection::In, 64);
    assert_eq!(chip.get16(Reg16::Pipecfg), 0x4000 | 0x0200 | 0x0400 | 0x0010 | 1);
    bus.alloc_ep(UsbDirection::In, None, EndpointType::Interrupt, 8, 10).unwrap();
    assert_eq!(chip.get16(Reg16::Pipecfg), 0x8000 | 0x0400 | 0x0010 | 2);
    assert_eq!(chip.get16(Reg16::Pipemaxp), 8);
    bus.alloc_ep(UsbDirection::Out, None, EndpointType::Interrupt, 8, 10).unwrap();
    assert_eq!(chip.get16(Reg16::Pipecfg), 0x8000 | 1);
    bus.alloc_ep(UsbDirection::Out, None, EndpointType::Bulk, 256, 10).unwrap();
    assert_eq!(chip.get16(Reg16::Pipemaxp), 256);
    assert_in_step(&chip, &bus);
}

#[test]
fn writing_a_short_packet_to_a_pipe() {
    let (chip, mut bus) = ready();
    assert_eq!(bus.write(EndpointAddress(0x81), &[7, 9]), Ok(2));
    let ctr = Reg16::Pipectr(1);
    assert_eq!(
        chip.log(),
        vec![
            Access::Write16 { reg: Reg16::D0fifosel, value: 0x0402 },
            Access::Read16 { reg: Reg16::D0fifosel, value: 0x0402 },
            Access::Read16 { reg: Reg16::D0fifoctr, value: 0x2000 },
            Access::Read16 { reg: ctr, value: 0x2100 },
            Access::Write16 { reg: ctr, value: 0x2100 },
            Access::Write16 { reg: Reg16::Bempsts, value: 0x03fb },
            Access::Write16 { reg: Reg16::D0fifoctr, value: 0x4000 },
            Access::Read16 { reg: Reg16::D0fifosel, value: 0x0402 },
            Access::Write16 { reg: Reg16::D0fifosel, value: 0x0002 },
            Access::Write8 { reg: Reg8::D0fifo, value: 7 },
            Access::Write8 { reg: Reg8::D0fifo, value: 9 },
            Access::Write16 { reg: Reg16::D0fifosel, value: 0x0402 },
            Access::Write16 { reg: Reg16::D0fifoctr, value: 0x8000 },
            Access::StoreShadow { which: Shadow::Bempenb, value: 0x0004 },
            Access::Write16 { reg: Reg16::Bempenb, value: 0x0004 },
            Access::Read16 { reg: ctr, value: 0x2100 },
            Access::Write16 { reg: ctr, value: 0x2101 },
        ]
    );
    assert_eq!(bus.state().in_busy_mask, 0x0004);
    assert_in_step(&chip, &bus);
}

#[test]
fn writing_a_full_packet_takes_as_much_as_fits() {
    let (chip, mut bus) = ready();
    assert_eq!(bus.write(EndpointAddress(0x81), &[1; 100]), Ok(64));
    let bytes =
        chip.log().iter().filter(|a| matches!(a, Access::Write8 { .. })).count();
    assert_eq!(bytes, 64);
    assert!(!chip.log().contains(&Access::Write16 { reg: Reg16::D0fifoctr, value: 0x8000 }));
}

#[test]
fn writing_an_empty_packet_releases_the_buffer() {
    let (chip, mut bus) = ready();
    assert_eq!(bus.write(EndpointAddress(0x81), &[]), Ok(0));
    assert!(chip.log().contains(&Access::Write16 { reg: Reg16::D0fifoctr, value: 0x8000 }));
}

#[test]
fn writing_blocks_until_the_packet_is_sent() {
    let (chip, mut bus) = ready();
    let address = EndpointAddress(0x81);
    assert_eq!(bus.write(address, &[1]), Ok(1));
    chip.forget();
    assert_eq!(bus.write(address, &[2]), Err(UsbError::WouldBlock));
    assert!(chip.log().is_empty());
    snapshot(&mut bus, UsbIrqEvent { bempsts: Bempsts(0x0004), ..UsbIrqEvent::default() });
    assert_eq!(
        bus.poll(),
        PollResult::Data { ep_out: 0, ep_in_complete: 0x0002, ep_setup: 0 }
    );
    assert_eq!(bus.state().in_busy_mask, 0);
    assert_eq!(bus.write(address, &[2]), Ok(1));
    assert_in_step(&chip, &bus);
}

#[test]
fn writing_blocks_while_the_port_is_not_ready() {
    let (chip, mut bus) = ready();
    chip.fix16(Reg16::D0fifoctr, 0);
    assert_eq!(bus.write(EndpointAddress(0x81), &[1]), Err(UsbError::WouldBlock));
    assert_eq!(bus.state().in_busy_mask, 0);
    assert_eq!(chip.log().len(), 2 + 4 * 10_000);
}

#[test]
fn writing_to_a_wrong_endpoint() {
    let (chip, mut bus) = ready();
    for address in [0x01u8, 0x00, 0x82, 0xff] {
        assert_eq!(bus.write(EndpointAddress(address), &[1]), Err(UsbError::InvalidEndpoint));
    }
    assert!(chip.log().is_empty());
}

#[test]
fn writing_a_short_control_packet() {
    let (chip, mut bus) = ready();
    assert_eq!(bus.write(EP0_IN, &[0x12, 0x01]), Ok(2));
    assert_eq!(
        chip.log(),
        vec![
            Access::Write16 { reg: Reg16::Cfifosel, value: 0x0020 },
            Access::Read16 { reg: Reg16::Cfifosel, value: 0x0020 },
            Access::Read16 { reg: Reg16::Cfifoctr, value: 0x2000 },
            Access::Write16 { reg: Reg16::Cfifoctr, value: 0x4000 },
            Access::Read16 { reg: Reg16::Dcpctr, value: 0 },
            Access::Write16 { reg: Reg16::Dcpctr, value: 0 },
            Access::Write16 { reg: Reg16::Bempsts, value: 0x03fe },
            Access::Write8 { reg: Reg8::Cfifo, value: 0x12 },
            Access::Write8 { reg: Reg8::Cfifo, value: 0x01 },
            Access::Write16 { reg: Reg16::Cfifoctr, value: 0x8000 },
            Access::StoreShadow { which: Shadow::Bempenb, value: 0 },
            Access::Write16 { reg: Reg16::Bempenb, value: 0 },
            Access::Read16 { reg: Reg16::Dcpctr, value: 0 },
            Access::Write16 { reg: Reg16::Dcpctr, value: 1 },
        ]
    );
    assert!(bus.state().ep0_short_in_waiting_status);
}

#[test]
fn writing_a_full_control_packet_waits_for_the_next() {
    let (chip, mut bus) = ready();
    assert_eq!(bus.write(EP0_IN, &[5; 80]), Ok(64));
    assert!(!bus.state().ep0_short_in_waiting_status);
    assert_eq!(bus.state().bempenb_shadow, 1);
    assert!(!chip.log().contains(&Access::Write16 { reg: Reg16::Cfifoctr, value: 0x8000 }));
    assert_in_step(&chip, &bus);
}

#[test]
fn writing_to_a_stalled_or_busy_control_endpoint_blocks() {
    let (chip, mut bus) = ready();
    chip.fix16(Reg16::Cfifoctr, 0);
    assert_eq!(bus.write(EP0_IN, &[1]), Err(UsbError::WouldBlock));
    assert_eq!(chip.log().len(), 8 * (2 + 4 * 10_000));
    chip.fix16(Reg16::Cfifoctr, 0x2000);
    bus.set_stalled(EP0_IN, true);
    chip.forget();
    assert_eq!(bus.write(EP0_IN, &[1]), Err(UsbError::WouldBlock));
    assert!(chip.log().is_empty());
}

fn receive_setup(bus: &mut Bus<Chip>, packet: [u8; 8]) {
    snapshot(
        bus,
        UsbIrqEvent { setup_valid: true, setup_packet: packet, ..UsbIrqEvent::default() },
    );
    assert_eq!(bus.poll(), PollResult::Data { ep_out: 0, ep_in_complete: 0, ep_setup: 1 });
}

#[test]
fn setup_packet_is_read_once() {
    let (chip, mut bus) = ready();
    let packet = [0x00, 0x05, 0x07, 0x00, 0x00, 0x00, 0x00, 0x00];
    receive_setup(&mut bus, packet);
    assert!(bus.state().ep0_setup_pending && bus.state().ep0_setup_ready);
    let mut short = [0u8; 7];
    assert_eq!(bus.read(EP0_OUT, &mut short), Err(UsbError::BufferOverflow));
    chip.forget();
    let mut buf = [0xee; 10];
    assert_eq!(bus.read(EP0_OUT, &mut buf), Ok(8));
    assert_eq!(buf[..8], packet);
    assert_eq!(buf[8..], [0xee, 0xee]);
    assert!(chip.log().is_empty());
    assert!(!bus.state().ep0_setup_pending && !bus.state().ep0_setup_ready);
    assert!(bus.state().ep0_last_setup_dir_out);
    assert_eq!(bus.poll(), PollResult::Idle);
}

#[test]
fn waiting_setup_packet_is_not_overwritten() {
    let (_, mut bus) = ready();
    receive_setup(&mut bus, [0x80; 8]);
    receive_setup(&mut bus, [0x81; 8]);
    let mut buf = [0u8; 8];
    assert_eq!(bus.read(EP0_OUT, &mut buf), Ok(8));
    assert_eq!(buf, [0x80; 8]);
    assert!(!bus.state().ep0_last_setup_dir_out);
}

#[test]
fn staging_a_setup_packet_clears_the_valid_flag() {
    let (chip, mut bus) = ready();
    chip.set16(Reg16::Intsts0, 0x0008);
    receive_setup(&mut bus, [1; 8]);
    assert!(chip.log().contains(&Access::Write16 { reg: Reg16::Intsts0, value: !0x0008 }));
    assert_eq!(chip.get16(Reg16::Intsts0), !0x0008);
}

#[test]
fn status_stage_of_a_request_without_data() {
    let (chip, mut bus) = ready();
    receive_setup(&mut bus, [0; 8]);
    let mut buf = [0u8; 8];
    bus.read(EP0_OUT, &mut buf).unwrap();
    chip.forget();
    chip.set16(Reg16::Dcpctr, 0x0040);
    assert_eq!(bus.write(EP0_IN, &[]), Ok(0));
    let state = *bus.state();
    assert!(!state.ep0_last_setup_dir_out);
    assert_eq!(
        chip.log(),
        vec![
            Access::Write16 { reg: Reg16::Bempsts, value: 0x03fe },
            Access::StoreShadow { which: Shadow::Brdyenb, value: state.brdyenb_shadow },
            Access::Write16 { reg: Reg16::Brdyenb, value: state.brdyenb_shadow },
            Access::StoreShadow { which: Shadow::Nrdyenb, value: state.nrdyenb_shadow },
            Access::Write16 { reg: Reg16::Nrdyenb, value: state.nrdyenb_shadow },
            Access::StoreShadow { which: Shadow::Bempenb, value: 0 },
            Access::Write16 { reg: Reg16::Bempenb, value: 0 },
            Access::Read16 { reg: Reg16::Dcpctr, value: 0x0040 },
            Access::Write16 { reg: Reg16::Dcpctr, value: 0x0045 },
        ]
    );
}

#[test]
fn reading_nothing_from_the_control_endpoint_completes_the_transfer() {
    let (chip, mut bus) = ready();
    assert_eq!(bus.read(EP0_OUT, &mut []), Ok(0));
    let log = chip.log();
    assert_eq!(log[log.len() - 1], Access::Write16 { reg: Reg16::Dcpctr, value: 0x0005 });
}

#[test]
fn reading_data_from_the_control_endpoint() {
    let (chip, mut bus) = ready();
    chip.fix16(Reg16::Cfifoctr, 0x2003);
    chip.next16(Reg16::Cfifo, 0x0201);
    chip.next16(Reg16::Cfifo, 0xff03);
    let mut buf = [0u8; 4];
    assert_eq!(bus.read(EP0_OUT, &mut buf), Ok(3));
    assert_eq!(buf, [1, 2, 3, 0]);
    assert_eq!(
        chip.log(),
        vec![
            Access::Write16 { reg: Reg16::Cfifosel, value: 0 },
            Access::Read16 { reg: Reg16::Cfifosel, value: 0 },
            Access::Read16 { reg: Reg16::Cfifoctr, value: 0x2003 },
            Access::Read16 { reg: Reg16::Cfifoctr, value: 0x2003 },
            Access::Read16 { reg: Reg16::Cfifo, value: 0x0201 },
            Access::Read16 { reg: Reg16::Cfifo, value: 0xff03 },
            Access::Write16 { reg: Reg16::Brdysts, value: 0x03fe },
        ]
    );
    let mut small = [9u8; 2];
    assert_eq!(bus.read(EP0_OUT, &mut small), Err(UsbError::BufferOverflow));
    assert_eq!(small, [9, 9]);
    chip.fix16(Reg16::Cfifoctr, 0x2000);
    chip.forget();
    assert_eq!(bus.read(EP0_OUT, &mut buf), Ok(0));
    assert!(chip.log().contains(&Access::Write16 { reg: Reg16::Cfifoctr, value: 0x4000 }));
    chip.fix16(Reg16::Cfifoctr, 0);
    assert_eq!(bus.read(EP0_OUT, &mut buf), Err(UsbError::WouldBlock));
}

#[test]
fn reading_a_packet_from_a_pipe() {
    let (chip, mut bus) = ready();
    chip.fix16(Reg16::Cfifoctr, 0x2002);
    chip.next16(Reg16::Cfifo, 0x6968);
    let mut buf = [0xaau8; 4];
    assert_eq!(bus.read(EndpointAddress(0x01), &mut buf), Ok(2));
    assert_eq!(buf, [b'h', b'i', 0xaa, 0xaa]);
    let ctr = Reg16::Pipectr(0);
    assert_eq!(
        chip.log(),
        vec![
            Access::Write16 { reg: Reg16::Cfifosel, value: 0x0401 },
            Access::Read16 { reg: Reg16::Cfifosel, value: 0x0401 },
            Access::Read16 { reg: Reg16::Cfifoctr, value: 0x2002 },
            Access::Read16 { reg: Reg16::Cfifoctr, value: 0x2002 },
            Access::Read16 { reg: Reg16::Cfifo, value: 0x6968 },
            Access::Write16 { reg: Reg16::Cfifoctr, value: 0x4000 },
            Access::Write16 { reg: Reg16::Brdysts, value: 0x03fd },
            Access::Read16 { reg: ctr, value: 0x2101 },
            Access::Write16 { reg: ctr, value: 0x2100 },
            Access::Read16 { reg: ctr, value: 0x2100 },
            Access::Write16 { reg: Reg16::Cfifosel, value: 0x0401 },
            Access::Read16 { reg: Reg16::Cfifosel, value: 0x0401 },
            Access::Write16 { reg: Reg16::Brdysts, value: 0x03fd },
            Access::Write16 { reg: Reg16::Nrdysts, value: 0x03fd },
            Access::Read16 { reg: ctr, value: 0x2100 },
            Access::Write16 { reg: ctr, value: 0x2101 },
            Access::StoreShadow { which: Shadow::Brdyenb, value: 0x0002 },
            Access::Write16 { reg: Reg16::Brdyenb, value: 0x0002 },
            Access::StoreShadow { which: Shadow::Nrdyenb, value: 0x0002 },
            Access::Write16 { reg: Reg16::Nrdyenb, value: 0x0002 },
        ]
    );
    assert_in_step(&chip, &bus);
}

#[test]
fn reading_errors_on_a_pipe() {
    let (chip, mut bus) = ready();
    let mut buf = [3u8; 4];
    chip.fix16(Reg16::Cfifoctr, 0x2005);
    assert_eq!(bus.read(EndpointAddress(0x01), &mut buf), Err(UsbError::BufferOverflow));
    chip.fix16(Reg16::Cfifoctr, 0x0005);
    assert_eq!(bus.read(EndpointAddress(0x01), &mut buf), Err(UsbError::WouldBlock));
    for address in [0x81u8, 0x80, 0x02] {
        assert_eq!(
            bus.read(EndpointAddress(address), &mut buf),
            Err(UsbError::InvalidEndpoint)
        );
    }
    assert_eq!(buf, [3; 4]);
    chip.fix16(Reg16::Cfifoctr, 0x2000);
    assert_eq!(bus.read(EndpointAddress(0x01), &mut buf), Ok(0));
}

#[test]
fn stalls_are_observed() {
    let (chip, mut bus) = ready();
    let (receiver, sender) = (EndpointAddress(0x01), EndpointAddress(0x81));
    for address in [EP0_OUT, EP0_IN, receiver, sender] {
        assert!(!bus.is_stalled(address));
    }
    bus.set_stalled(sender, true);
    assert!(bus.is_stalled(sender) && !bus.is_stalled(receiver) && !bus.is_stalled(EP0_IN));
    assert_eq!(chip.get16(Reg16::Pipectr(1)) & 3, 2);
    bus.set_stalled(receiver, true);
    assert!(bus.is_stalled(receiver));
    bus.set_stalled(sender, false);
    assert!(!bus.is_stalled(sender) && bus.is_stalled(receiver));
    bus.set_stalled(receiver, false);
    assert!(!bus.is_stalled(receiver));
    assert_eq!(chip.get16(Reg16::Pipectr(0)) & 3, 1);
    assert_in_step(&chip, &bus);
}

#[test]
fn stalling_an_unknown_endpoint_does_nothing() {
    let (chip, mut bus) = ready();
    bus.set_stalled(EndpointAddress(0x85), true);
    assert!(chip.log().is_empty());
    assert!(!bus.is_stalled(EndpointAddress(0x85)));
}

#[test]
fn control_stall_values_agree_with_the_register_definition() {
    for ctsq in 0..8u16 {
        for stalled in [true, false] {
            let (chip, mut bus) = ready();
            chip.set16(Reg16::Intsts0, ctsq);
            chip.set16(Reg16::Dcpctr, 0xffff);
            bus.set_stalled(EP0_OUT, stalled);
            let answer = if stalled {
                ra4m1_ctpac::usbfs::vals::DcpctrPid::_10
            } else if ctsq == 1 || ctsq == 2 {
                ra4m1_ctpac::usbfs::vals::DcpctrPid::_01
            } else {
                ra4m1_ctpac::usbfs::vals::DcpctrPid::_00
            };
            let mut dcpctr = ra4m1_ctpac::usbfs::regs::Dcpctr(0xffff);
            dcpctr.set_pid(answer);
            dcpctr.set_sqclr(!stalled && ctsq != 1 && ctsq != 2);
            assert_eq!(chip.get16(Reg16::Dcpctr), dcpctr.0);
            assert_eq!(bus.is_stalled(EP0_IN), stalled);
            assert_eq!(bus.state().ep0_expect_status_out, !stalled && ctsq == 1);
        }
    }
}

#[test]
fn suspend_and_resume_are_remembered() {
    let (_, mut bus) = ready();
    assert_eq!(bus.poll(), PollResult::Idle);
    bus.suspend();
    assert_eq!(bus.poll(), PollResult::Suspend);
    bus.resume();
    assert_eq!(bus.poll(), PollResult::Idle);
}

#[test]
fn address_is_left_to_the_hardware() {
    let (chip, mut bus) = ready();
    bus.set_device_address(5);
    assert!(chip.log().is_empty());
}

#[test]
fn reset_keeps_allocations_and_forgets_the_rest() {
    let (chip, mut bus) = ready();
    bus.write(EndpointAddress(0x81), &[1]).unwrap();
    bus.set_stalled(EndpointAddress(0x01), true);
    bus.set_stalled(EP0_IN, true);
    bus.suspend();
    receive_setup(&mut bus, [0; 8]);
    snapshot(&mut bus, UsbIrqEvent { brdysts: Brdysts(2), ..UsbIrqEvent::default() });
    let before = *bus.state();
    chip.set16(Reg16::Syscfg, 0xffff);
    bus.reset();
    let after = *bus.state();
    assert_eq!(after.pipe_bindings, before.pipe_bindings);
    assert_eq!(after.allocated_in_mask, before.allocated_in_mask);
    assert_eq!(after.allocated_out_mask, before.allocated_out_mask);
    assert_eq!(after.ep0_max_packet, 64);
    assert!(after.ep0_in_allocated && after.ep0_out_allocated);
    for address in [EP0_IN, EndpointAddress(0x01), EndpointAddress(0x81)] {
        assert!(!bus.is_stalled(address));
    }
    assert_eq!(after.in_busy_mask, 0);
    assert!(!after.suspended && !after.ep0_setup_ready);
    assert_eq!(after.brdyenb_shadow, 0x0002);
    assert_eq!(after.nrdyenb_shadow, 0x0003);
    assert_eq!(after.bempenb_shadow, 0);
    assert_in_step(&chip, &bus);
    let mut kept = ra4m1_ctpac::usbfs::regs::Syscfg::default();
    kept.set_usbe(true);
    kept.set_dprpu(true);
    kept.set_scke(true);
    assert_eq!(chip.get16(Reg16::Syscfg), kept.0);
    assert_eq!(chip.get16(Reg16::Dcpmaxp), 64);
    assert_eq!(chip.get16(Reg16::Dcpctr), 0x0100);
    assert_eq!(bus.poll(), PollResult::Idle);
}

#[test]
fn reset_drops_the_latched_event() {
    let (chip, mut bus) = ready();
    chip.0.borrow_mut().pending = true;
    chip.0.borrow_mut().latched.setup_valid = true;
    chip.0.borrow_mut().local.capture_valid_latched = true;
    bus.reset();
    assert!(!chip.0.borrow().pending);
    assert!(chip.0.borrow().latched.is_empty());
    assert!(!chip.0.borrow().local.capture_valid_latched);
}

#[test]
fn reset_writes_the_registers_in_order() {
    let (chip, mut bus) = fresh();
    chip.set16(Reg16::Syscfg, 0x0431);
    chip.forget();
    bus.reset();
    let log = chip.log();
    assert_eq!(
        log[6..21].to_vec(),
        vec![
            Access::Read16 { reg: Reg16::Syscfg, value: 0x0431 },
            Access::Write16 { reg: Reg16::Dvstctr0, value: 0 },
            Access::Write16 { reg: Reg16::Dcpctr, value: 0x0080 },
            Access::Write16 { reg: Reg16::Brdyenb, value: 0 },
            Access::Write16 { reg: Reg16::Nrdyenb, value: 0 },
            Access::Write16 { reg: Reg16::Bempenb, value: 0 },
            Access::Write16 { reg: Reg16::Brdysts, value: 0 },
            Access::Write16 { reg: Reg16::Nrdysts, value: 0 },
            Access::Write16 { reg: Reg16::Bempsts, value: 0 },
            Access::Write16 { reg: Reg16::Syscfg, value: 0x0411 },
            Access::Write16 { reg: Reg16::Dcpcfg, value: 0 },
            Access::Write16 { reg: Reg16::Dcpmaxp, value: 0 },
            Access::Write16 { reg: Reg16::Cfifosel, value: 0 },
            Access::Write16 { reg: Reg16::D0fifosel, value: 0x0400 },
            Access::Write16 { reg: Reg16::D1fifosel, value: 0 },
        ]
    );
    let selected: Vec<u16> = log
        .iter()
        .filter_map(|a| match a {
            Access::Write16 { reg: Reg16::Pipesel, value } => Some(*value),
            _ => None,
        })
        .collect();
    assert_eq!(
        selected,
        vec![1, 0, 2, 0, 3, 0, 4, 0, 5, 0, 6, 0, 7, 0, 8, 0, 9, 0]
    );
}

#[test]
fn enabling_resets_and_attaches() {
    let (chip, mut bus) = ready();
    bus.enable();
    assert!(bus.driver().is_attached());
    let log = chip.log();
    assert!(matches!(log[log.len() - 1], Access::Write16 { reg: Reg16::Syscfg, .. }));
    assert_eq!(chip.get16(Reg16::Syscfg) & 0x0010, 0x0010);
}

#[test]
fn forced_reset_always_succeeds() {
    let (_, mut bus) = ready();
    bus.driver_mut().detach();
    assert_eq!(bus.force_reset(), Ok(()));
    assert!(bus.driver().is_attached());
}

#[test]
fn poll_takes_the_pending_event_over_first() {
    let (chip, mut bus) = ready();
    chip.set16(Reg16::Pipectr(0), 1);
    let event = UsbIrqEvent { brdysts: Brdysts(0x0002), ..UsbIrqEvent::default() };
    chip.0.borrow_mut().pending = true;
    chip.0.borrow_mut().latched = event;
    chip.forget();
    assert_eq!(
        bus.poll(),
        PollResult::Data { ep_out: 0x0002, ep_in_complete: 0, ep_setup: 0 }
    );
    assert_eq!(
        chip.log()[..7].to_vec(),
        vec![
            Access::LoadPending { value: true },
            Access::StorePending { value: false },
            Access::Enter,
            Access::LoadLatched { value: event },
            Access::StoreLatched { value: UsbIrqEvent::default() },
            Access::Leave,
            Access::LoadPending { value: false },
        ]
    );
    assert!(!chip.0.borrow().pending);
    assert!(chip.0.borrow().latched.is_empty());
    assert_eq!(bus.poll(), PollResult::Idle);
}

#[test]
fn poll_takes_events_over_until_none_is_pending() {
    let (chip, mut bus) = ready();
    bus.write(EndpointAddress(0x81), &[1]).unwrap();
    snapshot(&mut bus, UsbIrqEvent { bempsts: Bempsts(0x0001), ..UsbIrqEvent::default() });
    chip.0.borrow_mut().arriving = vec![
        UsbIrqEvent { brdysts: Brdysts(0x0002), ..UsbIrqEvent::default() },
        UsbIrqEvent { bempsts: Bempsts(0x0004), ..UsbIrqEvent::default() },
        UsbIrqEvent { brdysts: Brdysts(0x0001), ..UsbIrqEvent::default() },
    ];
    assert_eq!(
        bus.poll(),
        PollResult::Data { ep_out: 0x0003, ep_in_complete: 0x0003, ep_setup: 0 }
    );
    let looks: Vec<bool> = chip
        .log()
        .iter()
        .filter_map(|a| match a {
            Access::LoadPending { value } => Some(*value),
            _ => None,
        })
        .collect();
    assert_eq!(looks, vec![true, true, true, false]);
    assert_eq!(bus.poll(), PollResult::Idle);
}

#[test]
fn endpoint_operations_leave_the_latch_alone() {
    let (chip, mut bus) = ready();
    chip.0.borrow_mut().pending = true;
    chip.0.borrow_mut().latched.brdysts = Brdysts(0x0002);
    bus.write(EndpointAddress(0x81), &[1]).unwrap();
    bus.read(EndpointAddress(0x01), &mut [0; 64]).unwrap();
    bus.set_stalled(EndpointAddress(0x01), true);
    bulk(&mut bus, UsbDirection::In, 64);
    assert!(chip.0.borrow().pending);
    assert_eq!(chip.0.borrow().latched.brdysts, Brdysts(0x0002));
    bus.reset();
    assert!(!chip.0.borrow().pending);
    assert!(chip.0.borrow().latched.is_empty());
}

#[test]
fn taken_snapshot_is_gone() {
    let (_, mut bus) = ready();
    snapshot(&mut bus, UsbIrqEvent { brdysts: Brdysts(2), ..UsbIrqEvent::default() });
    assert_eq!(bus.take_event_snapshot().brdysts, Brdysts(2));
    assert_eq!(bus.take_event_snapshot().brdysts, Brdysts(0));
}

#[test]
fn poll_reports_a_bus_reset_first() {
    let (chip, mut bus) = ready();
    snapshot(
        &mut bus,
        UsbIrqEvent {
            intsts0: Intsts0(0x7010),
            brdysts: Brdysts(2),
            ..UsbIrqEvent::default()
        },
    );
    assert_eq!(bus.poll(), PollResult::Reset);
    assert_eq!(
        chip.log(),
        vec![
            Access::LoadPending { value: false },
            Access::Write16 { reg: Reg16::Intsts0, value: !0x1000 },
        ]
    );
    assert_eq!(bus.poll(), PollResult::Idle);
}

#[test]
fn poll_reports_a_resume_next() {
    let (chip, mut bus) = ready();
    snapshot(
        &mut bus,
        UsbIrqEvent {
            intsts0: Intsts0(0x7020),
            brdysts: Brdysts(2),
            ..UsbIrqEvent::default()
        },
    );
    assert_eq!(bus.poll(), PollResult::Resume);
    assert_eq!(
        chip.log(),
        vec![
            Access::LoadPending { value: false },
            Access::Write16 { reg: Reg16::Intsts0, value: !0x1000 },
            Access::Write16 { reg: Reg16::Intsts0, value: !0x2000 },
            Access::Write16 { reg: Reg16::Intsts0, value: !0x4000 },
        ]
    );
}

#[test]
fn poll_reports_received_and_sent_packets() {
    let (chip, mut bus) = ready();
    let extra = bulk(&mut bus, UsbDirection::Out, 64);
    assert_eq!(extra, EndpointAddress(0x02));
    bus.write(EndpointAddress(0x81), &[1]).unwrap();
    snapshot(
        &mut bus,
        UsbIrqEvent {
            brdysts: Brdysts(0x03ff),
            bempsts: Bempsts(0x03fe),
            ..UsbIrqEvent::default()
        },
    );
    assert_eq!(
        bus.poll(),
        PollResult::Data { ep_out: 0x0007, ep_in_complete: 0x0002, ep_setup: 0 }
    );
    assert_in_step(&chip, &bus);
}

#[test]
fn poll_reports_the_control_endpoint() {
    let (chip, mut bus) = ready();
    snapshot(&mut bus, UsbIrqEvent { bempsts: Bempsts(1), ..UsbIrqEvent::default() });
    assert_eq!(bus.poll(), PollResult::Data { ep_out: 0, ep_in_complete: 1, ep_setup: 0 });
    assert!(chip.log().contains(&Access::Write16 { reg: Reg16::Bempsts, value: 0x03fe }));
    snapshot(
        &mut bus,
        UsbIrqEvent {
            brdysts: Brdysts(1),
            setup_valid: true,
            setup_packet: [1; 8],
            ..UsbIrqEvent::default()
        },
    );
    assert_eq!(bus.poll(), PollResult::Data { ep_out: 0, ep_in_complete: 0, ep_setup: 1 });
}

#[test]
fn poll_sees_the_status_stage_of_a_read() {
    let (chip, mut bus) = ready();
    bus.write(EP0_IN, &[1]).unwrap();
    assert!(bus.state().ep0_short_in_waiting_status);
    snapshot(
        &mut bus,
        UsbIrqEvent { intsts0: Intsts0(0x0800), ctrt_ctsq: 2, ..UsbIrqEvent::default() },
    );
    assert_eq!(bus.poll(), PollResult::Data { ep_out: 1, ep_in_complete: 0, ep_setup: 0 });
    assert!(!bus.state().ep0_short_in_waiting_status);
    assert!(chip.log().contains(&Access::Write16 { reg: Reg16::Intsts0, value: !0x0800 }));
}

#[test]
fn poll_restarts_idle_receivers() {
    let (chip, mut bus) = ready();
    let ctr = Reg16::Pipectr(0);
    chip.set16(ctr, 0x0000);
    assert_eq!(bus.poll(), PollResult::Idle);
    assert_eq!(chip.get16(ctr) & 3, 1);
    chip.forget();
    assert_eq!(bus.poll(), PollResult::Idle);
    assert_eq!(
        chip.log(),
        vec![Access::LoadPending { value: false }, Access::Read16 { reg: ctr, value: 1 }]
    );
    chip.set16(ctr, 0x0020);
    chip.forget();
    assert_eq!(bus.poll(), PollResult::Idle);
    assert_eq!(
        chip.log(),
        vec![
            Access::LoadPending { value: false },
            Access::Read16 { reg: ctr, value: 0x20 },
            Access::Read16 { reg: ctr, value: 0x20 },
        ]
    );
}

#[test]
fn poll_answers_not_ready_reports() {
    let (chip, mut bus) = ready();
    let ctr = Reg16::Pipectr(0);
    chip.set16(ctr, 0x0000);
    snapshot(&mut bus, UsbIrqEvent { nrdysts: Nrdysts(0x0007), ..UsbIrqEvent::default() });
    assert_eq!(bus.poll(), PollResult::Idle);
    assert_eq!(
        chip.log(),
        vec![
            Access::LoadPending { value: false },
            Access::Write16 { reg: Reg16::Nrdysts, value: 0x03fe },
            Access::Write16 { reg: Reg16::Nrdysts, value: 0x03fd },
            Access::Read16 { reg: ctr, value: 0 },
            Access::Read16 { reg: ctr, value: 0 },
            Access::Read16 { reg: ctr, value: 0 },
            Access::Write16 { reg: ctr, value: 1 },
            Access::Write16 { reg: Reg16::Nrdysts, value: 0x03fb },
            Access::Read16 { reg: ctr, value: 1 },
        ]
    );
}

#[test]
fn control_stages_agree_with_the_register_definition() {
    for raw in 0..=0xffu16 {
        let (_, mut bus) = ready();
        snapshot(
            &mut bus,
            UsbIrqEvent { intsts0: Intsts0(0x0800), ctrt_ctsq: raw, ..UsbIrqEvent::default() },
        );
        let stage = ra4m1_ctpac::usbfs::vals::Ctsq::from_bits(raw as u8);
        let status = matches!(stage, ra4m1_ctpac::usbfs::vals::Ctsq::_010);
        let expected = if status {
            PollResult::Data { ep_out: 1, ep_in_complete: 0, ep_setup: 0 }
        } else {
            PollResult::Idle
        };
        assert_eq!(bus.poll(), expected);
    }
}

#[test]
fn bus_stays_attentive_through_a_session() {
    let (chip, mut bus) = ready();
    bus.alloc_ep(UsbDirection::In, None, EndpointType::Interrupt, 8, 10).unwrap();
    assert_in_step(&chip, &bus);
    bus.enable();
    assert_in_step(&chip, &bus);
    receive_setup(&mut bus, [0; 8]);
    let mut buf = [0u8; 64];
    bus.read(EP0_OUT, &mut buf).unwrap();
    bus.write(EP0_IN, &[]).unwrap();
    assert_in_step(&chip, &bus);
    bus.write(EndpointAddress(0x81), &[1, 2, 3]).unwrap();
    bus.write(EndpointAddress(0x82), &[4]).unwrap();
    bus.write(EP0_IN, &[9; 64]).unwrap();
    assert_in_step(&chip, &bus);
    bus.set_stalled(EndpointAddress(0x81), true);
    bus.set_stalled(EndpointAddress(0x01), true);
    assert_in_step(&chip, &bus);
    bus.set_stalled(EndpointAddress(0x01), false);
    bus.set_stalled(EndpointAddress(0x81), false);
    assert_in_step(&chip, &bus);
    snapshot(&mut bus, UsbIrqEvent { bempsts: Bempsts(0x0045), ..UsbIrqEvent::default() });
    assert_eq!(
        bus.poll(),
        PollResult::Data { ep_out: 0, ep_in_complete: 0x0007, ep_setup: 0 }
    );
    assert_in_step(&chip, &bus);
    bus.reset();
    assert_in_step(&chip, &bus);
}
