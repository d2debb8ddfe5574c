//! Events, snapshots and endpoint addresses.

use ra4_hal::usb::endpoint::{EndpointAddress, UsbDirection};
use ra4_hal::usb::types::{
    Bempsts, Brdysts, Error, Intsts0, Intsts1, Nrdysts, UsbEventSnapshot, UsbIrqEvent,
    UsbIrqLocalState,
};
use ra4_hal::usb::{BusState, Config, InterruptHandler};

fn event(intsts0: u16, ctsq: u16, seqno: u32) -> UsbIrqEvent {
    UsbIrqEvent { intsts0: Intsts0(intsts0), ctrt_ctsq: ctsq, seqno, ..UsbIrqEvent::default() }
}

#[test]
fn default_event_is_empty() {
    assert!(UsbIrqEvent::default().is_empty());
    assert_eq!(UsbIrqEvent::default().setup_packet, [0; 8]);
}

#[test]
fn number_and_stage_alone_do_not_make_an_event() {
    assert!(event(0, 5, 17).is_empty());
}

#[test]
fn every_report_makes_an_event() {
    let none = UsbIrqEvent::default();
    assert!(!UsbIrqEvent { intsts0: Intsts0(1), ..none }.is_empty());
    assert!(!UsbIrqEvent { intsts1: Intsts1(1), ..none }.is_empty());
    assert!(!UsbIrqEvent { valid_high: true, ..none }.is_empty());
    assert!(!UsbIrqEvent { valid_rising: true, ..none }.is_empty());
    assert!(!UsbIrqEvent { brdysts: Brdysts(2), ..none }.is_empty());
    assert!(!UsbIrqEvent { nrdysts: Nrdysts(4), ..none }.is_empty());
    assert!(!UsbIrqEvent { bempsts: Bempsts(8), ..none }.is_empty());
    assert!(!UsbIrqEvent { setup_valid: true, ..none }.is_empty());
}

#[test]
fn merging_unites_flags_and_prefers_newer_details() {
    let mut older = event(0x1010, 3, 5);
    older.brdysts = Brdysts(0x0002);
    older.setup_valid = true;
    older.setup_packet = [1; 8];
    let mut newer = event(0x0800, 1, 6);
    newer.brdysts = Brdysts(0x0008);
    newer.valid_rising = true;
    let merged = older.merged(newer);
    assert_eq!(merged.intsts0, Intsts0(0x1810));
    assert_eq!(merged.ctrt_ctsq, 1);
    assert_eq!(merged.seqno, 6);
    assert_eq!(merged.brdysts, Brdysts(0x000a));
    assert!(merged.valid_rising);
    assert!(merged.setup_valid);
    assert_eq!(merged.setup_packet, [1; 8]);
}

#[test]
fn merging_keeps_the_stage_without_a_stage_change() {
    let older = event(0x0800, 3, 5);
    let newer = event(0x1000, 1, 0);
    let merged = older.merged(newer);
    assert_eq!(merged.ctrt_ctsq, 3);
    assert_eq!(merged.seqno, 5);
}

#[test]
fn merging_in_place_equals_merging() {
    let a = event(0x0800, 3, 5);
    let b = event(0x1000, 1, 9);
    let mut c = a;
    c.merge_from(b);
    assert_eq!(c, a.merged(b));
}

#[test]
fn merging_is_associative() {
    let mut a = event(0x0800, 3, 1);
    a.setup_valid = true;
    a.setup_packet = [7; 8];
    let b = event(0x1020, 1, 2);
    let mut c = event(0x0800, 5, 3);
    c.bempsts = Bempsts(3);
    assert_eq!(a.merged(b).merged(c), a.merged(b.merged(c)));
}

#[test]
fn snapshot_sees_latched_events_as_if_one_by_one() {
    let mut a = event(0x0800, 3, 1);
    a.valid_rising = true;
    let mut b = event(0x0010, 1, 2);
    b.setup_valid = true;
    b.setup_packet = [1, 2, 3, 4, 5, 6, 7, 8];
    b.nrdysts = Nrdysts(1);
    let mut one_by_one = UsbEventSnapshot::default();
    one_by_one.merge_irq_event(&a);
    one_by_one.merge_irq_event(&b);
    let mut at_once = UsbEventSnapshot::default();
    at_once.merge_irq_event(&a.merged(b));
    assert_eq!(format!("{:?}", one_by_one), format!("{:?}", at_once));
    assert_eq!(at_once.ctrt_ctsq, 3);
    assert!(at_once.valid_pending);
    assert!(at_once.setup_valid);
    assert_eq!(at_once.setup_packet, [1, 2, 3, 4, 5, 6, 7, 8]);
    assert_eq!(at_once.intsts0, Intsts0(0x0810));
}

#[test]
fn empty_event_changes_nothing_for_the_bus() {
    let mut snapshot = UsbEventSnapshot::default();
    snapshot.merge_irq_event(&event(0x0810, 3, 1));
    let before = format!("{:?}", snapshot);
    snapshot.merge_irq_event(&event(0, 5, 2));
    assert_eq!(format!("{:?}", snapshot), before);
}

#[test]
fn defaults() {
    assert_eq!(Error::default(), Error::UnsupportedClock);
    assert!(Config::default().force_reset_on_init);
    let local = UsbIrqLocalState::default();
    assert!(!local.capture_valid_latched);
    assert_eq!(local.capture_seqno, 0);
    let state = BusState::default();
    assert_eq!(state.ep0_max_packet, 0);
    assert!(state.pipe_bindings.iter().all(|b| b.is_none()));
    let _ = InterruptHandler::<NoChip>::new();
}

struct NoChip;

impl ra4_hal::usb::Instance for NoChip {
    fn read8(&mut self, _: ra4_hal::mmio::Reg8) -> u8 {
        0
    }
    fn write8(&mut self, _: ra4_hal::mmio::Reg8, _: u8) {}
    fn read16(&mut self, _: ra4_hal::mmio::Reg16) -> u16 {
        0
    }
    fn write16(&mut self, _: ra4_hal::mmio::Reg16, _: u16) {}
    fn read32(&mut self, _: ra4_hal::mmio::Reg32) -> u32 {
        0
    }
    fn write32(&mut self, _: ra4_hal::mmio::Reg32, _: u32) {}
    fn wait8(&mut self, _: ra4_hal::mmio::Reg8, _: u8, _: u8) {}
    fn wait16(&mut self, _: ra4_hal::mmio::Reg16, _: u16, _: u16) {}
    fn delay(&mut self, _: u32) {}
    fn irq(&mut self, _: ra4_hal::mmio::IrqOp) {}
    fn enter(&mut self) {}
    fn leave(&mut self) {}
    fn load_shadow(&mut self, _: ra4_hal::mmio::Shadow) -> u16 {
        0
    }
    fn store_shadow(&mut self, _: ra4_hal::mmio::Shadow, _: u16) {}
    fn load_pending(&mut self) -> bool {
        false
    }
    fn store_pending(&mut self, _: bool) {}
    fn load_latched(&mut self) -> UsbIrqEvent {
        UsbIrqEvent::default()
    }
    fn store_latched(&mut self, _: UsbIrqEvent) {}
    fn load_local(&mut self) -> UsbIrqLocalState {
        UsbIrqLocalState::default()
    }
    fn store_local(&mut self, _: UsbIrqLocalState) {}
}

#[test]
fn endpoint_addresses_agree_with_the_usb_stack() {
    for raw in 0..=255u8 {
        let ours = EndpointAddress(raw);
        let theirs = usb_device::endpoint::EndpointAddress::from(raw);
        assert_eq!(ours.index(), theirs.index());
        assert_eq!(ours.direction() == UsbDirection::In, theirs.is_in());
    }
    for index in 0..128usize {
        let ours = EndpointAddress::from_parts(index, UsbDirection::In);
        let theirs = usb_device::endpoint::EndpointAddress::from_parts(
            index,
            usb_device::UsbDirection::In,
        );
        assert_eq!(ours.0, u8::from(theirs));
        let ours = EndpointAddress::from_parts(index, UsbDirection::Out);
        let theirs = usb_device::endpoint::EndpointAddress::from_parts(
            index,
            usb_device::UsbDirection::Out,
        );
        assert_eq!(ours.0, u8::from(theirs));
    }
}

#[test]
fn address_has_the_parts_it_was_made_of() {
    let address = EndpointAddress::from_parts(5, UsbDirection::In);
    assert_eq!(address, EndpointAddress(0x85));
    assert_eq!(address.index(), 5);
    assert_eq!(address.direction(), UsbDirection::In);
}

#[test]
fn interrupt_status_fields_agree_with_the_register_definition() {
    for raw in 0..=0xffffu16 {
        let ours = Intsts0(raw);
        let theirs = ra4m1_ctpac::usbfs::regs::Intsts0(raw);
        assert_eq!(ours.ctsq(), theirs.ctsq().to_bits() as u16);
        assert_eq!(ours.valid(), theirs.valid());
        assert_eq!(ours.in_default_state(), theirs.dvsq().to_bits() == 1);
        assert_eq!(ours.ctrt(), theirs.ctrt());
        assert_eq!(ours.dvst(), theirs.dvst());
        assert_eq!(ours.sofr(), theirs.sofr());
        assert_eq!(ours.resm(), theirs.resm());
    }
}
