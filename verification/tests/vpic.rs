use axvisor::x86::types::{X86AccessWidth, X86Port};
use axvisor::x86::vpic::{EmulatedPic, MASTER_COMMAND, MASTER_DATA, SLAVE_COMMAND, SLAVE_DATA};

fn write(pic: &mut EmulatedPic, port: u16, value: u8) {
    pic.handle_write(X86Port::new(port), X86AccessWidth::Byte, value as usize)
        .unwrap();
}

fn read(pic: &EmulatedPic, port: u16) -> usize {
    pic.handle_read(X86Port::new(port), X86AccessWidth::Byte)
        .unwrap()
}

#[test]
fn firmware_can_reprogram_and_service_pit_irq0() {
    let mut pic = EmulatedPic::new();
    write(&mut pic, MASTER_COMMAND, 0x11);
    write(&mut pic, MASTER_DATA, 0x68);
    write(&mut pic, MASTER_DATA, 0x04);
    write(&mut pic, MASTER_DATA, 0x01);
    write(&mut pic, MASTER_DATA, 0xfe);

    assert_eq!(pic.pulse_irq(0), Some(0x68));
    assert_eq!(pic.pulse_irq(0), None);
    write(&mut pic, MASTER_COMMAND, 0x20);
    let claim = pic.claim_pending_interrupt().unwrap();
    assert_eq!(claim.vector(), 0x68);
    pic.restore_interrupt(claim);
    assert_eq!(pic.next_interrupt(), Some(0x68));
}

fn initialized() -> EmulatedPic {
    let mut pic = EmulatedPic::new();
    for (command, data, base, wiring) in [
        (MASTER_COMMAND, MASTER_DATA, 0x20, 4),
        (SLAVE_COMMAND, SLAVE_DATA, 0x28, 2),
    ] {
        write(&mut pic, command, 0x11);
        write(&mut pic, data, base);
        write(&mut pic, data, wiring);
        write(&mut pic, data, 0x01);
        write(&mut pic, data, 0x00);
    }
    pic
}

#[test]
fn masks_read_back_and_hold_interrupts() {
    let mut pic = initialized();
    write(&mut pic, MASTER_DATA, 0x02);
    assert_eq!(read(&pic, MASTER_DATA), 0x02);
    assert_eq!(pic.pulse_irq(1), None);
    write(&mut pic, MASTER_DATA, 0x00);
    assert_eq!(pic.next_interrupt(), Some(0x21));
}

#[test]
fn slave_interrupts_come_with_their_own_vectors() {
    let mut pic = initialized();
    assert_eq!(pic.pulse_irq(12), Some(0x2c));
    // The cascade line is in service, so that a lower-priority line waits.
    assert_eq!(pic.pulse_irq(5), None);
    assert_eq!(pic.pulse_irq(16), None);
}

#[test]
fn restoring_a_claim_makes_it_deliverable_again() {
    let mut pic = initialized();
    let claim = pic.claim_irq(3).unwrap();
    assert_eq!(claim.vector(), 0x23);
    assert!(pic.claim_pending_interrupt().is_none());
    pic.restore_interrupt(claim);
    assert_eq!(pic.claim_pending_interrupt().unwrap().vector(), 0x23);
}

#[test]
fn only_bytes_are_accepted() {
    let mut pic = EmulatedPic::new();
    assert!(
        pic.handle_write(X86Port::new(MASTER_DATA), X86AccessWidth::Word, 0)
            .is_err()
    );
    assert!(
        pic.handle_read(X86Port::new(MASTER_DATA), X86AccessWidth::Dword)
            .is_err()
    );
}

#[test]
fn default_is_the_initial_controller() {
    let mut pic = EmulatedPic::default();
    assert_eq!(pic.next_interrupt(), EmulatedPic::new().next_interrupt());
}

#[test]
fn edges_during_service_wait_for_its_end() {
    let mut pic = initialized();
    assert_eq!(pic.pulse_irq(3), Some(0x23));
    assert_eq!(pic.pulse_irq(5), None);
    assert_eq!(pic.pulse_irq(3), None);
    write(&mut pic, MASTER_COMMAND, 0x20);
    // The latched edge of the line that was served precedes the other request.
    assert_eq!(pic.next_interrupt(), Some(0x23));
    write(&mut pic, MASTER_COMMAND, 0x20);
    assert_eq!(pic.next_interrupt(), Some(0x25));
}

#[test]
fn initialization_drops_requests_and_keeps_the_mask() {
    let mut pic = initialized();
    write(&mut pic, MASTER_DATA, 0x40);
    assert_eq!(pic.pulse_irq(6), None);
    write(&mut pic, MASTER_COMMAND, 0x11);
    write(&mut pic, MASTER_DATA, 0x37);
    write(&mut pic, MASTER_DATA, 0x04);
    write(&mut pic, MASTER_DATA, 0x01);
    assert_eq!(read(&pic, MASTER_DATA), 0x40);
    write(&mut pic, MASTER_DATA, 0x00);
    assert_eq!(pic.next_interrupt(), None);
    assert_eq!(pic.pulse_irq(1), Some(0x31));
}
