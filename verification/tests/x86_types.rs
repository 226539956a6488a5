use axvisor::x86::addr::X86GuestPhysAddr;
use axvisor::x86::types::{
    mov_immediate_size, mov_mmio_write_exit, x86_byte_register, x86_byte_register_merge,
    x86_byte_register_value, x86_modrm_displacement_size, x86_simple_prefix_update, X86AccessWidth,
    X86ByteRegister, X86Port, X86PortRange, X86VmExit,
};

#[test]
fn byte_register_decodes_high_bytes_without_rex() {
    assert_eq!(
        x86_byte_register(0, 0),
        Some(X86ByteRegister {
            gpr: 0,
            high: false
        })
    );
    assert_eq!(
        x86_byte_register(3, 0),
        Some(X86ByteRegister {
            gpr: 3,
            high: false
        })
    );
    assert_eq!(
        x86_byte_register(4, 0),
        Some(X86ByteRegister { gpr: 0, high: true })
    );
    assert_eq!(
        x86_byte_register(5, 0),
        Some(X86ByteRegister { gpr: 1, high: true })
    );
    assert_eq!(
        x86_byte_register(6, 0),
        Some(X86ByteRegister { gpr: 2, high: true })
    );
    assert_eq!(
        x86_byte_register(7, 0),
        Some(X86ByteRegister { gpr: 3, high: true })
    );
}

#[test]
fn byte_register_decodes_rex_low_bytes_including_spl() {
    assert_eq!(
        x86_byte_register(4, 0x40),
        Some(X86ByteRegister {
            gpr: 4,
            high: false
        })
    );
    assert_eq!(
        x86_byte_register(4, 0x44),
        Some(X86ByteRegister {
            gpr: 12,
            high: false
        })
    );
    assert_eq!(
        x86_byte_register(5, 0x41),
        Some(X86ByteRegister {
            gpr: 5,
            high: false
        })
    );
    assert_eq!(
        x86_byte_register(1, 0x44),
        Some(X86ByteRegister {
            gpr: 9,
            high: false
        })
    );
}

#[test]
fn byte_register_value_extracts_high_and_low_bytes() {
    let ah = X86ByteRegister { gpr: 0, high: true };
    assert_eq!(x86_byte_register_value(0x1234_5678_9abc_def0, ah), 0xde);
    let al = X86ByteRegister {
        gpr: 0,
        high: false,
    };
    assert_eq!(x86_byte_register_value(0x1234_5678_9abc_def0, al), 0xf0);
    let ch = X86ByteRegister { gpr: 1, high: true };
    assert_eq!(x86_byte_register_value(0x1234_5678_9abc_def0, ch), 0xde);
}

#[test]
fn byte_register_merge_preserves_adjacent_bytes() {
    let ah = X86ByteRegister { gpr: 0, high: true };
    assert_eq!(
        x86_byte_register_merge(0x1234_5678_9abc_def0, ah, 0x11),
        0x1234_5678_9abc_11f0
    );
    let al = X86ByteRegister {
        gpr: 0,
        high: false,
    };
    assert_eq!(
        x86_byte_register_merge(0x1234_5678_9abc_def0, al, 0x11),
        0x1234_5678_9abc_de11
    );
    let bpl = X86ByteRegister {
        gpr: 5,
        high: false,
    };
    assert_eq!(
        x86_byte_register_merge(0x1234_5678_9abc_def0, bpl, 0x11),
        0x1234_5678_9abc_de11
    );
}

#[test]
fn simple_prefix_update_clears_rex_after_operand_size_override() {
    let mut rex = 0x40;
    let mut operand_size_override = false;

    assert!(x86_simple_prefix_update(
        0x66,
        &mut rex,
        &mut operand_size_override
    ));
    assert_eq!(rex, 0);
    assert!(operand_size_override);

    assert!(x86_simple_prefix_update(
        0x40,
        &mut rex,
        &mut operand_size_override
    ));
    assert_eq!(rex, 0x40);
    assert!(operand_size_override);
}

#[test]
fn simple_prefix_update_keeps_last_rex_before_opcode() {
    let mut rex = 0;
    let mut operand_size_override = false;

    assert!(x86_simple_prefix_update(
        0x66,
        &mut rex,
        &mut operand_size_override
    ));
    assert!(x86_simple_prefix_update(
        0x48,
        &mut rex,
        &mut operand_size_override
    ));
    assert_eq!(rex, 0x48);

    assert!(x86_simple_prefix_update(
        0x66,
        &mut rex,
        &mut operand_size_override
    ));
    assert_eq!(rex, 0);
}

#[test]
fn modrm_displacement_size_handles_sib_rip_relative_and_r13() {
    assert_eq!(x86_modrm_displacement_size(0x04, Some(0x25), 0), Some(4));
    assert_eq!(x86_modrm_displacement_size(0x04, Some(0x25), 1), Some(0));
    assert_eq!(x86_modrm_displacement_size(0x05, None, 0), Some(4));
    assert_eq!(x86_modrm_displacement_size(0x05, None, 1), Some(0));
    assert_eq!(x86_modrm_displacement_size(0x40, None, 0), Some(1));
    assert_eq!(x86_modrm_displacement_size(0x80, None, 0), Some(4));
    assert_eq!(x86_modrm_displacement_size(0xc0, None, 0), None);
}

#[test]
fn mov_mmio_write_exit_decodes_byte_word_dword_widths() {
    let addr = X86GuestPhysAddr::from_usize(0x8000_0014);
    let cases: [(u8, bool, bool, X86AccessWidth, u64); 3] = [
        (0x88, false, false, X86AccessWidth::Byte, 0x5a),
        (0x89, true, false, X86AccessWidth::Word, 0x5678),
        (0x89, false, false, X86AccessWidth::Dword, 0x1234_5678),
    ];

    for (opcode, operand_size_override, rex_w, width, expected_data) in cases {
        let data = match width {
            X86AccessWidth::Byte => 0x1234_5678_5a,
            X86AccessWidth::Word => 0x1234_5678,
            X86AccessWidth::Dword => 0x1234_5678,
            X86AccessWidth::Qword => unreachable!(),
        };
        let exit =
            mov_mmio_write_exit(addr, opcode, operand_size_override, rex_w, data).unwrap();

        match exit {
            X86VmExit::MmioWrite {
                addr: actual_addr,
                width: actual_width,
                data: actual_data,
            } => {
                assert_eq!(actual_addr, addr);
                assert_eq!(actual_width, width);
                assert_eq!(actual_data, expected_data);
            }
            other => panic!("unexpected MMIO exit: {other:?}"),
        }
    }
}

#[test]
fn mov_immediates_are_at_most_four_bytes() {
    assert_eq!(mov_immediate_size(X86AccessWidth::Byte), 1);
    assert_eq!(mov_immediate_size(X86AccessWidth::Word), 2);
    assert_eq!(mov_immediate_size(X86AccessWidth::Dword), 4);
    assert_eq!(mov_immediate_size(X86AccessWidth::Qword), 4);
}

#[test]
fn merged_byte_registers_read_back() {
    for high in [false, true] {
        let register = X86ByteRegister { gpr: 2, high };
        let merged = x86_byte_register_merge(0x0102_0304_0506_0708, register, 0xee);
        assert_eq!(x86_byte_register_value(merged, register), 0xee);
    }
}

#[test]
fn widths_convert_from_byte_counts_and_mask_values() {
    assert_eq!(X86AccessWidth::try_from(4usize), Ok(X86AccessWidth::Dword));
    assert!(X86AccessWidth::try_from(3usize).is_err());
    assert_eq!(X86AccessWidth::Word.size(), 2);
    assert_eq!(X86AccessWidth::Byte.mask_value(0x1234), 0x34);
    assert_eq!(X86AccessWidth::Qword.mask_value(u64::MAX), u64::MAX);
}

#[test]
fn port_ranges_are_inclusive() {
    let range = X86PortRange::new(X86Port::new(0x20), X86Port::new(0x21));
    assert!(range.contains(X86Port::new(0x20)));
    assert!(range.contains(X86Port::new(0x21)));
    assert!(!range.contains(X86Port::new(0x22)));
}

#[test]
fn guest_addresses_convert_and_advance() {
    let mut address = X86GuestPhysAddr::from(0x1000);
    address.advance(0x10);
    assert_eq!(address.as_usize(), 0x1010);
    assert_eq!((address + 0x10).as_usize(), 0x1020);
}
