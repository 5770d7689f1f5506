use rustedbytes_bytepusher_rombuilder::error::RomError;
use rustedbytes_bytepusher_rombuilder::rom_builder::{RomBuilder, ROM_SIZE};

#[test]
fn write_read_round_trip_u8_u16_u24() {
    let mut rb = RomBuilder::new();

    rb.set_current_addr(0x001234);
    rb.write_u8(0x5A).unwrap();
    assert_eq!(rb.read_u8(0x001234), 0x5A);

    rb.set_current_addr(0x002000);
    rb.write_u16(0xBEEF).unwrap();
    assert_eq!(rb.read_u16(0x002000), 0xBEEF);

    rb.set_current_addr(0x003000);
    rb.write_u24(0xABCDEF).unwrap();
    assert_eq!(rb.read_u24(0x003000), 0xABCDEF);

    // The very last writable addresses round-trip too.
    rb.set_current_addr(ROM_SIZE - 3);
    rb.write_u24(0x010203).unwrap();
    assert_eq!(rb.read_u24(ROM_SIZE - 3), 0x010203);
}

#[test]
fn multi_byte_writes_are_big_endian() {
    let mut rb = RomBuilder::new();

    rb.set_current_addr(0x004000);
    rb.write_u24(0x123456).unwrap();
    assert_eq!(rb.read_u8(0x004000), 0x12);
    assert_eq!(rb.read_u8(0x004001), 0x34);
    assert_eq!(rb.read_u8(0x004002), 0x56);
    assert_eq!(rb.get_current_addr(), 0x004003);

    rb.write_u16(0x0708).unwrap();
    assert_eq!(rb.read_u8(0x004003), 0x07);
    assert_eq!(rb.read_u8(0x004004), 0x08);

    // write_addr keeps only the low 24 bits.
    rb.set_current_addr(0x005000);
    rb.write_addr(0x71234567).unwrap();
    assert_eq!(rb.read_u24(0x005000), 0x234567);

    // write_u24 ignores bits 24..32 of its argument.
    rb.set_current_addr(0x005100);
    rb.write_u24(0xFF000102).unwrap();
    assert_eq!(rb.read_u24(0x005100), 0x000102);
}

#[test]
fn out_of_bounds_writes_are_rejected() {
    let mut rb = RomBuilder::new();

    rb.set_current_addr(ROM_SIZE);
    assert_eq!(rb.write_u8(0x01), Err(RomError::OutOfBounds));
    assert_eq!(rb.get_current_addr(), ROM_SIZE);

    rb.set_current_addr(ROM_SIZE - 1);
    assert_eq!(rb.write_u16(0x0102), Err(RomError::OutOfBounds));
    assert_eq!(rb.write_u24(0x010203), Err(RomError::OutOfBounds));
    // A one-byte write still fits.
    assert_eq!(rb.write_u8(0xFF), Ok(()));
    assert_eq!(rb.read_u8(ROM_SIZE - 1), 0xFF);

    rb.set_current_addr(ROM_SIZE - 2);
    assert_eq!(rb.write_u24(0x010203), Err(RomError::OutOfBounds));
    // The rejected write changed nothing.
    assert_eq!(rb.read_u8(ROM_SIZE - 2), 0x00);
}

#[test]
fn id_table_contents_after_install() {
    let mut rb = RomBuilder::new();
    rb.set_current_addr(0x000400);
    rb.install_id_table().unwrap();

    assert_eq!(rb.get_id_table_addr(), Some(0x000400));
    assert_eq!(rb.get_current_addr(), 0x000500);
    for v in 0..=255u8 {
        assert_eq!(rb.read_u8(0x000400 + v as usize), v);
    }
}

#[test]
fn inc_table_contents_wrap_around() {
    let mut rb = RomBuilder::new();
    rb.set_current_addr(0x000600);
    rb.install_inc_table().unwrap();

    assert_eq!(rb.get_inc_table_addr(), Some(0x000600));
    for v in 0..255u8 {
        assert_eq!(rb.read_u8(0x000600 + v as usize), v + 1);
    }
    assert_eq!(rb.read_u8(0x000600 + 255), 0x00);
}

#[test]
fn misaligned_table_installs_rejected() {
    let mut rb = RomBuilder::new();

    rb.set_current_addr(0x000101);
    assert_eq!(rb.install_id_table(), Err(RomError::TableMisaligned));
    assert_eq!(rb.install_inc_table(), Err(RomError::TableMisaligned));
    assert_eq!(rb.get_id_table_addr(), None);
    assert_eq!(rb.get_inc_table_addr(), None);
    assert_eq!(rb.get_current_addr(), 0x000101);
    // Nothing was written.
    for a in 0x000100..0x000300 {
        assert_eq!(rb.read_u8(a), 0x00);
    }
}

#[test]
fn double_table_installs_rejected_and_contents_kept() {
    let mut rb = RomBuilder::new();

    rb.set_current_addr(0x000100);
    rb.install_id_table().unwrap();
    rb.set_current_addr(0x000800);
    assert_eq!(rb.install_id_table(), Err(RomError::TableAlreadyInstalled));
    assert_eq!(rb.get_id_table_addr(), Some(0x000100));
    // The first installation is untouched and the second wrote nothing.
    for v in 0..=255u8 {
        assert_eq!(rb.read_u8(0x000100 + v as usize), v);
        assert_eq!(rb.read_u8(0x000800 + v as usize), 0x00);
    }

    rb.set_current_addr(0x000900);
    rb.install_inc_table().unwrap();
    rb.set_current_addr(0x000A00);
    assert_eq!(rb.install_inc_table(), Err(RomError::TableAlreadyInstalled));
    assert_eq!(rb.get_inc_table_addr(), Some(0x000900));
    assert_eq!(rb.read_u8(0x000900), 0x01);
    assert_eq!(rb.read_u8(0x000A00), 0x00);
}

#[test]
fn init_regs_layout() {
    let mut rb = RomBuilder::new();
    rb.init_regs(0x1234, 0x000100, 0x010000, 0x00FF00);

    assert_eq!(rb.read_u8(0x000000), 0x12);
    assert_eq!(rb.read_u8(0x000001), 0x34);
    assert_eq!(rb.read_u24(0x000002), 0x000100);
    assert_eq!(rb.read_u8(0x000005), 0x01);
    assert_eq!(rb.read_u8(0x000006), 0x00);
    assert_eq!(rb.read_u8(0x000007), 0xFF);
    assert_eq!(rb.get_current_addr(), 8);
}

#[test]
fn trimmed_serialization_bounded_by_last_nonzero() {
    let mut rb = RomBuilder::new();
    rb.set_current_addr(0x000F00);
    rb.write_u8(0xAB).unwrap();

    let bytes = rb.to_trimmed_bytes();
    assert_eq!(bytes.len(), 0x000F01);
    assert_eq!(bytes[0x000F00], 0xAB);
    assert!(bytes.len() <= 0x001000);
    assert!(bytes[..0x000F00].iter().all(|&b| b == 0));
}

#[test]
fn trimmed_serialization_of_blank_image_is_empty() {
    let rb = RomBuilder::new();
    assert_eq!(rb.to_trimmed_bytes().len(), 0);
}

#[test]
fn cursor_getters() {
    let mut rb = RomBuilder::new();
    assert_eq!(rb.get_current_addr(), 0);
    rb.set_current_addr(0x000321);
    assert_eq!(rb.get_current_addr(), 0x000321);
    assert_eq!(rb.get_next_addr(), 0x000324);
    assert_eq!(rb.get_next_instr_addr(), 0x00032A);
}

#[test]
fn write_current_and_next_addr() {
    let mut rb = RomBuilder::new();
    rb.set_current_addr(0x000500);
    rb.write_current_addr().unwrap();
    assert_eq!(rb.read_u24(0x000500), 0x000500);

    rb.set_current_addr(0x000600);
    rb.write_next_addr().unwrap();
    assert_eq!(rb.read_u24(0x000600), 0x000603);
}
