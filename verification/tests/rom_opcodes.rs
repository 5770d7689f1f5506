use rustedbytes_bytepusher_rombuilder::error::RomError;
use rustedbytes_bytepusher_rombuilder::rom_builder::{RomBuilder, PROGRAM_COUNTER_ADDR};

/// Execute one copy-jump instruction stored at `instr_addr`, as the target
/// machine would: copy the byte at the source address to the target address
/// and return the jump address.
fn exec_bbj(rom: &mut RomBuilder, instr_addr: usize) -> usize {
    let source = rom.read_u24(instr_addr) as usize;
    let target = rom.read_u24(instr_addr + 3) as usize;
    let jump = rom.read_u24(instr_addr + 6) as usize;

    let byte = rom.read_u8(source);
    let saved = rom.get_current_addr();
    rom.org(target);
    rom.db(byte).unwrap();
    rom.org(saved);

    jump
}

#[test]
fn test_inc_generates_expected_bytes() {
    let mut rb = RomBuilder::new();

    rb.org(0x000000);
    rb.install_inc_table().unwrap();

    rb.org(0x000100);

    rb.db(0x00).unwrap();
    rb.inc(0x000100).unwrap();
    rb.inc(0x000100).unwrap();

    let mut pc = 0x000101;
    for _ in 0..2 {
        pc = exec_bbj(&mut rb, pc);
        let window: Vec<u8> = (0x000100..0x000100 + 19).map(|a| rb.read_u8(a)).collect();
        println!("{:?}", window);
    }
    assert_eq!(rb.read_u8(0x000100), 0x01);

    for _ in 0..2 {
        pc = exec_bbj(&mut rb, pc);
        let window: Vec<u8> = (0x000100..0x000100 + 19).map(|a| rb.read_u8(a)).collect();
        println!("{:?}", window);
    }
    assert_eq!(rb.read_u8(0x000100), 0x02);
}

#[test]
fn bbj_encodes_three_addresses() {
    let mut rb = RomBuilder::new();
    rb.org(0x000100);
    rb.bbj(0x123456, 0xABCDEF, 0x000100).unwrap();

    assert_eq!(rb.read_u24(0x000100), 0x123456);
    assert_eq!(rb.read_u24(0x000103), 0xABCDEF);
    assert_eq!(rb.read_u24(0x000106), 0x000100);
    assert_eq!(rb.get_current_addr(), 0x000109);
}

#[test]
fn bbj_masks_to_24_bits() {
    let mut rb = RomBuilder::new();
    rb.org(0x000100);
    rb.bbj(0x71234567, 0x0, 0x0).unwrap();
    assert_eq!(rb.read_u24(0x000100), 0x234567);
}

#[test]
fn nop_wait_jmp_encodings() {
    let mut rb = RomBuilder::new();

    rb.org(0x000100);
    rb.nop().unwrap();
    assert_eq!(rb.read_u24(0x000100), 0x000000);
    assert_eq!(rb.read_u24(0x000103), 0x000000);
    assert_eq!(rb.read_u24(0x000106), 0x000109);

    rb.org(0x000200);
    rb.wait().unwrap();
    assert_eq!(rb.read_u24(0x000206), 0x000200);

    rb.org(0x000300);
    rb.jmp(0x00CAFE).unwrap();
    assert_eq!(rb.read_u24(0x000300), 0x000000);
    assert_eq!(rb.read_u24(0x000303), 0x000000);
    assert_eq!(rb.read_u24(0x000306), 0x00CAFE);
}

#[test]
fn cpy_jumps_past_itself() {
    let mut rb = RomBuilder::new();
    rb.org(0x000400);
    rb.cpy(0x001111, 0x002222).unwrap();
    assert_eq!(rb.read_u24(0x000400), 0x001111);
    assert_eq!(rb.read_u24(0x000403), 0x002222);
    assert_eq!(rb.read_u24(0x000406), 0x000409);
}

#[test]
fn cpyi_loads_immediate_when_executed() {
    for &v in &[0u8, 1, 127, 255] {
        let mut rb = RomBuilder::new();
        rb.org(0x000100);
        rb.install_id_table().unwrap();

        rb.org(0x000300);
        rb.cpyi(v, 0x002000).unwrap();
        assert_eq!(rb.get_current_addr(), 0x000309);

        let pc = exec_bbj(&mut rb, 0x000300);
        assert_eq!(rb.read_u8(0x002000), v);
        assert_eq!(pc, 0x000309);
    }
}

#[test]
fn cpyi_addr_loads_24_bit_value_when_executed() {
    let mut rb = RomBuilder::new();
    rb.org(0x000100);
    rb.install_id_table().unwrap();

    rb.org(0x000300);
    rb.cpyi_addr(0x01ABCD, 0x002000).unwrap();
    assert_eq!(rb.get_current_addr(), 0x000300 + 27);

    let mut pc = 0x000300;
    for _ in 0..3 {
        pc = exec_bbj(&mut rb, pc);
    }
    assert_eq!(rb.read_u8(0x002000), 0x01);
    assert_eq!(rb.read_u8(0x002001), 0xAB);
    assert_eq!(rb.read_u8(0x002002), 0xCD);
    assert_eq!(pc, 0x000300 + 27);
}

#[test]
fn missing_tables_are_rejected() {
    let mut rb = RomBuilder::new();
    rb.org(0x000300);
    assert_eq!(rb.cpyi(0x42, 0x002000), Err(RomError::TableNotInstalled));
    assert_eq!(rb.cpyi_addr(0x012345, 0x002000), Err(RomError::TableNotInstalled));
    assert_eq!(rb.sync(), Err(RomError::TableNotInstalled));
    assert_eq!(rb.inc(0x002000), Err(RomError::TableNotInstalled));
    // Nothing was emitted by the rejected calls.
    assert_eq!(rb.get_current_addr(), 0x000300);
    assert_eq!(rb.read_u24(0x000300), 0x000000);
}

#[test]
fn sync_emits_36_bytes_and_resumes_after_block() {
    let mut rb = RomBuilder::new();
    rb.org(0x000100);
    rb.install_id_table().unwrap();

    rb.org(0x000300);
    rb.sync().unwrap();
    assert_eq!(rb.get_current_addr(), 0x000300 + 36);

    // The block ends in a busy-wait self-loop.
    assert_eq!(rb.read_u24(0x000300 + 27), 0x000000);
    assert_eq!(rb.read_u24(0x000300 + 30), 0x000000);
    assert_eq!(rb.read_u24(0x000300 + 33), 0x000300 + 27);

    // Executing the three loads leaves the address right after the block in
    // the execution-pointer register.
    let mut pc = 0x000300;
    for _ in 0..3 {
        pc = exec_bbj(&mut rb, pc);
    }
    assert_eq!(pc, 0x000300 + 27);
    assert_eq!(rb.read_u24(PROGRAM_COUNTER_ADDR), (0x000300 + 36) as u32);
}

#[test]
fn db_arr_writes_block() {
    let mut rb = RomBuilder::new();
    rb.org(0x000500);
    rb.db_arr(&[1, 2, 3, 4, 5]).unwrap();
    assert_eq!(rb.get_current_addr(), 0x000505);
    for (k, expected) in [1u8, 2, 3, 4, 5].iter().enumerate() {
        assert_eq!(rb.read_u8(0x000500 + k), *expected);
    }

    rb.org(0xFFFFFE);
    assert_eq!(rb.db_arr(&[1, 2, 3]), Err(RomError::OutOfBounds));
    assert_eq!(rb.read_u8(0xFFFFFE), 0x00);
}
