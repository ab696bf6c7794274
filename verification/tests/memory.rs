use myemu::constants::{is_io_address, is_ram_address, is_rom_address, is_vram_address, ROM_START, VRAM_BASE};
use myemu::machine::Machine;

#[test]
fn ram_words_read_back_and_leave_neighbours_alone() {
    let mut m = Machine::new(false);
    m.bus_write(0x100, 0x1122_3344);
    m.bus_write(0x104, 0x5566_7788);
    assert_eq!(m.bus_read(0x100), 0x1122_3344);
    assert_eq!(m.bus_read(0x104), 0x5566_7788);
    assert_eq!(m.bus_read(0x102), 0x3344_5566);
    assert_eq!(m.bus_read_byte(0x103), 0x44);
    m.bus_write_byte(0x101, 0xAB);
    assert_eq!(m.bus_read(0x100), 0x11AB_3344);
}

#[test]
fn vram_pixels_read_back() {
    let mut m = Machine::new(false);
    m.bus_write(VRAM_BASE + 8, 0x00C0_FFEE);
    assert_eq!(m.bus_read(VRAM_BASE + 8), 0x00C0_FFEE);
    assert_eq!(m.bus_read(VRAM_BASE + 4), 0);
    assert_eq!(m.bus_read_byte(VRAM_BASE + 9), 0xC0);
}

#[test]
fn rom_is_loaded_but_not_written_by_the_guest() {
    let mut m = Machine::new(false);
    m.load_rom(&[0xCAFE_BABE], ROM_START);
    assert_eq!(m.bus_read(ROM_START), 0xCAFE_BABE);
    m.bus_write(ROM_START, 0);
    assert_eq!(m.bus_read(ROM_START), 0xCAFE_BABE);
}

#[test]
fn address_classes() {
    assert!(is_ram_address(0));
    assert!(!is_ram_address(0x2000_0000));
    assert!(is_vram_address(VRAM_BASE));
    assert!(is_rom_address(ROM_START));
    assert!(is_io_address(0x2400_0000));
    assert!(!is_io_address(VRAM_BASE));
}
