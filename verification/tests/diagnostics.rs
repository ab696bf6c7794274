use myemu::machine::diagnostics::{screenshot_is_png, trace_line};
use myemu::machine::Machine;
use myemu::report::target_register;

#[test]
fn register_report_lists_every_register() {
    let mut m = Machine::new(false);
    m.set_register(3, 0xABCD).unwrap();
    let r = m.register_report_hex();
    assert!(r.starts_with("R0: 0x00000000\nR1: 0x00000000\nR2: 0x00000000\nR3: 0x0000ABCD\n"));
    assert!(r.contains("SP: 0x20000000\nBP: 0x00000000\nPC: 0x00000000\nSR: 0x00000000\nLR: 0x00000000\n"));
    assert!(r.ends_with("FLAGS: C=false Z=false S=false O=false\n"));
}

#[test]
fn debug_report_uses_plain_hex() {
    let mut m = Machine::new(false);
    m.set_register(0, 0x1F).unwrap();
    let r = m.debug_report();
    assert!(r.starts_with("reg0: 0x1f\nreg1: 0x0\n"));
    assert!(r.contains("PC: 0x0\nSP: 0x20000000\n"));
    assert!(r.ends_with("Flags: Zero: false, Carry: false, Sign: false, Overflow: false\n"));
}

#[test]
fn ram_dump_lists_words_up_to_the_end_address() {
    let mut m = Machine::new(false);
    m.ram_write_word(0x10, 0x0102_0304);
    let text = m.dump_memory_text(0x10, 0x17).unwrap();
    let dashes = "-".repeat(60);
    assert_eq!(
        text,
        format!("Memory Dump from 0x10 to 0x17\n{}\n0x10: 0x01020304\n0x14: 0x00000000\n", dashes)
    );
    assert_eq!(
        m.dump_memory_text(0x20, 0x10),
        Err("Invalid memory dump range: 0x00000020..0x00000010".to_string())
    );
    assert!(m.dump_memory_text(0, 0x2000_0000).is_err());
}

#[test]
fn byte_dump_prints_sixteen_bytes_a_line() {
    let mut m = Machine::new(false);
    m.ram_write_word(0, 0xDEAD_BEEF);
    assert_eq!(m.memory_range_text(0, 0), "[MEM] empty range\n");
    let text = m.memory_range_text(0, 18);
    assert_eq!(
        text,
        "[MEM] 0x00000000..0x00000011 (18 byte(s))\n0x00000000: DE AD BE EF 00 00 00 00 00 00 00 00 00 00 00 00\n0x00000010: 00 00\n"
    );
}

#[test]
fn bus_word_dump_of_an_empty_range_is_empty() {
    let m = Machine::new(false);
    assert_eq!(m.bus_word_dump(0x1FFF_F000, 0x0200_0000), "");
    assert_eq!(m.bus_word_dump(0, 4), "0x0: 0x00000000\n0x4: 0x00000000\n");
}

#[test]
fn ppm_has_header_and_three_bytes_per_pixel() {
    let mut m = Machine::new(false);
    m.vram[0] = 0x0012_3456;
    let img = m.ppm_image();
    assert_eq!(&img[..16], b"P6\n1024 768\n255\n");
    assert_eq!(&img[16..19], &[0x12, 0x34, 0x56]);
    assert_eq!(img.len(), 16 + 1024 * 768 * 3);
}

#[test]
fn trace_line_names_the_instruction() {
    assert_eq!(
        trace_line(0x10, 0x1422_0000),
        "PC: 0x00000010, Instruction: 0x14220000, ADD r1=0x1 r2=0x2 imm=0x0"
    );
}

#[test]
fn summary_shows_signed_and_binary_values() {
    let mut m = Machine::new(false);
    m.set_register(0, 0xFFFF_FFFE).unwrap();
    let s = m.summary();
    assert!(s.starts_with(
        "R0: Unsigned=4294967294, Signed=-2, Binary=11111111111111111111111111111110\n"
    ));
    assert!(s.contains("R1: Unsigned=0, Signed=0, Binary=00000000000000000000000000000000\n"));
    assert!(s.contains("SP: 20000000\nBP: 0\nPC: 0\nSR: 0\nLR: 0\n"));
    assert!(s.ends_with("Flags: Carry=false, Zero=false, Sign=false, Overflow=false\n"));
}

#[test]
fn register_names_r0_to_r7() {
    assert_eq!(target_register("R0"), Ok(0));
    assert_eq!(target_register("R7"), Ok(7));
    assert_eq!(target_register("R8"), Err("Invalid register name: R8".to_string()));
    assert_eq!(target_register("r1"), Err("Invalid register name: r1".to_string()));
    assert_eq!(target_register("R10"), Err("Invalid register name: R10".to_string()));
}

#[test]
fn screenshot_format_follows_the_extension() {
    assert!(screenshot_is_png("shot.png"));
    assert!(screenshot_is_png("SHOT.PNG"));
    assert!(!screenshot_is_png("shot.ppm"));
    assert!(!screenshot_is_png("png"));
    assert!(!screenshot_is_png("shot.pngx"));
    let m = Machine::new(false);
    let png = m.screenshot_image("out/shot.png");
    assert_eq!(&png[..8], &[0x89, 0x50, 0x4E, 0x47, 0x0D, 0x0A, 0x1A, 0x0A]);
    let ppm = m.screenshot_image("shot.ppm");
    assert_eq!(ppm, m.ppm_image());
    assert!(ppm.starts_with(b"P6\n1024 768\n255\n"));
}

#[test]
fn scanout_follows_the_swap() {
    let mut m = Machine::new(false);
    m.vram[0] = 0x00AB_CDEF;
    assert_eq!(m.scanout_pixels()[0], 0x00AB_CDEF);
    m.bus_write(myemu::constants::DISPLAY_SWAP_ADDR, 1);
    m.vram[0] = 0x0012_3456;
    assert_eq!(m.scanout_pixels()[0], 0x00AB_CDEF);
}
