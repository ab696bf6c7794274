use myemu::constants::{
    DISPLAY_WIDTH, DMA2D_CMD_ADDR, DMA2D_CMD_FILL, DMA2D_CMD_ROUND_RECT, DMA2D_CMD_SHADOW,
    DMA2D_COLOR_ADDR, DMA2D_DEST_ADDR, DMA2D_HEIGHT_ADDR, DMA2D_WIDTH_ADDR, VRAM_BASE,
};
use myemu::machine::dma2d::{blend_pixel, lerp_color};
use myemu::machine::Machine;

#[test]
fn alpha_extremes_are_identity_and_copy() {
    assert_eq!(blend_pixel(0x123456, 0xABCDEF, 0), 0x123456);
    assert_eq!(blend_pixel(0x123456, 0xFFABCDEF, 255), 0xABCDEF);
}

#[test]
fn half_alpha_lands_in_the_middle() {
    assert_eq!(blend_pixel(0x000000, 0xFFFFFF, 128), 0x808080);
    assert_eq!(blend_pixel(0xFFFFFF, 0x000000, 128), 0x7F7F7F);
}

#[test]
fn lerp_endpoints() {
    assert_eq!(lerp_color(0x102030, 0x405060, 0), 0x102030);
    assert_eq!(lerp_color(0x102030, 0x405060, 255), 0x405060);
}

#[test]
fn blend_rounds_each_channel_to_nearest() {
    // (0x10 * 191 + 0x90 * 64 + 127) / 255 = 48 = 0x30 per channel.
    assert_eq!(blend_pixel(0x101010, 0x909090, 64), 0x303030);
    // Alpha above 255 is an opaque copy too.
    assert_eq!(blend_pixel(0x123456, 0x00ABCDEF, 300), 0xABCDEF);
}

fn draw_rect(m: &mut Machine, x: u32, y: u32, w: u32, h: u32, color: u32, cmd: u32) {
    let dest = VRAM_BASE + 4 * (y * DISPLAY_WIDTH as u32 + x);
    m.bus_write(DMA2D_DEST_ADDR, dest);
    m.bus_write(DMA2D_WIDTH_ADDR, w);
    m.bus_write(DMA2D_HEIGHT_ADDR, h);
    m.bus_write(DMA2D_COLOR_ADDR, color);
    m.bus_write(DMA2D_CMD_ADDR, cmd);
}

#[test]
fn fill_paints_exactly_the_rectangle() {
    let mut m = Machine::new(false);
    draw_rect(&mut m, 2, 1, 3, 2, 0xFF11_2233, DMA2D_CMD_FILL);
    let w = DISPLAY_WIDTH;
    assert_eq!(m.vram[w + 2], 0x0011_2233);
    assert_eq!(m.vram[w + 4], 0x0011_2233);
    assert_eq!(m.vram[2 * w + 3], 0x0011_2233);
    assert_eq!(m.vram[w + 1], 0);
    assert_eq!(m.vram[w + 5], 0);
    assert_eq!(m.vram[3 * w + 2], 0);
    assert_eq!(m.vram[2], 0);
}

#[test]
fn shape_commands_wait_for_host_coverage() {
    let mut m = Machine::new(false);
    draw_rect(&mut m, 0, 0, 2, 2, 0x0000_00FF, DMA2D_CMD_ROUND_RECT);
    let shape = m.pending_shape().expect("rounded rectangle is latched");
    assert_eq!(shape.peak_alpha(), 255);
    assert_eq!(shape.outline_width(), 1);
    let targets = m.shape_targets();
    assert_eq!(targets.len(), 4);
    assert_eq!(targets[1].index, 1);
    assert_eq!((targets[2].x, targets[2].y), (0, 1));
    assert_eq!(targets[2].index as usize, DISPLAY_WIDTH);
    m.finish_shape(&targets, &[255, 0, 128, 255]);
    assert!(m.pending_shape().is_none());
    assert_eq!(m.vram[0], 0x0000_00FF);
    assert_eq!(m.vram[1], 0);
    assert_eq!(m.vram[DISPLAY_WIDTH], 0x0000_0080);
    assert_eq!(m.vram[DISPLAY_WIDTH + 1], 0x0000_00FF);
}

#[test]
fn shadow_spreads_around_the_caster() {
    let mut m = Machine::new(false);
    draw_rect(&mut m, 100, 100, 10, 10, 0, DMA2D_CMD_SHADOW);
    let shape = m.pending_shape().expect("shadow is latched");
    assert_eq!(shape.peak_alpha(), 128);
    assert_eq!(shape.shadow_blur(), 8);
    let targets = m.shape_targets();
    // (10 + 2 * 8) pixels square around the caster.
    assert_eq!(targets.len(), 26 * 26);
    assert_eq!((targets[0].x, targets[0].y), (-8, -8));
    assert_eq!(targets[0].index as usize, 92 * DISPLAY_WIDTH + 92);
}

fn set_scissor(m: &mut Machine, x0: u32, y0: u32, x1: u32, y1: u32) {
    m.bus_write(myemu::constants::DMA2D_CLIP_X0_ADDR, x0);
    m.bus_write(myemu::constants::DMA2D_CLIP_Y0_ADDR, y0);
    m.bus_write(myemu::constants::DMA2D_CLIP_X1_ADDR, x1);
    m.bus_write(myemu::constants::DMA2D_CLIP_Y1_ADDR, y1);
}

#[test]
fn scissor_limits_a_fill() {
    let mut m = Machine::new(false);
    set_scissor(&mut m, 3, 0, 5, 2);
    draw_rect(&mut m, 2, 1, 6, 3, 0x00AB_CDEF, DMA2D_CMD_FILL);
    let w = DISPLAY_WIDTH;
    assert_eq!(m.vram[w + 2], 0);
    assert_eq!(m.vram[w + 3], 0x00AB_CDEF);
    assert_eq!(m.vram[w + 4], 0x00AB_CDEF);
    assert_eq!(m.vram[w + 5], 0);
    assert_eq!(m.vram[2 * w + 3], 0);
}

#[test]
fn scissor_is_off_while_x1_is_not_past_x0() {
    let mut m = Machine::new(false);
    set_scissor(&mut m, 5, 5, 5, 9);
    draw_rect(&mut m, 0, 0, 2, 2, 0x0012_3456, DMA2D_CMD_FILL);
    assert_eq!(m.vram[0], 0x0012_3456);
    assert_eq!(m.vram[DISPLAY_WIDTH + 1], 0x0012_3456);
}

#[test]
fn an_empty_scissor_height_draws_nothing() {
    let mut m = Machine::new(false);
    set_scissor(&mut m, 0, 4, 10, 4);
    draw_rect(&mut m, 0, 0, 8, 8, 0x0012_3456, DMA2D_CMD_FILL);
    for y in 0..8 {
        for x in 0..8 {
            assert_eq!(m.vram[y * DISPLAY_WIDTH + x], 0);
        }
    }
}
