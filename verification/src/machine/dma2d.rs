// 2D accelerator (DMA2D) datapath. Alpha is 8-bit straight (not
// premultiplied): out = dst + (src - dst) * a / 255, rounded to nearest. A
// source alpha of 0 leaves the destination untouched, 255 is an opaque copy.
use vstd::prelude::*;

use crate::bytes::be_word;
use crate::constants::{
    DISPLAY_HEIGHT, DISPLAY_WIDTH, DMA2D_CLIP_X0_ADDR, DMA2D_CLIP_X1_ADDR, DMA2D_CLIP_Y0_ADDR,
    DMA2D_CLIP_Y1_ADDR, DMA2D_CMD_BLEND_FILL, DMA2D_CMD_COPY, DMA2D_CMD_COPY_BLEND,
    DMA2D_CMD_FILL, DMA2D_CMD_GRADIENT_H, DMA2D_CMD_GRADIENT_V, DMA2D_CMD_MASK_A8,
    DMA2D_CMD_ROUND_RECT, DMA2D_CMD_ROUND_RECT_OUTLINE, DMA2D_CMD_SHADOW, DMA2D_COLOR2_ADDR,
    DMA2D_COLOR_ADDR, DMA2D_DEST_ADDR, DMA2D_HEIGHT_ADDR, DMA2D_RADIUS_ADDR, DMA2D_SPREAD_ADDR,
    DMA2D_SRC_ADDR, DMA2D_SRC_STRIDE_ADDR, DMA2D_STRIDE_ADDR, DMA2D_WIDTH_ADDR, RAM_END_EXCLUSIVE,
    VRAM_BASE, VRAM_END_EXCLUSIVE, VRAM_WORDS,
};
use crate::constants::{is_ram_address, is_vram_address};
use crate::machine::{Machine, MachineState};

verus! {

/// Channel `k` (0 = blue, 1 = green, 2 = red) of a packed 0x00RRGGBB colour.
pub open spec fn channel(v: u32, k: int) -> int {
    if k == 0 {
        v as int % 256
    } else if k == 1 {
        (v as int / 256) % 256
    } else {
        (v as int / 65536) % 256
    }
}

/// One channel of `s` blended over `d` with coverage `a` (0 < a < 255),
/// rounded to nearest.
pub open spec fn mix(d: int, s: int, a: int) -> int {
    (d * (255 - a) + s * a + 127) / 255
}

/// `src` blended over `dst` with 8-bit coverage `a`, per channel; the result
/// carries no alpha byte.
pub open spec fn blended(dst: u32, src: u32, a: u32) -> u32 {
    if a == 0 {
        dst
    } else if a >= 255 {
        (src as int % 0x100_0000) as u32
    } else {
        (mix(channel(dst, 0), channel(src, 0), a as int) + mix(channel(dst, 1), channel(src, 1), a as int)
            * 256 + mix(channel(dst, 2), channel(src, 2), a as int) * 65536) as u32
    }
}

proof fn lemma_mix_bounds(d: int, s: int, a: int)
    requires
        0 <= d < 256,
        0 <= s < 256,
        0 < a < 255,
    ensures
        0 <= mix(d, s, a) < 256,
{
    assert(0 <= d * (255 - a) + s * a + 127 < 256 * 255) by (nonlinear_arith)
        requires
            0 <= d < 256,
            0 <= s < 256,
            0 < a < 255,
    ;
    assert(0 <= (d * (255 - a) + s * a + 127) / 255 < 256) by (nonlinear_arith)
        requires
            0 <= d * (255 - a) + s * a + 127 < 256 * 255,
    ;
}

proof fn lemma_mix_between(d: int, s: int, a: int)
    requires
        0 <= d < 256,
        0 <= s < 256,
        0 < a < 255,
    ensures
        d <= s ==> d <= mix(d, s, a) <= s,
        s <= d ==> s <= mix(d, s, a) <= d,
{
    assert(d <= s ==> d <= (d * (255 - a) + s * a + 127) / 255 <= s) by (nonlinear_arith)
        requires
            0 <= d < 256,
            0 <= s < 256,
            0 < a < 255,
    ;
    assert(s <= d ==> s <= (d * (255 - a) + s * a + 127) / 255 <= d) by (nonlinear_arith)
        requires
            0 <= d < 256,
            0 <= s < 256,
            0 < a < 255,
    ;
}

fn blend_channel(dst: u32, src: u32, a: u32, shift: u32) -> (r: u32)
    requires
        0 < a < 255,
        shift == 0 || shift == 8 || shift == 16,
    ensures
        r == mix(channel(dst, shift as int / 8), channel(src, shift as int / 8), a as int),
        r < 256,
{
    let d = (dst >> shift) & 0xFF;
    let s = (src >> shift) & 0xFF;
    assert(d == channel(dst, shift as int / 8) && s == channel(src, shift as int / 8)) by {
        assert((dst >> 0u32) & 0xFF == dst % 256 && (src >> 0u32) & 0xFF == src % 256 && (dst
            >> 8u32) & 0xFF == (dst / 256) % 256 && (src >> 8u32) & 0xFF == (src / 256) % 256 && (dst
            >> 16u32) & 0xFF == (dst / 65536) % 256 && (src >> 16u32) & 0xFF == (src / 65536) % 256)
            by (bit_vector);
    }
    proof {
        lemma_mix_bounds(d as int, s as int, a as int);
        assert(d * (255 - a) + s * a + 127 < 256 * 255) by (nonlinear_arith)
            requires
                d < 256,
                s < 256,
                0 < a < 255,
        ;
    }
    // +127 rounds to nearest instead of truncating toward the destination,
    // so a 50% blend of black over white is 128, not 127.
    (d * (255 - a) + s * a + 127) / 255
}

/// Blends `src` over `dst` with 8-bit coverage/alpha `a`, per channel.
pub fn blend_pixel(dst: u32, src: u32, a: u32) -> (r: u32)
    ensures
        r == blended(dst, src, a),
{
    if a == 0 {
        return dst;
    }
    if a >= 255 {
        assert(src & 0x00FF_FFFF == src % 0x100_0000) by (bit_vector);
        return src & 0x00FF_FFFF;
    }
    let c0 = blend_channel(dst, src, a, 0);
    let c1 = blend_channel(dst, src, a, 8);
    let c2 = blend_channel(dst, src, a, 16);
    assert(c0 | (c1 << 8u32) | (c2 << 16u32) == c0 + c1 * 256 + c2 * 65536) by (bit_vector)
        requires
            c0 < 256,
            c1 < 256,
            c2 < 256,
    ;
    c0 | (c1 << 8u32) | (c2 << 16u32)
}

/// Linear interpolation between two packed colours; t is 0..=255.
pub fn lerp_color(c0: u32, c1: u32, t: u32) -> (r: u32)
    ensures
        r == blended(c0, c1, t),
{
    blend_pixel(c0, c1, t)
}

/// Channel `k` of `o` lies between channel `k` of `d` and of `s`.
pub open spec fn channel_between(d: u32, s: u32, o: u32, k: int) -> bool {
    let a = channel(d, k);
    let b = channel(s, k);
    let c = channel(o, k);
    (a <= b ==> a <= c <= b) && (b <= a ==> b <= c <= a)
}

/// Coverage 0 leaves the destination as it was; full coverage is an opaque
/// copy of the source colour; in between every channel lies between the two.
#[verifier::spinoff_prover]
#[verifier::rlimit(40)]
pub proof fn lemma_blend_is_between(dst: u32, src: u32, a: u32)
    requires
        dst < 0x100_0000,
    ensures
        a == 0 ==> blended(dst, src, a) == dst,
        a >= 255 ==> blended(dst, src, a) == src % 0x100_0000,
        blended(dst, src, a) < 0x100_0000,
        channel_between(dst, src, blended(dst, src, a), 0),
        channel_between(dst, src, blended(dst, src, a), 1),
        channel_between(dst, src, blended(dst, src, a), 2),
{
    if 0 < a < 255 {
        let ai = a as int;
        let m0 = mix(channel(dst, 0), channel(src, 0), ai);
        let m1 = mix(channel(dst, 1), channel(src, 1), ai);
        let m2 = mix(channel(dst, 2), channel(src, 2), ai);
        lemma_mix_between(channel(dst, 0), channel(src, 0), ai);
        lemma_mix_between(channel(dst, 1), channel(src, 1), ai);
        lemma_mix_between(channel(dst, 2), channel(src, 2), ai);
        lemma_mix_bounds(channel(dst, 0), channel(src, 0), ai);
        lemma_mix_bounds(channel(dst, 1), channel(src, 1), ai);
        lemma_mix_bounds(channel(dst, 2), channel(src, 2), ai);
        let o = m0 + m1 * 256 + m2 * 65536;
        assert(o % 256 == m0 && (o / 256) % 256 == m1 && (o / 65536) % 256 == m2 && o < 0x100_0000)
            by (nonlinear_arith)
            requires
                0 <= m0 < 256,
                0 <= m1 < 256,
                0 <= m2 < 256,
                o == m0 + m1 * 256 + m2 * 65536,
        ;
    } else if a >= 255 {
        assert(channel((src as int % 0x100_0000) as u32, 0) == channel(src, 0));
        assert(channel((src as int % 0x100_0000) as u32, 1) == channel(src, 1));
        assert(channel((src as int % 0x100_0000) as u32, 2) == channel(src, 2));
    }
}

} // verus!

verus! {

/// The destination rectangle after the scissor: `x0..x1` / `y0..y1` are the
/// pixels actually written, relative to the unclipped origin, so per-pixel
/// shapes and source fetches stay aligned with the full rectangle.
#[derive(Clone, Copy, Debug, PartialEq, Eq, Structural)]
pub struct Dest {
    /// Back-buffer index of the unclipped top-left pixel.
    pub origin: u64,
    /// Pixels per row.
    pub stride: u64,
    /// Unclipped size.
    pub w: u64,
    pub h: u64,
    pub x0: u64,
    pub y0: u64,
    pub x1: u64,
    pub y1: u64,
}

/// A shape command (rounded rectangle, outline or shadow) whose per-pixel
/// coverage the host computes; the machine blends COLOR with it.
#[derive(Clone, Copy, Debug, PartialEq, Eq, Structural)]
pub struct ShapeCommand {
    pub cmd: u32,
    pub dest: Dest,
    pub color: u32,
    /// Corner radius register.
    pub radius: u32,
    /// SPREAD register (outline thickness or shadow blur); 0 when unwritten.
    pub spread: u32,
    /// Whether SPREAD was written.
    pub spread_set: bool,
    /// The scissor registers CLIP_X0, CLIP_Y0, CLIP_X1, CLIP_Y1.
    pub clip_x0: u32,
    pub clip_y0: u32,
    pub clip_x1: u32,
    pub clip_y1: u32,
}

/// A back-buffer pixel a shape command writes, with its position relative
/// to the unclipped destination origin.
#[derive(Clone, Copy, Debug, PartialEq, Eq, Structural)]
pub struct ShapeTarget {
    pub index: u64,
    pub x: i64,
    pub y: i64,
}

/// How one pixel of a painting command is computed.
#[derive(Clone, Copy, Debug, PartialEq, Eq, Structural)]
pub enum Paint {
    /// Opaque colour.
    Solid { color: u32 },
    /// COLOR blended with its own alpha.
    Blend { color: u32, alpha: u32 },
    /// Pixels from SRC, copied (alpha ignored) or blended by their alpha.
    Copy { src: u32, src_stride: u64, blend: bool },
    /// COLOR blended by coverage bytes from SRC.
    Mask { color: u32, src: u32, src_stride: u64 },
    /// COLOR fading to COLOR2 down the rows.
    GradientV { c0: u32, c1: u32, span: u64 },
    /// COLOR fading to COLOR2 across the columns.
    GradientH { c0: u32, c1: u32, span: u64 },
}

/// Clamps `v` to `lo..=hi`.
pub open spec fn clamp(v: int, lo: int, hi: int) -> int {
    if v < lo {
        lo
    } else if v > hi {
        hi
    } else {
        v
    }
}

pub open spec fn min(a: int, b: int) -> int {
    if a < b {
        a
    } else {
        b
    }
}

pub open spec fn max(a: int, b: int) -> int {
    if a > b {
        a
    } else {
        b
    }
}

/// A pixel's new value given the source value `sv` the command read for it.
pub open spec fn paint_with(p: Paint, sv: u32, x: int, y: int, dst: u32) -> u32 {
    match p {
        Paint::Solid { color } => (color as int % 0x100_0000) as u32,
        Paint::Blend { color, alpha } => blended(dst, color, alpha),
        Paint::Copy { blend, .. } => if blend {
            blended(dst, sv, (sv as int / 0x100_0000) as u32)
        } else {
            (sv as int % 0x100_0000) as u32
        },
        Paint::Mask { color, .. } => blended(dst, color, sv),
        Paint::GradientV { c0, c1, span } => blended(c0, c1, (y * 255 / span as int) as u32),
        Paint::GradientH { c0, c1, span } => blended(c0, c1, (x * 255 / span as int) as u32),
    }
}

/// Whether a destination respects what `dest_of` guarantees.
pub open spec fn dest_sane(d: Dest, len: int) -> bool {
    &&& 0 < d.stride < 0x1_0000_0000
    &&& 0 < d.w < 0x1_0000_0000
    &&& 0 < d.h < 0x1_0000_0000
    &&& d.x0 < d.x1 <= d.w
    &&& d.y0 < d.y1 <= d.h
    &&& d.origin < 0x4000_0000
    &&& d.origin + (d.y1 - 1) * d.stride < len
}

/// A pending shape's destination lies inside a back buffer of `len` pixels.
#[verifier::opaque]
pub open spec fn shape_fits(shape: Option<ShapeCommand>, len: int) -> bool {
    shape matches Some(c) ==> dest_sane(c.dest, len)
}

impl MachineState {
    /// A DMA2D register, or `default` when the guest never wrote it.
    pub open spec fn reg_or(self, addr: u32, default: u32) -> u32 {
        if self.io.contains_key(addr) {
            self.io[addr]
        } else {
            default
        }
    }

    /// The destination rectangle the DMA2D registers describe, clipped by
    /// the scissor (in display coordinates, so only for display-width
    /// strides; off while CLIP_X1 <= CLIP_X0) and by the end of the back
    /// buffer; None when nothing is written.
    #[verifier::opaque]
    pub open spec fn dest_of(self) -> Option<Dest> {
        let dest = self.reg_or(DMA2D_DEST_ADDR, 0);
        let origin = (dest - VRAM_BASE) / 4;
        let w = self.reg_or(DMA2D_WIDTH_ADDR, 0) as int;
        let h = self.reg_or(DMA2D_HEIGHT_ADDR, 0) as int;
        let stride = self.reg_or(DMA2D_STRIDE_ADDR, DISPLAY_WIDTH as u32) as int;
        if dest < VRAM_BASE || w == 0 || h == 0 || stride == 0 {
            None
        } else {
            let cx0 = self.reg_or(DMA2D_CLIP_X0_ADDR, 0) as int;
            let cy0 = self.reg_or(DMA2D_CLIP_Y0_ADDR, 0) as int;
            let cx1 = self.reg_or(DMA2D_CLIP_X1_ADDR, 0) as int;
            let cy1 = self.reg_or(DMA2D_CLIP_Y1_ADDR, 0) as int;
            let clip = stride == DISPLAY_WIDTH && cx1 > cx0;
            let dx = origin % stride;
            let dy = origin / stride;
            let x0 = if clip { clamp(cx0 - dx, 0, w) } else { 0 };
            let y0 = if clip { clamp(cy0 - dy, 0, h) } else { 0 };
            let x1a = if clip { clamp(cx1 - dx, 0, w) } else { w };
            let y1a = if clip { clamp(cy1 - dy, 0, h) } else { h };
            // Never run past the end of the back buffer.
            let rows_left = (max(self.vram.len() - origin, 0) + stride - 1) / stride;
            let y1b = min(y1a, rows_left);
            let x1 = if stride == DISPLAY_WIDTH { min(x1a, DISPLAY_WIDTH - dx) } else { x1a };
            let y1 = if stride == DISPLAY_WIDTH {
                min(y1b, max(DISPLAY_HEIGHT - dy, 0))
            } else {
                y1b
            };
            if x1 <= x0 || y1 <= y0 {
                None
            } else {
                Some(
                    Dest {
                        origin: origin as u64,
                        stride: stride as u64,
                        w: w as u64,
                        h: h as u64,
                        x0: x0 as u64,
                        y0: y0 as u64,
                        x1: x1 as u64,
                        y1: y1 as u64,
                    },
                )
            }
        }
    }

    /// A source pixel at `addr`: a back-buffer pixel or a big-endian RAM
    /// word; sources in the ROM or device windows read as 0.
    pub open spec fn src_pixel(self, addr: u32) -> u32 {
        if VRAM_BASE <= addr < VRAM_END_EXCLUSIVE {
            let idx = (addr - VRAM_BASE) / 4;
            if idx < self.vram.len() {
                self.vram[idx]
            } else {
                0
            }
        } else if addr < RAM_END_EXCLUSIVE {
            if addr + 4 <= self.ram.len() {
                be_word(self.ram, addr as int)
            } else {
                0
            }
        } else {
            0
        }
    }

    /// A coverage byte at `addr`: a RAM byte, 0 elsewhere.
    pub open spec fn src_byte(self, addr: u32) -> u8 {
        if addr < RAM_END_EXCLUSIVE && addr < self.ram.len() {
            self.ram[addr as int]
        } else {
            0
        }
    }

    /// The source value a painting command reads for pixel (x, y) of the
    /// rectangle: a source pixel for the copies, a coverage byte for the
    /// mask, nothing for the others.
    pub open spec fn source_value(self, p: Paint, x: int, y: int) -> u32 {
        match p {
            Paint::Copy { src, src_stride, .. } => self.src_pixel(
                ((src as int + (y * src_stride + x) * 4) % 0x1_0000_0000) as u32,
            ),
            Paint::Mask { src, src_stride, .. } => self.src_byte(
                ((src as int + y * src_stride + x) % 0x1_0000_0000) as u32,
            ) as u32,
            _ => 0,
        }
    }

    /// The new value of the pixel at (x, y) of the rectangle, currently `dst`.
    /// Sources are read from this (the pre-command) state, so a copy between
    /// overlapping rectangles reads the pixels as they were before it.
    pub open spec fn paint_value(self, p: Paint, x: int, y: int, dst: u32) -> u32 {
        paint_with(p, self.source_value(p, x, y), x, y, dst)
    }

    /// Row `y` of the rectangle painted into `v` (rows that would run past
    /// the end of the buffer are left alone).
    pub open spec fn paint_row(self, v: Seq<u32>, d: Dest, p: Paint, y: int) -> Seq<u32> {
        let row = d.origin + y * d.stride;
        if row + d.x1 <= v.len() {
            Seq::new(
                v.len(),
                |i: int|
                    if row + d.x0 <= i < row + d.x1 {
                        self.paint_value(p, i - row, y, v[i])
                    } else {
                        v[i]
                    },
            )
        } else {
            v
        }
    }

    /// Rows `y0..y_end` of the rectangle painted into `v`, top to bottom.
    pub open spec fn painted(self, v: Seq<u32>, d: Dest, p: Paint, y_end: int) -> Seq<u32>
        decreases y_end - d.y0,
    {
        if y_end <= d.y0 {
            v
        } else {
            self.paint_row(self.painted(v, d, p, y_end - 1), d, p, y_end - 1)
        }
    }

    /// How command `cmd` paints, given its destination.
    #[verifier::opaque]
    pub open spec fn paint_of(self, cmd: u32, d: Dest) -> Option<Paint> {
        let color = self.reg_or(DMA2D_COLOR_ADDR, 0);
        if cmd == DMA2D_CMD_FILL {
            Some(Paint::Solid { color })
        } else if cmd == DMA2D_CMD_BLEND_FILL {
            Some(Paint::Blend { color, alpha: (color as int / 0x100_0000) as u32 })
        } else if cmd == DMA2D_CMD_COPY || cmd == DMA2D_CMD_COPY_BLEND {
            Some(
                Paint::Copy {
                    src: self.reg_or(DMA2D_SRC_ADDR, 0),
                    src_stride: self.reg_or(DMA2D_SRC_STRIDE_ADDR, d.w as u32) as u64,
                    blend: cmd == DMA2D_CMD_COPY_BLEND,
                },
            )
        } else if cmd == DMA2D_CMD_MASK_A8 {
            Some(
                Paint::Mask {
                    color,
                    src: self.reg_or(DMA2D_SRC_ADDR, 0),
                    src_stride: self.reg_or(DMA2D_SRC_STRIDE_ADDR, d.w as u32) as u64,
                },
            )
        } else if cmd == DMA2D_CMD_GRADIENT_V {
            Some(
                Paint::GradientV {
                    c0: color,
                    c1: self.reg_or(DMA2D_COLOR2_ADDR, color),
                    span: (max(d.h as int, 2) - 1) as u64,
                },
            )
        } else if cmd == DMA2D_CMD_GRADIENT_H {
            Some(
                Paint::GradientH {
                    c0: color,
                    c1: self.reg_or(DMA2D_COLOR2_ADDR, color),
                    span: (max(d.w as int, 2) - 1) as u64,
                },
            )
        } else {
            None
        }
    }

    /// The state after a write of `cmd` to the DMA2D command register. The
    /// painting commands update the back buffer; the shape commands are
    /// latched for the host to compute their coverage; anything else, or an
    /// empty destination, does nothing.
    #[verifier::opaque]
    pub open spec fn after_dma2d(self, cmd: u32) -> MachineState {
        match self.dest_of() {
            None => self,
            Some(d) => match self.paint_of(cmd, d) {
                Some(p) => MachineState { vram: self.painted(self.vram, d, p, d.y1 as int), ..self },
                None => if cmd == DMA2D_CMD_ROUND_RECT || cmd == DMA2D_CMD_ROUND_RECT_OUTLINE || cmd
                    == DMA2D_CMD_SHADOW {
                    MachineState {
                        shape: Some(
                            ShapeCommand {
                                cmd,
                                dest: d,
                                color: self.reg_or(DMA2D_COLOR_ADDR, 0),
                                radius: self.reg_or(DMA2D_RADIUS_ADDR, 0),
                                spread: self.reg_or(DMA2D_SPREAD_ADDR, 0),
                                spread_set: self.io.contains_key(DMA2D_SPREAD_ADDR),
                                clip_x0: self.reg_or(DMA2D_CLIP_X0_ADDR, 0),
                                clip_y0: self.reg_or(DMA2D_CLIP_Y0_ADDR, 0),
                                clip_x1: self.reg_or(DMA2D_CLIP_X1_ADDR, 0),
                                clip_y1: self.reg_or(DMA2D_CLIP_Y1_ADDR, 0),
                            },
                        ),
                        ..self
                    }
                } else {
                    self
                },
            },
        }
    }
}


fn paint_pixel(p: Paint, sv: u32, x: u64, y: u64, dst: u32) -> (r: u32)
    requires
        x < 0x1_0000_0000,
        y < 0x1_0000_0000,
        p matches Paint::GradientV { span, .. } ==> 0 < span && y <= span,
        p matches Paint::GradientH { span, .. } ==> 0 < span && x <= span,
    ensures
        r == paint_with(p, sv, x as int, y as int, dst),
{
    match p {
        Paint::Solid { color } => {
            assert(color & 0x00FF_FFFF == color % 0x100_0000) by (bit_vector);
            color & 0x00FF_FFFF
        },
        Paint::Blend { color, alpha } => blend_pixel(dst, color, alpha),
        Paint::Copy { blend, .. } => {
            assert(sv & 0x00FF_FFFF == sv % 0x100_0000) by (bit_vector);
            assert(sv >> 24u32 == sv / 0x100_0000) by (bit_vector);
            if blend {
                blend_pixel(dst, sv, sv >> 24u32)
            } else {
                sv & 0x00FF_FFFF
            }
        },
        Paint::Mask { color, .. } => blend_pixel(dst, color, sv),
        Paint::GradientV { c0, c1, span } => {
            assert((y * 255) as int / (span as int) <= 255) by (nonlinear_arith)
                requires
                    0 < span,
                    y <= span,
            ;
            lerp_color(c0, c1, (y * 255 / span) as u32)
        },
        Paint::GradientH { c0, c1, span } => {
            assert((x * 255) as int / (span as int) <= 255) by (nonlinear_arith)
                requires
                    0 < span,
                    x <= span,
            ;
            lerp_color(c0, c1, (x * 255 / span) as u32)
        },
    }
}

impl Machine {
    fn dma2d_reg(&self, addr: u32, default: u32) -> (r: u32)
        ensures
            r == self@.reg_or(addr, default),
    {
        match self.io.get(&addr) {
            Some(v) => *v,
            None => default,
        }
    }

    fn clamp_i64(v: i64, lo: i64, hi: i64) -> (r: i64)
        requires
            lo <= hi,
        ensures
            r == clamp(v as int, lo as int, hi as int),
    {
        if v < lo {
            lo
        } else if v > hi {
            hi
        } else {
            v
        }
    }

    /// Reads the destination registers and intersects them with the
    /// scissor and the back buffer (see `MachineState::dest_of`).
    pub fn dma2d_dest(&self) -> (r: Option<Dest>)
        requires
            self.wf(),
        ensures
            r == self@.dest_of(),
            r matches Some(d) ==> dest_sane(d, self@.vram.len() as int),
    {
        reveal(MachineState::dest_of);
        let dest = self.dma2d_reg(DMA2D_DEST_ADDR, 0);
        let w = self.dma2d_reg(DMA2D_WIDTH_ADDR, 0) as u64;
        let h = self.dma2d_reg(DMA2D_HEIGHT_ADDR, 0) as u64;
        let stride = self.dma2d_reg(DMA2D_STRIDE_ADDR, DISPLAY_WIDTH as u32) as u64;
        if dest < VRAM_BASE || w == 0 || h == 0 || stride == 0 {
            return None;
        }
        let origin = ((dest - VRAM_BASE) / 4) as u64;
        let cx0 = self.dma2d_reg(DMA2D_CLIP_X0_ADDR, 0) as i64;
        let cy0 = self.dma2d_reg(DMA2D_CLIP_Y0_ADDR, 0) as i64;
        let cx1 = self.dma2d_reg(DMA2D_CLIP_X1_ADDR, 0) as i64;
        let cy1 = self.dma2d_reg(DMA2D_CLIP_Y1_ADDR, 0) as i64;
        let dx = origin % stride;
        let dy = origin / stride;
        let mut x0: u64 = 0;
        let mut y0: u64 = 0;
        let mut x1: u64 = w;
        let mut y1: u64 = h;
        if stride == DISPLAY_WIDTH as u64 && cx1 > cx0 {
            x0 = Self::clamp_i64(cx0 - dx as i64, 0, w as i64) as u64;
            y0 = Self::clamp_i64(cy0 - dy as i64, 0, h as i64) as u64;
            x1 = Self::clamp_i64(cx1 - dx as i64, 0, w as i64) as u64;
            y1 = Self::clamp_i64(cy1 - dy as i64, 0, h as i64) as u64;
        }
        // Never run past the end of the back buffer.
        let len = self.vram.len() as u64;
        let left = if len > origin {
            len - origin
        } else {
            0
        };
        let rows_left = (left + stride - 1) / stride;
        if y1 > rows_left {
            y1 = rows_left;
        }
        if stride == DISPLAY_WIDTH as u64 {
            let cols_left = DISPLAY_WIDTH as u64 - dx;
            if x1 > cols_left {
                x1 = cols_left;
            }
            let total_rows = if (DISPLAY_HEIGHT as u64) > dy {
                DISPLAY_HEIGHT as u64 - dy
            } else {
                0
            };
            if y1 > total_rows {
                y1 = total_rows;
            }
        }
        if x1 <= x0 || y1 <= y0 {
            return None;
        }
        assert(origin + (y1 - 1) * stride < len) by (nonlinear_arith)
            requires
                y1 <= rows_left,
                rows_left as int == (left + stride - 1) as int / (stride as int),
                left == if len > origin {
                    len - origin
                } else {
                    0
                },
                stride > 0,
                y1 > 0,
        ;
        Some(Dest { origin, stride, w, h, x0, y0, x1, y1 })
    }

    /// A source pixel (see `MachineState::src_pixel`).
    fn dma2d_src_pixel(&self, addr: u32) -> (r: u32)
        requires
            self.wf(),
        ensures
            r == self@.src_pixel(addr),
    {
        if is_vram_address(addr) {
            let idx = ((addr - VRAM_BASE) / 4) as usize;
            if idx < self.vram.len() {
                return self.vram[idx];
            }
            return 0;
        }
        if is_ram_address(addr) {
            return self.ram_read_word(addr);
        }
        0
    }

    /// A coverage byte (see `MachineState::src_byte`).
    fn dma2d_src_byte(&self, addr: u32) -> (r: u8)
        requires
            self.wf(),
        ensures
            r == self@.src_byte(addr),
    {
        if is_ram_address(addr) && (addr as usize) < self.ram.len() {
            return self.ram[addr as usize];
        }
        0
    }

    /// The source values of the clipped rectangle, row by row, read before
    /// anything is written.
    fn dma2d_stage(&self, d: Dest, p: Paint) -> (r: Vec<Vec<u32>>)
        requires
            self.wf(),
            dest_sane(d, self@.vram.len() as int),
            p matches Paint::Copy { src_stride, .. } ==> src_stride < 0x1_0000_0000,
            p matches Paint::Mask { src_stride, .. } ==> src_stride < 0x1_0000_0000,
        ensures
            r@.len() == d.y1 - d.y0,
            forall|j: int|
                0 <= j < d.y1 - d.y0 ==> #[trigger] r@[j]@.len() == d.x1 - d.x0,
            forall|j: int, k: int|
                0 <= j < d.y1 - d.y0 && 0 <= k < d.x1 - d.x0 ==> #[trigger] r@[j]@[k]
                    == self@.source_value(p, d.x0 + k, d.y0 + j),
    {
        let mut rows: Vec<Vec<u32>> = Vec::new();
        let mut y = d.y0;
        while y < d.y1
            invariant
                d.y0 <= y <= d.y1,
                self.wf(),
                dest_sane(d, self@.vram.len() as int),
                p matches Paint::Copy { src_stride, .. } ==> src_stride < 0x1_0000_0000,
                p matches Paint::Mask { src_stride, .. } ==> src_stride < 0x1_0000_0000,
                rows@.len() == y - d.y0,
                forall|j: int| 0 <= j < y - d.y0 ==> #[trigger] rows@[j]@.len() == d.x1 - d.x0,
                forall|j: int, k: int|
                    0 <= j < y - d.y0 && 0 <= k < d.x1 - d.x0 ==> #[trigger] rows@[j]@[k]
                        == self@.source_value(p, d.x0 + k, d.y0 + j),
            decreases d.y1 - y,
        {
            assert(y * d.stride <= (d.y1 - 1) * d.stride) by (nonlinear_arith)
                requires
                    y < d.y1,
            ;
            assert(y < 0x10_0000) by (nonlinear_arith)
                requires
                    y * d.stride < 0x10_0000,
                    d.stride >= 1,
            ;
            let mut line: Vec<u32> = Vec::new();
            let mut x = d.x0;
            while x < d.x1
                invariant
                    d.x0 <= x <= d.x1,
                    d.y0 <= y < d.y1,
                    y < 0x10_0000,
                    self.wf(),
                    dest_sane(d, self@.vram.len() as int),
                    p matches Paint::Copy { src_stride, .. } ==> src_stride < 0x1_0000_0000,
                    p matches Paint::Mask { src_stride, .. } ==> src_stride < 0x1_0000_0000,
                    line@.len() == x - d.x0,
                    forall|k: int|
                        0 <= k < x - d.x0 ==> #[trigger] line@[k] == self@.source_value(
                            p,
                            d.x0 + k,
                            y as int,
                        ),
                decreases d.x1 - x,
            {
                let v = match p {
                    Paint::Copy { src, src_stride, .. } => {
                        assert(y * src_stride <= 0x10_0000 * 0x1_0000_0000) by (nonlinear_arith)
                            requires
                                y < 0x10_0000,
                                src_stride < 0x1_0000_0000,
                        ;
                        let off = (y * src_stride + x) * 4;
                        let addr = ((src as u64 + off) % 0x1_0000_0000) as u32;
                        self.dma2d_src_pixel(addr)
                    },
                    Paint::Mask { src, src_stride, .. } => {
                        assert(y * src_stride <= 0x10_0000 * 0x1_0000_0000) by (nonlinear_arith)
                            requires
                                y < 0x10_0000,
                                src_stride < 0x1_0000_0000,
                        ;
                        let off = y * src_stride + x;
                        let addr = ((src as u64 + off) % 0x1_0000_0000) as u32;
                        self.dma2d_src_byte(addr) as u32
                    },
                    _ => 0,
                };
                line.push(v);
                x = x + 1;
            }
            rows.push(line);
            y = y + 1;
        }
        rows
    }

    /// Paints the clipped rectangle row by row with `p`, reading source
    /// values from `staged` (see `dma2d_stage`).
    fn dma2d_paint(&mut self, d: Dest, p: Paint, staged: &Vec<Vec<u32>>, Ghost(s): Ghost<MachineState>)
        requires
            old(self).wf(),
            dest_sane(d, old(self)@.vram.len() as int),
            s.vram.len() == old(self)@.vram.len(),
            staged@.len() == d.y1 - d.y0,
            forall|j: int| 0 <= j < d.y1 - d.y0 ==> #[trigger] staged@[j]@.len() == d.x1 - d.x0,
            forall|j: int, k: int|
                0 <= j < d.y1 - d.y0 && 0 <= k < d.x1 - d.x0 ==> #[trigger] staged@[j]@[k]
                    == s.source_value(p, d.x0 + k, d.y0 + j),
            p matches Paint::GradientV { span, .. } ==> span == max(d.h as int, 2) - 1,
            p matches Paint::GradientH { span, .. } ==> span == max(d.w as int, 2) - 1,
        ensures
            final(self).wf(),
            final(self)@ == (MachineState {
                vram: s.painted(old(self)@.vram, d, p, d.y1 as int),
                ..old(self)@
            }),
    {
        let ghost v0 = self@.vram;
        let mut y = d.y0;
        while y < d.y1
            invariant
                d.y0 <= y <= d.y1,
                self.wf(),
                dest_sane(d, v0.len() as int),
                v0.len() == old(self)@.vram.len(),
                v0.len() == self@.vram.len(),
                s.vram.len() == v0.len(),
                staged@.len() == d.y1 - d.y0,
                forall|j: int|
                    0 <= j < d.y1 - d.y0 ==> #[trigger] staged@[j]@.len() == d.x1 - d.x0,
                forall|j: int, k: int|
                    0 <= j < d.y1 - d.y0 && 0 <= k < d.x1 - d.x0 ==> #[trigger] staged@[j]@[k]
                        == s.source_value(p, d.x0 + k, d.y0 + j),
                p matches Paint::GradientV { span, .. } ==> span == max(d.h as int, 2) - 1,
                p matches Paint::GradientH { span, .. } ==> span == max(d.w as int, 2) - 1,
                self@ == (MachineState { vram: s.painted(v0, d, p, y as int), ..old(self)@ }),
            decreases d.y1 - y,
        {
            assert(y * d.stride <= (d.y1 - 1) * d.stride) by (nonlinear_arith)
                requires
                    y < d.y1,
            ;
            assert(d.origin + y * d.stride < v0.len());
            let row = d.origin + y * d.stride;
            let ghost vr = self@.vram;
            if row + d.x1 <= self.vram.len() as u64 {
                let line = &staged[(y - d.y0) as usize];
                let mut x = d.x0;
                while x < d.x1
                    invariant
                        d.x0 <= x <= d.x1,
                        d.y0 <= y < d.y1,
                        row == d.origin + y * d.stride,
                        row + d.x1 <= vr.len(),
                        self.wf(),
                        dest_sane(d, v0.len() as int),
                        self@.vram.len() == vr.len(),
                        line@ == staged@[y - d.y0]@,
                        line@.len() == d.x1 - d.x0,
                        forall|k: int|
                            0 <= k < d.x1 - d.x0 ==> #[trigger] line@[k] == s.source_value(
                                p,
                                d.x0 + k,
                                y as int,
                            ),
                        p matches Paint::GradientV { span, .. } ==> span == max(d.h as int, 2)
                            - 1,
                        p matches Paint::GradientH { span, .. } ==> span == max(d.w as int, 2)
                            - 1,
                        self@ == (MachineState { vram: self@.vram, ..old(self)@ }),
                        forall|i: int|
                            0 <= i < vr.len() ==> #[trigger] self@.vram[i] == if row + d.x0 <= i
                                < row + x {
                                s.paint_value(p, i - row, y as int, vr[i])
                            } else {
                                vr[i]
                            },
                    decreases d.x1 - x,
                {
                    let idx = (row + x) as usize;
                    let dst = self.vram[idx];
                    let sv = line[(x - d.x0) as usize];
                    let v = paint_pixel(p, sv, x, y, dst);
                    self.vram.set(idx, v);
                    x = x + 1;
                }
                assert(self@.vram =~= s.paint_row(vr, d, p, y as int));
            }
            assert(self@.vram == s.paint_row(vr, d, p, y as int));
            assert(s.painted(v0, d, p, y as int + 1) == s.paint_row(
                s.painted(v0, d, p, y as int),
                d,
                p,
                y as int,
            ));
            y = y + 1;
        }
    }

    /// How command `cmd` paints (see `MachineState::paint_of`).
    fn dma2d_paint_of(&self, cmd: u32, d: Dest) -> (r: Option<Paint>)
        ensures
            r == self@.paint_of(cmd, d),
            r matches Some(Paint::Copy { src_stride, .. }) ==> src_stride < 0x1_0000_0000,
            r matches Some(Paint::Mask { src_stride, .. }) ==> src_stride < 0x1_0000_0000,
            r matches Some(Paint::GradientV { span, .. }) ==> span == max(d.h as int, 2) - 1,
            r matches Some(Paint::GradientH { span, .. }) ==> span == max(d.w as int, 2) - 1,
    {
        reveal(MachineState::paint_of);
        let color = self.dma2d_reg(DMA2D_COLOR_ADDR, 0);
        assert(color >> 24u32 == color / 0x100_0000) by (bit_vector);
        if cmd == DMA2D_CMD_FILL {
            Some(Paint::Solid { color })
        } else if cmd == DMA2D_CMD_BLEND_FILL {
            Some(Paint::Blend { color, alpha: color >> 24u32 })
        } else if cmd == DMA2D_CMD_COPY || cmd == DMA2D_CMD_COPY_BLEND {
            Some(
                Paint::Copy {
                    src: self.dma2d_reg(DMA2D_SRC_ADDR, 0),
                    src_stride: self.dma2d_reg(DMA2D_SRC_STRIDE_ADDR, d.w as u32) as u64,
                    blend: cmd == DMA2D_CMD_COPY_BLEND,
                },
            )
        } else if cmd == DMA2D_CMD_MASK_A8 {
            Some(
                Paint::Mask {
                    color,
                    src: self.dma2d_reg(DMA2D_SRC_ADDR, 0),
                    src_stride: self.dma2d_reg(DMA2D_SRC_STRIDE_ADDR, d.w as u32) as u64,
                },
            )
        } else if cmd == DMA2D_CMD_GRADIENT_V {
            Some(
                Paint::GradientV {
                    c0: color,
                    c1: self.dma2d_reg(DMA2D_COLOR2_ADDR, color),
                    span: if d.h > 2 {
                        d.h - 1
                    } else {
                        1
                    },
                },
            )
        } else if cmd == DMA2D_CMD_GRADIENT_H {
            Some(
                Paint::GradientH {
                    c0: color,
                    c1: self.dma2d_reg(DMA2D_COLOR2_ADDR, color),
                    span: if d.w > 2 {
                        d.w - 1
                    } else {
                        1
                    },
                },
            )
        } else {
            None
        }
    }

    /// Latches a shape command for the host.
    fn dma2d_latch_shape(&mut self, cmd: u32, d: Dest)
        requires
            old(self).wf(),
            dest_sane(d, old(self)@.vram.len() as int),
        ensures
            final(self).wf(),
            final(self)@ == (MachineState {
                shape: Some(
                    ShapeCommand {
                        cmd,
                        dest: d,
                        color: old(self)@.reg_or(DMA2D_COLOR_ADDR, 0),
                        radius: old(self)@.reg_or(DMA2D_RADIUS_ADDR, 0),
                        spread: old(self)@.reg_or(DMA2D_SPREAD_ADDR, 0),
                        spread_set: old(self)@.io.contains_key(DMA2D_SPREAD_ADDR),
                        clip_x0: old(self)@.reg_or(DMA2D_CLIP_X0_ADDR, 0),
                        clip_y0: old(self)@.reg_or(DMA2D_CLIP_Y0_ADDR, 0),
                        clip_x1: old(self)@.reg_or(DMA2D_CLIP_X1_ADDR, 0),
                        clip_y1: old(self)@.reg_or(DMA2D_CLIP_Y1_ADDR, 0),
                    },
                ),
                ..old(self)@
            }),
    {
        let spread_set = match self.io.get(&DMA2D_SPREAD_ADDR) {
            Some(_) => true,
            None => false,
        };
        let shape = ShapeCommand {
            cmd,
            dest: d,
            color: self.dma2d_reg(DMA2D_COLOR_ADDR, 0),
            radius: self.dma2d_reg(DMA2D_RADIUS_ADDR, 0),
            spread: self.dma2d_reg(DMA2D_SPREAD_ADDR, 0),
            spread_set,
            clip_x0: self.dma2d_reg(DMA2D_CLIP_X0_ADDR, 0),
            clip_y0: self.dma2d_reg(DMA2D_CLIP_Y0_ADDR, 0),
            clip_x1: self.dma2d_reg(DMA2D_CLIP_X1_ADDR, 0),
            clip_y1: self.dma2d_reg(DMA2D_CLIP_Y1_ADDR, 0),
        };
        self.pending_shape = Some(shape);
        proof {
            reveal(shape_fits);
        }
    }

    /// Runs a DMA2D command (see `MachineState::after_dma2d`).
    pub fn service_dma2d(&mut self, cmd: u32)
        requires
            old(self).wf(),
        ensures
            final(self).wf(),
            final(self)@ == old(self)@.after_dma2d(cmd),
    {
        reveal(MachineState::after_dma2d);
        let d = match self.dma2d_dest() {
            Some(d) => d,
            None => {
                return ;
            },
        };
        match self.dma2d_paint_of(cmd, d) {
            Some(p) => {
                let ghost s = self@;
                let staged = self.dma2d_stage(d, p);
                self.dma2d_paint(d, p, &staged, Ghost(s));
            },
            None => {
                if cmd == DMA2D_CMD_ROUND_RECT || cmd == DMA2D_CMD_ROUND_RECT_OUTLINE || cmd
                    == DMA2D_CMD_SHADOW {
                    self.dma2d_latch_shape(cmd, d);
                }
            },
        }
    }
}

/// The pixels of row `y` of a rounded-rectangle command (none when the row
/// would run past the end of a buffer of `len` pixels).
pub open spec fn rect_row_targets(d: Dest, y: int, len: int) -> Seq<ShapeTarget> {
    let row = d.origin + y * d.stride;
    if row + d.x1 <= len {
        Seq::new(
            (d.x1 - d.x0) as nat,
            |k: int| ShapeTarget { index: (row + d.x0 + k) as u64, x: (d.x0 + k) as i64, y: y as i64 },
        )
    } else {
        Seq::empty()
    }
}

/// The pixels of rows `y0..y_end` of a rounded-rectangle command, in order.
pub open spec fn rect_targets(d: Dest, y_end: int, len: int) -> Seq<ShapeTarget>
    decreases y_end - d.y0,
{
    if y_end <= d.y0 {
        Seq::empty()
    } else {
        rect_targets(d, y_end - 1, len) + rect_row_targets(d, y_end - 1, len)
    }
}

/// The blur size of a shadow: SPREAD (8 when unwritten), at least 1.
pub open spec fn shadow_spread(c: ShapeCommand) -> int {
    max(if c.spread_set { c.spread as int } else { 8 }, 1)
}

/// The display rectangle a shadow covers: the destination grown by the
/// blur size on every side, clamped to the display and cut by the scissor
/// (off while CLIP_X1 <= CLIP_X0).
pub open spec fn shadow_region(c: ShapeCommand) -> (int, int, int, int) {
    let d = c.dest;
    let spread = shadow_spread(c);
    let ox = d.origin as int % d.stride as int;
    let oy = d.origin as int / d.stride as int;
    let ex0 = max(ox - spread, 0);
    let ey0 = max(oy - spread, 0);
    let ex1 = min(ox + d.w + spread, DISPLAY_WIDTH as int);
    let ey1 = min(oy + d.h + spread, DISPLAY_HEIGHT as int);
    let (cx0, cy0, cx1, cy1) = (c.clip_x0 as int, c.clip_y0 as int, c.clip_x1 as int, c.clip_y1 as int);
    if cx1 > cx0 {
        (max(ex0, cx0), max(ey0, cy0), min(ex1, cx1), min(ey1, cy1))
    } else {
        (ex0, ey0, ex1, ey1)
    }
}

/// The pixels of display row `sy` a shadow covers.
pub open spec fn shadow_row_targets(c: ShapeCommand, sy: int) -> Seq<ShapeTarget> {
    let d = c.dest;
    let (ex0, ey0, ex1, ey1) = shadow_region(c);
    let ox = d.origin as int % d.stride as int;
    let oy = d.origin as int / d.stride as int;
    Seq::new(
        (ex1 - ex0) as nat,
        |k: int|
            ShapeTarget {
                index: (sy * d.stride + ex0 + k) as u64,
                x: (ex0 + k - ox) as i64,
                y: (sy - oy) as i64,
            },
    )
}

/// The pixels of display rows `ey0..sy_end` a shadow covers, in order.
pub open spec fn shadow_targets_upto(c: ShapeCommand, sy_end: int) -> Seq<ShapeTarget>
    decreases sy_end - shadow_region(c).1,
{
    if sy_end <= shadow_region(c).1 {
        Seq::empty()
    } else {
        shadow_targets_upto(c, sy_end - 1) + shadow_row_targets(c, sy_end - 1)
    }
}

/// The pixels a shape command writes, in order. Coordinates are relative
/// to the unclipped destination origin; a pixel's centre is half a pixel
/// further on.
pub open spec fn shape_targets_of(c: ShapeCommand, len: int) -> Seq<ShapeTarget> {
    if c.cmd == DMA2D_CMD_SHADOW {
        let (ex0, ey0, ex1, ey1) = shadow_region(c);
        if c.dest.stride != DISPLAY_WIDTH || ex1 <= ex0 || ey1 <= ey0 {
            Seq::empty()
        } else {
            shadow_targets_upto(c, ey1)
        }
    } else {
        rect_targets(c.dest, c.dest.y1 as int, len)
    }
}

/// `v` with the first `n` targets blended with `color` by their coverage.
pub open spec fn shape_blended(
    v: Seq<u32>,
    targets: Seq<ShapeTarget>,
    alphas: Seq<u32>,
    color: u32,
    n: int,
) -> Seq<u32>
    decreases n,
{
    if n <= 0 {
        v
    } else {
        let prev = shape_blended(v, targets, alphas, color, n - 1);
        let i = targets[n - 1].index as int;
        if 0 <= i < prev.len() {
            prev.update(i, blended(prev[i], color, alphas[n - 1]))
        } else {
            prev
        }
    }
}

impl Machine {
    /// The shape command waiting for its coverage, if any.
    pub fn pending_shape(&self) -> (r: Option<ShapeCommand>)
        ensures
            r == self@.shape,
    {
        self.pending_shape
    }

    /// The pixels the pending shape command writes (see `shape_targets_of`).
    pub fn shape_targets(&self) -> (r: Vec<ShapeTarget>)
        requires
            self.wf(),
        ensures
            r@ == match self@.shape {
                Some(c) => shape_targets_of(c, self@.vram.len() as int),
                None => Seq::<ShapeTarget>::empty(),
            },
    {
        proof {
            reveal(shape_fits);
        }
        let mut out: Vec<ShapeTarget> = Vec::new();
        let c = match self.pending_shape {
            Some(c) => c,
            None => {
                return out;
            },
        };
        let d = c.dest;
        let len = self.vram.len() as u64;
        if c.cmd == DMA2D_CMD_SHADOW {
            if d.stride != DISPLAY_WIDTH as u64 {
                return out;
            }
            let spread: i64 = if c.spread_set {
                if c.spread > 1 { c.spread as i64 } else { 1 }
            } else {
                8
            };
            let ox = (d.origin % d.stride) as i64;
            let oy = (d.origin / d.stride) as i64;
            let mut ex0 = if ox - spread > 0 { ox - spread } else { 0 };
            let mut ey0 = if oy - spread > 0 { oy - spread } else { 0 };
            let mut ex1 = if ox + d.w as i64 + spread < DISPLAY_WIDTH as i64 {
                ox + d.w as i64 + spread
            } else {
                DISPLAY_WIDTH as i64
            };
            let mut ey1 = if oy + d.h as i64 + spread < DISPLAY_HEIGHT as i64 {
                oy + d.h as i64 + spread
            } else {
                DISPLAY_HEIGHT as i64
            };
            let (cx0, cy0, cx1, cy1) = (c.clip_x0, c.clip_y0, c.clip_x1, c.clip_y1);
            if cx1 > cx0 {
                if (cx0 as i64) > ex0 {
                    ex0 = cx0 as i64;
                }
                if (cy0 as i64) > ey0 {
                    ey0 = cy0 as i64;
                }
                if (cx1 as i64) < ex1 {
                    ex1 = cx1 as i64;
                }
                if (cy1 as i64) < ey1 {
                    ey1 = cy1 as i64;
                }
            }
            assert((ex0 as int, ey0 as int, ex1 as int, ey1 as int) == shadow_region(c));
            if ex1 <= ex0 || ey1 <= ey0 {
                return out;
            }
            let mut sy = ey0;
            while sy < ey1
                invariant
                    ey0 <= sy <= ey1,
                    0 <= ey0,
                    0 <= ex0 < ex1 <= DISPLAY_WIDTH,
                    ey1 <= DISPLAY_HEIGHT,
                    (ex0 as int, ey0 as int, ex1 as int, ey1 as int) == shadow_region(c),
                    d == c.dest,
                    d.stride == DISPLAY_WIDTH,
                    ox == d.origin as int % d.stride as int,
                    oy == d.origin as int / d.stride as int,
                    out@ == shadow_targets_upto(c, sy as int),
                decreases ey1 - sy,
            {
                let mut sx = ex0;
                let ghost before = out@;
                while sx < ex1
                    invariant
                        ey0 <= sy < ey1,
                        0 <= ey0,
                        0 <= ex0 <= sx <= ex1 <= DISPLAY_WIDTH,
                        ey1 <= DISPLAY_HEIGHT,
                        (ex0 as int, ey0 as int, ex1 as int, ey1 as int) == shadow_region(c),
                        d == c.dest,
                        d.stride == DISPLAY_WIDTH,
                        ox == d.origin as int % d.stride as int,
                        oy == d.origin as int / d.stride as int,
                        out@ == before + shadow_row_targets(c, sy as int).subrange(
                            0,
                            sx - ex0,
                        ),
                    decreases ex1 - sx,
                {
                    assert(sy * 1024 + sx < 0x100_0000) by (nonlinear_arith)
                        requires
                            0 <= sy < 768,
                            0 <= sx < 1024,
                    ;
                    out.push(
                        ShapeTarget {
                            index: (sy as u64) * d.stride + sx as u64,
                            x: sx - ox,
                            y: sy - oy,
                        },
                    );
                    sx = sx + 1;
                    assert(out@ =~= before + shadow_row_targets(c, sy as int).subrange(
                        0,
                        sx - ex0,
                    ));
                }
                assert(shadow_row_targets(c, sy as int).subrange(0, ex1 - ex0)
                    =~= shadow_row_targets(c, sy as int));
                sy = sy + 1;
            }
            return out;
        }
        let mut y = d.y0;
        while y < d.y1
            invariant
                d.y0 <= y <= d.y1,
                d == c.dest,
                len == self@.vram.len(),
                len == VRAM_WORDS,
                dest_sane(d, len as int),
                c.cmd != DMA2D_CMD_SHADOW,
                out@ == rect_targets(d, y as int, len as int),
            decreases d.y1 - y,
        {
            assert(y * d.stride <= (d.y1 - 1) * d.stride) by (nonlinear_arith)
                requires
                    y < d.y1,
            ;
            let row = d.origin + y * d.stride;
            let ghost before = out@;
            if row + d.x1 <= len {
                let mut x = d.x0;
                while x < d.x1
                    invariant
                        d.x0 <= x <= d.x1,
                        d.y0 <= y < d.y1,
                        d == c.dest,
                        dest_sane(d, len as int),
                        row == d.origin + y * d.stride,
                        row + d.x1 <= len,
                        out@ == before + rect_row_targets(d, y as int, len as int).subrange(
                            0,
                            x - d.x0,
                        ),
                    decreases d.x1 - x,
                {
                    out.push(ShapeTarget { index: row + x, x: x as i64, y: y as i64 });
                    x = x + 1;
                    assert(out@ =~= before + rect_row_targets(d, y as int, len as int).subrange(
                        0,
                        x - d.x0,
                    ));
                }
                assert(rect_row_targets(d, y as int, len as int).subrange(0, d.x1 - d.x0)
                    =~= rect_row_targets(d, y as int, len as int));
            } else {
                assert(out@ =~= before + rect_row_targets(d, y as int, len as int));
            }
            y = y + 1;
        }
        out
    }

    /// Completes the pending shape command: each target pixel is blended with
    /// the command's colour by the coverage the host computed for it.
    pub fn finish_shape(&mut self, targets: &Vec<ShapeTarget>, alphas: &[u32])
        requires
            old(self).wf(),
            old(self)@.shape is Some,
            targets@.len() == alphas@.len(),
        ensures
            final(self).wf(),
            final(self)@ == (MachineState {
                vram: shape_blended(
                    old(self)@.vram,
                    targets@,
                    alphas@,
                    old(self)@.shape->0.color,
                    targets@.len() as int,
                ),
                shape: None,
                ..old(self)@
            }),
    {
        let color = match self.pending_shape {
            Some(c) => c.color,
            None => 0,
        };
        let ghost v0 = self@.vram;
        let mut i: usize = 0;
        while i < targets.len()
            invariant
                i <= targets@.len(),
                targets@.len() == alphas@.len(),
                self.wf(),
                self@ == (MachineState {
                    vram: shape_blended(v0, targets@, alphas@, color, i as int),
                    ..old(self)@
                }),
            decreases targets@.len() - i,
        {
            let t = targets[i];
            if t.index < self.vram.len() as u64 {
                let idx = t.index as usize;
                let v = blend_pixel(self.vram[idx], color, alphas[i]);
                self.vram.set(idx, v);
            }
            i = i + 1;
        }
        self.pending_shape = None;
        proof {
            reveal(shape_fits);
        }
    }
}


/// The opacity a shape reaches where it fully covers a pixel: COLOR's alpha,
/// or when that is 0, 255 for the rectangles and 128 for a shadow.
pub open spec fn peak_alpha_of(c: ShapeCommand) -> u32 {
    let a = (c.color as int / 0x100_0000) as u32;
    if a != 0 {
        a
    } else if c.cmd == DMA2D_CMD_SHADOW {
        128
    } else {
        255
    }
}

/// The ring width of an outline: SPREAD (1 when unwritten), at least 1.
pub open spec fn outline_width_of(c: ShapeCommand) -> u32 {
    if c.spread_set && c.spread > 1 {
        c.spread
    } else {
        1
    }
}

impl ShapeCommand {
    /// See `peak_alpha_of`.
    pub fn peak_alpha(&self) -> (r: u32)
        ensures
            r == peak_alpha_of(*self),
    {
        let color = self.color;
        let a = color >> 24;
        assert(a == color as int / 0x100_0000) by (bit_vector)
            requires
                a == color >> 24,
        ;
        if a != 0 {
            a
        } else if self.cmd == DMA2D_CMD_SHADOW {
            128
        } else {
            255
        }
    }

    /// See `outline_width_of`.
    pub fn outline_width(&self) -> (r: u32)
        ensures
            r == outline_width_of(*self),
    {
        if self.spread_set && self.spread > 1 {
            self.spread
        } else {
            1
        }
    }

    /// The blur size of a shadow (see `shadow_spread`).
    pub fn shadow_blur(&self) -> (r: u32)
        ensures
            r == shadow_spread(*self),
    {
        if self.spread_set {
            if self.spread > 1 {
                self.spread
            } else {
                1
            }
        } else {
            8
        }
    }
}

/// Painting rows `y0..y_end` of a rectangle whose rows do not overlap gives
/// each of its pixels the value the paint computes from what was there, and
/// leaves everything from row `y_end` on untouched.
proof fn lemma_painted_pixels(s: MachineState, v: Seq<u32>, d: Dest, p: Paint, y_end: int)
    requires
        d.y0 <= y_end <= d.y1,
        d.x0 < d.x1 <= d.stride,
        d.origin + (d.y1 - 1) * d.stride + d.x1 <= v.len(),
    ensures
        s.painted(v, d, p, y_end).len() == v.len(),
        forall|i: int|
            d.origin + y_end * d.stride <= i < v.len() ==> #[trigger] s.painted(v, d, p, y_end)[i]
                == v[i],
        forall|x: int, y: int|
            d.x0 <= x < d.x1 && d.y0 <= y < y_end ==> #[trigger] s.painted(v, d, p, y_end)[d.origin
                + y * d.stride + x] == s.paint_value(p, x, y, v[d.origin + y * d.stride + x]),
    decreases y_end - d.y0,
{
    if y_end > d.y0 {
        let y_last = y_end - 1;
        lemma_painted_pixels(s, v, d, p, y_last);
        let prev = s.painted(v, d, p, y_last);
        let row = d.origin + y_last * d.stride;
        assert(row + d.x1 <= v.len()) by (nonlinear_arith)
            requires
                row == d.origin + y_last * d.stride,
                y_last <= d.y1 - 1,
                d.stride >= 0,
                d.origin + (d.y1 - 1) * d.stride + d.x1 <= v.len(),
        ;
        assert(row + d.stride == d.origin + y_end * d.stride) by (nonlinear_arith)
            requires
                row == d.origin + y_last * d.stride,
                y_end == y_last + 1,
        ;
        assert forall|x: int, y: int|
            d.x0 <= x < d.x1 && d.y0 <= y < y_end implies #[trigger] s.painted(v, d, p, y_end)[d.origin
                + y * d.stride + x] == s.paint_value(p, x, y, v[d.origin + y * d.stride + x]) by {
            let i = d.origin + y * d.stride + x;
            if y < y_last {
                assert(i < row) by (nonlinear_arith)
                    requires
                        i == d.origin + y * d.stride + x,
                        row == d.origin + y_last * d.stride,
                        y < y_last,
                        x < d.stride,
                ;
                assert(prev[i] == s.paint_value(p, x, y, v[i]));
            } else {
                assert(i == row + x);
                assert(prev[i] == v[i]);
            }
        }
    }
}

/// COPY writes each pixel of the destination rectangle (its rows apart) as
/// the source pixel at SRC + (y * SRC_STRIDE + x) * 4 with the alpha byte
/// cleared, whatever that alpha is. COPY_BLEND mixes the same source pixel
/// over the destination by its alpha: a transparent one leaves the pixel,
/// an opaque one replaces it.
pub proof fn lemma_copy_commands_write_source_pixels(s: MachineState, x: int, y: int)
    requires
        s.dest_of() matches Some(d) && {
            &&& d.x1 <= d.stride
            &&& d.origin + (d.y1 - 1) * d.stride + d.x1 <= s.vram.len()
            &&& d.x0 <= x < d.x1
            &&& d.y0 <= y < d.y1
        },
    ensures
        ({
            let d = s.dest_of()->0;
            let i = d.origin + y * d.stride + x;
            let src_stride = s.reg_or(DMA2D_SRC_STRIDE_ADDR, d.w as u32) as int;
            let sp = s.src_pixel(
                ((s.reg_or(DMA2D_SRC_ADDR, 0) + (y * src_stride + x) * 4) % 0x1_0000_0000) as u32,
            );
            &&& s.after_dma2d(DMA2D_CMD_COPY).vram[i] == sp % 0x100_0000
            &&& sp / 0x100_0000 == 0 ==> s.after_dma2d(DMA2D_CMD_COPY_BLEND).vram[i] == s.vram[i]
            &&& sp / 0x100_0000 == 255 ==> s.after_dma2d(DMA2D_CMD_COPY_BLEND).vram[i] == sp
                % 0x100_0000
        }),
{
    reveal(MachineState::after_dma2d);
    reveal(MachineState::paint_of);
    let d = s.dest_of()->0;
    let p1 = s.paint_of(DMA2D_CMD_COPY, d)->0;
    let p2 = s.paint_of(DMA2D_CMD_COPY_BLEND, d)->0;
    lemma_painted_pixels(s, s.vram, d, p1, d.y1 as int);
    lemma_painted_pixels(s, s.vram, d, p2, d.y1 as int);
    let i = d.origin + y * d.stride + x;
    assert(s.painted(s.vram, d, p1, d.y1 as int)[i] == s.paint_value(p1, x, y, s.vram[i]));
    assert(s.painted(s.vram, d, p2, d.y1 as int)[i] == s.paint_value(p2, x, y, s.vram[i]));
}

} // verus!
