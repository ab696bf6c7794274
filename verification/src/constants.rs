use vstd::prelude::*;

verus! {

// Memory map.
pub const RAM_START: u32 = 0x0000_0000;
/// 512 MB of main memory.
pub const RAM_SIZE: u32 = 0x2000_0000;
pub const RAM_END_EXCLUSIVE: u32 = 0x2000_0000;

pub const VRAM_BASE: u32 = 0x3000_0000;
/// Width of the emulated display in pixels.
pub const DISPLAY_WIDTH: usize = 1024;
/// Height of the emulated display in pixels.
pub const DISPLAY_HEIGHT: usize = 768;
/// One 32-bit word per pixel: DISPLAY_WIDTH * DISPLAY_HEIGHT * 4 bytes.
pub const VRAM_SIZE: u32 = 0x0030_0000;
/// Number of pixels (32-bit words) held by a frame buffer.
pub const VRAM_WORDS: usize = 786432;
pub const VRAM_END_EXCLUSIVE: u32 = 0x3030_0000;

pub const ROM_START: u32 = 0x2000_0000;
/// 64 MB of ROM.
pub const ROM_SIZE: u32 = 0x0400_0000;
pub const ROM_END_EXCLUSIVE: u32 = 0x2400_0000;

/// Display refresh rate of the emulated display controller (~60 Hz).
pub const DISPLAY_REFRESH_HZ: u64 = 60;

pub const IO_BASE: u32 = 0x2400_0000;
pub const IO_END_INCLUSIVE: u32 = 0x2400_01FF;

pub const SERIAL_TX_ADDR: u32 = 0x2400_0000;
/// Receiver buffer: a load consumes one byte.
pub const SERIAL_RX_ADDR: u32 = 0x2400_0004;
pub const SERIAL_LSR_ADDR: u32 = 0x2400_0005;
/// Transmit holding register empty.
pub const SERIAL_LSR_THRE: u32 = 0x20;
/// Data ready: a received byte is waiting.
pub const SERIAL_LSR_DR: u32 = 0x01;

// SSD block device registers.
/// W: 1 = READ, 2 = WRITE.
pub const SSD_CMD_ADDR: u32 = 0x2400_0010;
/// W: block number (0-indexed).
pub const SSD_BLOCK_ADDR: u32 = 0x2400_0014;
/// W: RAM buffer address.
pub const SSD_ADDR_ADDR: u32 = 0x2400_0018;
/// R: 0 = idle, 1 = busy, 2 = done, 0xFF = error.
pub const SSD_STATUS_ADDR: u32 = 0x2400_001C;
pub const SSD_CMD_READ: u32 = 1;
pub const SSD_CMD_WRITE: u32 = 2;
pub const SSD_STATUS_IDLE: u32 = 0;
pub const SSD_STATUS_BUSY: u32 = 1;
pub const SSD_STATUS_DONE: u32 = 2;
pub const SSD_STATUS_ERROR: u32 = 0xFF;
pub const SSD_BLOCK_SIZE: usize = 65536;
pub const SSD_BLOCK_COUNT: usize = 16384;
/// 1 GB: SSD_BLOCK_SIZE * SSD_BLOCK_COUNT.
pub const SSD_DISK_SIZE: usize = 0x4000_0000;

// 2D accelerator. DEST/WIDTH/HEIGHT/STRIDE describe the destination rectangle
// (STRIDE in pixels); COLOR is 0x00RRGGBB for opaque commands and 0xAARRGGBB
// where alpha is involved. SRC/SRC_STRIDE describe the source for the copy and
// mask commands. Writing CMD runs the operation.
pub const DMA2D_DEST_ADDR: u32 = 0x2400_0020;
pub const DMA2D_COLOR_ADDR: u32 = 0x2400_0024;
pub const DMA2D_WIDTH_ADDR: u32 = 0x2400_0028;
pub const DMA2D_HEIGHT_ADDR: u32 = 0x2400_002C;
pub const DMA2D_STRIDE_ADDR: u32 = 0x2400_0030;
/// W: one of the DMA2D_CMD_* values.
pub const DMA2D_CMD_ADDR: u32 = 0x2400_0034;

pub const DISPLAY_SWAP_ADDR: u32 = 0x2400_0038;

/// Source: a RAM or VRAM address.
pub const DMA2D_SRC_ADDR: u32 = 0x2400_0090;
/// COPY*: pixels, MASK_A8: bytes.
pub const DMA2D_SRC_STRIDE_ADDR: u32 = 0x2400_0094;
/// GRADIENT_*: end colour.
pub const DMA2D_COLOR2_ADDR: u32 = 0x2400_0098;
/// ROUND_RECT* / SHADOW: corner radius in pixels.
pub const DMA2D_RADIUS_ADDR: u32 = 0x2400_009C;
/// ROUND_RECT_OUTLINE: thickness; SHADOW: blur size.
pub const DMA2D_SPREAD_ADDR: u32 = 0x2400_00B8;

// Scissor rectangle, applied to every command: pixels outside
// [X0, X1) x [Y0, Y1) are not written. X1 <= X0 (the reset state) disables it.
pub const DMA2D_CLIP_X0_ADDR: u32 = 0x2400_00C0;
pub const DMA2D_CLIP_Y0_ADDR: u32 = 0x2400_00C4;
pub const DMA2D_CLIP_X1_ADDR: u32 = 0x2400_00C8;
pub const DMA2D_CLIP_Y1_ADDR: u32 = 0x2400_00CC;

/// dest = COLOR
pub const DMA2D_CMD_FILL: u32 = 1;
/// dest = lerp(dest, COLOR.rgb, COLOR.a)
pub const DMA2D_CMD_BLEND_FILL: u32 = 2;
/// dest = src (0x00RRGGBB, alpha ignored)
pub const DMA2D_CMD_COPY: u32 = 3;
/// dest = lerp(dest, src.rgb, src.a)
pub const DMA2D_CMD_COPY_BLEND: u32 = 4;
/// dest = lerp(dest, COLOR.rgb, src byte)
pub const DMA2D_CMD_MASK_A8: u32 = 5;
/// rows fade COLOR -> COLOR2
pub const DMA2D_CMD_GRADIENT_V: u32 = 6;
/// columns fade COLOR -> COLOR2
pub const DMA2D_CMD_GRADIENT_H: u32 = 7;
/// anti-aliased rounded rect, COLOR with alpha (0 = opaque)
pub const DMA2D_CMD_ROUND_RECT: u32 = 8;
/// as above, ring of SPREAD px inside the rect
pub const DMA2D_CMD_ROUND_RECT_OUTLINE: u32 = 9;
/// soft shadow of the rounded rect, fading over SPREAD px outside it
pub const DMA2D_CMD_SHADOW: u32 = 10;

// Keyboard. Every host key press/release and every translated character lands
// in a FIFO in the order it happened; STATUS is the queued count, TYPE/CODE/
// MODS read the head event, writing POP consumes it.
pub const KBD_EVT_STATUS_ADDR: u32 = 0x2400_00A0;
pub const KBD_EVT_TYPE_ADDR: u32 = 0x2400_00A4;
pub const KBD_EVT_CODE_ADDR: u32 = 0x2400_00A8;
pub const KBD_EVT_MODS_ADDR: u32 = 0x2400_00AC;
pub const KBD_EVT_POP_ADDR: u32 = 0x2400_00B0;
pub const KBD_EVENT_QUEUE_DEPTH: usize = 64;
pub const KBD_EVT_DOWN: u32 = 1;
pub const KBD_EVT_UP: u32 = 2;
/// CODE = unicode code point (ASCII in practice).
pub const KBD_EVT_CHAR: u32 = 3;
pub const KBD_MOD_SHIFT: u32 = 1;
pub const KBD_MOD_CTRL: u32 = 2;
pub const KBD_MOD_ALT: u32 = 4;

// Key codes for KBD_EVT_DOWN/UP. Printable keys use their lowercase ASCII;
// everything else is a code >= 0x100 so the guest can tell them apart.
pub const KEY_SPACE: u32 = 32;
pub const KEY_ENTER: u32 = 0x109;
pub const KEY_BACKSPACE: u32 = 0x10A;
pub const KEY_TAB: u32 = 0x10B;
pub const KEY_ESCAPE: u32 = 0x10C;
pub const KEY_DELETE: u32 = 0x10D;
pub const KEY_LEFT: u32 = 0x101;
pub const KEY_RIGHT: u32 = 0x102;
pub const KEY_UP: u32 = 0x103;
pub const KEY_DOWN: u32 = 0x104;
pub const KEY_HOME: u32 = 0x105;
pub const KEY_END: u32 = 0x106;
pub const KEY_PAGE_UP: u32 = 0x107;
pub const KEY_PAGE_DOWN: u32 = 0x108;
pub const KEY_SHIFT: u32 = 0x110;
pub const KEY_CTRL: u32 = 0x111;
pub const KEY_ALT: u32 = 0x112;
/// F1..F12 = 0x121..0x12C
pub const KEY_F1: u32 = 0x121;

/// Wheel steps carried by the head mouse event.
pub const MOUSE_EVT_WHEEL_ADDR: u32 = 0x2400_00B4;

pub const CURSOR_X_ADDR: u32 = 0x2400_0060;
pub const CURSOR_Y_ADDR: u32 = 0x2400_0064;
pub const CURSOR_CTRL_ADDR: u32 = 0x2400_0068;

pub const MOUSE_X_ADDR: u32 = 0x2400_0040;
pub const MOUSE_Y_ADDR: u32 = 0x2400_0044;
pub const MOUSE_BUTTONS_ADDR: u32 = 0x2400_0048;

pub const MOUSE_EVT_STATUS_ADDR: u32 = 0x2400_004C;
pub const MOUSE_EVT_X_ADDR: u32 = 0x2400_0050;
pub const MOUSE_EVT_Y_ADDR: u32 = 0x2400_0054;
pub const MOUSE_EVT_BTN_ADDR: u32 = 0x2400_0058;
pub const MOUSE_EVT_POP_ADDR: u32 = 0x2400_005C;
pub const MOUSE_EVENT_QUEUE_DEPTH: usize = 64;

pub const MOUSE_BUTTON_LEFT: u32 = 0x1;
pub const MOUSE_BUTTON_RIGHT: u32 = 0x2;
pub const MOUSE_BUTTON_MIDDLE: u32 = 0x4;
pub const MOUSE_POLL_MS: u64 = 2;

pub const IRQ_VECTOR_ADDR: u32 = 0x2400_0080;
/// R/W: reading gives the pending causes, writing 1 bits acknowledges them.
pub const IRQ_CAUSE_ADDR: u32 = 0x2400_0084;
pub const IRQ_CAUSE_TIMER: u32 = 1;
pub const IRQ_CAUSE_MOUSE: u32 = 2;
pub const IRQ_CAUSE_SERIAL: u32 = 4;
pub const IRQ_CAUSE_SSD: u32 = 8;
pub const IRQ_CAUSE_SYSCALL: u32 = 16;
pub const IRQ_CAUSE_PAGE_FAULT: u32 = 32;
pub const IRQ_CAUSE_PRIVILEGE_VIOLATION: u32 = 64;
pub const IRQ_CAUSE_KEYBOARD: u32 = 128;

// MMU and virtual memory registers.
/// R/W: bit 0 = paging enable.
pub const MMU_CTRL_ADDR: u32 = 0x2400_0100;
/// R/W: physical page directory base register.
pub const MMU_PDBR_ADDR: u32 = 0x2400_0104;
/// R: virtual address that caused the last fault.
pub const MMU_FAULT_ADDR: u32 = 0x2400_0108;
/// R: 0 = read, 1 = write, 2 = execute, 3 = privilege.
pub const MMU_FAULT_STATUS_ADDR: u32 = 0x2400_010C;
/// R/W: kernel stack pointer for user traps.
pub const KERNEL_SP_ADDR: u32 = 0x2400_0110;

// Automation bridge registers.
pub const AUTOMATION_RX_ADDR: u32 = 0x2400_0120;
pub const AUTOMATION_STATUS_ADDR: u32 = 0x2400_0124;
pub const AUTOMATION_TX_ADDR: u32 = 0x2400_0128;
pub const AUTOMATION_DONE_ADDR: u32 = 0x2400_012C;
pub const AUTOMATION_STATUS_REQUEST: u32 = 1;
pub const AUTOMATION_STATUS_DONE: u32 = 2;

// Status register bits.
/// Interrupt enable.
pub const SR_IE: u32 = 1;
pub const SR_CARRY: u32 = 2;
pub const SR_ZERO: u32 = 4;
pub const SR_SIGN: u32 = 8;
pub const SR_OVERFLOW: u32 = 16;
/// 0 = kernel mode, 1 = user mode.
pub const SR_USER: u32 = 32;

// Page table entry bits.
/// Valid / present.
pub const PTE_VALID: u32 = 1;
pub const PTE_WRITABLE: u32 = 2;
pub const PTE_EXEC: u32 = 4;
/// User accessible (0 = kernel only).
pub const PTE_USER: u32 = 8;
pub const PTE_ACCESSED: u32 = 16;
pub const PTE_DIRTY: u32 = 32;
pub const PAGE_SIZE: u32 = 4096;

/// Whether `address` falls in the back buffer's window.
pub fn is_vram_address(address: u32) -> (r: bool)
    ensures
        r == (VRAM_BASE <= address < VRAM_END_EXCLUSIVE),
{
    VRAM_BASE <= address && address < VRAM_END_EXCLUSIVE
}

/// Whether `address` falls in the ROM window.
pub fn is_rom_address(address: u32) -> (r: bool)
    ensures
        r == (ROM_START <= address < ROM_END_EXCLUSIVE),
{
    ROM_START <= address && address < ROM_END_EXCLUSIVE
}

/// Whether `address` falls in main memory.
pub fn is_ram_address(address: u32) -> (r: bool)
    ensures
        r == (address < RAM_END_EXCLUSIVE),
{
    address < RAM_END_EXCLUSIVE
}

/// Whether `address` is one of the memory-mapped device registers.
pub fn is_io_address(address: u32) -> (r: bool)
    ensures
        r == (IO_BASE <= address <= IO_END_INCLUSIVE),
{
    IO_BASE <= address && address <= IO_END_INCLUSIVE
}

} // verus!
