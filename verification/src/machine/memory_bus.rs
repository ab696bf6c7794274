// The memory bus: physical reads and writes routed to RAM, ROM, the back
// buffer and the device registers, and the virtual accesses the CPU makes
// through the MMU.
use vstd::prelude::*;

use crate::bytes::{be_store, be_word, read_be_u32, write_be_u32};
use crate::constants::{
    is_ram_address, is_rom_address, is_vram_address, is_io_address, CURSOR_CTRL_ADDR, CURSOR_X_ADDR, CURSOR_Y_ADDR, DISPLAY_SWAP_ADDR, DMA2D_CMD_ADDR, IO_BASE, IO_END_INCLUSIVE, IRQ_CAUSE_ADDR, IRQ_CAUSE_PAGE_FAULT, IRQ_CAUSE_PRIVILEGE_VIOLATION, KBD_EVT_CODE_ADDR, KBD_EVT_MODS_ADDR, KBD_EVT_POP_ADDR, KBD_EVT_STATUS_ADDR, KBD_EVT_TYPE_ADDR, KERNEL_SP_ADDR, MMU_CTRL_ADDR, MMU_FAULT_ADDR, MMU_FAULT_STATUS_ADDR, MMU_PDBR_ADDR, MOUSE_BUTTONS_ADDR, MOUSE_EVT_BTN_ADDR, MOUSE_EVT_POP_ADDR, MOUSE_EVT_STATUS_ADDR, MOUSE_EVT_X_ADDR, MOUSE_EVT_Y_ADDR, MOUSE_X_ADDR, MOUSE_Y_ADDR, RAM_END_EXCLUSIVE, ROM_END_EXCLUSIVE, ROM_START, SERIAL_LSR_ADDR, SERIAL_RX_ADDR, SERIAL_TX_ADDR, SR_USER, SSD_ADDR_ADDR, SSD_BLOCK_ADDR, SSD_CMD_ADDR, SSD_STATUS_ADDR, SSD_STATUS_ERROR, VRAM_BASE, VRAM_END_EXCLUSIVE,
};
use crate::machine::keyboard::KeyEvent;
use crate::machine::mmu::{translation, AccessType, MmuFault, MmuState};
use crate::machine::serial::line_status;
use crate::machine::{Machine, MachineState};

verus! {

/// The head keyboard event, or an all-zero event when none is queued.
pub open spec fn kbd_head(q: Seq<KeyEvent>) -> KeyEvent {
    if q.len() > 0 {
        q[0]
    } else {
        KeyEvent { kind: 0, code: 0, mods: 0 }
    }
}

impl MachineState {
    /// Whether the CPU runs in user mode.
    pub open spec fn is_user(self) -> bool {
        self.sr & SR_USER != 0
    }

    /// What a word read of device register `a` returns.
    #[verifier::opaque]
    pub open spec fn io_value(self, a: u32) -> u32 {
        if a == MMU_CTRL_ADDR {
            if self.mmu.enabled {
                1
            } else {
                0
            }
        } else if a == MMU_PDBR_ADDR {
            self.mmu.pdbr
        } else if a == MMU_FAULT_ADDR {
            self.mmu.fault_addr
        } else if a == MMU_FAULT_STATUS_ADDR {
            self.mmu.fault_status
        } else if a == KERNEL_SP_ADDR {
            self.mmu.kernel_sp
        } else if a == SSD_STATUS_ADDR {
            if self.ssd.enabled {
                self.ssd.status
            } else {
                SSD_STATUS_ERROR
            }
        } else if a == IRQ_CAUSE_ADDR {
            self.irq_cause
        } else if a == MOUSE_X_ADDR {
            self.mouse.x
        } else if a == MOUSE_Y_ADDR {
            self.mouse.y
        } else if a == MOUSE_BUTTONS_ADDR {
            self.mouse.buttons
        } else if a == MOUSE_EVT_STATUS_ADDR {
            self.mouse.events.len() as u32
        } else if a == MOUSE_EVT_X_ADDR {
            self.mouse.head().x
        } else if a == MOUSE_EVT_Y_ADDR {
            self.mouse.head().y
        } else if a == MOUSE_EVT_BTN_ADDR {
            self.mouse.head().buttons
        } else if a == KBD_EVT_STATUS_ADDR {
            self.kbd.len() as u32
        } else if a == KBD_EVT_TYPE_ADDR {
            kbd_head(self.kbd).kind
        } else if a == KBD_EVT_CODE_ADDR {
            kbd_head(self.kbd).code
        } else if a == KBD_EVT_MODS_ADDR {
            kbd_head(self.kbd).mods
        } else if a == SERIAL_LSR_ADDR {
            line_status(self.rx)
        } else if a == SERIAL_RX_ADDR {
            if self.rx.len() > 0 {
                self.rx[0] as u32
            } else {
                0
            }
        } else if self.io.contains_key(a) {
            self.io[a]
        } else {
            0xFFFF_FFFF
        }
    }

    /// The word a physical read of `a` returns: big-endian RAM and ROM words,
    /// back-buffer pixels, device registers; 0 past the end of a region and
    /// 0xFFFF_FFFF where nothing is mapped.
    #[verifier::opaque]
    pub open spec fn read_word(self, a: u32) -> u32 {
        if a < RAM_END_EXCLUSIVE {
            if a as int + 4 <= self.ram.len() {
                be_word(self.ram, a as int)
            } else {
                0
            }
        } else if ROM_START <= a < ROM_END_EXCLUSIVE {
            let off = a - ROM_START;
            if off + 3 < self.rom.len() {
                be_word(self.rom, off)
            } else {
                0
            }
        } else if VRAM_BASE <= a < VRAM_END_EXCLUSIVE {
            let o = (a - VRAM_BASE) / 4;
            if o < self.vram.len() {
                self.vram[o]
            } else {
                0
            }
        } else if IO_BASE <= a <= IO_END_INCLUSIVE {
            self.io_value(a)
        } else {
            0xFFFF_FFFF
        }
    }

    /// The byte a physical byte read of `a` returns.
    #[verifier::opaque]
    pub open spec fn read_byte(self, a: u32) -> u8 {
        if a < RAM_END_EXCLUSIVE {
            self.ram[a as int]
        } else if ROM_START <= a < ROM_END_EXCLUSIVE {
            let off = a - ROM_START;
            if off < self.rom.len() {
                self.rom[off as int]
            } else {
                0
            }
        } else if VRAM_BASE <= a < VRAM_END_EXCLUSIVE {
            let off = (a - VRAM_BASE) as u32;
            let w = off / 4;
            if w < self.vram.len() {
                ((self.vram[w as int] >> ((3 - off % 4) * 8) as u32) & 0xFF) as u8
            } else {
                0
            }
        } else if IO_BASE <= a <= IO_END_INCLUSIVE {
            let v = if a == SERIAL_LSR_ADDR {
                line_status(self.rx)
            } else if self.io.contains_key(a) {
                self.io[a]
            } else {
                0xFFFF_FFFF
            };
            (v & 0xFF) as u8
        } else {
            0xFF
        }
    }

    /// The state after the guest wrote `v` to device register `a`.
    #[verifier::opaque]
    pub open spec fn io_written(self, a: u32, v: u32) -> MachineState {
        if a == MMU_CTRL_ADDR {
            MachineState { mmu: MmuState { enabled: v & 1 != 0, ..self.mmu }.flushed(), ..self }
        } else if a == MMU_PDBR_ADDR {
            MachineState { mmu: MmuState { pdbr: v, ..self.mmu }.flushed(), ..self }
        } else if a == KERNEL_SP_ADDR {
            MachineState { mmu: MmuState { kernel_sp: v, ..self.mmu }, ..self }
        } else if a == SSD_BLOCK_ADDR {
            MachineState { ssd: crate::machine::ssd::SsdDevice { block: v, ..self.ssd }, ..self }
        } else if a == SSD_ADDR_ADDR {
            MachineState { ssd: crate::machine::ssd::SsdDevice { buf_addr: v, ..self.ssd }, ..self }
        } else if a == SSD_CMD_ADDR {
            MachineState { ssd: self.ssd.commanded(v), ..self }
        } else if a == DMA2D_CMD_ADDR {
            self.after_dma2d(v)
        } else if a == CURSOR_X_ADDR {
            MachineState { cursor_x: v, ..self }
        } else if a == CURSOR_Y_ADDR {
            MachineState { cursor_y: v, ..self }
        } else if a == CURSOR_CTRL_ADDR {
            MachineState { cursor_visible: v & 1 != 0, ..self }
        } else if a == DISPLAY_SWAP_ADDR {
            if v != 0 {
                MachineState {
                    front: self.vram,
                    swapped: true,
                    swaps: ((self.swaps + 1) % 0x1_0000_0000_0000_0000) as u64,
                    ..self
                }
            } else {
                self
            }
        } else if a == IRQ_CAUSE_ADDR {
            let cause = self.irq_cause & !v;
            MachineState {
                irq_cause: cause,
                pending_irq: if cause == 0 {
                    false
                } else {
                    self.pending_irq
                },
                ..self
            }
        } else if a == MOUSE_EVT_POP_ADDR {
            if v != 0 {
                MachineState { mouse: self.mouse.popped(), ..self }
            } else {
                self
            }
        } else if a == KBD_EVT_POP_ADDR {
            MachineState {
                kbd: if self.kbd.len() > 0 {
                    self.kbd.drop_first()
                } else {
                    self.kbd
                },
                ..self
            }
        } else {
            MachineState {
                io: self.io.insert(a, v),
                serial_tx: if a == SERIAL_TX_ADDR {
                    self.serial_tx.push((v & 0xFF) as u8)
                } else {
                    self.serial_tx
                },
                ..self
            }
        }
    }

    /// The state after a physical word write of `v` to `a`.
    #[verifier::opaque]
    pub open spec fn write_word(self, a: u32, v: u32) -> MachineState {
        if a < RAM_END_EXCLUSIVE {
            if a as int + 4 <= self.ram.len() {
                MachineState { ram: be_store(self.ram, a as int, v), ..self }
            } else {
                self
            }
        } else if VRAM_BASE <= a < VRAM_END_EXCLUSIVE {
            let o = (a - VRAM_BASE) / 4;
            if o < self.vram.len() {
                MachineState { vram: self.vram.update(o as int, v), ..self }
            } else {
                self
            }
        } else if IO_BASE <= a <= IO_END_INCLUSIVE {
            self.io_written(a, v)
        } else {
            self
        }
    }

    /// The state after a physical byte write of `v` to `a`. Byte writes to
    /// device registers only latch the value (and transmit on SERIAL_TX).
    #[verifier::opaque]
    pub open spec fn write_byte(self, a: u32, v: u8) -> MachineState {
        if a < RAM_END_EXCLUSIVE {
            MachineState { ram: self.ram.update(a as int, v), ..self }
        } else if VRAM_BASE <= a < VRAM_END_EXCLUSIVE {
            let off = (a - VRAM_BASE) as u32;
            let w = off / 4;
            if w < self.vram.len() {
                let shift = ((3 - off % 4) * 8) as u32;
                let cur = self.vram[w as int];
                MachineState {
                    vram: self.vram.update(
                        w as int,
                        (cur & !(0xFFu32 << shift)) | ((v as u32) << shift),
                    ),
                    ..self
                }
            } else {
                self
            }
        } else if IO_BASE <= a <= IO_END_INCLUSIVE {
            MachineState {
                io: self.io.insert(a, v as u32),
                serial_tx: if a == SERIAL_TX_ADDR {
                    self.serial_tx.push(v)
                } else {
                    self.serial_tx
                },
                ..self
            }
        } else {
            self
        }
    }

    /// Translation of `vaddr` for the current privilege level.
    #[verifier::opaque]
    pub open spec fn translated(self, vaddr: u32, access: AccessType) -> (MachineState, Result<
        u32,
        MmuFault,
    >) {
        let (m, ram, r) = translation(self.mmu, self.ram, vaddr, access, self.is_user());
        (MachineState { mmu: m, ram, ..self }, r)
    }

    /// The state after a translation fault raised its interrupt cause.
    pub open spec fn fault_raised(self, f: MmuFault) -> MachineState {
        MachineState {
            irq_cause: match f {
                MmuFault::PageFault { .. } => self.irq_cause | IRQ_CAUSE_PAGE_FAULT,
                MmuFault::PrivilegeViolation { .. } => self.irq_cause
                    | IRQ_CAUSE_PRIVILEGE_VIOLATION,
            },
            pending_irq: true,
            ..self
        }
    }

    /// A word load from virtual address `addr`: a fault raises its interrupt
    /// and reads 0; a load from SERIAL_RX consumes the oldest received byte.
    #[verifier::opaque]
    pub open spec fn loaded(self, addr: u32) -> (MachineState, u32) {
        let (s, r) = self.translated(addr, AccessType::Read);
        match r {
            Err(f) => (s.fault_raised(f), 0),
            Ok(p) => if p == SERIAL_RX_ADDR {
                if s.rx.len() > 0 {
                    (MachineState { rx: s.rx.drop_first(), ..s }, s.rx[0] as u32)
                } else {
                    (s, 0)
                }
            } else {
                (s, s.read_word(p))
            },
        }
    }

    /// A byte load from virtual address `addr`.
    #[verifier::opaque]
    pub open spec fn loaded_byte(self, addr: u32) -> (MachineState, u8) {
        let (s, r) = self.translated(addr, AccessType::Read);
        match r {
            Err(f) => (s.fault_raised(f), 0),
            Ok(p) => if p == SERIAL_RX_ADDR {
                if s.rx.len() > 0 {
                    (MachineState { rx: s.rx.drop_first(), ..s }, s.rx[0])
                } else {
                    (s, 0)
                }
            } else {
                (s, s.read_byte(p))
            },
        }
    }

    /// A word store to virtual address `addr`.
    #[verifier::opaque]
    pub open spec fn stored(self, addr: u32, v: u32) -> MachineState {
        let (s, r) = self.translated(addr, AccessType::Write);
        match r {
            Err(f) => s.fault_raised(f),
            Ok(p) => s.write_word(p, v),
        }
    }

    /// A byte store to virtual address `addr`.
    #[verifier::opaque]
    pub open spec fn stored_byte(self, addr: u32, v: u8) -> MachineState {
        let (s, r) = self.translated(addr, AccessType::Write);
        match r {
            Err(f) => s.fault_raised(f),
            Ok(p) => s.write_byte(p, v),
        }
    }

    /// An instruction fetch from the current program counter.
    #[verifier::opaque]
    pub open spec fn fetched(self) -> (MachineState, Option<u32>) {
        let (s, r) = self.translated(self.pc, AccessType::Execute);
        match r {
            Err(f) => (s.fault_raised(f), None),
            Ok(p) => (s, Some(s.read_word(p))),
        }
    }
}

impl Machine {
    pub(crate) fn translate_addr(&mut self, vaddr: u32, access: AccessType) -> (r: Result<
        u32,
        MmuFault,
    >)
        requires
            old(self).wf(),
        ensures
            final(self).wf(),
            (final(self)@, r) == old(self)@.translated(vaddr, access),
    {
        reveal(MachineState::translated);
        let is_user = self.status_register & SR_USER != 0;
        self.mmu.translate(&mut self.ram, vaddr, access, is_user)
    }

    pub(crate) fn raise_mmu_fault(&mut self, fault: MmuFault)
        requires
            old(self).wf(),
        ensures
            final(self).wf(),
            final(self)@ == old(self)@.fault_raised(fault),
    {
        match fault {
            MmuFault::PageFault { .. } => {
                self.irq_cause = self.irq_cause | IRQ_CAUSE_PAGE_FAULT;
            },
            MmuFault::PrivilegeViolation { .. } => {
                self.irq_cause = self.irq_cause | IRQ_CAUSE_PRIVILEGE_VIOLATION;
            },
        }
        self.pending_irq = true;
    }

    /// Fetches the instruction word at the program counter through the MMU.
    /// A translation fault raises its interrupt and returns Err.
    pub fn fetch_instruction(&mut self) -> (r: Result<u32, ()>)
        requires
            old(self).wf(),
        ensures
            final(self).wf(),
            final(self)@ == old(self)@.fetched().0,
            match old(self)@.fetched().1 {
                Some(w) => r == Ok::<u32, ()>(w),
                None => r is Err,
            },
    {
        reveal(MachineState::fetched);
        let pc = self.program_counter;
        let paddr = match self.translate_addr(pc, AccessType::Execute) {
            Ok(p) => p,
            Err(fault) => {
                self.raise_mmu_fault(fault);
                return Err(());
            },
        };
        Ok(self.bus_read_physical(paddr))
    }

    /// Word load used by the LD instructions (virtual address).
    pub fn bus_load(&mut self, address: u32) -> (r: u32)
        requires
            old(self).wf(),
        ensures
            final(self).wf(),
            (final(self)@, r) == old(self)@.loaded(address),
    {
        reveal(MachineState::loaded);
        let paddr = match self.translate_addr(address, AccessType::Read) {
            Ok(p) => p,
            Err(fault) => {
                self.raise_mmu_fault(fault);
                return 0;
            },
        };
        if paddr == SERIAL_RX_ADDR {
            return self.serial.read_rx();
        }
        self.bus_read_physical(paddr)
    }

    /// Byte load used by LDB (virtual address).
    pub fn bus_load_byte(&mut self, address: u32) -> (r: u8)
        requires
            old(self).wf(),
        ensures
            final(self).wf(),
            (final(self)@, r) == old(self)@.loaded_byte(address),
    {
        reveal(MachineState::loaded_byte);
        let paddr = match self.translate_addr(address, AccessType::Read) {
            Ok(p) => p,
            Err(fault) => {
                self.raise_mmu_fault(fault);
                return 0;
            },
        };
        if paddr == SERIAL_RX_ADDR {
            return self.serial.read_rx() as u8;
        }
        self.bus_read_byte_physical(paddr)
    }

    /// Word store (virtual address).
    pub fn bus_write(&mut self, address: u32, value: u32)
        requires
            old(self).wf(),
        ensures
            final(self).wf(),
            final(self)@ == old(self)@.stored(address, value),
    {
        reveal(MachineState::stored);
        let paddr = match self.translate_addr(address, AccessType::Write) {
            Ok(p) => p,
            Err(fault) => {
                self.raise_mmu_fault(fault);
                return ;
            },
        };
        self.bus_write_physical(paddr, value);
    }

    /// Byte store (virtual address).
    pub fn bus_write_byte(&mut self, address: u32, value: u8)
        requires
            old(self).wf(),
        ensures
            final(self).wf(),
            final(self)@ == old(self)@.stored_byte(address, value),
    {
        reveal(MachineState::stored_byte);
        let paddr = match self.translate_addr(address, AccessType::Write) {
            Ok(p) => p,
            Err(fault) => {
                self.raise_mmu_fault(fault);
                return ;
            },
        };
        self.bus_write_byte_physical(paddr, value);
    }

    fn io_get(&self, address: u32) -> (r: Option<u32>)
        ensures
            r == if self@.io.contains_key(address) {
                Some(self@.io[address])
            } else {
                None::<u32>
            },
    {
        match self.io.get(&address) {
            Some(v) => Some(*v),
            None => None,
        }
    }

    fn io_read(&self, address: u32) -> (r: u32)
        requires
            self.wf(),
        ensures
            r == self@.io_value(address),
    {
        reveal(MachineState::io_value);
        if address == MMU_CTRL_ADDR {
            return if self.mmu.enabled {
                1
            } else {
                0
            };
        }
        if address == MMU_PDBR_ADDR {
            return self.mmu.pdbr;
        }
        if address == MMU_FAULT_ADDR {
            return self.mmu.fault_addr;
        }
        if address == MMU_FAULT_STATUS_ADDR {
            return self.mmu.fault_status;
        }
        if address == KERNEL_SP_ADDR {
            return self.mmu.kernel_sp;
        }
        if address == SSD_STATUS_ADDR {
            return self.ssd.status();
        }
        if address == IRQ_CAUSE_ADDR {
            return self.irq_cause;
        }
        if address == MOUSE_X_ADDR {
            return self.mouse.x;
        }
        if address == MOUSE_Y_ADDR {
            return self.mouse.y;
        }
        if address == MOUSE_BUTTONS_ADDR {
            return self.mouse.buttons;
        }
        if address == MOUSE_EVT_STATUS_ADDR {
            return self.mouse.event_count();
        }
        if address == MOUSE_EVT_X_ADDR {
            return self.mouse.head_event().x;
        }
        if address == MOUSE_EVT_Y_ADDR {
            return self.mouse.head_event().y;
        }
        if address == MOUSE_EVT_BTN_ADDR {
            return self.mouse.head_event().buttons;
        }
        if address == KBD_EVT_STATUS_ADDR {
            return self.keyboard.event_count();
        }
        if address == KBD_EVT_TYPE_ADDR {
            return self.keyboard.head().kind;
        }
        if address == KBD_EVT_CODE_ADDR {
            return self.keyboard.head().code;
        }
        if address == KBD_EVT_MODS_ADDR {
            return self.keyboard.head().mods;
        }
        if address == SERIAL_LSR_ADDR {
            return self.serial.lsr();
        }
        if address == SERIAL_RX_ADDR {
            return self.serial.peek_rx();
        }
        match self.io_get(address) {
            Some(v) => v,
            None => 0xFFFF_FFFF,
        }
    }

    /// Physical word read (instruction fetch, stack inspection, DMA sources).
    pub fn bus_read(&self, address: u32) -> (r: u32)
        requires
            self.wf(),
        ensures
            r == self@.read_word(address),
    {
        self.bus_read_physical(address)
    }

    /// Physical word read.
    pub fn bus_read_physical(&self, address: u32) -> (r: u32)
        requires
            self.wf(),
        ensures
            r == self@.read_word(address),
    {
        reveal(MachineState::read_word);
        if is_ram_address(address) {
            return self.ram_read_word(address);
        }
        if is_rom_address(address) {
            let offset = (address - ROM_START) as usize;
            if offset + 3 < self.rom.len() {
                return read_be_u32(&self.rom, offset);
            }
            return 0;
        }
        if is_vram_address(address) {
            let offset = ((address - VRAM_BASE) / 4) as usize;
            if offset < self.vram.len() {
                return self.vram[offset];
            }
            return 0;
        }
        if is_io_address(address) {
            return self.io_read(address);
        }
        0xFFFF_FFFF
    }

    /// Physical byte read.
    pub fn bus_read_byte(&self, address: u32) -> (r: u8)
        requires
            self.wf(),
        ensures
            r == self@.read_byte(address),
    {
        self.bus_read_byte_physical(address)
    }

    /// Physical byte read.
    pub fn bus_read_byte_physical(&self, address: u32) -> (r: u8)
        requires
            self.wf(),
        ensures
            r == self@.read_byte(address),
    {
        reveal(MachineState::read_byte);
        if is_ram_address(address) {
            return self.ram[address as usize];
        }
        if is_rom_address(address) {
            let offset = (address - ROM_START) as usize;
            if offset < self.rom.len() {
                return self.rom[offset];
            }
            return 0;
        }
        if is_vram_address(address) {
            let offset = address - VRAM_BASE;
            let word_index = (offset / 4) as usize;
            if word_index < self.vram.len() {
                // Big-endian byte lanes.
                let byte_shift = (3 - (offset % 4)) * 8;
                return ((self.vram[word_index] >> byte_shift) & 0xFF) as u8;
            }
            return 0;
        }
        if is_io_address(address) {
            let value = if address == SERIAL_LSR_ADDR {
                self.serial.lsr()
            } else {
                match self.io_get(address) {
                    Some(v) => v,
                    None => 0xFFFF_FFFF,
                }
            };
            return (value & 0xFF) as u8;
        }
        0xFF
    }

    #[verifier::spinoff_prover]
    fn io_write_control(&mut self, address: u32, value: u32)
        requires
            old(self).wf(),
            address == MMU_CTRL_ADDR || address == MMU_PDBR_ADDR || address == KERNEL_SP_ADDR
                || address == SSD_BLOCK_ADDR || address == SSD_ADDR_ADDR || address
                == SSD_CMD_ADDR || address == DMA2D_CMD_ADDR,
        ensures
            final(self).wf(),
            final(self)@ == old(self)@.io_written(address, value),
    {
        reveal(MachineState::io_written);
        if address == MMU_CTRL_ADDR {
            self.mmu.set_enabled(value & 1 != 0);
        } else if address == MMU_PDBR_ADDR {
            self.mmu.set_pdbr(value);
        } else if address == KERNEL_SP_ADDR {
            self.mmu.kernel_sp = value;
        } else if address == SSD_BLOCK_ADDR {
            self.ssd.set_block(value);
        } else if address == SSD_ADDR_ADDR {
            self.ssd.set_addr(value);
        } else if address == SSD_CMD_ADDR {
            self.ssd.begin_command(value);
        } else {
            self.service_dma2d(value);
        }
    }

    #[verifier::spinoff_prover]
    fn io_write_display(&mut self, address: u32, value: u32)
        requires
            old(self).wf(),
            address == CURSOR_X_ADDR || address == CURSOR_Y_ADDR || address == CURSOR_CTRL_ADDR
                || address == DISPLAY_SWAP_ADDR,
        ensures
            final(self).wf(),
            final(self)@ == old(self)@.io_written(address, value),
    {
        reveal(MachineState::io_written);
        if address == CURSOR_X_ADDR {
            self.cursor_x = value;
        } else if address == CURSOR_Y_ADDR {
            self.cursor_y = value;
        } else if address == CURSOR_CTRL_ADDR {
            self.cursor_visible = value & 1 != 0;
        } else if value != 0 {
            self.front = self.vram.clone();
            self.swapped = true;
            self.swaps = self.swaps.wrapping_add(1);
        }
    }

    #[verifier::spinoff_prover]
    fn io_write_events(&mut self, address: u32, value: u32)
        requires
            old(self).wf(),
            address == IRQ_CAUSE_ADDR || address == MOUSE_EVT_POP_ADDR || address
                == KBD_EVT_POP_ADDR,
        ensures
            final(self).wf(),
            final(self)@ == old(self)@.io_written(address, value),
    {
        reveal(MachineState::io_written);
        if address == IRQ_CAUSE_ADDR {
            // Acknowledge (clear) the bits written as 1.
            self.irq_cause = self.irq_cause & !value;
            if self.irq_cause == 0 {
                self.pending_irq = false;
            }
        } else if address == MOUSE_EVT_POP_ADDR {
            if value != 0 {
                self.mouse.pop_event();
            }
        } else {
            self.keyboard.pop();
        }
    }

    #[verifier::spinoff_prover]
    fn io_write_latch(&mut self, address: u32, value: u32)
        requires
            old(self).wf(),
            IO_BASE <= address <= IO_END_INCLUSIVE,
            !(address == MMU_CTRL_ADDR || address == MMU_PDBR_ADDR || address == KERNEL_SP_ADDR
                || address == SSD_BLOCK_ADDR || address == SSD_ADDR_ADDR || address
                == SSD_CMD_ADDR || address == DMA2D_CMD_ADDR || address == CURSOR_X_ADDR
                || address == CURSOR_Y_ADDR || address == CURSOR_CTRL_ADDR || address
                == DISPLAY_SWAP_ADDR || address == IRQ_CAUSE_ADDR || address
                == MOUSE_EVT_POP_ADDR || address == KBD_EVT_POP_ADDR),
        ensures
            final(self).wf(),
            final(self)@ == old(self)@.io_written(address, value),
    {
        reveal(MachineState::io_written);
        self.io.insert(address, value);
        if address == SERIAL_TX_ADDR {
            self.serial_tx_buf.push((value & 0xFF) as u8);
        }
    }

    fn io_write(&mut self, address: u32, value: u32)
        requires
            old(self).wf(),
            IO_BASE <= address <= IO_END_INCLUSIVE,
        ensures
            final(self).wf(),
            final(self)@ == old(self)@.io_written(address, value),
    {
        if address == MMU_CTRL_ADDR || address == MMU_PDBR_ADDR || address == KERNEL_SP_ADDR
            || address == SSD_BLOCK_ADDR || address == SSD_ADDR_ADDR || address == SSD_CMD_ADDR
            || address == DMA2D_CMD_ADDR {
            self.io_write_control(address, value);
        } else if address == CURSOR_X_ADDR || address == CURSOR_Y_ADDR || address
            == CURSOR_CTRL_ADDR || address == DISPLAY_SWAP_ADDR {
            self.io_write_display(address, value);
        } else if address == IRQ_CAUSE_ADDR || address == MOUSE_EVT_POP_ADDR || address
            == KBD_EVT_POP_ADDR {
            self.io_write_events(address, value);
        } else {
            self.io_write_latch(address, value);
        }
    }

    /// Physical word write.
    pub fn bus_write_physical(&mut self, address: u32, value: u32)
        requires
            old(self).wf(),
        ensures
            final(self).wf(),
            final(self)@ == old(self)@.write_word(address, value),
    {
        reveal(MachineState::write_word);
        if is_ram_address(address) {
            self.ram_write_word(address, value);
            return ;
        }
        if is_vram_address(address) {
            let offset = ((address - VRAM_BASE) / 4) as usize;
            if offset < self.vram.len() {
                self.vram.set(offset, value);
            }
            return ;
        }
        if is_io_address(address) {
            self.io_write(address, value);
        }
    }

    /// Physical byte write.
    #[verifier::spinoff_prover]
    #[verifier::rlimit(60)]
    pub fn bus_write_byte_physical(&mut self, address: u32, value: u8)
        requires
            old(self).wf(),
        ensures
            final(self).wf(),
            final(self)@ == old(self)@.write_byte(address, value),
    {
        reveal(MachineState::write_byte);
        if is_ram_address(address) {
            self.ram.set(address as usize, value);
            return ;
        }
        if is_vram_address(address) {
            let offset = address - VRAM_BASE;
            let word_index = (offset / 4) as usize;
            if word_index < self.vram.len() {
                // Big-endian byte lanes.
                let byte_shift = (3 - (offset % 4)) * 8;
                let mask = !(0xFFu32 << byte_shift);
                let current = self.vram[word_index];
                self.vram.set(word_index, (current & mask) | ((value as u32) << byte_shift));
            }
            return ;
        }
        if is_io_address(address) {
            self.io.insert(address, value as u32);
            if address == SERIAL_TX_ADDR {
                self.serial_tx_buf.push(value);
            }
        }
    }

    /// Big-endian RAM word, 0 past the end of RAM.
    pub fn ram_read_word(&self, address: u32) -> (r: u32)
        requires
            self.wf(),
        ensures
            r == if address as int + 4 <= self@.ram.len() {
                be_word(self@.ram, address as int)
            } else {
                0
            },
    {
        let i = address as usize;
        if i <= self.ram.len() && self.ram.len() - i >= 4 {
            read_be_u32(&self.ram, i)
        } else {
            0
        }
    }

    /// Stores a big-endian RAM word; ignored past the end of RAM.
    pub fn ram_write_word(&mut self, address: u32, value: u32)
        requires
            old(self).wf(),
        ensures
            final(self).wf(),
            final(self)@ == (MachineState {
                ram: if address as int + 4 <= old(self)@.ram.len() {
                    be_store(old(self)@.ram, address as int, value)
                } else {
                    old(self)@.ram
                },
                ..old(self)@
            }),
    {
        let i = address as usize;
        if i <= self.ram.len() && self.ram.len() - i >= 4 {
            write_be_u32(&mut self.ram, i, value);
        }
    }

    /// Physical word read of stack memory.
    pub fn read_stack_memory(&self, address: u32) -> (r: u32)
        requires
            self.wf(),
        ensures
            r == self@.read_word(address),
    {
        self.bus_read_physical(address)
    }

    /// Takes everything transmitted on the serial port since the last call.
    pub fn drain_serial_tx(&mut self) -> (r: Vec<u8>)
        requires
            old(self).wf(),
        ensures
            final(self).wf(),
            r@ == old(self)@.serial_tx,
            final(self)@ == (MachineState { serial_tx: Seq::<u8>::empty(), ..old(self)@ }),
    {
        let mut out: Vec<u8> = Vec::new();
        std::mem::swap(&mut out, &mut self.serial_tx_buf);
        out
    }
}

/// A present (a nonzero write to DISPLAY_SWAP) makes the front buffer a copy
/// of the back buffer, and drawing into the back buffer afterwards does not
/// show until the next present.
pub proof fn lemma_swap_presents_back_buffer(s: MachineState, v: u32, a: u32, w: u32)
    requires
        v != 0,
        VRAM_BASE <= a < VRAM_END_EXCLUSIVE,
    ensures
        s.write_word(DISPLAY_SWAP_ADDR, v).front == s.vram,
        s.write_word(DISPLAY_SWAP_ADDR, v).swapped,
        s.write_word(DISPLAY_SWAP_ADDR, v).write_word(a, w).front == s.vram,
{
    reveal(MachineState::write_word);
    reveal(MachineState::io_written);
}

/// A RAM word reads back what was last written to it, and writing a word
/// leaves every word that does not overlap it as it was.
pub proof fn lemma_ram_word_reads_back(s: MachineState, a: u32, b: u32, v: u32)
    requires
        s.wf(),
        a as int + 4 <= RAM_END_EXCLUSIVE,
        b as int + 4 <= RAM_END_EXCLUSIVE,
        b + 4 <= a || a + 4 <= b,
    ensures
        s.write_word(a, v).read_word(a) == v,
        s.write_word(a, v).read_word(b) == s.read_word(b),
{
    reveal(MachineState::write_word);
    reveal(MachineState::read_word);
    crate::bytes::lemma_be_roundtrip(s.ram, a as int, v);
    let t = crate::bytes::be_store(s.ram, a as int, v);
    assert(t[b as int] == s.ram[b as int]);
    assert(t[b + 1] == s.ram[b + 1]);
    assert(t[b + 2] == s.ram[b + 2]);
    assert(t[b + 3] == s.ram[b + 3]);
}

/// A back-buffer pixel reads back what was last written to it, and writing
/// one pixel leaves the others as they were.
pub proof fn lemma_vram_pixel_reads_back(s: MachineState, a: u32, b: u32, v: u32)
    requires
        s.wf(),
        VRAM_BASE <= a < VRAM_END_EXCLUSIVE,
        VRAM_BASE <= b < VRAM_END_EXCLUSIVE,
        a % 4 == 0,
        b % 4 == 0,
        a != b,
    ensures
        s.write_word(a, v).read_word(a) == v,
        s.write_word(a, v).read_word(b) == s.read_word(b),
{
    reveal(MachineState::write_word);
    reveal(MachineState::read_word);
}

} // verus!
