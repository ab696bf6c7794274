// Emulated SSD block device. Block transfers are asynchronous like real DMA:
// writing the command register latches the transfer and flips STATUS to BUSY;
// the machine completes it at the next device poll, sets DONE or ERROR, and
// raises the completion IRQ. This file holds the device's register state
// machine; the disk image itself is read and written by the host.
use vstd::prelude::*;

use crate::constants::{
    SSD_BLOCK_COUNT, SSD_BLOCK_SIZE, SSD_CMD_READ, SSD_CMD_WRITE, SSD_STATUS_BUSY,
    SSD_STATUS_DONE, SSD_STATUS_ERROR, SSD_STATUS_IDLE,
};

verus! {

/// What must happen to complete the in-flight command.
#[derive(Clone, Copy, Debug, PartialEq, Eq, Structural)]
pub enum SsdOp {
    /// Read `block` from disk; the bytes go to RAM at `buf_addr`.
    Read { block: u32, buf_addr: u32 },
    /// Gather SSD_BLOCK_SIZE bytes from RAM at `buf_addr` and write them to `block`.
    Write { block: u32, buf_addr: u32 },
}

/// Register state of the block device.
#[derive(Clone, Copy, Debug, PartialEq, Eq, Structural)]
pub struct SsdDevice {
    pub enabled: bool,
    pub block: u32,
    pub buf_addr: u32,
    pub status: u32,
    /// Command latched by a CMD-register write, still awaiting completion.
    /// Some(cmd) exactly while status == BUSY.
    pub pending_cmd: Option<u32>,
}

impl SsdDevice {
    /// A pending command is present exactly while the device reports BUSY.
    pub open spec fn wf(self) -> bool {
        self.pending_cmd is Some <==> self.status == SSD_STATUS_BUSY
    }

    /// The state after a write to the command register: a READ or WRITE on an
    /// attached disk is latched and the device turns BUSY; anything else
    /// reports an error at once and latches nothing.
    pub open spec fn commanded(self, cmd: u32) -> SsdDevice {
        if !self.enabled {
            SsdDevice { status: SSD_STATUS_ERROR, ..self }
        } else if cmd == SSD_CMD_READ || cmd == SSD_CMD_WRITE {
            SsdDevice { status: SSD_STATUS_BUSY, pending_cmd: Some(cmd), ..self }
        } else {
            SsdDevice { status: SSD_STATUS_ERROR, ..self }
        }
    }

    /// The operation the in-flight command stands for, resolved against the
    /// latched block and buffer registers.
    pub open spec fn op_of(self) -> Option<SsdOp> {
        match self.pending_cmd {
            Some(c) => if c == SSD_CMD_READ {
                Some(SsdOp::Read { block: self.block, buf_addr: self.buf_addr })
            } else if c == SSD_CMD_WRITE {
                Some(SsdOp::Write { block: self.block, buf_addr: self.buf_addr })
            } else {
                None
            },
            None => None,
        }
    }

    /// A device with no disk attached: every status read and command reports an error.
    pub fn disabled() -> (r: Self)
        ensures
            r.wf(),
            !r.enabled,
            r.status == SSD_STATUS_IDLE,
            r.pending_cmd is None,
            r.block == 0 && r.buf_addr == 0,
    {
        Self { enabled: false, block: 0, buf_addr: 0, status: SSD_STATUS_IDLE, pending_cmd: None }
    }

    /// A device whose disk image the host has opened.
    pub fn attached() -> (r: Self)
        ensures
            r.wf(),
            r.enabled,
            r.status == SSD_STATUS_IDLE,
            r.pending_cmd is None,
            r.block == 0 && r.buf_addr == 0,
    {
        Self { enabled: true, block: 0, buf_addr: 0, status: SSD_STATUS_IDLE, pending_cmd: None }
    }

    /// Latches the BLOCK register.
    pub fn set_block(&mut self, value: u32)
        ensures
            *final(self) == (SsdDevice { block: value, ..*old(self) }),
    {
        self.block = value;
    }

    /// Latches the ADDR register.
    pub fn set_addr(&mut self, value: u32)
        ensures
            *final(self) == (SsdDevice { buf_addr: value, ..*old(self) }),
    {
        self.buf_addr = value;
    }

    /// The STATUS register. A disabled device always reports an error.
    pub fn status(&self) -> (r: u32)
        ensures
            r == if self.enabled {
                self.status
            } else {
                SSD_STATUS_ERROR
            },
    {
        if self.enabled {
            self.status
        } else {
            SSD_STATUS_ERROR
        }
    }

    /// A write to the command register (see `commanded`).
    pub fn begin_command(&mut self, cmd: u32)
        ensures
            *final(self) == old(self).commanded(cmd),
    {
        if !self.enabled {
            self.status = SSD_STATUS_ERROR;
            return;
        }
        if cmd == SSD_CMD_READ || cmd == SSD_CMD_WRITE {
            self.status = SSD_STATUS_BUSY;
            self.pending_cmd = Some(cmd);
        } else {
            self.status = SSD_STATUS_ERROR;
        }
    }

    /// Takes the in-flight command, if any, for the machine to complete.
    pub fn take_pending(&mut self) -> (r: Option<SsdOp>)
        ensures
            r == old(self).op_of(),
            *final(self) == (SsdDevice { pending_cmd: None, ..*old(self) }),
    {
        match self.pending_cmd.take() {
            Some(c) => if c == SSD_CMD_READ {
                Some(SsdOp::Read { block: self.block, buf_addr: self.buf_addr })
            } else if c == SSD_CMD_WRITE {
                Some(SsdOp::Write { block: self.block, buf_addr: self.buf_addr })
            } else {
                None
            },
            None => None,
        }
    }

    /// Records the outcome of a transfer: DONE on success, ERROR otherwise.
    pub fn finish(&mut self, ok: bool)
        ensures
            *final(self) == (SsdDevice {
                status: if ok {
                    SSD_STATUS_DONE
                } else {
                    SSD_STATUS_ERROR
                },
                ..*old(self)
            }),
    {
        self.status = if ok {
            SSD_STATUS_DONE
        } else {
            SSD_STATUS_ERROR
        };
    }

    /// Byte offset of a block in the disk image, or None if the block number
    /// is out of range.
    pub fn block_offset(block: u32) -> (r: Option<u64>)
        ensures
            r == if (block as int) < SSD_BLOCK_COUNT as int {
                Some((block as int * SSD_BLOCK_SIZE as int) as u64)
            } else {
                None::<u64>
            },
    {
        if (block as usize) >= SSD_BLOCK_COUNT {
            return None;
        }
        Some(block as u64 * SSD_BLOCK_SIZE as u64)
    }
}

/// Every command the device accepts is completed by exactly one transfer: a
/// latched command turns the device BUSY and stands for the matching
/// operation on the latched block and buffer.
pub proof fn lemma_accepted_command_is_pending(d: SsdDevice, cmd: u32)
    requires
        d.enabled,
        cmd == SSD_CMD_READ || cmd == SSD_CMD_WRITE,
    ensures
        d.commanded(cmd).wf(),
        d.commanded(cmd).op_of() == Some(
            if cmd == SSD_CMD_READ {
                SsdOp::Read { block: d.block, buf_addr: d.buf_addr }
            } else {
                SsdOp::Write { block: d.block, buf_addr: d.buf_addr }
            },
        ),
{
}

/// A rejected command latches nothing, so no transfer will complete it.
pub proof fn lemma_rejected_command_latches_nothing(d: SsdDevice, cmd: u32)
    requires
        d.wf(),
        d.pending_cmd is None,
        !(d.enabled && (cmd == SSD_CMD_READ || cmd == SSD_CMD_WRITE)),
    ensures
        d.commanded(cmd).status == SSD_STATUS_ERROR,
        d.commanded(cmd).op_of() is None,
{
}

} // verus!
