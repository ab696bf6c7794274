use myemu::constants::{
    IRQ_CAUSE_SSD, SSD_ADDR_ADDR, SSD_BLOCK_ADDR, SSD_BLOCK_SIZE, SSD_CMD_ADDR, SSD_CMD_READ,
    SSD_CMD_WRITE, SSD_STATUS_ADDR, SSD_STATUS_BUSY, SSD_STATUS_DONE, SSD_STATUS_ERROR,
};
use myemu::machine::ssd::{SsdDevice, SsdOp};
use myemu::machine::Machine;
use std::collections::HashMap;

/// The host half of the device: blocks kept in memory.
fn complete(m: &mut Machine, disk: &mut HashMap<u32, Vec<u8>>) {
    match m.poll_devices() {
        Some(SsdOp::Write { block, buf_addr }) => {
            let data = m.ssd_gather(buf_addr);
            disk.insert(block, data);
            m.finish_ssd_write(true);
        }
        Some(SsdOp::Read { block, buf_addr }) => {
            let data = disk.get(&block).cloned().unwrap_or_else(|| vec![0u8; SSD_BLOCK_SIZE]);
            m.finish_ssd_read(buf_addr, Some(data));
        }
        None => {}
    }
}

fn machine_with_disk() -> (Machine, HashMap<u32, Vec<u8>>) {
    let mut m = Machine::new(false);
    m.attach_disk();
    (m, HashMap::new())
}

#[test]
fn transfer_is_busy_until_polled_then_raises_completion_irq() {
    let (mut m, mut disk) = machine_with_disk();

    m.bus_write(0x1000, 0xDEAD_BEEF);
    m.bus_write(SSD_BLOCK_ADDR, 3);
    m.bus_write(SSD_ADDR_ADDR, 0x1000);
    m.bus_write(SSD_CMD_ADDR, SSD_CMD_WRITE);
    assert_eq!(m.bus_read(SSD_STATUS_ADDR), SSD_STATUS_BUSY, "busy until the device is polled");
    assert!(!m.pending_irq, "no IRQ before the transfer completes");
    complete(&mut m, &mut disk);
    assert_eq!(m.bus_read(SSD_STATUS_ADDR), SSD_STATUS_DONE);
    assert_ne!(m.irq_cause & IRQ_CAUSE_SSD, 0, "completion raises the SSD cause");
    assert!(m.pending_irq);

    m.irq_cause = 0;
    m.pending_irq = false;
    m.bus_write(SSD_BLOCK_ADDR, 3);
    m.bus_write(SSD_ADDR_ADDR, 0x2000);
    m.bus_write(SSD_CMD_ADDR, SSD_CMD_READ);
    assert_eq!(m.bus_read(SSD_STATUS_ADDR), SSD_STATUS_BUSY);
    complete(&mut m, &mut disk);
    assert_eq!(m.bus_read(SSD_STATUS_ADDR), SSD_STATUS_DONE);
    assert_eq!(m.bus_read(0x2000), 0xDEAD_BEEF, "block round-trips through the disk");
}

#[test]
fn invalid_command_errors_without_irq() {
    let (mut m, mut disk) = machine_with_disk();
    m.bus_write(SSD_CMD_ADDR, 0x99);
    assert_eq!(m.bus_read(SSD_STATUS_ADDR), SSD_STATUS_ERROR);
    complete(&mut m, &mut disk);
    assert!(!m.pending_irq, "nothing was latched, so nothing completes");
}

#[test]
fn without_a_disk_every_command_fails() {
    let mut m = Machine::new(false);
    m.bus_write(SSD_CMD_ADDR, SSD_CMD_READ);
    assert_eq!(m.bus_read(SSD_STATUS_ADDR), SSD_STATUS_ERROR);
    assert_eq!(m.poll_devices(), None);
}

#[test]
fn failed_host_read_reports_an_error() {
    let (mut m, _disk) = machine_with_disk();
    m.bus_write(SSD_BLOCK_ADDR, 1);
    m.bus_write(SSD_CMD_ADDR, SSD_CMD_READ);
    assert_eq!(m.poll_devices(), Some(SsdOp::Read { block: 1, buf_addr: 0 }));
    m.finish_ssd_read(0, None);
    assert_eq!(m.bus_read(SSD_STATUS_ADDR), SSD_STATUS_ERROR);
    assert_ne!(m.irq_cause & IRQ_CAUSE_SSD, 0);
}

#[test]
fn block_offsets_stop_at_the_disk_end() {
    assert_eq!(SsdDevice::block_offset(0), Some(0));
    assert_eq!(SsdDevice::block_offset(2), Some(2 * SSD_BLOCK_SIZE as u64));
    assert_eq!(SsdDevice::block_offset(16384), None);
}
