use myemu::constants::{
    DISPLAY_SWAP_ADDR, IRQ_VECTOR_ADDR, MOUSE_BUTTONS_ADDR, MOUSE_BUTTON_LEFT, MOUSE_X_ADDR,
    MOUSE_Y_ADDR, SERIAL_LSR_ADDR, SERIAL_LSR_DR, SERIAL_LSR_THRE, SERIAL_RX_ADDR, VRAM_BASE,
};
use myemu::machine::Machine;

#[test]
fn lsr_idle_reports_thre_only() {
    let m = Machine::new(false);
    assert_eq!(m.bus_read(SERIAL_LSR_ADDR), SERIAL_LSR_THRE);
    assert_eq!(m.bus_read(SERIAL_LSR_ADDR) & SERIAL_LSR_DR, 0);
}

#[test]
fn rx_register_consumes_fifo_in_order() {
    let mut m = Machine::new(false);
    m.ingest_serial_bytes(b"AB");
    assert_ne!(m.bus_read(SERIAL_LSR_ADDR) & SERIAL_LSR_DR, 0, "data-ready set while a byte is queued");
    assert_eq!(m.bus_load(SERIAL_RX_ADDR), u32::from(b'A'));
    assert_eq!(m.bus_load(SERIAL_RX_ADDR), u32::from(b'B'));
    assert_eq!(m.bus_read(SERIAL_LSR_ADDR) & SERIAL_LSR_DR, 0, "data-ready clears once drained");
    assert_eq!(m.bus_load(SERIAL_RX_ADDR), 0, "reading an empty RX yields 0");
}

#[test]
fn received_input_raises_pending_irq() {
    let mut m = Machine::new(false);
    assert!(!m.pending_irq);
    m.ingest_serial_bytes(b"x");
    assert!(m.pending_irq);
}

#[test]
fn rx_does_not_disturb_instruction_fetch() {
    let mut m = Machine::new(false);
    m.ingest_serial_bytes(b"Z");
    let _ = m.bus_read(SERIAL_RX_ADDR);
    assert_eq!(m.bus_load(SERIAL_RX_ADDR), u32::from(b'Z'), "byte still there");
}

#[test]
fn received_input_vectors_to_handler_when_enabled() {
    let mut m = Machine::new(false);
    let handler = 0x0000_0100u32;
    m.bus_write(IRQ_VECTOR_ADDR, handler);
    m.set_interrupt_enable(true);
    m.ingest_serial_bytes(b"z");
    m.service_timer_interrupt().unwrap();
    assert_eq!(m.program_counter, handler, "PC vectored to the handler");
    assert!(!m.interrupt_enable, "interrupts masked entering the handler");
}

#[test]
fn no_input_does_not_interrupt() {
    let mut m = Machine::new(false);
    m.bus_write(IRQ_VECTOR_ADDR, 0x0000_0100);
    m.set_interrupt_enable(true);
    m.service_timer_interrupt().unwrap();
    assert_eq!(m.program_counter, 0, "no IRQ without a source");
}

#[test]
fn mouse_registers_reflect_state() {
    let mut m = Machine::new(false);
    m.set_mouse_state(320, 240, MOUSE_BUTTON_LEFT);
    assert_eq!(m.bus_read(MOUSE_X_ADDR), 320);
    assert_eq!(m.bus_read(MOUSE_Y_ADDR), 240);
    assert_eq!(m.bus_read(MOUSE_BUTTONS_ADDR), MOUSE_BUTTON_LEFT);
}

#[test]
fn mouse_change_raises_irq() {
    let mut m = Machine::new(false);
    assert!(!m.pending_irq);
    m.set_mouse_state(10, 20, 0);
    assert!(m.pending_irq, "a mouse move raises an IRQ");
    m.pending_irq = false;
    m.set_mouse_state(10, 20, 0);
    assert!(!m.pending_irq, "no change means no new IRQ");
    m.set_mouse_state(10, 20, MOUSE_BUTTON_LEFT);
    assert!(m.pending_irq, "a button press raises an IRQ");
}

#[test]
fn display_swap_copies_back_to_front() {
    let mut m = Machine::new(false);
    m.bus_write(VRAM_BASE, 0x00AA_BBCC);
    assert!(!m.swapped, "no swap yet");
    assert_eq!(m.front[0], 0, "front untouched before swap");

    m.bus_write(DISPLAY_SWAP_ADDR, 1);
    assert!(m.swapped, "swap latched");
    assert_eq!(m.front[0], 0x00AA_BBCC, "front now holds the drawn pixel");

    m.bus_write(VRAM_BASE, 0x0011_2233);
    assert_eq!(m.front[0], 0x00AA_BBCC, "front unchanged until next swap");
    assert_eq!(m.bus_read(VRAM_BASE), 0x0011_2233, "back has the new pixel");
}

#[test]
fn masked_interrupt_stays_pending() {
    let mut m = Machine::new(false);
    m.bus_write(IRQ_VECTOR_ADDR, 0x0000_0100);
    m.ingest_serial_bytes(b"q");
    m.service_timer_interrupt().unwrap();
    assert_eq!(m.program_counter, 0);
    assert!(m.pending_irq);
}

#[test]
fn bytes_from_the_host_channel_reach_the_rx_fifo() {
    let mut m = Machine::new(false);
    let (tx, rx) = std::sync::mpsc::channel::<u8>();
    assert!(!m.has_serial_receiver());
    m.set_serial_receiver(rx);
    assert!(m.has_serial_receiver());
    tx.send(b'h').unwrap();
    tx.send(b'i').unwrap();
    m.poll_serial_input();
    assert!(m.pending_irq);
    assert_eq!(m.bus_load(SERIAL_RX_ADDR), u32::from(b'h'));
    assert_eq!(m.bus_load(SERIAL_RX_ADDR), u32::from(b'i'));
    m.poll_serial_input();
    assert_eq!(m.bus_load(SERIAL_RX_ADDR), 0);
}

#[test]
fn polling_without_a_receiver_changes_nothing() {
    let mut m = Machine::new(false);
    m.poll_serial_input();
    assert!(!m.pending_irq);
    assert_eq!(m.irq_cause, 0);
    assert_eq!(m.bus_load(SERIAL_RX_ADDR), 0);
}
