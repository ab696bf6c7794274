use myemu::constants::{SR_CARRY, SR_IE, SR_OVERFLOW, SR_SIGN, SR_ZERO};
use myemu::machine::Machine;

#[test]
fn writing_sr_synchronizes_execution_flags() {
    let mut machine = Machine::new(false);
    let sr = SR_IE | SR_CARRY | SR_ZERO | SR_SIGN | SR_OVERFLOW;

    machine.set_register(0x0B, sr).expect("SR is a valid register");

    assert!(machine.interrupt_enable);
    assert!(machine.carry_flag);
    assert!(machine.zero_flag);
    assert!(machine.sign_flag);
    assert!(machine.overflow_flag);
}

#[test]
fn status_register_reads_back_what_was_written() {
    let mut machine = Machine::new(false);
    let sr = SR_IE | SR_ZERO | SR_OVERFLOW;
    machine.set_register(0x0B, sr).unwrap();
    assert_eq!(machine.get_register(0x0B), Ok(sr));
    assert_eq!(machine.status_register(), sr);
}

#[test]
fn register_numbers_out_of_range_are_refused() {
    let machine = Machine::new(false);
    assert_eq!(
        machine.get_data_register(8),
        Err("Register index out of range: 8".to_string())
    );
    assert_eq!(machine.get_data_register(3), Ok(0));
}

#[test]
fn data_registers_round_trip() {
    let mut machine = Machine::new(false);
    machine.set_register(5, 0xCAFE_F00D).unwrap();
    assert_eq!(machine.get_register(5), Ok(0xCAFE_F00D));
    assert_eq!(machine.get_data_register(5), Ok(0xCAFE_F00D));
}
