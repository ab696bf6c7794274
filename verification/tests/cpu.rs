use myemu::instruction::{decode_instruction, mnemonic, Opcode};
use myemu::machine::run_loop::{idle_sleep, Checkpoint, RunControl, StepOutcome};
use myemu::machine::{DebugOptions, Machine};

const MOVI_R1_5: u32 = 0x0820_0005;
const MOVI_R2_7: u32 = 0x0840_0007;
const ADD_R1_R2: u32 = 0x1422_0000;
const HALT: u32 = 0xFC00_0000;

#[test]
fn a_small_program_runs_to_halt() {
    let mut m = Machine::new(false);
    m.load_program(&[MOVI_R1_5, MOVI_R2_7, ADD_R1_R2, HALT], 0);
    m.set_instruction_pointer(0);
    let mut retired = 0;
    loop {
        match m.step().unwrap() {
            StepOutcome::Retired { .. } => retired += 1,
            StepOutcome::Halted => break,
            other => panic!("unexpected {:?}", other),
        }
    }
    assert_eq!(retired, 4);
    assert_eq!(m.get_data_register(1), Ok(12));
    assert_eq!(m.program_counter(), 16);
    assert!(m.is_halted());
}

#[test]
fn unknown_opcode_is_an_error() {
    let mut m = Machine::new(false);
    m.load_program(&[0x8800_0000], 0);
    assert_eq!(m.step(), Err("Unknown opcode: 0x22".to_string()));
}

#[test]
fn decoding_splits_the_fields() {
    let d = decode_instruction(ADD_R1_R2);
    assert_eq!((d.opcode, d.reg1, d.reg2), (0x05, 1, 2));
    assert_eq!(mnemonic(d.opcode), "ADD");
    assert_eq!(mnemonic(0x3F), "HALT");
    assert_eq!(mnemonic(0x22), "UNKNOWN");
}

#[test]
fn run_control_breaks_batches_and_counts_steps() {
    let options = DebugOptions { trace: false, break_addr: Some(0x40), step_count: Some(2) };
    let mut rc = RunControl::new(&options);
    assert_eq!(rc.checkpoint(0x40, false), Checkpoint::Break);
    assert_eq!(rc.checkpoint(0x0, false), Checkpoint::Proceed);
    assert_eq!(rc.checkpoint(0x0, true), Checkpoint::Service);
    assert_eq!(rc.batch_counter, 0);
    assert!(!rc.retired());
    assert!(rc.retired());
    assert!(rc.idle_pauses());
    let mut free = RunControl::new(&DebugOptions { trace: false, break_addr: None, step_count: None });
    let mut services = 0;
    for _ in 0..2000 {
        if free.checkpoint(0, false) == Checkpoint::Service {
            services += 1;
        }
    }
    assert_eq!(services, 2);
    assert!(!free.idle_pauses());
}

#[test]
fn idle_sleep_is_capped() {
    assert_eq!(idle_sleep(None), 4_000_000);
    assert_eq!(idle_sleep(Some(1_000)), 1_000);
    assert_eq!(idle_sleep(Some(9_000_000)), 4_000_000);
}

#[test]
fn opcode_encodings_round_trip() {
    for v in 0u8..64 {
        if let Ok(op) = Opcode::try_from(v) {
            assert_eq!(op.code(), v);
        }
    }
    assert_eq!(Opcode::try_from(0x3F), Ok(Opcode::Halt));
    assert_eq!(Opcode::try_from(0x22), Err(0x22));
}

#[test]
fn mnemonic_is_unknown_exactly_when_decoding_fails() {
    for code in 0u8..=255 {
        let name = mnemonic(code);
        assert_eq!(name == "UNKNOWN", Opcode::try_from(code).is_err(), "encoding {:#x}", code);
    }
    assert_eq!(mnemonic(0x1B), "CALL");
    assert_eq!(mnemonic(0x18), "MOVIS");
    assert_eq!(mnemonic(0x3E), "SYSCALL");
    assert_eq!(mnemonic(0x00), "UNKNOWN");
}

#[test]
fn instructions_are_fetched_from_physical_memory() {
    // Paging is on but the page directory maps nothing: data accesses would
    // fault, yet the instruction at PC is read straight from the bus.
    let mut m = Machine::new(false);
    m.load_program(&[MOVI_R1_5, HALT], 0);
    m.bus_write(myemu::constants::MMU_CTRL_ADDR, 1);
    assert_eq!(
        m.step(),
        Ok(StepOutcome::Retired { pc: 0, instruction: MOVI_R1_5, debug_dump: false })
    );
    assert_eq!(m.get_data_register(1), Ok(5));
    assert_eq!(m.program_counter, 4);
}
