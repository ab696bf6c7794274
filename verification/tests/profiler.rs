use myemu::machine::profiler::{rank, FuncStats, Profiler};
use myemu::machine::Machine;

const CALL_PLUS_8: u32 = 0x6C00_0008;
const HALT: u32 = 0xFC00_0000;
const MOV_PC_LR: u32 = 0x050C_0000;

#[test]
fn call_and_return_build_the_call_graph() {
    let mut m = Machine::new(false);
    m.load_program(&[CALL_PLUS_8, HALT, MOV_PC_LR], 0);
    m.enable_profiler(0);
    for _ in 0..3 {
        m.step().unwrap();
    }
    assert!(m.is_halted());
    let mut p = m.take_profiler().expect("profiler attached");
    assert!(m.take_profiler().is_none());
    p.flush_stack();
    assert_eq!(p.total_instructions(), 3);
    assert_eq!(p.root_entry(), 0);
    assert_eq!(p.hotspots(), vec![(0, 1), (4, 1), (8, 1)]);
    assert_eq!(p.call_edges(), vec![((0u64 << 32) | 8, 1)]);
    assert_eq!(
        p.functions(),
        vec![
            (0, FuncStats { self_count: 2, inclusive_count: 3, call_count: 1 }),
            (8, FuncStats { self_count: 1, inclusive_count: 1, call_count: 1 }),
        ]
    );
    assert_eq!(p.opcode_counts(), vec![(0x01, 1), (0x1B, 1), (0x3F, 1)]);
}

#[test]
fn memory_accesses_are_bucketed_by_page() {
    let mut p = Profiler::new(0);
    p.record_mem_read(0x1234);
    p.record_mem_read(0x1FFF);
    p.record_mem_read(0x5000);
    p.record_mem_write(0x10);
    assert_eq!(p.read_pages(), vec![(0x1000, 2), (0x5000, 1)]);
    assert_eq!(p.write_pages(), vec![(0, 1)]);
}

#[test]
fn only_the_root_frame_survives_unmatched_returns() {
    let mut p = Profiler::new(0x100);
    p.record_call(0x200, 0x104);
    p.record_call(0x300, 0x204);
    p.record_instruction(0x300, 0x05);
    // A jump to the outer return address unwinds both frames, not the root.
    p.record_control_flow(0x204);
    p.record_control_flow(0x104);
    p.record_control_flow(u32::MAX);
    p.flush_stack();
    let f = p.functions();
    assert_eq!(f.len(), 3);
    assert_eq!(f[0], (0x300, FuncStats { self_count: 1, inclusive_count: 1, call_count: 1 }));
}

#[test]
fn ranking_orders_by_count_then_key() {
    let v = vec![(5, 1), (2, 9), (1, 1), (7, 9)];
    assert_eq!(rank(&v), vec![(2, 9), (7, 9), (1, 1), (5, 1)]);
}

#[test]
fn profile_json_lists_every_table() {
    let mut p = Profiler::new(0x10);
    p.record_instruction(0x10, 0x1B);
    p.record_call(0x40, 0x14);
    p.record_mem_write(0x2345);
    let text = p.report_json();
    let expected = "{\n  \"total_instructions\": 1,\n  \"root_entry\": 16,\n  \"pc_hits\": [\n    {\"pc\": 16, \"hits\": 1}\n  ],\n  \"opcode_hits\": [\n    {\"opcode\": 27, \"mnemonic\": \"CALL\", \"count\": 1}\n  ],\n  \"mem_reads\": [\n  ],\n  \"mem_writes\": [\n    {\"page\": 8192, \"count\": 1}\n  ],\n  \"functions\": [\n    {\"entry\": 16, \"self\": 1, \"inclusive\": 1, \"calls\": 1},\n    {\"entry\": 64, \"self\": 0, \"inclusive\": 0, \"calls\": 1}\n  ],\n  \"edges\": [\n    {\"caller\": 16, \"callee\": 64, \"count\": 1}\n  ]\n}\n";
    assert_eq!(text, expected);
}
