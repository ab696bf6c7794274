// Guest profiler: hotspots per PC, an opcode histogram, a memory heatmap by
// page, and a call graph built from CALL instructions and the returns that
// land on a frame's return address. All counters wrap at 2^64.
use vstd::prelude::*;

use std::collections::HashMap;
use vstd::std_specs::hash::spec_hash_map_iter;
use vstd::std_specs::iter::IteratorSpec;

use crate::instruction::decoded;

verus! {

/// Memory accesses are bucketed into 4 KiB pages.
pub const MEM_PAGE_SIZE: u32 = 4096;

/// One frame on the guest call stack, pushed when a CALL executes.
#[derive(Clone, Copy, Debug, PartialEq, Eq, Structural)]
pub struct CallFrame {
    /// Entry PC of the function running in this frame.
    pub func_entry: u32,
    /// Where the function returns to; control landing here pops the frame.
    pub return_addr: u32,
    /// Instructions retired while this frame was on top.
    pub self_count: u64,
    /// Instructions retired while this frame was anywhere on the stack.
    pub inclusive_count: u64,
}

/// Per-function totals over every activation.
#[derive(Clone, Copy, Debug, PartialEq, Eq, Structural)]
pub struct FuncStats {
    pub self_count: u64,
    pub inclusive_count: u64,
    pub call_count: u64,
}

pub struct Profiler {
    total_instructions: u64,
    pc_hits: HashMap<u32, u64>,
    opcode_hits: Vec<u64>,
    mem_reads: HashMap<u32, u64>,
    mem_writes: HashMap<u32, u64>,
    call_stack: Vec<CallFrame>,
    func_stats: HashMap<u32, FuncStats>,
    /// Calls along each edge, keyed by `edge_key(caller, callee)`.
    edges: HashMap<u64, u64>,
    root_entry: u32,
}

/// What a profiler has recorded.
pub struct ProfilerState {
    pub total: u64,
    pub pc_hits: Map<u32, u64>,
    /// 64 counters, one per opcode.
    pub opcode_hits: Seq<u64>,
    pub mem_reads: Map<u32, u64>,
    pub mem_writes: Map<u32, u64>,
    pub stack: Seq<CallFrame>,
    pub func_stats: Map<u32, FuncStats>,
    pub edges: Map<u64, u64>,
    pub root_entry: u32,
}

/// `a + b` modulo 2^64.
pub open spec fn wrap_add(a: u64, b: u64) -> u64 {
    if a + b > u64::MAX {
        (a + b - 0x1_0000_0000_0000_0000) as u64
    } else {
        (a + b) as u64
    }
}

/// The count a counter map holds for `k` (0 when absent).
pub open spec fn count_of(m: Map<u32, u64>, k: u32) -> u64 {
    if m.contains_key(k) {
        m[k]
    } else {
        0
    }
}

/// `m` with the counter for `k` incremented.
pub open spec fn bumped(m: Map<u32, u64>, k: u32) -> Map<u32, u64> {
    m.insert(k, wrap_add(count_of(m, k), 1))
}

/// The page an address falls in.
pub open spec fn page_of(address: u32) -> u32 {
    (address - address % 4096) as u32
}

/// The key under which the edge `caller -> callee` is counted.
pub open spec fn edge_key(caller: u32, callee: u32) -> u64 {
    (caller * 0x1_0000_0000 + callee) as u64
}

/// The totals of a function, zero when it was never seen.
pub open spec fn stats_of(m: Map<u32, FuncStats>, entry: u32) -> FuncStats {
    if m.contains_key(entry) {
        m[entry]
    } else {
        FuncStats { self_count: 0, inclusive_count: 0, call_count: 0 }
    }
}

/// The stack after one more retired instruction: the top frame gains a
/// self count and every frame an inclusive count.
pub open spec fn charged(stack: Seq<CallFrame>) -> Seq<CallFrame> {
    Seq::new(
        stack.len(),
        |i: int|
            CallFrame {
                self_count: if i == stack.len() - 1 {
                    wrap_add(stack[i].self_count, 1)
                } else {
                    stack[i].self_count
                },
                inclusive_count: wrap_add(stack[i].inclusive_count, 1),
                ..stack[i]
            },
    )
}

impl ProfilerState {
    pub open spec fn wf(self) -> bool {
        self.opcode_hits.len() == 64
    }

    /// A fresh profiler for a program entered at `entry`: the root frame is
    /// on the stack and counted as one call.
    pub open spec fn started(entry: u32) -> ProfilerState {
        ProfilerState {
            total: 0,
            pc_hits: Map::empty(),
            opcode_hits: Seq::new(64, |i: int| 0u64),
            mem_reads: Map::empty(),
            mem_writes: Map::empty(),
            stack: seq![
                CallFrame {
                    func_entry: entry,
                    return_addr: u32::MAX,
                    self_count: 0,
                    inclusive_count: 0,
                },
            ],
            func_stats: map![entry => FuncStats { self_count: 0, inclusive_count: 0, call_count: 1 }],
            edges: Map::empty(),
            root_entry: entry,
        }
    }

    /// After an instruction at `pc` with opcode `opcode` retired.
    pub open spec fn instruction_recorded(self, pc: u32, opcode: u8) -> ProfilerState {
        let op = opcode as int % 64;
        ProfilerState {
            total: wrap_add(self.total, 1),
            pc_hits: bumped(self.pc_hits, pc),
            opcode_hits: self.opcode_hits.update(op, wrap_add(self.opcode_hits[op], 1)),
            stack: charged(self.stack),
            ..self
        }
    }

    /// The entry of the function currently running.
    pub open spec fn current_entry(self) -> u32 {
        if self.stack.len() > 0 {
            self.stack.last().func_entry
        } else {
            self.root_entry
        }
    }

    /// After a CALL to `callee` that returns to `return_addr`.
    pub open spec fn call_recorded(self, callee: u32, return_addr: u32) -> ProfilerState {
        let s = stats_of(self.func_stats, callee);
        let key = edge_key(self.current_entry(), callee);
        ProfilerState {
            stack: self.stack.push(
                CallFrame {
                    func_entry: callee,
                    return_addr,
                    self_count: 0,
                    inclusive_count: 0,
                },
            ),
            func_stats: self.func_stats.insert(
                callee,
                FuncStats { call_count: wrap_add(s.call_count, 1), ..s },
            ),
            edges: self.edges.insert(
                key,
                wrap_add(
                    if self.edges.contains_key(key) {
                        self.edges[key]
                    } else {
                        0
                    },
                    1,
                ),
            ),
            ..self
        }
    }

    /// After the top frame returned: its counts are folded into its
    /// function's totals.
    pub open spec fn popped(self) -> ProfilerState {
        if self.stack.len() == 0 {
            self
        } else {
            let f = self.stack.last();
            let s = stats_of(self.func_stats, f.func_entry);
            ProfilerState {
                stack: self.stack.drop_last(),
                func_stats: self.func_stats.insert(
                    f.func_entry,
                    FuncStats {
                        self_count: wrap_add(s.self_count, f.self_count),
                        inclusive_count: wrap_add(s.inclusive_count, f.inclusive_count),
                        call_count: s.call_count,
                    },
                ),
                ..self
            }
        }
    }

    /// After control landed on `pc` other than by a CALL: every frame on top
    /// whose return address is `pc` returns, but the root frame stays.
    pub open spec fn flow_recorded(self, pc: u32) -> ProfilerState
        decreases self.stack.len(),
    {
        if self.stack.len() > 1 && self.stack.last().return_addr == pc {
            self.popped().flow_recorded(pc)
        } else {
            self
        }
    }

    /// After the instruction word `instruction` fetched from `pc` retired,
    /// leaving the PC at `landed` and LR at `lr`: a CALL pushes a frame,
    /// anything else may return from frames.
    pub open spec fn retired(self, pc: u32, instruction: u32, landed: u32, lr: u32) -> ProfilerState {
        let op = decoded(instruction).opcode;
        let p = self.instruction_recorded(pc, op);
        if op == 0x1B {
            p.call_recorded(landed, lr)
        } else {
            p.flow_recorded(landed)
        }
    }

    /// After every frame still on the stack was folded into the totals.
    pub open spec fn flushed(self) -> ProfilerState
        decreases self.stack.len(),
    {
        if self.stack.len() == 0 {
            self
        } else {
            self.popped().flushed()
        }
    }
}

impl View for Profiler {
    type V = ProfilerState;

    closed spec fn view(&self) -> ProfilerState {
        ProfilerState {
            total: self.total_instructions,
            pc_hits: self.pc_hits@,
            opcode_hits: self.opcode_hits@,
            mem_reads: self.mem_reads@,
            mem_writes: self.mem_writes@,
            stack: self.call_stack@,
            func_stats: self.func_stats@,
            edges: self.edges@,
            root_entry: self.root_entry,
        }
    }
}

/// Increments the counter for `k`.
fn bump(m: &mut HashMap<u32, u64>, k: u32)
    ensures
        final(m)@ == bumped(old(m)@, k),
{
    let c: u64 = match m.get(&k) {
        Some(v) => *v,
        None => 0,
    };
    m.insert(k, c.wrapping_add(1));
}

/// The entries of a counter map, in the order the map walks them.
fn counter_entries<K: Copy + Eq + std::hash::Hash, V: Copy>(m: &HashMap<K, V>) -> (r: Vec<(K, V)>)
    requires
        vstd::std_specs::hash::obeys_key_model::<K>(),
    ensures
        r@.len() == m@.dom().len(),
        forall|i: int, j: int| 0 <= i < j < r@.len() ==> r@[i].0 != r@[j].0,
        forall|i: int| 0 <= i < r@.len() ==> #[trigger] m@.contains_key(r@[i].0) && m@[r@[i].0] == r@[i].1,
        forall|k: K| #[trigger] m@.contains_key(k) ==> r@.contains((k, m@[k])),
{
    let mut out: Vec<(K, V)> = Vec::new();
    for kv in it: m.iter()
        invariant
            out@.len() == it.index(),
            forall|i: int| 0 <= i < it.index() ==> out@[i] == (*it.seq()[i].0, *it.seq()[i].1),
    {
        let (k, v) = kv;
        out.push((*k, *v));
    }
    assert forall|i: int, j: int| 0 <= i < j < out@.len() implies out@[i].0 != out@[j].0 by {
        let v = spec_hash_map_iter(m).remaining();
        assert(v.no_duplicates());
        assert(m@.contains_key(out@[i].0) && m@.contains_key(out@[j].0));
        if out@[i].0 == out@[j].0 {
            assert(v[i] == v[j]);
        }
    }
    assert forall|k: K| #[trigger] m@.contains_key(k) implies out@.contains((k, m@[k])) by {
        let v = spec_hash_map_iter(m).remaining();
        assert(v.contains((&k, &m@[k])));
        let j = choose|j: int| 0 <= j < v.len() && v[j] == (&k, &m@[k]);
        assert(out@[j] == (k, m@[k]));
    }
    out
}

/// Whether tally `a` is listed before `b`: higher counts first, ties by key.
pub open spec fn ranks_before(a: (u64, u64), b: (u64, u64)) -> bool {
    a.1 > b.1 || (a.1 == b.1 && a.0 < b.0)
}

/// Whether a list of (key, count) tallies is in report order.
pub open spec fn ranked(s: Seq<(u64, u64)>) -> bool {
    forall|i: int, j: int| 0 <= i < j < s.len() ==> ranks_before(s[i], s[j])
}

/// Whether no two tallies share a key.
pub open spec fn distinct_keys(s: Seq<(u64, u64)>) -> bool {
    forall|i: int, j: int| 0 <= i < j < s.len() ==> s[i].0 != s[j].0
}

/// Puts tallies with distinct keys in report order.
pub fn rank(v: &Vec<(u64, u64)>) -> (r: Vec<(u64, u64)>)
    requires
        distinct_keys(v@),
    ensures
        ranked(r@),
        r@.len() == v@.len(),
        forall|e: (u64, u64)| r@.contains(e) <==> v@.contains(e),
{
    let mut out: Vec<(u64, u64)> = Vec::new();
    let mut i: usize = 0;
    while i < v.len()
        invariant
            i <= v@.len(),
            distinct_keys(v@),
            ranked(out@),
            out@.len() == i,
            forall|e: (u64, u64)| out@.contains(e) <==> v@.subrange(0, i as int).contains(e),
        decreases v@.len() - i,
    {
        let x = v[i];
        let mut pos: usize = 0;
        while pos < out.len() && !(x.1 > out[pos].1 || (x.1 == out[pos].1 && x.0 < out[pos].0))
            invariant
                pos <= out@.len(),
                forall|j: int| 0 <= j < pos ==> !ranks_before(x, #[trigger] out@[j]),
            decreases out@.len() - pos,
        {
            pos = pos + 1;
        }
        let ghost old_out = out@;
        assert forall|j: int| 0 <= j < old_out.len() implies old_out[j].0 != x.0 by {
            assert(old_out.contains(old_out[j]));
            assert(v@.subrange(0, i as int).contains(old_out[j]));
            let k = choose|k: int| 0 <= k < i && v@.subrange(0, i as int)[k] == old_out[j];
            assert(v@[k] == old_out[j]);
        }
        out.insert(pos, x);
        assert(out@ == old_out.insert(pos as int, x));
        assert forall|a: int, b: int| 0 <= a < b < out@.len() implies ranks_before(out@[a], out@[b]) by {
            if b < pos {
            } else if a < pos && b == pos {
                assert(!ranks_before(x, old_out[a]));
                assert(old_out[a].0 != x.0);
            } else if a < pos {
                assert(ranks_before(old_out[a], old_out[b - 1]));
            } else if a == pos {
                if pos < old_out.len() {
                    assert(ranks_before(x, old_out[pos as int]));
                    if b - 1 > pos {
                        assert(ranks_before(old_out[pos as int], old_out[b - 1]));
                    }
                }
            } else {
                assert(ranks_before(old_out[a - 1], old_out[b - 1]));
            }
        }
        let ghost pre = v@.subrange(0, i as int);
        let ghost pre1 = v@.subrange(0, i + 1);
        assert forall|e: (u64, u64)| out@.contains(e) <==> pre1.contains(e) by {
            if out@.contains(e) {
                let k = choose|k: int| 0 <= k < out@.len() && out@[k] == e;
                if k == pos {
                    assert(pre1[i as int] == e);
                } else {
                    let k2 = if k < pos { k } else { k - 1 };
                    assert(old_out[k2] == e);
                    assert(old_out.contains(e));
                    let m = choose|m: int| 0 <= m < i && pre[m] == e;
                    assert(pre1[m] == e);
                }
            }
            if pre1.contains(e) {
                let m = choose|m: int| 0 <= m < i + 1 && pre1[m] == e;
                if m == i {
                    assert(out@[pos as int] == e);
                } else {
                    assert(pre[m] == e);
                    assert(old_out.contains(e));
                    let k = choose|k: int| 0 <= k < old_out.len() && old_out[k] == e;
                    if k < pos {
                        assert(out@[k] == e);
                    } else {
                        assert(out@[k + 1] == e);
                    }
                }
            }
        }
        i = i + 1;
    }
    assert(v@.subrange(0, v@.len() as int) =~= v@);
    out
}

/// Whether `s` lists exactly the counters of `m`, each as (key, count).
pub open spec fn tallies(m: Map<u32, u64>, s: Seq<(u64, u64)>) -> bool {
    &&& s.len() == m.dom().len()
    &&& forall|e: (u64, u64)|
        #![trigger s.contains(e)]
        s.contains(e) <==> (e.0 <= u32::MAX && m.contains_key(e.0 as u32) && m[e.0 as u32] == e.1)
}

/// Whether `s` lists exactly the entries of `m`.
pub open spec fn tallies_wide(m: Map<u64, u64>, s: Seq<(u64, u64)>) -> bool {
    &&& s.len() == m.dom().len()
    &&& forall|e: (u64, u64)| #![trigger s.contains(e)] s.contains(e) <==> (m.contains_key(e.0) && m[e.0] == e.1)
}

/// The counters of `m` in report order.
fn ranked_counters(m: &HashMap<u32, u64>) -> (r: Vec<(u64, u64)>)
    ensures
        ranked(r@),
        tallies(m@, r@),
{
    let e = counter_entries(m);
    let mut w: Vec<(u64, u64)> = Vec::new();
    let mut i: usize = 0;
    while i < e.len()
        invariant
            i <= e@.len(),
            w@.len() == i,
            forall|j: int| 0 <= j < i ==> #[trigger] w@[j] == (e@[j].0 as u64, e@[j].1),
        decreases e@.len() - i,
    {
        w.push((e[i].0 as u64, e[i].1));
        i = i + 1;
    }
    assert(distinct_keys(w@));
    let r = rank(&w);
    assert forall|x: (u64, u64)| #![trigger r@.contains(x)]
        r@.contains(x) <==> (x.0 <= u32::MAX && m@.contains_key(x.0 as u32) && m@[x.0 as u32] == x.1) by {
        if w@.contains(x) {
            let j = choose|j: int| 0 <= j < w@.len() && w@[j] == x;
            assert(m@.contains_key(e@[j].0));
        }
        if x.0 <= u32::MAX && m@.contains_key(x.0 as u32) && m@[x.0 as u32] == x.1 {
            let k = x.0 as u32;
            assert(e@.contains((k, m@[k])));
            let j = choose|j: int| 0 <= j < e@.len() && e@[j] == (k, m@[k]);
            assert(w@[j] == x);
        }
    }
    r
}

/// Charges one retired instruction to the frames of `stack`.
fn charge(stack: &mut Vec<CallFrame>)
    ensures
        final(stack)@ == charged(old(stack)@),
{
        let n = stack.len();
        let ghost s0 = stack@;
        let mut i: usize = 0;
        while i < n
            invariant
                i <= n,
                n == s0.len(),
                stack@.len() == n,
                forall|j: int| 0 <= j < i ==> #[trigger] stack@[j] == charged(s0)[j],
                forall|j: int| i <= j < n ==> #[trigger] stack@[j] == s0[j],
            decreases n - i,
        {
            let f = stack[i];
            let self_count = if i + 1 == n {
                f.self_count.wrapping_add(1)
            } else {
                f.self_count
            };
            stack.set(
                i,
                CallFrame {
                    func_entry: f.func_entry,
                    return_addr: f.return_addr,
                    self_count,
                    inclusive_count: f.inclusive_count.wrapping_add(1),
                },
            );
            i = i + 1;
        }
    assert(stack@ =~= charged(s0));
}

impl Profiler {
    pub closed spec fn wf(&self) -> bool {
        self@.wf()
    }

    /// A profiler for a program entered at `entry_pc`.
    pub fn new(entry_pc: u32) -> (r: Self)
        ensures
            r.wf(),
            r@ == ProfilerState::started(entry_pc),
    {
        let mut opcode_hits: Vec<u64> = Vec::new();
        let mut i: usize = 0;
        while i < 64
            invariant
                i <= 64,
                opcode_hits@ == Seq::new(i as nat, |j: int| 0u64),
            decreases 64 - i,
        {
            opcode_hits.push(0);
            i = i + 1;
            assert(opcode_hits@ =~= Seq::new(i as nat, |j: int| 0u64));
        }
        let mut call_stack: Vec<CallFrame> = Vec::new();
        call_stack.push(
            CallFrame { func_entry: entry_pc, return_addr: u32::MAX, self_count: 0, inclusive_count: 0 },
        );
        let mut func_stats: HashMap<u32, FuncStats> = HashMap::new();
        func_stats.insert(entry_pc, FuncStats { self_count: 0, inclusive_count: 0, call_count: 1 });
        let p = Profiler {
            total_instructions: 0,
            pc_hits: HashMap::new(),
            opcode_hits,
            mem_reads: HashMap::new(),
            mem_writes: HashMap::new(),
            call_stack,
            func_stats,
            edges: HashMap::new(),
            root_entry: entry_pc,
        };
        assert(p@.func_stats =~= ProfilerState::started(entry_pc).func_stats);
        assert(p@.stack =~= ProfilerState::started(entry_pc).stack);
        p
    }

    /// Records one retired instruction fetched from `pc`.
    pub fn record_instruction(&mut self, pc: u32, opcode: u8)
        requires
            old(self).wf(),
        ensures
            final(self).wf(),
            final(self)@ == old(self)@.instruction_recorded(pc, opcode),
    {
        self.total_instructions = self.total_instructions.wrapping_add(1);
        bump(&mut self.pc_hits, pc);
        let op = (opcode & 0x3F) as usize;
        assert(op == opcode as int % 64) by (bit_vector)
            requires
                op == (opcode & 0x3F) as usize,
        ;
        let c = self.opcode_hits[op];
        self.opcode_hits.set(op, c.wrapping_add(1));
        charge(&mut self.call_stack);
        assert(self@.opcode_hits =~= old(self)@.instruction_recorded(pc, opcode).opcode_hits);
    }

    /// Records a data read at `address`.
    pub fn record_mem_read(&mut self, address: u32)
        requires
            old(self).wf(),
        ensures
            final(self).wf(),
            final(self)@ == (ProfilerState {
                mem_reads: bumped(old(self)@.mem_reads, page_of(address)),
                ..old(self)@
            }),
    {
        let page = address - address % MEM_PAGE_SIZE;
        bump(&mut self.mem_reads, page);
    }

    /// Records a data write at `address`.
    pub fn record_mem_write(&mut self, address: u32)
        requires
            old(self).wf(),
        ensures
            final(self).wf(),
            final(self)@ == (ProfilerState {
                mem_writes: bumped(old(self)@.mem_writes, page_of(address)),
                ..old(self)@
            }),
    {
        let page = address - address % MEM_PAGE_SIZE;
        bump(&mut self.mem_writes, page);
    }

    /// Records a CALL to `callee_entry` that returns to `return_addr`.
    pub fn record_call(&mut self, callee_entry: u32, return_addr: u32)
        requires
            old(self).wf(),
        ensures
            final(self).wf(),
            final(self)@ == old(self)@.call_recorded(callee_entry, return_addr),
    {
        let caller_entry = match self.call_stack.last() {
            Some(f) => f.func_entry,
            None => self.root_entry,
        };
        self.call_stack.push(
            CallFrame { func_entry: callee_entry, return_addr, self_count: 0, inclusive_count: 0 },
        );
        let s = match self.func_stats.get(&callee_entry) {
            Some(s) => *s,
            None => FuncStats { self_count: 0, inclusive_count: 0, call_count: 0 },
        };
        self.func_stats.insert(
            callee_entry,
            FuncStats {
                self_count: s.self_count,
                inclusive_count: s.inclusive_count,
                call_count: s.call_count.wrapping_add(1),
            },
        );
        assert((caller_entry as u64) * 0x1_0000_0000 + (callee_entry as u64) <= u64::MAX)
            by (nonlinear_arith)
            requires
                caller_entry <= u32::MAX,
                callee_entry <= u32::MAX,
        ;
        let key: u64 = (caller_entry as u64) * 0x1_0000_0000 + (callee_entry as u64);
        let c: u64 = match self.edges.get(&key) {
            Some(v) => *v,
            None => 0,
        };
        self.edges.insert(key, c.wrapping_add(1));
        assert(self@ =~= old(self)@.call_recorded(callee_entry, return_addr));
    }

    /// Folds the top frame into its function's totals.
    fn pop_frame(&mut self)
        requires
            old(self).wf(),
        ensures
            final(self).wf(),
            final(self)@ == old(self)@.popped(),
    {
        match self.call_stack.pop() {
            Some(frame) => {
                let s = match self.func_stats.get(&frame.func_entry) {
                    Some(s) => *s,
                    None => FuncStats { self_count: 0, inclusive_count: 0, call_count: 0 },
                };
                self.func_stats.insert(
                    frame.func_entry,
                    FuncStats {
                        self_count: s.self_count.wrapping_add(frame.self_count),
                        inclusive_count: s.inclusive_count.wrapping_add(frame.inclusive_count),
                        call_count: s.call_count,
                    },
                );
                assert(self@ =~= old(self)@.popped());
            },
            None => {},
        }
    }

    /// Records that control landed on `new_pc` other than by a CALL.
    pub fn record_control_flow(&mut self, new_pc: u32)
        requires
            old(self).wf(),
        ensures
            final(self).wf(),
            final(self)@ == old(self)@.flow_recorded(new_pc),
    {
        let mut done = false;
        while !done && self.call_stack.len() > 1
            invariant
                self.wf(),
                self@.flow_recorded(new_pc) == old(self)@.flow_recorded(new_pc),
                done ==> self@.flow_recorded(new_pc) == self@,
            decreases self.call_stack@.len() + if done { 0int } else { 1int },
        {
            let top_returns = match self.call_stack.last() {
                Some(f) => f.return_addr == new_pc,
                None => false,
            };
            if top_returns {
                self.pop_frame();
            } else {
                done = true;
            }
        }
    }

    /// Instructions retired since the profiler was attached.
    pub fn total_instructions(&self) -> (r: u64)
        ensures
            r == self@.total,
    {
        self.total_instructions
    }

    /// Entry PC of the outermost frame.
    pub fn root_entry(&self) -> (r: u32)
        ensures
            r == self@.root_entry,
    {
        self.root_entry
    }

    /// Hotspots: (pc, hits), most hit first.
    pub fn hotspots(&self) -> (r: Vec<(u64, u64)>)
        ensures
            ranked(r@),
            tallies(self@.pc_hits, r@),
    {
        ranked_counters(&self.pc_hits)
    }

    /// Data reads per page: (page, count), busiest first.
    pub fn read_pages(&self) -> (r: Vec<(u64, u64)>)
        ensures
            ranked(r@),
            tallies(self@.mem_reads, r@),
    {
        ranked_counters(&self.mem_reads)
    }

    /// Data writes per page: (page, count), busiest first.
    pub fn write_pages(&self) -> (r: Vec<(u64, u64)>)
        ensures
            ranked(r@),
            tallies(self@.mem_writes, r@),
    {
        ranked_counters(&self.mem_writes)
    }

    /// Calls per edge: (edge_key(caller, callee), count), busiest first.
    pub fn call_edges(&self) -> (r: Vec<(u64, u64)>)
        ensures
            ranked(r@),
            tallies_wide(self@.edges, r@),
    {
        let e = counter_entries(&self.edges);
        let r = rank(&e);
        assert forall|x: (u64, u64)| #![trigger r@.contains(x)]
            r@.contains(x) <==> (self@.edges.contains_key(x.0) && self@.edges[x.0] == x.1) by {
            if e@.contains(x) {
                let j = choose|j: int| 0 <= j < e@.len() && e@[j] == x;
                assert(self@.edges.contains_key(e@[j].0));
            }
        }
        r
    }

    /// The opcodes that ran: (opcode, count), most frequent first.
    pub fn opcode_counts(&self) -> (r: Vec<(u64, u64)>)
        requires
            self.wf(),
        ensures
            ranked(r@),
            forall|x: (u64, u64)| #![trigger r@.contains(x)]
                r@.contains(x) <==> (x.0 < 64 && x.1 != 0 && self@.opcode_hits[x.0 as int] == x.1),
    {
        let mut w: Vec<(u64, u64)> = Vec::new();
        let mut op: usize = 0;
        while op < 64
            invariant
                op <= 64,
                self.opcode_hits@.len() == 64,
                forall|j: int, k: int| 0 <= j < k < w@.len() ==> w@[j].0 < w@[k].0,
                forall|j: int| 0 <= j < w@.len() ==> w@[j].0 < op,
                forall|x: (u64, u64)| #![trigger w@.contains(x)]
                    w@.contains(x) <==> (x.0 < op && x.1 != 0 && self.opcode_hits@[x.0 as int] == x.1),
            decreases 64 - op,
        {
            let c = self.opcode_hits[op];
            let ghost before = w@;
            if c != 0 {
                w.push((op as u64, c));
                assert forall|x: (u64, u64)| #![trigger w@.contains(x)]
                    w@.contains(x) <==> (x.0 < op + 1 && x.1 != 0 && self.opcode_hits@[x.0 as int] == x.1) by {
                    if w@.contains(x) && x != (op as u64, c) {
                        let j = choose|j: int| 0 <= j < w@.len() && w@[j] == x;
                        assert(before[j] == x);
                        assert(before.contains(x));
                    }
                    if x.0 < op && x.1 != 0 && self.opcode_hits@[x.0 as int] == x.1 {
                        assert(before.contains(x));
                        let j = choose|j: int| 0 <= j < before.len() && before[j] == x;
                        assert(w@[j] == x);
                    }
                    if x.0 == op && x.1 != 0 && self.opcode_hits@[x.0 as int] == x.1 {
                        assert(w@[before.len() as int] == x);
                    }
                }
            } else {
                assert forall|x: (u64, u64)| #![trigger w@.contains(x)]
                    w@.contains(x) <==> (x.0 < op + 1 && x.1 != 0 && self.opcode_hits@[x.0 as int] == x.1) by {
                    if w@.contains(x) {
                        let j = choose|j: int| 0 <= j < w@.len() && w@[j] == x;
                        assert(w@[j].0 < op);
                    }
                }
            }
            op = op + 1;
        }
        assert(distinct_keys(w@));
        rank(&w)
    }

    /// Per-function totals, most self time first (ties by entry).
    pub fn functions(&self) -> (r: Vec<(u32, FuncStats)>)
        ensures
            r@.len() == self@.func_stats.dom().len(),
            forall|i: int| 0 <= i < r@.len() ==> #[trigger] self@.func_stats.contains_key(r@[i].0)
                && self@.func_stats[r@[i].0] == r@[i].1,
            forall|i: int, j: int| 0 <= i < j < r@.len() ==> ranks_before(
                (r@[i].0 as u64, r@[i].1.self_count),
                (r@[j].0 as u64, r@[j].1.self_count),
            ),
    {
        let e = counter_entries(&self.func_stats);
        let mut w: Vec<(u64, u64)> = Vec::new();
        let mut i: usize = 0;
        while i < e.len()
            invariant
                i <= e@.len(),
                w@.len() == i,
                forall|j: int| 0 <= j < i ==> #[trigger] w@[j] == (e@[j].0 as u64, e@[j].1.self_count),
            decreases e@.len() - i,
        {
            w.push((e[i].0 as u64, e[i].1.self_count));
            i = i + 1;
        }
        assert(distinct_keys(w@));
        let order = rank(&w);
        let mut r: Vec<(u32, FuncStats)> = Vec::new();
        let mut k: usize = 0;
        while k < order.len()
            invariant
                k <= order@.len(),
                r@.len() == k,
                order@.len() == w@.len(),
                w@.len() == e@.len(),
                forall|j: int| 0 <= j < w@.len() ==> #[trigger] w@[j] == (e@[j].0 as u64, e@[j].1.self_count),
                forall|j: int| 0 <= j < e@.len() ==> #[trigger] self@.func_stats.contains_key(e@[j].0)
                    && self@.func_stats[e@[j].0] == e@[j].1,
                forall|x: (u64, u64)| order@.contains(x) <==> w@.contains(x),
                forall|j: int| 0 <= j < k ==> #[trigger] r@[j].0 as u64 == order@[j].0 && r@[j].1.self_count
                    == order@[j].1 && self@.func_stats.contains_key(r@[j].0) && self@.func_stats[r@[j].0]
                    == r@[j].1,
            decreases order@.len() - k,
        {
            let x = order[k];
            assert(order@.contains(x));
            let ghost j = choose|j: int| 0 <= j < w@.len() && w@[j] == x;
            let entry = x.0 as u32;
            assert(entry == e@[j].0);
            let stats = match self.func_stats.get(&entry) {
                Some(s) => *s,
                None => FuncStats { self_count: 0, inclusive_count: 0, call_count: 0 },
            };
            assert(self@.func_stats.contains_key(entry));
            assert(self@.func_stats[entry] == stats);
            assert(entry as u64 == x.0);
            r.push((entry, stats));
            assert(r@[k as int] == (entry, stats));
            k = k + 1;
        }
        assert forall|a: int, b: int| 0 <= a < b < r@.len() implies ranks_before(
            (r@[a].0 as u64, r@[a].1.self_count),
            (r@[b].0 as u64, r@[b].1.self_count),
        ) by {
            assert(ranks_before(order@[a], order@[b]));
        }
        r
    }

    /// Folds every frame still on the stack into the totals.
    pub fn flush_stack(&mut self)
        requires
            old(self).wf(),
        ensures
            final(self).wf(),
            final(self)@ == old(self)@.flushed(),
    {
        while self.call_stack.len() > 0
            invariant
                self.wf(),
                self@.flushed() == old(self)@.flushed(),
            decreases self.call_stack@.len(),
        {
            self.pop_frame();
        }
    }
}

/// Control flow never unwinds the root frame: after any landing, the stack
/// is a non-empty prefix of what it was.
pub proof fn lemma_root_frame_survives_returns(p: ProfilerState, pc: u32)
    requires
        p.stack.len() >= 1,
    ensures
        1 <= p.flow_recorded(pc).stack.len() <= p.stack.len(),
        p.flow_recorded(pc).stack == p.stack.subrange(0, p.flow_recorded(pc).stack.len() as int),
    decreases p.stack.len(),
{
    if p.stack.len() > 1 && p.stack.last().return_addr == pc {
        lemma_root_frame_survives_returns(p.popped(), pc);
        let q = p.popped();
        assert(q.stack == p.stack.drop_last());
        assert(q.flow_recorded(pc).stack =~= p.stack.subrange(0, q.flow_recorded(pc).stack.len() as int));
    } else {
        assert(p.stack.subrange(0, p.stack.len() as int) =~= p.stack);
    }
}

/// Flushing leaves no frame on the stack, and never changes the counters
/// other than the per-function totals.
pub proof fn lemma_flush_empties_the_stack(p: ProfilerState)
    ensures
        p.flushed().stack.len() == 0,
        p.flushed().total == p.total,
        p.flushed().pc_hits == p.pc_hits,
        p.flushed().edges == p.edges,
    decreases p.stack.len(),
{
    if p.stack.len() > 0 {
        lemma_flush_empties_the_stack(p.popped());
    }
}

} // verus!
