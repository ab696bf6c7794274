// The profile as a JSON document: totals, then every table in report order
// (most frequent first, ties by key), one object per line.
use vstd::prelude::*;
use vstd::string::StringExecFns;

use crate::instruction::{mnemonic, mnemonic_text};
use crate::machine::profiler::{
    ranked, ranks_before, tallies, tallies_wide, FuncStats, Profiler, ProfilerState,
};
use crate::text::{decimal, push_numeral};

verus! {

/// Two listings in report order of the same tallies are the same listing:
/// the order is decided by the counts and keys alone.
pub proof fn lemma_ranked_listing_is_unique(a: Seq<(u64, u64)>, b: Seq<(u64, u64)>)
    requires
        ranked(a),
        ranked(b),
        forall|e: (u64, u64)| a.contains(e) <==> b.contains(e),
    ensures
        a == b,
    decreases a.len(),
{
    if a.len() == 0 {
        if b.len() > 0 {
            assert(b.contains(b[0]));
        }
        assert(a =~= b);
    } else {
        assert(a.contains(a[0]));
        let j = choose|j: int| 0 <= j < b.len() && b[j] == a[0];
        assert(b.contains(b[0]));
        let i = choose|i: int| 0 <= i < a.len() && a[i] == b[0];
        if j > 0 {
            assert(ranks_before(b[0], b[j]));
            if i > 0 {
                assert(ranks_before(a[0], a[i]));
            }
        }
        let ra = a.drop_first();
        let rb = b.drop_first();
        assert forall|e: (u64, u64)| ra.contains(e) <==> rb.contains(e) by {
            if ra.contains(e) {
                let k = choose|k: int| 0 <= k < ra.len() && ra[k] == e;
                assert(a[k + 1] == e);
                assert(ranks_before(a[0], a[k + 1]));
                assert(a.contains(e));
                let m = choose|m: int| 0 <= m < b.len() && b[m] == e;
                assert(m != 0);
                assert(rb[m - 1] == e);
            }
            if rb.contains(e) {
                let k = choose|k: int| 0 <= k < rb.len() && rb[k] == e;
                assert(b[k + 1] == e);
                assert(ranks_before(b[0], b[k + 1]));
                assert(b.contains(e));
                let m = choose|m: int| 0 <= m < a.len() && a[m] == e;
                assert(m != 0);
                assert(ra[m - 1] == e);
            }
        }
        lemma_ranked_listing_is_unique(ra, rb);
        assert(a =~= seq![a[0]] + ra);
        assert(b =~= seq![b[0]] + rb);
    }
}

/// The first `k` items of a JSON array body, one per line, separated by
/// commas.
pub open spec fn json_prefix(lines: Seq<Seq<char>>, k: nat) -> Seq<char>
    decreases k,
{
    if k == 0 {
        Seq::empty()
    } else {
        json_prefix(lines, (k - 1) as nat) + lines[k - 1] + if k == lines.len() {
            "\n"@
        } else {
            ",\n"@
        }
    }
}

/// A JSON array body holding `lines`.
pub open spec fn json_items(lines: Seq<Seq<char>>) -> Seq<char> {
    json_prefix(lines, lines.len())
}

pub open spec fn hit_line(t: (u64, u64)) -> Seq<char> {
    "    {\"pc\": "@ + decimal(t.0 as nat) + ", \"hits\": "@ + decimal(t.1 as nat) + "}"@
}

pub open spec fn opcode_line(t: (u64, u64)) -> Seq<char> {
    "    {\"opcode\": "@ + decimal(t.0 as nat) + ", \"mnemonic\": \""@ + mnemonic_text(t.0 as u8)
        + "\", \"count\": "@ + decimal(t.1 as nat) + "}"@
}

pub open spec fn page_line(t: (u64, u64)) -> Seq<char> {
    "    {\"page\": "@ + decimal(t.0 as nat) + ", \"count\": "@ + decimal(t.1 as nat) + "}"@
}

pub open spec fn function_line(t: (u32, FuncStats)) -> Seq<char> {
    "    {\"entry\": "@ + decimal(t.0 as nat) + ", \"self\": "@ + decimal(t.1.self_count as nat)
        + ", \"inclusive\": "@ + decimal(t.1.inclusive_count as nat) + ", \"calls\": "@ + decimal(
        t.1.call_count as nat,
    ) + "}"@
}

pub open spec fn edge_line(t: (u64, u64)) -> Seq<char> {
    "    {\"caller\": "@ + decimal((t.0 / 0x1_0000_0000) as nat) + ", \"callee\": "@ + decimal(
        (t.0 % 0x1_0000_0000) as nat,
    ) + ", \"count\": "@ + decimal(t.1 as nat) + "}"@
}

/// Whether `s` lists the opcodes that ran, in report order.
pub open spec fn opcode_listing(p: ProfilerState, s: Seq<(u64, u64)>) -> bool {
    &&& ranked(s)
    &&& forall|x: (u64, u64)| #![trigger s.contains(x)]
        s.contains(x) <==> (x.0 < 64 && x.1 != 0 && p.opcode_hits[x.0 as int] == x.1)
}

/// Whether `f` lists every function's totals, most self time first.
pub open spec fn function_listing(p: ProfilerState, f: Seq<(u32, FuncStats)>) -> bool {
    &&& f.len() == p.func_stats.dom().len()
    &&& forall|i: int| 0 <= i < f.len() ==> #[trigger] p.func_stats.contains_key(f[i].0)
        && p.func_stats[f[i].0] == f[i].1
    &&& forall|i: int, j: int| 0 <= i < j < f.len() ==> ranks_before(
        (f[i].0 as u64, f[i].1.self_count),
        (f[j].0 as u64, f[j].1.self_count),
    )
}

/// Whether the tables are those of `p`, each in report order.
pub open spec fn profile_listing(
    p: ProfilerState,
    hot: Seq<(u64, u64)>,
    ops: Seq<(u64, u64)>,
    reads: Seq<(u64, u64)>,
    writes: Seq<(u64, u64)>,
    funcs: Seq<(u32, FuncStats)>,
    edges: Seq<(u64, u64)>,
) -> bool {
    &&& ranked(hot) && tallies(p.pc_hits, hot)
    &&& opcode_listing(p, ops)
    &&& ranked(reads) && tallies(p.mem_reads, reads)
    &&& ranked(writes) && tallies(p.mem_writes, writes)
    &&& function_listing(p, funcs)
    &&& ranked(edges) && tallies_wide(p.edges, edges)
}

/// The JSON document of a profile with the given totals and tables.
pub open spec fn profile_json_text(
    total: u64,
    root: u32,
    hot: Seq<(u64, u64)>,
    ops: Seq<(u64, u64)>,
    reads: Seq<(u64, u64)>,
    writes: Seq<(u64, u64)>,
    funcs: Seq<(u32, FuncStats)>,
    edges: Seq<(u64, u64)>,
) -> Seq<char> {
    "{\n"@ + "  \"total_instructions\": "@ + decimal(total as nat) + ",\n"@ + "  \"root_entry\": "@
        + decimal(root as nat) + ",\n"@ + "  \"pc_hits\": [\n"@ + json_items(
        hot.map_values(|t: (u64, u64)| hit_line(t)),
    ) + "  ],\n"@ + "  \"opcode_hits\": [\n"@ + json_items(
        ops.map_values(|t: (u64, u64)| opcode_line(t)),
    ) + "  ],\n"@ + "  \"mem_reads\": [\n"@ + json_items(
        reads.map_values(|t: (u64, u64)| page_line(t)),
    ) + "  ],\n"@ + "  \"mem_writes\": [\n"@ + json_items(
        writes.map_values(|t: (u64, u64)| page_line(t)),
    ) + "  ],\n"@ + "  \"functions\": [\n"@ + json_items(
        funcs.map_values(|t: (u32, FuncStats)| function_line(t)),
    ) + "  ],\n"@ + "  \"edges\": [\n"@ + json_items(
        edges.map_values(|t: (u64, u64)| edge_line(t)),
    ) + "  ]\n"@ + "}\n"@
}

/// The text of each string.
pub open spec fn texts_of(v: Seq<String>) -> Seq<Seq<char>> {
    v.map_values(|s: String| s@)
}

fn push_dec(out: &mut String, n: u64)
    ensures
        final(out)@ == old(out)@ + decimal(n as nat),
{
    push_numeral(out, n, 10, 0, false);
}

fn hit_line_text(t: (u64, u64)) -> (r: String)
    ensures
        r@ == hit_line(t),
{
    let mut s = String::from_str("    {\"pc\": ");
    push_dec(&mut s, t.0);
    s.append(", \"hits\": ");
    push_dec(&mut s, t.1);
    s.append("}");
    s
}

fn opcode_line_text(t: (u64, u64)) -> (r: String)
    ensures
        r@ == opcode_line(t),
{
    let mut s = String::from_str("    {\"opcode\": ");
    push_dec(&mut s, t.0);
    s.append(", \"mnemonic\": \"");
    s.append(mnemonic(t.0 as u8));
    s.append("\", \"count\": ");
    push_dec(&mut s, t.1);
    s.append("}");
    s
}

fn page_line_text(t: (u64, u64)) -> (r: String)
    ensures
        r@ == page_line(t),
{
    let mut s = String::from_str("    {\"page\": ");
    push_dec(&mut s, t.0);
    s.append(", \"count\": ");
    push_dec(&mut s, t.1);
    s.append("}");
    s
}

fn function_line_text(t: (u32, FuncStats)) -> (r: String)
    ensures
        r@ == function_line(t),
{
    let mut s = String::from_str("    {\"entry\": ");
    push_dec(&mut s, t.0 as u64);
    s.append(", \"self\": ");
    push_dec(&mut s, t.1.self_count);
    s.append(", \"inclusive\": ");
    push_dec(&mut s, t.1.inclusive_count);
    s.append(", \"calls\": ");
    push_dec(&mut s, t.1.call_count);
    s.append("}");
    s
}

fn edge_line_text(t: (u64, u64)) -> (r: String)
    ensures
        r@ == edge_line(t),
{
    let mut s = String::from_str("    {\"caller\": ");
    push_dec(&mut s, t.0 / 0x1_0000_0000);
    s.append(", \"callee\": ");
    push_dec(&mut s, t.0 % 0x1_0000_0000);
    s.append(", \"count\": ");
    push_dec(&mut s, t.1);
    s.append("}");
    s
}

/// Appends the array body holding `lines`.
fn push_items(out: &mut String, lines: &Vec<String>)
    ensures
        final(out)@ == old(out)@ + json_items(texts_of(lines@)),
{
    let ghost ls = texts_of(lines@);
    let n = lines.len();
    let mut i: usize = 0;
    while i < n
        invariant
            i <= n,
            n == lines@.len(),
            ls == texts_of(lines@),
            out@ == old(out)@ + json_prefix(ls, i as nat),
        decreases n - i,
    {
        out.append(lines[i].as_str());
        if i + 1 == n {
            out.append("\n");
        } else {
            out.append(",\n");
        }
        i = i + 1;
        assert(out@ =~= old(out)@ + json_prefix(ls, i as nat));
    }
}

fn hit_lines(v: &Vec<(u64, u64)>) -> (r: Vec<String>)
    ensures
        texts_of(r@) == v@.map_values(|t: (u64, u64)| hit_line(t)),
{
    let mut r: Vec<String> = Vec::new();
    let mut i: usize = 0;
    while i < v.len()
        invariant
            i <= v@.len(),
            r@.len() == i,
            forall|k: int| 0 <= k < i ==> #[trigger] r@[k]@ == hit_line(v@[k]),
        decreases v@.len() - i,
    {
        r.push(hit_line_text(v[i]));
        i = i + 1;
    }
    assert(texts_of(r@) =~= v@.map_values(|t: (u64, u64)| hit_line(t)));
    r
}

fn opcode_lines(v: &Vec<(u64, u64)>) -> (r: Vec<String>)
    ensures
        texts_of(r@) == v@.map_values(|t: (u64, u64)| opcode_line(t)),
{
    let mut r: Vec<String> = Vec::new();
    let mut i: usize = 0;
    while i < v.len()
        invariant
            i <= v@.len(),
            r@.len() == i,
            forall|k: int| 0 <= k < i ==> #[trigger] r@[k]@ == opcode_line(v@[k]),
        decreases v@.len() - i,
    {
        r.push(opcode_line_text(v[i]));
        i = i + 1;
    }
    assert(texts_of(r@) =~= v@.map_values(|t: (u64, u64)| opcode_line(t)));
    r
}

fn page_lines(v: &Vec<(u64, u64)>) -> (r: Vec<String>)
    ensures
        texts_of(r@) == v@.map_values(|t: (u64, u64)| page_line(t)),
{
    let mut r: Vec<String> = Vec::new();
    let mut i: usize = 0;
    while i < v.len()
        invariant
            i <= v@.len(),
            r@.len() == i,
            forall|k: int| 0 <= k < i ==> #[trigger] r@[k]@ == page_line(v@[k]),
        decreases v@.len() - i,
    {
        r.push(page_line_text(v[i]));
        i = i + 1;
    }
    assert(texts_of(r@) =~= v@.map_values(|t: (u64, u64)| page_line(t)));
    r
}

fn function_lines(v: &Vec<(u32, FuncStats)>) -> (r: Vec<String>)
    ensures
        texts_of(r@) == v@.map_values(|t: (u32, FuncStats)| function_line(t)),
{
    let mut r: Vec<String> = Vec::new();
    let mut i: usize = 0;
    while i < v.len()
        invariant
            i <= v@.len(),
            r@.len() == i,
            forall|k: int| 0 <= k < i ==> #[trigger] r@[k]@ == function_line(v@[k]),
        decreases v@.len() - i,
    {
        r.push(function_line_text(v[i]));
        i = i + 1;
    }
    assert(texts_of(r@) =~= v@.map_values(|t: (u32, FuncStats)| function_line(t)));
    r
}

fn edge_lines(v: &Vec<(u64, u64)>) -> (r: Vec<String>)
    ensures
        texts_of(r@) == v@.map_values(|t: (u64, u64)| edge_line(t)),
{
    let mut r: Vec<String> = Vec::new();
    let mut i: usize = 0;
    while i < v.len()
        invariant
            i <= v@.len(),
            r@.len() == i,
            forall|k: int| 0 <= k < i ==> #[trigger] r@[k]@ == edge_line(v@[k]),
        decreases v@.len() - i,
    {
        r.push(edge_line_text(v[i]));
        i = i + 1;
    }
    assert(texts_of(r@) =~= v@.map_values(|t: (u64, u64)| edge_line(t)));
    r
}

impl Profiler {
    /// Folds the frames still on the stack into the totals and renders the
    /// profile as JSON (see `profile_json_text`); each table is in report
    /// order, which `lemma_ranked_listing_is_unique` shows is determined.
    pub fn report_json(&mut self) -> (r: String)
        requires
            old(self).wf(),
        ensures
            final(self).wf(),
            final(self)@ == old(self)@.flushed(),
            exists|
                hot: Seq<(u64, u64)>,
                ops: Seq<(u64, u64)>,
                reads: Seq<(u64, u64)>,
                writes: Seq<(u64, u64)>,
                funcs: Seq<(u32, FuncStats)>,
                edges: Seq<(u64, u64)>,
            |
                #[trigger] profile_listing(final(self)@, hot, ops, reads, writes, funcs, edges)
                    && r@ == profile_json_text(
                    final(self)@.total,
                    final(self)@.root_entry,
                    hot,
                    ops,
                    reads,
                    writes,
                    funcs,
                    edges,
                ),
    {
        self.flush_stack();
        let hot = self.hotspots();
        let ops = self.opcode_counts();
        let reads = self.read_pages();
        let writes = self.write_pages();
        let funcs = self.functions();
        let edges = self.call_edges();
        let mut out = String::from_str("{\n");
        out.append("  \"total_instructions\": ");
        push_dec(&mut out, self.total_instructions());
        out.append(",\n");
        out.append("  \"root_entry\": ");
        push_dec(&mut out, self.root_entry() as u64);
        out.append(",\n");
        out.append("  \"pc_hits\": [\n");
        push_items(&mut out, &hit_lines(&hot));
        out.append("  ],\n");
        out.append("  \"opcode_hits\": [\n");
        push_items(&mut out, &opcode_lines(&ops));
        out.append("  ],\n");
        out.append("  \"mem_reads\": [\n");
        push_items(&mut out, &page_lines(&reads));
        out.append("  ],\n");
        out.append("  \"mem_writes\": [\n");
        push_items(&mut out, &page_lines(&writes));
        out.append("  ],\n");
        out.append("  \"functions\": [\n");
        push_items(&mut out, &function_lines(&funcs));
        out.append("  ],\n");
        out.append("  \"edges\": [\n");
        push_items(&mut out, &edge_lines(&edges));
        out.append("  ]\n");
        out.append("}\n");
        assert(profile_listing(self@, hot@, ops@, reads@, writes@, funcs@, edges@));
        assert(out@ =~= profile_json_text(
            self@.total,
            self@.root_entry,
            hot@,
            ops@,
            reads@,
            writes@,
            funcs@,
            edges@,
        ));
        out
    }
}

} // verus!
