use vstd::prelude::*;

use crate::bytes::{be_store, be_word, lemma_be_roundtrip, read_be_u32, write_be_u32};
use crate::constants::{PTE_ACCESSED, PTE_DIRTY, PTE_EXEC, PTE_USER, PTE_VALID, PTE_WRITABLE};

verus! {

/// The kind of memory access being translated.
#[derive(Debug, Clone, Copy, PartialEq, Eq, Structural)]
pub enum AccessType {
    Read,
    Write,
    Execute,
}

/// The fault status code reported for an access type.
pub open spec fn access_code(a: AccessType) -> u32 {
    match a {
        AccessType::Read => 0,
        AccessType::Write => 1,
        AccessType::Execute => 2,
    }
}

impl AccessType {
    /// The fault status code of this access type (0 = read, 1 = write, 2 = execute).
    pub fn code(self) -> (r: u32)
        ensures
            r == access_code(self),
    {
        match self {
            AccessType::Read => 0,
            AccessType::Write => 1,
            AccessType::Execute => 2,
        }
    }
}

/// Why a translation failed.
#[derive(Debug, Clone, Copy, PartialEq, Eq, Structural)]
pub enum MmuFault {
    PageFault { vaddr: u32, status: u32 },
    PrivilegeViolation { vaddr: u32 },
}

/// One cached translation: virtual page `vpn` maps to frame address `pfn`
/// with the page table entry bits `flags`; the entry itself sits at byte
/// `pte_addr` of RAM.
#[derive(Clone, Copy)]
pub struct TlbEntry {
    pub vpn: u32,
    pub pfn: u32,
    pub flags: u32,
    pub pte_addr: u64,
    pub valid: bool,
}

pub const TLB_SIZE: usize = 64;

/// Two-level paging unit with a direct-mapped translation cache.
pub struct Mmu {
    pub enabled: bool,
    pub pdbr: u32,
    pub fault_addr: u32,
    pub fault_status: u32,
    pub kernel_sp: u32,
    pub tlb: Vec<TlbEntry>,
}

/// The abstract state of the paging unit.
pub struct MmuState {
    pub enabled: bool,
    pub pdbr: u32,
    pub fault_addr: u32,
    pub fault_status: u32,
    pub kernel_sp: u32,
    pub tlb: Seq<TlbEntry>,
}

impl View for Mmu {
    type V = MmuState;

    open spec fn view(&self) -> MmuState {
        MmuState {
            enabled: self.enabled,
            pdbr: self.pdbr,
            fault_addr: self.fault_addr,
            fault_status: self.fault_status,
            kernel_sp: self.kernel_sp,
            tlb: self.tlb@,
        }
    }
}

/// The cache slot of a virtual page.
pub open spec fn tlb_slot(vpn: u32) -> int {
    (vpn as int) % (TLB_SIZE as int)
}

/// The virtual page number of an address.
pub open spec fn vpn_of(vaddr: u32) -> u32 {
    (vaddr as int / 4096) as u32
}

/// Frame address held by a page table entry.
pub open spec fn frame_of(entry: u32) -> u32 {
    entry & 0xFFFF_F000
}

/// The physical address of `vaddr` inside frame `pfn`.
pub open spec fn in_frame(pfn: u32, vaddr: u32) -> u32 {
    pfn | (vaddr & 0xFFF)
}

impl MmuState {
    /// Every cached entry sits in its page's slot and maps to an aligned frame.
    pub open spec fn tlb_consistent(self) -> bool {
        &&& self.tlb.len() == TLB_SIZE
        &&& forall|i: int|
            0 <= i < TLB_SIZE && (#[trigger] self.tlb[i]).valid ==> tlb_slot(self.tlb[i].vpn) == i
                && self.tlb[i].pfn & 0xFFF == 0
    }

    /// All cached translations are invalid.
    pub open spec fn tlb_empty(self) -> bool {
        &&& self.tlb.len() == TLB_SIZE
        &&& forall|i: int| 0 <= i < TLB_SIZE ==> !(#[trigger] self.tlb[i]).valid
    }

    /// The state with every cached translation invalidated.
    pub open spec fn flushed(self) -> MmuState {
        MmuState {
            tlb: Seq::new(self.tlb.len(), |i: int| TlbEntry { valid: false, ..self.tlb[i] }),
            ..self
        }
    }

    /// The state after a fault was recorded.
    pub open spec fn with_fault(self, fault: MmuFault) -> MmuState {
        match fault {
            MmuFault::PageFault { vaddr, status } => MmuState {
                fault_addr: vaddr,
                fault_status: status,
                ..self
            },
            MmuFault::PrivilegeViolation { vaddr } => MmuState {
                fault_addr: vaddr,
                fault_status: 3,
                ..self
            },
        }
    }
}

/// The fault, if any, that entry bits `flags` raise for an access.
pub open spec fn permission_fault(flags: u32, vaddr: u32, access: AccessType, is_user: bool) -> Option<
    MmuFault,
> {
    if is_user && flags & PTE_USER == 0 {
        Some(MmuFault::PrivilegeViolation { vaddr })
    } else if access == AccessType::Write && flags & PTE_WRITABLE == 0 {
        Some(MmuFault::PageFault { vaddr, status: 1 })
    } else if access == AccessType::Execute && flags & PTE_EXEC == 0 {
        Some(MmuFault::PageFault { vaddr, status: 2 })
    } else {
        None
    }
}

/// Byte address of the page directory entry for `vaddr`.
pub open spec fn pde_address(pdbr: u32, vaddr: u32) -> int {
    pdbr as int + (vaddr as int / 0x40_0000) * 4
}

/// Byte address of the page table entry for `vaddr` under directory entry `pde`.
pub open spec fn pte_address(pde: u32, vaddr: u32) -> int {
    frame_of(pde) as int + ((vaddr as int / 4096) % 1024) * 4
}

/// The two-level table walk over `ram`: the page table entry's address and
/// value when the access is allowed, or the fault it raises.
pub open spec fn walk(ram: Seq<u8>, pdbr: u32, vaddr: u32, access: AccessType, is_user: bool) -> Result<
    (int, u32),
    MmuFault,
> {
    let miss = MmuFault::PageFault { vaddr, status: access_code(access) };
    let pde_addr = pde_address(pdbr, vaddr);
    if pde_addr + 4 > ram.len() {
        Err(miss)
    } else {
        let pde = be_word(ram, pde_addr);
        if pde & PTE_VALID == 0 {
            Err(miss)
        } else if is_user && pde & PTE_USER == 0 {
            Err(MmuFault::PrivilegeViolation { vaddr })
        } else {
            let pte_addr = pte_address(pde, vaddr);
            if pte_addr + 4 > ram.len() {
                Err(miss)
            } else {
                let pte = be_word(ram, pte_addr);
                if pte & PTE_VALID == 0 {
                    Err(miss)
                } else {
                    match permission_fault(pte, vaddr, access, is_user) {
                        Some(f) => Err(f),
                        None => Ok((pte_addr, pte)),
                    }
                }
            }
        }
    }
}

/// A page table entry with its accessed bit set, and its dirty bit too on a write.
pub open spec fn marked(pte: u32, access: AccessType) -> u32 {
    if access == AccessType::Write {
        pte | PTE_ACCESSED | PTE_DIRTY
    } else {
        pte | PTE_ACCESSED
    }
}

/// The outcome of translating `vaddr`: the new paging state, the new RAM
/// contents (entry bits updated by a walk) and the physical address or fault.
pub open spec fn translation(
    m: MmuState,
    ram: Seq<u8>,
    vaddr: u32,
    access: AccessType,
    is_user: bool,
) -> (MmuState, Seq<u8>, Result<u32, MmuFault>) {
    if !m.enabled {
        (m, ram, Ok(vaddr))
    } else {
        let vpn = vpn_of(vaddr);
        let e = m.tlb[tlb_slot(vpn)];
        if e.valid && e.vpn == vpn {
            match permission_fault(e.flags, vaddr, access, is_user) {
                Some(f) => (m.with_fault(f), ram, Err(f)),
                None => if access == AccessType::Write && e.flags & PTE_DIRTY == 0 {
                    // The first write through a cached clean entry marks it dirty,
                    // in the cache and in the page table.
                    let new_flags = e.flags | PTE_DIRTY;
                    let entry = TlbEntry { flags: new_flags, ..e };
                    (
                        MmuState { tlb: m.tlb.update(tlb_slot(vpn), entry), ..m },
                        if e.pte_addr + 4 <= ram.len() {
                            be_store(ram, e.pte_addr as int, new_flags)
                        } else {
                            ram
                        },
                        Ok(in_frame(e.pfn, vaddr)),
                    )
                } else {
                    (m, ram, Ok(in_frame(e.pfn, vaddr)))
                },
            }
        } else {
            match walk(ram, m.pdbr, vaddr, access, is_user) {
                Err(f) => (m.with_fault(f), ram, Err(f)),
                Ok((pte_addr, pte)) => {
                    let new_pte = marked(pte, access);
                    let entry = TlbEntry {
                        vpn,
                        pfn: frame_of(pte),
                        flags: new_pte,
                        pte_addr: pte_addr as u64,
                        valid: true,
                    };
                    (
                        MmuState { tlb: m.tlb.update(tlb_slot(vpn), entry), ..m },
                        be_store(ram, pte_addr, new_pte),
                        Ok(in_frame(frame_of(pte), vaddr)),
                    )
                },
            }
        }
    }
}

impl Mmu {
    /// The cache holds TLB_SIZE slots, each valid entry in its page's slot.
    pub open spec fn wf(&self) -> bool {
        self@.tlb_consistent()
    }

    /// Paging off, no fault recorded, an empty cache.
    pub fn new() -> (r: Self)
        ensures
            r.wf(),
            !r@.enabled,
            r@.pdbr == 0,
            r@.fault_addr == 0,
            r@.fault_status == 0,
            r@.kernel_sp == 0x7FFF_FFFF,
            r@.tlb_empty(),
    {
        let mut tlb: Vec<TlbEntry> = Vec::new();
        let mut i: usize = 0;
        while i < TLB_SIZE
            invariant
                i <= TLB_SIZE,
                tlb@.len() == i,
                forall|j: int| 0 <= j < i ==> !(#[trigger] tlb@[j]).valid,
            decreases TLB_SIZE - i,
        {
            tlb.push(TlbEntry { vpn: 0, pfn: 0, flags: 0, pte_addr: 0, valid: false });
            i = i + 1;
        }
        Self { enabled: false, pdbr: 0, fault_addr: 0, fault_status: 0, kernel_sp: 0x7FFF_FFFF, tlb }
    }

    /// Invalidates every cached translation.
    pub fn flush_tlb(&mut self)
        requires
            old(self).wf(),
        ensures
            final(self).wf(),
            final(self)@.tlb_empty(),
            final(self)@ == old(self)@.flushed(),
    {
        let mut i: usize = 0;
        while i < TLB_SIZE
            invariant
                i <= TLB_SIZE,
                self.tlb@.len() == TLB_SIZE,
                self.enabled == old(self).enabled,
                self.pdbr == old(self).pdbr,
                self.fault_addr == old(self).fault_addr,
                self.fault_status == old(self).fault_status,
                self.kernel_sp == old(self).kernel_sp,
                forall|j: int|
                    0 <= j < i ==> #[trigger] self.tlb@[j] == (TlbEntry {
                        valid: false,
                        ..old(self).tlb@[j]
                    }),
                forall|j: int|
                    i <= j < TLB_SIZE ==> #[trigger] self.tlb@[j] == old(self).tlb@[j],
            decreases TLB_SIZE - i,
        {
            let mut e = self.tlb[i];
            e.valid = false;
            self.tlb.set(i, e);
            i = i + 1;
        }
        assert(self.tlb@ =~= old(self)@.flushed().tlb);
    }

    /// Points the walker at a new page directory and drops cached translations.
    pub fn set_pdbr(&mut self, val: u32)
        requires
            old(self).wf(),
        ensures
            final(self).wf(),
            final(self)@.tlb_empty(),
            final(self)@ == (MmuState { pdbr: val, ..old(self)@ }).flushed(),
    {
        self.pdbr = val;
        self.flush_tlb();
    }

    /// Turns paging on or off and drops cached translations.
    pub fn set_enabled(&mut self, val: bool)
        requires
            old(self).wf(),
        ensures
            final(self).wf(),
            final(self)@.tlb_empty(),
            final(self)@ == (MmuState { enabled: val, ..old(self)@ }).flushed(),
    {
        self.enabled = val;
        self.flush_tlb();
    }

    /// Latches the faulting address and its status code (3 for a privilege violation).
    pub fn record_fault(&mut self, fault: MmuFault)
        requires
            old(self).wf(),
        ensures
            final(self).wf(),
            final(self)@ == old(self)@.with_fault(fault),
    {
        match fault {
            MmuFault::PageFault { vaddr, status } => {
                self.fault_addr = vaddr;
                self.fault_status = status;
            },
            MmuFault::PrivilegeViolation { vaddr } => {
                self.fault_addr = vaddr;
                self.fault_status = 3;
            },
        }
    }

    fn tlb_lookup(&self, vpn: u32) -> (r: Option<TlbEntry>)
        requires
            self.wf(),
        ensures
            ({
                let e = self@.tlb[tlb_slot(vpn)];
                &&& r is Some <==> (e.valid && e.vpn == vpn)
                &&& r is Some ==> r->0 == e
            }),
    {
        let idx = (vpn as usize) % TLB_SIZE;
        let entry = self.tlb[idx];
        if entry.valid && entry.vpn == vpn {
            Some(entry)
        } else {
            None
        }
    }

    fn tlb_insert(&mut self, vpn: u32, pfn: u32, flags: u32, pte_addr: u64)
        requires
            old(self).wf(),
            pfn & 0xFFF == 0,
        ensures
            final(self).wf(),
            final(self)@ == (MmuState {
                tlb: old(self)@.tlb.update(
                    tlb_slot(vpn),
                    TlbEntry { vpn, pfn, flags, pte_addr, valid: true },
                ),
                ..old(self)@
            }),
    {
        let idx = (vpn as usize) % TLB_SIZE;
        self.tlb.set(idx, TlbEntry { vpn, pfn, flags, pte_addr, valid: true });
    }

    fn fail(&mut self, fault: MmuFault) -> (r: Result<u32, MmuFault>)
        requires
            old(self).wf(),
        ensures
            final(self).wf(),
            final(self)@ == old(self)@.with_fault(fault),
            r == Err::<u32, MmuFault>(fault),
    {
        self.record_fault(fault);
        Err(fault)
    }

    /// Translates a virtual address for an access in user or kernel mode.
    /// With paging off the address is returned unchanged. Otherwise a cached
    /// translation is used when the page has one (a write through a clean one
    /// sets the dirty bit of the cached and the stored entry); else the
    /// two-level table in `ram` is walked, the entry's accessed (and, for
    /// writes, dirty) bit is set and the translation cached. A fault is
    /// recorded before it is returned.
    pub fn translate(&mut self, ram: &mut Vec<u8>, vaddr: u32, access: AccessType, is_user: bool) -> (r:
        Result<u32, MmuFault>)
        requires
            old(self).wf(),
        ensures
            final(self).wf(),
            final(ram)@.len() == old(ram)@.len(),
            (final(self)@, final(ram)@, r) == translation(
                old(self)@,
                old(ram)@,
                vaddr,
                access,
                is_user,
            ),
    {
        if !self.enabled {
            return Ok(vaddr);
        }
        let vpn = vaddr >> 12u32;
        let offset = vaddr & 0xFFF;
        assert(vpn == vpn_of(vaddr)) by (bit_vector)
            requires vpn == vaddr >> 12u32;
        // Cached translation.
        if let Some(entry) = self.tlb_lookup(vpn) {
            let flags = entry.flags;
            if is_user && (flags & PTE_USER == 0) {
                return self.fail(MmuFault::PrivilegeViolation { vaddr });
            }
            if access == AccessType::Write && (flags & PTE_WRITABLE == 0) {
                return self.fail(MmuFault::PageFault { vaddr, status: 1 });
            }
            if access == AccessType::Execute && (flags & PTE_EXEC == 0) {
                return self.fail(MmuFault::PageFault { vaddr, status: 2 });
            }
            if access == AccessType::Write && (flags & PTE_DIRTY == 0) {
                let new_flags = flags | PTE_DIRTY;
                let a = entry.pte_addr;
                if a <= ram.len() as u64 && ram.len() as u64 - a >= 4 {
                    write_be_u32(ram, a as usize, new_flags);
                }
                self.tlb_insert(vpn, entry.pfn, new_flags, a);
                assert(self@.tlb =~= old(self)@.tlb.update(
                    tlb_slot(vpn),
                    TlbEntry { flags: new_flags, ..entry },
                ));
            }
            return Ok(entry.pfn | offset);
        }
        // Two-level page table walk.

        let pdi = ((vaddr >> 22u32) & 0x3FF) as u64;
        let pti = ((vaddr >> 12u32) & 0x3FF) as u64;
        assert((vaddr >> 22u32) & 0x3FF == vaddr / 0x40_0000) by (bit_vector);
        assert((vaddr >> 12u32) & 0x3FF == (vaddr / 4096) % 1024) by (bit_vector);
        let miss = MmuFault::PageFault { vaddr, status: access.code() };
        let pde_addr: u64 = self.pdbr as u64 + pdi * 4;
        if pde_addr + 4 > ram.len() as u64 {
            return self.fail(miss);
        }
        let pde = read_be_u32(ram, pde_addr as usize);
        if pde & PTE_VALID == 0 {
            return self.fail(miss);
        }
        if is_user && (pde & PTE_USER == 0) {
            return self.fail(MmuFault::PrivilegeViolation { vaddr });
        }
        let pt_base = (pde & 0xFFFF_F000) as u64;
        let pte_addr: u64 = pt_base + pti * 4;
        if pte_addr + 4 > ram.len() as u64 {
            return self.fail(miss);
        }
        let pte = read_be_u32(ram, pte_addr as usize);
        if pte & PTE_VALID == 0 {
            return self.fail(miss);
        }
        if is_user && (pte & PTE_USER == 0) {
            return self.fail(MmuFault::PrivilegeViolation { vaddr });
        }
        if access == AccessType::Write && (pte & PTE_WRITABLE == 0) {
            return self.fail(MmuFault::PageFault { vaddr, status: 1 });
        }
        if access == AccessType::Execute && (pte & PTE_EXEC == 0) {
            return self.fail(MmuFault::PageFault { vaddr, status: 2 });
        }
        // Mark the accessed and dirty bits.
        let mut new_pte = pte | PTE_ACCESSED;
        if access == AccessType::Write {
            new_pte = new_pte | PTE_DIRTY;
        }
        write_be_u32(ram, pte_addr as usize, new_pte);
        let pfn = pte & 0xFFFF_F000;
        assert(pfn & 0xFFF == 0) by (bit_vector)
            requires pfn == pte & 0xFFFF_F000;
        self.tlb_insert(vpn, pfn, new_pte, pte_addr);
        Ok(pfn | offset)
    }
}

impl Default for Mmu {
    fn default() -> (r: Self)
        ensures
            r.wf(),
            !r@.enabled,
            r@.tlb_empty(),
    {
        Self::new()
    }
}

/// With paging off every address translates to itself and nothing changes.
pub proof fn lemma_paging_off_is_identity(
    m: MmuState,
    ram: Seq<u8>,
    vaddr: u32,
    access: AccessType,
    is_user: bool,
)
    requires
        !m.enabled,
    ensures
        translation(m, ram, vaddr, access, is_user) == (m, ram, Ok::<u32, MmuFault>(vaddr)),
{
}

/// A translation never changes the offset inside the page.
pub proof fn lemma_translation_keeps_page_offset(
    m: MmuState,
    ram: Seq<u8>,
    vaddr: u32,
    access: AccessType,
    is_user: bool,
)
    requires
        m.tlb_consistent(),
    ensures
        translation(m, ram, vaddr, access, is_user).2 matches Ok(p) ==> p % 4096 == vaddr % 4096,
{
    if m.enabled {
        let vpn = vpn_of(vaddr);
        let e = m.tlb[tlb_slot(vpn)];
        assert(0 <= tlb_slot(vpn) < TLB_SIZE);
        let pfn = e.pfn;
        assert(pfn & 0xFFF == 0 ==> (pfn | (vaddr & 0xFFF)) % 4096 == vaddr % 4096)
            by (bit_vector);
        match walk(ram, m.pdbr, vaddr, access, is_user) {
            Ok((a, pte)) => {
                assert(((pte & 0xFFFF_F000) | (vaddr & 0xFFF)) % 4096 == vaddr % 4096)
                    by (bit_vector);
            },
            Err(_) => {},
        }
    }
}

/// A fault reported by a translation is the one latched in the fault registers.
pub proof fn lemma_fault_is_recorded(
    m: MmuState,
    ram: Seq<u8>,
    vaddr: u32,
    access: AccessType,
    is_user: bool,
)
    ensures
        ({
            let (m2, ram2, r) = translation(m, ram, vaddr, access, is_user);
            r matches Err(f) ==> {
                &&& m2 == m.with_fault(f)
                &&& ram2 == ram
                &&& m2.fault_addr == vaddr
                &&& m2.fault_status == match f {
                    MmuFault::PageFault { status, .. } => status,
                    MmuFault::PrivilegeViolation { .. } => 3u32,
                }
            }
        }),
{
}

/// Once an access to a page has been translated, translating the same kind of
/// access to the same page again gives the same frame without touching memory
/// or the paging state.
pub proof fn lemma_repeat_translation_is_cached(
    m: MmuState,
    ram: Seq<u8>,
    vaddr: u32,
    vaddr2: u32,
    access: AccessType,
    is_user: bool,
)
    requires
        m.tlb_consistent(),
        vpn_of(vaddr2) == vpn_of(vaddr),
        translation(m, ram, vaddr, access, is_user).2 is Ok,
    ensures
        ({
            let (m1, ram1, r1) = translation(m, ram, vaddr, access, is_user);
            let (m2, ram2, r2) = translation(m1, ram1, vaddr2, access, is_user);
            &&& m2 == m1
            &&& ram2 == ram1
            &&& r2 matches Ok(p2) && r1 matches Ok(p1) && p2 - (vaddr2 % 4096) == p1 - (vaddr
                % 4096)
        }),
{
    let vpn = vpn_of(vaddr);
    if m.enabled {
        let e = m.tlb[tlb_slot(vpn)];
        assert(0 <= tlb_slot(vpn) < TLB_SIZE);
        let pfn = e.pfn;
        assert(pfn & 0xFFF == 0 ==> (pfn | (vaddr & 0xFFF)) == pfn + vaddr % 4096
            && (pfn | (vaddr2 & 0xFFF)) == pfn + vaddr2 % 4096) by (bit_vector);
        if e.valid && e.vpn == vpn {
            let fl = e.flags;
            assert((fl | 32u32) & 8u32 == fl & 8u32 && (fl | 32u32) & 2u32 == fl & 2u32 && (fl
                | 32u32) & 4u32 == fl & 4u32 && (fl | 32u32) & 32u32 != 0) by (bit_vector);
        } else {
            let (pte_addr, pte) = walk(ram, m.pdbr, vaddr, access, is_user)->Ok_0;
            let f = pte & 0xFFFF_F000;
            assert(((pte & 0xFFFF_F000) & 0xFFF) == 0) by (bit_vector);
            assert(f & 0xFFF == 0 ==> (f | (vaddr & 0xFFF)) == f + vaddr % 4096
                && (f | (vaddr2 & 0xFFF)) == f + vaddr2 % 4096) by (bit_vector);
            assert((pte | 16u32) & 8u32 == pte & 8u32 && (pte | 16u32) & 2u32 == pte & 2u32
                && (pte | 16u32) & 4u32 == pte & 4u32) by (bit_vector);
            assert((pte | 16u32 | 32u32) & 8u32 == pte & 8u32 && (pte | 16u32 | 32u32) & 2u32 == pte
                & 2u32 && (pte | 16u32 | 32u32) & 4u32 == pte & 4u32 && (pte | 16u32 | 32u32)
                & 32u32 != 0) by (bit_vector);
        }
    }
}

/// A table walk: the directory entry for `vaddr` is word `vaddr / 4 MiB` of
/// the page directory at PDBR, and the page table entry is word
/// `(vaddr / 4 KiB) % 1024` of the 4 KiB page table that directory entry
/// names. When a walk finds both valid and the access allowed, `vaddr`
/// translates to the entry's frame plus the offset inside the page.
pub proof fn lemma_walk_translates_through_both_tables(
    m: MmuState,
    ram: Seq<u8>,
    vaddr: u32,
    access: AccessType,
    is_user: bool,
)
    requires
        m.tlb_consistent(),
        m.enabled,
        !(m.tlb[tlb_slot(vpn_of(vaddr))].valid && m.tlb[tlb_slot(vpn_of(vaddr))].vpn == vpn_of(vaddr)),
        m.pdbr as int + (vaddr as int / 0x40_0000) * 4 + 4 <= ram.len(),
        ({
            let pde = be_word(ram, m.pdbr as int + (vaddr as int / 0x40_0000) * 4);
            let pte_at = (pde & 0xFFFF_F000) as int + ((vaddr as int / 4096) % 1024) * 4;
            let pte = be_word(ram, pte_at);
            &&& pde & PTE_VALID != 0
            &&& pte_at + 4 <= ram.len()
            &&& pte & PTE_VALID != 0
            &&& is_user ==> pde & PTE_USER != 0 && pte & PTE_USER != 0
            &&& access == AccessType::Write ==> pte & PTE_WRITABLE != 0
            &&& access == AccessType::Execute ==> pte & PTE_EXEC != 0
        }),
    ensures
        ({
            let pde = be_word(ram, m.pdbr as int + (vaddr as int / 0x40_0000) * 4);
            let pte_at = (pde & 0xFFFF_F000) as int + ((vaddr as int / 4096) % 1024) * 4;
            let pte = be_word(ram, pte_at);
            translation(m, ram, vaddr, access, is_user).2 == Ok::<u32, MmuFault>(
                (pte & 0xFFFF_F000) | (vaddr & 0xFFF),
            )
        }),
{
}

} // verus!
