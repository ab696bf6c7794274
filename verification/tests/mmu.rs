use myemu::constants::{PTE_ACCESSED, PTE_DIRTY, PTE_EXEC, PTE_USER, PTE_VALID, PTE_WRITABLE};
use myemu::machine::mmu::{AccessType, Mmu, MmuFault};

fn setup_test_page_table(ram: &mut [u8], pd_addr: u32, pt_addr: u32) {
    for b in &mut ram[pd_addr as usize..pd_addr as usize + 4096] {
        *b = 0;
    }
    for b in &mut ram[pt_addr as usize..pt_addr as usize + 4096] {
        *b = 0;
    }
    let pde = (pt_addr & 0xFFFF_F000) | PTE_VALID | PTE_WRITABLE | PTE_USER;
    let pde_bytes = pde.to_be_bytes();
    ram[pd_addr as usize..pd_addr as usize + 4].copy_from_slice(&pde_bytes);
}

fn word_at(ram: &[u8], at: usize) -> u32 {
    u32::from_be_bytes([ram[at], ram[at + 1], ram[at + 2], ram[at + 3]])
}

#[test]
fn translation_and_tlb() {
    let mut ram = vec![0u8; 1024 * 1024];
    let mut mmu = Mmu::new();
    let pd_addr = 0x1000;
    let pt_addr = 0x2000;

    setup_test_page_table(&mut ram, pd_addr, pt_addr);

    let pte = 0x50000 | PTE_VALID | PTE_WRITABLE | PTE_EXEC | PTE_USER;
    let pte_bytes = pte.to_be_bytes();
    let pte_addr = (pt_addr as usize) + 0x10 * 4;
    ram[pte_addr..pte_addr + 4].copy_from_slice(&pte_bytes);

    mmu.set_pdbr(pd_addr);
    mmu.set_enabled(true);

    let paddr = mmu
        .translate(&mut ram, 0x10044, AccessType::Read, false)
        .expect("read should succeed");
    assert_eq!(paddr, 0x50044);

    let updated_pte = word_at(&ram, pte_addr);
    assert_ne!(updated_pte & PTE_ACCESSED, 0);

    // The write hits the cached translation and sets the dirty bit.
    let paddr_w = mmu
        .translate(&mut ram, 0x10048, AccessType::Write, true)
        .expect("write should succeed");
    assert_eq!(paddr_w, 0x50048);
    assert_ne!(word_at(&ram, pte_addr) & PTE_DIRTY, 0);
    assert_eq!(word_at(&ram, pte_addr), 0x5003F);
}

#[test]
fn page_fault_on_unmapped() {
    let mut ram = vec![0u8; 1024 * 1024];
    let mut mmu = Mmu::new();
    let pd_addr = 0x1000;
    let pt_addr = 0x2000;

    setup_test_page_table(&mut ram, pd_addr, pt_addr);
    mmu.set_pdbr(pd_addr);
    mmu.set_enabled(true);

    let res = mmu.translate(&mut ram, 0x20000, AccessType::Read, false);
    assert_eq!(res, Err(MmuFault::PageFault { vaddr: 0x20000, status: 0 }));
}

#[test]
fn readonly_write_fault() {
    let mut ram = vec![0u8; 1024 * 1024];
    let mut mmu = Mmu::new();
    let pd_addr = 0x1000;
    let pt_addr = 0x2000;

    setup_test_page_table(&mut ram, pd_addr, pt_addr);

    let pte = 0x50000 | PTE_VALID | PTE_USER;
    let pte_addr = (pt_addr as usize) + 0x10 * 4;
    ram[pte_addr..pte_addr + 4].copy_from_slice(&pte.to_be_bytes());

    mmu.set_pdbr(pd_addr);
    mmu.set_enabled(true);

    let read_res = mmu.translate(&mut ram, 0x10000, AccessType::Read, true);
    assert!(read_res.is_ok());

    let write_res = mmu.translate(&mut ram, 0x10000, AccessType::Write, true);
    assert_eq!(write_res, Err(MmuFault::PageFault { vaddr: 0x10000, status: 1 }));
}

#[test]
fn privilege_violation_check() {
    let mut ram = vec![0u8; 1024 * 1024];
    let mut mmu = Mmu::new();
    let pd_addr = 0x1000;
    let pt_addr = 0x2000;

    setup_test_page_table(&mut ram, pd_addr, pt_addr);

    let pte = 0x50000 | PTE_VALID | PTE_WRITABLE;
    let pte_addr = (pt_addr as usize) + 0x10 * 4;
    ram[pte_addr..pte_addr + 4].copy_from_slice(&pte.to_be_bytes());

    mmu.set_pdbr(pd_addr);
    mmu.set_enabled(true);

    assert!(mmu.translate(&mut ram, 0x10000, AccessType::Read, false).is_ok());

    assert_eq!(
        mmu.translate(&mut ram, 0x10000, AccessType::Read, true),
        Err(MmuFault::PrivilegeViolation { vaddr: 0x10000 })
    );
}

#[test]
fn paging_off_maps_addresses_to_themselves() {
    let mut ram = vec![0u8; 64];
    let mut mmu = Mmu::new();
    assert_eq!(mmu.translate(&mut ram, 0x1234_5678, AccessType::Write, true), Ok(0x1234_5678));
    assert_eq!(ram, vec![0u8; 64]);
}

#[test]
fn write_sets_dirty_and_repeat_hits_the_tlb() {
    let mut ram = vec![0u8; 1024 * 1024];
    let mut mmu = Mmu::new();
    setup_test_page_table(&mut ram, 0x1000, 0x2000);
    let pte_addr = 0x2000 + 0x10 * 4;
    ram[pte_addr..pte_addr + 4]
        .copy_from_slice(&(0x50000 | PTE_VALID | PTE_WRITABLE | PTE_USER).to_be_bytes());
    mmu.set_pdbr(0x1000);
    mmu.set_enabled(true);
    assert_eq!(mmu.translate(&mut ram, 0x10010, AccessType::Write, false), Ok(0x50010));
    assert_ne!(word_at(&ram, pte_addr) & PTE_DIRTY, 0);
    // Unmap the page behind the TLB's back: the cached entry still answers.
    ram[pte_addr..pte_addr + 4].copy_from_slice(&[0, 0, 0, 0]);
    assert_eq!(mmu.translate(&mut ram, 0x10020, AccessType::Read, false), Ok(0x50020));
    // Once flushed, the walk sees the missing page.
    mmu.flush_tlb();
    assert_eq!(
        mmu.translate(&mut ram, 0x10020, AccessType::Read, false),
        Err(MmuFault::PageFault { vaddr: 0x10020, status: 0 })
    );
}

#[test]
fn execute_needs_the_exec_bit() {
    let mut ram = vec![0u8; 1024 * 1024];
    let mut mmu = Mmu::new();
    setup_test_page_table(&mut ram, 0x1000, 0x2000);
    let pte_addr = 0x2000 + 0x10 * 4;
    ram[pte_addr..pte_addr + 4].copy_from_slice(&(0x50000 | PTE_VALID | PTE_USER).to_be_bytes());
    mmu.set_pdbr(0x1000);
    mmu.set_enabled(true);
    assert_eq!(
        mmu.translate(&mut ram, 0x10000, AccessType::Execute, true),
        Err(MmuFault::PageFault { vaddr: 0x10000, status: 2 })
    );
}

#[test]
fn faults_are_latched_in_the_fault_registers() {
    let mut ram = vec![0u8; 1024 * 1024];
    let mut mmu = Mmu::new();
    setup_test_page_table(&mut ram, 0x1000, 0x2000);
    let pte_addr = 0x2000 + 0x10 * 4;
    ram[pte_addr..pte_addr + 4].copy_from_slice(&(0x50000 | PTE_VALID | PTE_WRITABLE).to_be_bytes());
    mmu.set_pdbr(0x1000);
    mmu.set_enabled(true);
    let _ = mmu.translate(&mut ram, 0x30004, AccessType::Write, false);
    assert_eq!((mmu.fault_addr, mmu.fault_status), (0x30004, 1));
    let _ = mmu.translate(&mut ram, 0x10008, AccessType::Read, true);
    assert_eq!((mmu.fault_addr, mmu.fault_status), (0x10008, 3));
}

#[test]
fn write_hit_on_a_dirty_entry_leaves_the_table_alone() {
    let mut ram = vec![0u8; 1024 * 1024];
    let mut mmu = Mmu::new();
    setup_test_page_table(&mut ram, 0x1000, 0x2000);
    let pte_addr = 0x2000 + 0x10 * 4;
    ram[pte_addr..pte_addr + 4]
        .copy_from_slice(&(0x50000 | PTE_VALID | PTE_WRITABLE).to_be_bytes());
    mmu.set_pdbr(0x1000);
    mmu.set_enabled(true);
    assert_eq!(mmu.translate(&mut ram, 0x10000, AccessType::Write, false), Ok(0x50000));
    assert_eq!(word_at(&ram, pte_addr), 0x50033);
    // The cached entry is already dirty: a second write does not store it again.
    ram[pte_addr..pte_addr + 4].copy_from_slice(&[0, 0, 0, 0]);
    assert_eq!(mmu.translate(&mut ram, 0x10004, AccessType::Write, false), Ok(0x50004));
    assert_eq!(word_at(&ram, pte_addr), 0);
}
