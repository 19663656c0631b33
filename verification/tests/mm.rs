use lib::frame_alloc::{RAM_SIZE, RAM_START};
use lib::mm::{
    entry_to_paddr, index_at, make_entry, make_table_desc, make_user_table_desc, MemoryManager, PTE_AP_RW_ALL,
    PTE_PAGE, PTE_VALID,
};
use lib::pt_boot::{KernelMapOutcome, KERNEL_DEVICE_ATTR, KERNEL_RAM_ATTR};
use lib::pt_dump::{block_output_addr, desc_kind, table_output_addr, DescKind, Probe};

const KERNEL_END: usize = 0x4010_0000;

fn manager() -> MemoryManager {
    let mut mm = MemoryManager::new();
    mm.init_frames(KERNEL_END);
    mm
}

#[test]
fn index_at_splits_the_virtual_address() {
    assert_eq!(index_at(0x080A_0014, 0), 0);
    assert_eq!(index_at(0x080A_0014, 1), 0);
    assert_eq!(index_at(0x080A_0014, 2), 64);
    assert_eq!(index_at(0x080A_0014, 3), 160);
    assert_eq!(index_at(0x4000_1000, 1), 1);
    assert_eq!(index_at(0x4000_1000, 3), 1);
    assert_eq!(index_at(0xFFFF_FFFF_FFFF_FFFF, 0), 511);
}

#[test]
fn descriptors_are_built_from_the_frame_and_flags() {
    assert_eq!(make_entry(0x4000_1234, 0x3), 0x4000_1403);
    assert_eq!(make_table_desc(0x4000_2000), 0x3000_0000_4000_2003);
    assert_eq!(make_user_table_desc(0x4000_2fff), 0x4000_2003);
    assert_eq!(entry_to_paddr(0x3000_0000_4000_2003), 0x4000_2000);
    assert_eq!(table_output_addr(0x3000_0000_4010_1003), 0x4010_1000);
    assert_eq!(block_output_addr(0x0060_0000_0900_0405), 0x0060_0000_0900_0000);
}

#[test]
fn desc_kind_labels_like_the_dump() {
    assert_eq!(desc_kind(0x3), DescKind::Table);
    assert_eq!(desc_kind(0x2), DescKind::Table);
    assert_eq!(desc_kind(0x401), DescKind::Block);
    assert_eq!(desc_kind(0x0), DescKind::Unknown);
}

#[test]
fn map_page_builds_the_walk() {
    let mut mm = manager();
    let root = mm.create_empty_page_table().unwrap();
    assert_eq!(root, KERNEL_END);
    assert!(mm.map_page(root, 0x1000, 0x4020_0000, PTE_AP_RW_ALL));
    // Three fresh tables below the root, in allocation order.
    assert_eq!(mm.read_entry(root as u64, 0), Some(make_table_desc(KERNEL_END + 0x1000)));
    assert_eq!(mm.get_or_alloc_table(root, 0), Some(KERNEL_END + 0x1000));
    assert_eq!(
        mm.probe(root as u64, 0x1000),
        Probe::Leaf { index: 1, entry: make_entry(0x4020_0000, PTE_VALID | PTE_PAGE | PTE_AP_RW_ALL) }
    );
    assert_eq!(
        mm.probe(root as u64, 0x1000),
        Probe::Leaf { index: 1, entry: 0x4020_0443 }
    );
    // A neighbouring page shares the tables but is not mapped.
    assert_eq!(mm.probe(root as u64, 0x2000), Probe::Leaf { index: 2, entry: 0 });
}

#[test]
fn map_block_keeps_an_existing_entry() {
    let mut mm = manager();
    let root = mm.create_empty_page_table().unwrap();
    assert!(mm.map_block_2m(root, 0x20_0000, 0x4040_0000, KERNEL_RAM_ATTR));
    let block = 0x4040_0000u64 | 0x1 | 0x400 | KERNEL_RAM_ATTR;
    assert_eq!(
        mm.probe(root as u64, 0x20_1000),
        Probe::NotTable { level: 2, index: 1, entry: block }
    );
    assert!(mm.map_block_2m(root, 0x20_0000, 0x4060_0000, KERNEL_RAM_ATTR));
    assert_eq!(
        mm.probe(root as u64, 0x20_1000),
        Probe::NotTable { level: 2, index: 1, entry: block }
    );
    // A 4 KiB mapping cannot go below a block.
    assert!(!mm.map_page(root, 0x20_1000, 0x4080_0000, PTE_AP_RW_ALL));
}

#[test]
fn map_range_maps_every_block() {
    let mut mm = manager();
    let root = mm.create_empty_page_table().unwrap();
    assert!(mm.map_range_2m(root, 0x4000_0000, 0x4000_0000, 0x60_0000, KERNEL_RAM_ATTR));
    for k in 0..3u64 {
        let va = 0x4000_0000 + (k as usize) * 0x20_0000;
        assert_eq!(
            mm.probe(root as u64, va + 0x123),
            Probe::NotTable {
                level: 2,
                index: k as usize,
                entry: (0x4000_0000 + k * 0x20_0000) | 0x401 | KERNEL_RAM_ATTR,
            }
        );
    }
    assert_eq!(mm.probe(root as u64, 0x4060_0000), Probe::NotTable { level: 2, index: 3, entry: 0 });
}

#[test]
fn allocation_fails_when_ram_is_exhausted() {
    let mut mm = MemoryManager::new();
    mm.init_frames(RAM_START + RAM_SIZE);
    assert_eq!(mm.create_empty_page_table(), None);
    assert_eq!(mm.alloc_zeroed_frame(), None);
    assert_eq!(mm.init(), KernelMapOutcome::NoRootFrame);
}

#[test]
fn read_entry_refuses_tables_outside_ram() {
    let mm = manager();
    assert_eq!(mm.read_entry(0x1000, 0), None);
    assert_eq!(mm.read_entry(RAM_START as u64, 512), None);
    assert_eq!(mm.read_entry(RAM_START as u64 + 8, 0), None);
    assert_eq!(mm.probe(0x0900_0000, 0), Probe::OutsideRam { level: 0, table: 0x0900_0000 });
}

#[test]
fn kernel_map_covers_ram_devices_and_gic() {
    let mut mm = manager();
    assert_eq!(mm.kernel_page_table(), 0);
    let outcome = mm.init();
    assert_eq!(outcome, KernelMapOutcome::Mapped { root: KERNEL_END, gic_pages: 512 });
    let root = mm.kernel_page_table();
    assert_eq!(root, KERNEL_END);

    // Root entry 0 names the single level-1 table.
    let pgd0 = mm.read_entry(root as u64, 0).unwrap();
    assert_eq!(desc_kind(pgd0), DescKind::Table);
    assert_eq!(table_output_addr(pgd0), KERNEL_END as u64 + 0x1000);
    assert_eq!(mm.read_entry(root as u64, 1), Some(0));

    // GICR_WAKER is mapped by a 4 KiB device page.
    assert_eq!(
        mm.probe(root as u64, 0x080A_0014),
        Probe::Leaf { index: 160, entry: 0x0060_0000_080A_0407 }
    );
    // The PL011 lies in a 2 MiB device block.
    let uart = mm.probe(root as u64, 0x0900_0000);
    assert_eq!(uart, Probe::NotTable { level: 2, index: 72, entry: 0x0060_0000_0900_0405 });
    // RAM is mapped with normal-memory blocks.
    assert_eq!(
        mm.probe(root as u64, 0x4000_1000),
        Probe::NotTable { level: 2, index: 0, entry: 0x0040_0000_4000_0701 }
    );
    // Nothing is mapped past the RAM window.
    assert_eq!(mm.probe(root as u64, 0x4800_0000), Probe::NotTable { level: 2, index: 64, entry: 0 });
    // The last low device block and the first high one.
    assert_eq!(
        mm.probe(root as u64, 0x07E0_0000),
        Probe::NotTable { level: 2, index: 63, entry: 0x07E0_0000 | 0x401 | KERNEL_DEVICE_ATTR }
    );
    assert_eq!(
        mm.probe(root as u64, 0x0820_0000),
        Probe::NotTable { level: 2, index: 65, entry: 0x0820_0000 | 0x401 | KERNEL_DEVICE_ATTR }
    );
}

#[test]
fn user_table_clones_root_entries_without_el0_restrictions() {
    let mut mm = manager();
    assert!(!mm.clone_kernel_mappings(KERNEL_END));
    assert!(matches!(mm.init(), KernelMapOutcome::Mapped { .. }));
    let user = mm.create_user_page_table().unwrap();
    assert_eq!(user, KERNEL_END + 0x5000);
    assert_eq!(mm.read_entry(user as u64, 0), Some(0x4010_1003));
    assert_eq!(mm.read_entry(user as u64, 1), Some(0));
}

#[test]
fn map_user_page_splits_a_kernel_block() {
    let mut mm = manager();
    assert!(matches!(mm.init(), KernelMapOutcome::Mapped { .. }));
    let user = mm.create_user_page_table().unwrap();
    assert!(mm.map_user_page(user, 0x4020_3000, 0x4050_0000, PTE_AP_RW_ALL));
    // The user page.
    assert_eq!(mm.probe(user as u64, 0x4020_3000), Probe::Leaf { index: 3, entry: 0x4050_0443 });
    // Its neighbours keep the block's translation and attributes.
    assert_eq!(mm.probe(user as u64, 0x4020_4000), Probe::Leaf { index: 4, entry: 0x0040_0000_4020_4703 });
    assert_eq!(mm.probe(user as u64, 0x4020_0000), Probe::Leaf { index: 0, entry: 0x0040_0000_4020_0703 });
    assert_eq!(mm.probe(user as u64, 0x403F_F000), Probe::Leaf { index: 511, entry: 0x0040_0000_403F_F703 });
    // A second page in the same block reuses the split table.
    assert!(mm.map_user_page(user, 0x4020_5000, 0x4051_0000, PTE_AP_RW_ALL));
    assert_eq!(mm.probe(user as u64, 0x4020_5000), Probe::Leaf { index: 5, entry: 0x4051_0443 });
    assert_eq!(mm.probe(user as u64, 0x4020_3000), Probe::Leaf { index: 3, entry: 0x4050_0443 });
}

#[test]
fn map_user_page_creates_user_tables_for_an_empty_root() {
    let mut mm = manager();
    let root = mm.create_empty_page_table().unwrap();
    assert!(mm.map_user_page(root, 0x1000, 0x4030_0000, PTE_AP_RW_ALL));
    assert_eq!(mm.read_entry(root as u64, 0), Some(make_user_table_desc(KERNEL_END + 0x1000)));
    assert_eq!(mm.probe(root as u64, 0x1000), Probe::Leaf { index: 1, entry: 0x4030_0443 });
    // A non-empty invalid root entry stops the mapping.
    mm.write_u64(root + 8, 0x4);
    assert!(!mm.map_user_page(root, 0x80_0000_1000, 0x4030_0000, PTE_AP_RW_ALL));
}

#[test]
fn map_user_page_refuses_tables_outside_ram() {
    let mut mm = manager();
    // A root that is not a frame of RAM.
    assert!(!mm.map_user_page(0x1000, 0x1000, 0x4030_0000, PTE_AP_RW_ALL));
    assert!(!mm.map_user_page(KERNEL_END + 8, 0x1000, 0x4030_0000, PTE_AP_RW_ALL));
    // A root entry naming a table below RAM: nothing is followed or written.
    let root = mm.create_empty_page_table().unwrap();
    mm.write_u64(root, make_table_desc(0x2000_0000));
    assert!(!mm.map_user_page(root, 0x1000, 0x4030_0000, PTE_AP_RW_ALL));
    assert_eq!(mm.read_entry(root as u64, 0), Some(make_table_desc(0x2000_0000)));
}

/// The address a probe result translates `va` to, as the MMU would.
fn translated(p: Probe, va: u64) -> Option<u64> {
    match p {
        Probe::Leaf { entry, .. } if entry & 3 == 3 => Some((entry & 0x0000_FFFF_FFFF_F000) + va % 0x1000),
        Probe::NotTable { level: 2, entry, .. } if entry & 3 == 1 => {
            Some((entry & 0x0000_FFFF_FFE0_0000) + va % 0x20_0000)
        }
        _ => None,
    }
}

#[test]
fn kernel_map_is_an_identity_map() {
    let mut mm = manager();
    assert!(matches!(mm.init(), KernelMapOutcome::Mapped { gic_pages: 512, .. }));
    let root = mm.kernel_page_table() as u64;
    let mut va: u64 = 0;
    while va < 0x4800_0000 {
        for off in [0u64, 0x1234, 0x1F_F008] {
            let a = va + off;
            assert_eq!(translated(mm.probe(root, a as usize), a), Some(a), "address {:#x}", a);
        }
        va += 0x20_0000;
    }
    let mut page: u64 = 0x0800_0000;
    while page < 0x0820_0000 {
        assert_eq!(translated(mm.probe(root, page as usize + 8), page + 8), Some(page + 8));
        page += 0x1000;
    }
    assert_eq!(translated(mm.probe(root, 0x4800_0000), 0x4800_0000), None);
}

/// AttrIndx, AP, PXN and UXN of the descriptor a probe ends at.
fn access_bits(p: Probe) -> Option<u64> {
    match p {
        Probe::Leaf { entry, .. } | Probe::NotTable { entry, .. } => Some(entry & 0x60_0000_0000_00DC),
        _ => None,
    }
}

#[test]
fn kernel_map_gives_ram_and_devices_their_attributes() {
    let mut mm = manager();
    assert!(matches!(mm.init(), KernelMapOutcome::Mapped { gic_pages: 512, .. }));
    let root = mm.kernel_page_table() as u64;
    let mask = 0x60_0000_0000_00DC;
    for a in [0x4000_0000u64, 0x4012_3456, 0x47FF_FFF8] {
        assert_eq!(access_bits(mm.probe(root, a as usize)), Some(KERNEL_RAM_ATTR & mask), "address {:#x}", a);
    }
    for a in [0u64, 0x0900_0000, 0x0800_1000, 0x081F_F000, 0x3FFF_F000] {
        assert_eq!(access_bits(mm.probe(root, a as usize)), Some(KERNEL_DEVICE_ATTR & mask), "address {:#x}", a);
    }
    // RAM: normal memory, EL1 read-write, EL0 never executes; devices: also PXN.
    assert_eq!(KERNEL_RAM_ATTR & mask, 0x40_0000_0000_0000);
    assert_eq!(KERNEL_DEVICE_ATTR & mask, 0x60_0000_0000_0004);
}

#[test]
fn map_user_page_leaves_the_walk_open_to_el0() {
    let mut mm = manager();
    assert!(matches!(mm.init(), KernelMapOutcome::Mapped { .. }));
    let user = mm.create_user_page_table().unwrap();
    assert!(mm.map_user_page(user, 0x4020_3000, 0x4050_0000, PTE_AP_RW_ALL));
    let l1 = entry_to_paddr(mm.read_entry(user as u64, 0).unwrap());
    let l2 = entry_to_paddr(mm.read_entry(l1 as u64, 1).unwrap());
    let restrictions = 0x3000_0000_0000_0000u64;
    assert_eq!(mm.read_entry(user as u64, 0).unwrap() & restrictions, 0);
    assert_eq!(mm.read_entry(l1 as u64, 1).unwrap() & restrictions, 0);
    assert_eq!(mm.read_entry(l2 as u64, 1).unwrap() & restrictions, 0);
    // The kernel's own descriptors keep their restrictions.
    let kroot = mm.kernel_page_table() as u64;
    assert_eq!(mm.read_entry(kroot, 0).unwrap() & restrictions, restrictions);
}

#[test]
fn kernel_map_reports_the_range_that_ran_out_of_frames() {
    // One free frame: the root table gets it, the RAM range finds none for its tables.
    let mut mm = MemoryManager::new();
    mm.init_frames(RAM_START + RAM_SIZE - 0x1000);
    assert_eq!(mm.init(), KernelMapOutcome::RangeFailed { vaddr: RAM_START });
    assert_eq!(mm.kernel_page_table(), RAM_START + RAM_SIZE - 0x1000);
}

#[test]
fn kernel_map_goes_on_without_the_gic_pages() {
    // Four free frames: root, level 1 and the two level-2 tables; none is left for the GIC pages.
    let mut mm = MemoryManager::new();
    mm.init_frames(RAM_START + RAM_SIZE - 4 * 0x1000);
    let root = RAM_START + RAM_SIZE - 4 * 0x1000;
    assert_eq!(mm.init(), KernelMapOutcome::Mapped { root, gic_pages: 0 });
    assert_eq!(mm.probe(root as u64, 0x080A_0014), Probe::NotTable { level: 2, index: 64, entry: 0 });
    assert_eq!(
        mm.probe(root as u64, 0x0900_0000),
        Probe::NotTable { level: 2, index: 72, entry: 0x0060_0000_0900_0405 }
    );
}
