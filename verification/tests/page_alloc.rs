use lib::mmio::RegWrite;
use lib::page_alloc::{
    boot_check, can_free, free_megabytes, free_page_count, init, kalloc, kfree, FreeList, PAGE_SIZE,
    PHYS_END,
};

#[test]
fn empty_list_has_no_pages() {
    let list = FreeList::new();
    assert_eq!(free_page_count(&list), 0);
}

#[test]
fn kalloc_on_empty_list_returns_null() {
    let mut list = FreeList::new();
    assert_eq!(kalloc(&mut list), 0);
    assert_eq!(free_page_count(&list), 0);
}

#[test]
fn kalloc_returns_last_freed_page_first() {
    let mut list = FreeList::new();
    kfree(&mut list, 0x8000_1000);
    kfree(&mut list, 0x8000_2000);
    kfree(&mut list, 0x8000_3000);
    assert_eq!(free_page_count(&list), 3);
    assert_eq!(kalloc(&mut list), 0x8000_3000);
    assert_eq!(kalloc(&mut list), 0x8000_2000);
    assert_eq!(free_page_count(&list), 1);
    assert_eq!(kalloc(&mut list), 0x8000_1000);
    assert_eq!(kalloc(&mut list), 0);
}

#[test]
fn kalloc_undoes_kfree() {
    let mut list = FreeList::new();
    kfree(&mut list, 0x8000_1000);
    kfree(&mut list, 0x8004_0000);
    assert_eq!(kalloc(&mut list), 0x8004_0000);
    assert_eq!(free_page_count(&list), 1);
    assert_eq!(kalloc(&mut list), 0x8000_1000);
}

#[test]
fn init_frees_every_page_up_to_phys_end() {
    let mut list = FreeList::new();
    // kernel image ends mid-page: the heap starts at the next page boundary
    init(&mut list, 0x8002_1234);
    let heap_start = 0x8002_2000usize;
    let expected = (PHYS_END - heap_start) / PAGE_SIZE;
    assert_eq!(expected, 0x7FDE);
    assert_eq!(free_page_count(&list), expected);
    // the highest page is freed last, so it is handed out first
    assert_eq!(kalloc(&mut list), PHYS_END - PAGE_SIZE);
    assert_eq!(kalloc(&mut list), PHYS_END - 2 * PAGE_SIZE);
    let mut last = 0;
    loop {
        let p = kalloc(&mut list);
        if p == 0 {
            break;
        }
        assert_eq!(p % PAGE_SIZE, 0);
        assert!(p >= heap_start);
        last = p;
    }
    assert_eq!(last, heap_start);
}

#[test]
fn init_with_aligned_kernel_end_starts_there() {
    let mut list = FreeList::new();
    init(&mut list, PHYS_END - 3 * PAGE_SIZE);
    assert_eq!(free_page_count(&list), 3);
    assert_eq!(kalloc(&mut list), PHYS_END - PAGE_SIZE);
    assert_eq!(kalloc(&mut list), PHYS_END - 2 * PAGE_SIZE);
    assert_eq!(kalloc(&mut list), PHYS_END - 3 * PAGE_SIZE);
    assert_eq!(kalloc(&mut list), 0);
}

#[test]
fn init_with_no_room_frees_nothing() {
    let mut list = FreeList::new();
    init(&mut list, PHYS_END - 100);
    assert_eq!(free_page_count(&list), 0);
    let mut list = FreeList::new();
    init(&mut list, PHYS_END + 0x10_0000);
    assert_eq!(free_page_count(&list), 0);
}

#[test]
fn init_adds_to_pages_already_free() {
    let mut list = FreeList::new();
    kfree(&mut list, 0x1000);
    init(&mut list, PHYS_END - 2 * PAGE_SIZE);
    assert_eq!(free_page_count(&list), 3);
    assert_eq!(kalloc(&mut list), PHYS_END - PAGE_SIZE);
    assert_eq!(kalloc(&mut list), PHYS_END - 2 * PAGE_SIZE);
    assert_eq!(kalloc(&mut list), 0x1000);
}

#[test]
fn free_megabytes_rounds_down() {
    assert_eq!(free_megabytes(0), 0);
    assert_eq!(free_megabytes(255), 0);
    assert_eq!(free_megabytes(256), 1);
    assert_eq!(free_megabytes(0x7FDE), 127);
}

#[test]
fn boot_check_reports_and_restores_the_list() {
    let mut list = FreeList::new();
    init(&mut list, 0x8002_1234);
    let report = boot_check(&mut list);
    assert_eq!(report.free_pages, 0x7FDE);
    assert_eq!(report.megabytes, 127);
    assert_eq!(report.page, PHYS_END - PAGE_SIZE);
    assert_eq!(free_page_count(&list), 0x7FDE);
    assert_eq!(kalloc(&mut list), PHYS_END - PAGE_SIZE);
}

#[test]
fn boot_check_on_empty_list_reports_null_page() {
    let mut list = FreeList::new();
    let report = boot_check(&mut list);
    assert_eq!(report.free_pages, 0);
    assert_eq!(report.megabytes, 0);
    assert_eq!(report.page, 0);
    assert_eq!(free_page_count(&list), 0);
}

#[test]
fn can_free_rejects_null_misaligned_and_free_pages() {
    let mut list = FreeList::new();
    assert!(!can_free(&list, 0));
    assert!(!can_free(&list, 0x8000_0010));
    assert!(can_free(&list, 0x8000_1000));
    kfree(&mut list, 0x8000_1000);
    kfree(&mut list, 0x8000_5000);
    assert!(!can_free(&list, 0x8000_1000));
    assert!(!can_free(&list, 0x8000_5000));
    assert!(can_free(&list, 0x8000_2000));
    assert_eq!(kalloc(&mut list), 0x8000_5000);
    assert!(can_free(&list, 0x8000_5000));
}

#[test]
fn allocating_every_free_page_empties_the_list() {
    let mut list = FreeList::new();
    let pages = [0x8000_1000usize, 0x8000_7000, 0x8000_3000, 0x8001_0000];
    for &p in &pages {
        kfree(&mut list, p);
    }
    let n = free_page_count(&list);
    assert_eq!(n, 4);
    let mut got = Vec::new();
    for _ in 0..n {
        got.push(kalloc(&mut list));
    }
    assert_eq!(got, vec![0x8001_0000, 0x8000_3000, 0x8000_7000, 0x8000_1000]);
    assert_eq!(free_page_count(&list), 0);
    assert_eq!(kalloc(&mut list), 0);
}

#[test]
fn count_moves_by_one_per_free_and_successful_alloc() {
    let mut list = FreeList::new();
    kfree(&mut list, 0x8000_1000);
    let c0 = free_page_count(&list);
    kfree(&mut list, 0x8000_2000);
    assert_eq!(free_page_count(&list), c0 + 1);
    assert_ne!(kalloc(&mut list), 0);
    assert_eq!(free_page_count(&list), c0);
    assert_ne!(kalloc(&mut list), 0);
    assert_eq!(free_page_count(&list), c0 - 1);
    assert_eq!(kalloc(&mut list), 0);
    assert_eq!(free_page_count(&list), 0);
}

#[test]
fn heap_above_ram_start_holds_at_most_32768_pages() {
    let mut list = FreeList::new();
    init(&mut list, 0x8000_0000);
    assert_eq!(free_page_count(&list), 0x8000);
}

#[test]
fn kfree_links_the_page_to_the_old_head() {
    let mut list = FreeList::new();
    assert_eq!(kfree(&mut list, 0x8000_1000), RegWrite { addr: 0x8000_1000, value: 0 });
    assert_eq!(kfree(&mut list, 0x8000_2000), RegWrite { addr: 0x8000_2000, value: 0x8000_1000 });
    assert_eq!(kalloc(&mut list), 0x8000_2000);
    assert_eq!(kfree(&mut list, 0x8000_3000), RegWrite { addr: 0x8000_3000, value: 0x8000_1000 });
}

#[test]
fn init_links_each_page_to_the_one_freed_before() {
    let mut list = FreeList::new();
    kfree(&mut list, 0x1000);
    let links = init(&mut list, PHYS_END - 3 * PAGE_SIZE);
    assert_eq!(
        links,
        vec![
            RegWrite { addr: PHYS_END - 3 * PAGE_SIZE, value: 0x1000 },
            RegWrite { addr: PHYS_END - 2 * PAGE_SIZE, value: PHYS_END - 3 * PAGE_SIZE },
            RegWrite { addr: PHYS_END - PAGE_SIZE, value: PHYS_END - 2 * PAGE_SIZE },
        ]
    );
    let mut empty = FreeList::new();
    assert!(init(&mut empty, PHYS_END).is_empty());
}

#[test]
fn boot_check_relinks_the_test_page() {
    let mut list = FreeList::new();
    init(&mut list, PHYS_END - 2 * PAGE_SIZE);
    let report = boot_check(&mut list);
    assert_eq!(report.page, PHYS_END - PAGE_SIZE);
    assert_eq!(
        report.link,
        Some(RegWrite { addr: PHYS_END - PAGE_SIZE, value: PHYS_END - 2 * PAGE_SIZE })
    );
    let mut empty = FreeList::new();
    assert_eq!(boot_check(&mut empty).link, None);
}
