//! Page allocator: a LIFO free list of 4 KiB physical pages.
//!
//! The free list is kept as a stack whose top is the most recently freed
//! page; `kfree` pushes a page, `kalloc` pops one. `init` hands every whole
//! page between the end of the kernel image (rounded up to a page boundary)
//! and the top of RAM to the list, lowest address first.
//!
//! The list is linked through the free pages themselves: the first word of
//! each free page holds the address of the next free page (0 after the
//! last). `kfree` and `init` return the link stores that keep that memory
//! in step with the list; the caller performs them.
use vstd::prelude::*;
use crate::mmio::RegWrite;

verus! {

/// 4 KiB, the RISC-V base page size.
pub const PAGE_SIZE: usize = 4096;

/// Top of physical RAM on the QEMU `virt` machine (0x8000_0000 + 128 MiB).
pub const PHYS_END: usize = 0x8800_0000;

/// A page address the free list can hold: non-null and page aligned.
pub open spec fn is_page(p: usize) -> bool {
    p != 0 && p % PAGE_SIZE == 0
}

/// `addr` rounded up to the next multiple of `PAGE_SIZE`.
pub open spec fn align_up(addr: int) -> int {
    ((addr + PAGE_SIZE - 1) / (PAGE_SIZE as int)) * PAGE_SIZE
}

/// Number of whole pages that fit between `start` and `PHYS_END`.
pub open spec fn pages_below_phys_end(start: int) -> nat {
    if start + PAGE_SIZE <= PHYS_END {
        ((PHYS_END - start) / (PAGE_SIZE as int)) as nat
    } else {
        0
    }
}

/// The pages that `init` frees for a kernel image ending at `kernel_end`,
/// in the order in which they are freed (ascending addresses).
pub open spec fn heap_pages(kernel_end: int) -> Seq<usize> {
    let start = align_up(kernel_end);
    Seq::new(pages_below_phys_end(start), |i: int| (start + i * PAGE_SIZE) as usize)
}

/// What the free list may hold: page addresses, none of them twice.
pub open spec fn valid_pages(list: Seq<usize>) -> bool {
    &&& forall|i: int| 0 <= i < list.len() ==> is_page(#[trigger] list[i])
    &&& list.no_duplicates()
}

/// The head of the free list: the page `kalloc` hands out next, 0 (null)
/// when the list is empty.
pub open spec fn head(list: Seq<usize>) -> usize {
    if list.len() == 0 {
        0usize
    } else {
        list.last()
    }
}

/// The store that links `page` in front of `list`: the first word of `page`
/// gets the current head.
pub open spec fn link_write(list: Seq<usize>, page: usize) -> RegWrite<usize> {
    RegWrite { addr: page, value: head(list) }
}

/// The link stores `init` makes when it frees `pages`, in order, onto
/// `list`: each page gets the address of the page freed before it, the
/// first one the old head.
pub open spec fn init_links(list: Seq<usize>, pages: Seq<usize>) -> Seq<RegWrite<usize>> {
    Seq::new(
        pages.len(),
        |i: int|
            RegWrite {
                addr: pages[i],
                value: if i == 0 {
                    head(list)
                } else {
                    pages[i - 1]
                },
            },
    )
}

/// The list after `page` is pushed onto its front.
pub open spec fn freed(list: Seq<usize>, page: usize) -> Seq<usize> {
    list.push(page)
}

/// What popping the front of `list` gives: the page handed out (0, the null
/// address, when the list is empty) and the list that remains.
pub open spec fn allocated(list: Seq<usize>) -> (usize, Seq<usize>) {
    if list.len() == 0 {
        (0usize, list)
    } else {
        (list.last(), list.drop_last())
    }
}

/// The free list. Its view is the sequence of free pages in the order in
/// which they were pushed: the last element is the head of the list, the
/// page that `kalloc` hands out next.
pub struct FreeList {
    pages: Vec<usize>,
}

impl View for FreeList {
    type V = Seq<usize>;

    closed spec fn view(&self) -> Seq<usize> {
        self.pages@
    }
}

impl FreeList {
    /// Every entry is a page, and no page is on the list twice.
    pub open spec fn wf(&self) -> bool {
        valid_pages(self@)
    }

    /// An empty free list: no page is free yet.
    pub fn new() -> (list: FreeList)
        ensures
            list.wf(),
            list@ == Seq::<usize>::empty(),
    {
        FreeList { pages: Vec::new() }
    }
}

/// Free a page: push it onto the front of the free list. Returns the link
/// store that writes the old head into the first word of `page`.
pub fn kfree(list: &mut FreeList, page: usize) -> (link: RegWrite<usize>)
    requires
        old(list).wf(),
        is_page(page),
        !old(list)@.contains(page),
    ensures
        final(list).wf(),
        final(list)@ == freed(old(list)@, page),
        link == link_write(old(list)@, page),
{
    let next: usize = match list.pages.last() {
        Some(p) => *p,
        None => 0,
    };
    list.pages.push(page);
    RegWrite { addr: page, value: next }
}

/// Allocate a page: pop the front of the free list. Returns 0 (null) when
/// no page is free.
pub fn kalloc(list: &mut FreeList) -> (page: usize)
    requires
        old(list).wf(),
    ensures
        final(list).wf(),
        (page, final(list)@) == allocated(old(list)@),
        old(list)@.len() > 0 ==> is_page(page),
{
    match list.pages.pop() {
        Some(p) => {
            proof {
                assert(list.pages@ == old(list).pages@.drop_last());
                assert forall|i: int, j: int|
                    0 <= i < j < list.pages@.len() implies list.pages@[i] != list.pages@[j] by {
                    assert(list.pages@[i] == old(list).pages@[i]);
                    assert(list.pages@[j] == old(list).pages@[j]);
                }
            }
            p
        },
        None => 0,
    }
}

/// Number of pages on the free list.
pub fn free_page_count(list: &FreeList) -> (count: usize)
    ensures
        count == list@.len(),
{
    list.pages.len()
}

/// The mask expression used by `init` rounds up to a page boundary.
proof fn lemma_round_up_mask(addr: usize)
    requires
        addr + PAGE_SIZE - 1 <= usize::MAX,
    ensures
        ((addr + 4095) as usize) & !4095usize == align_up(addr as int),
        align_up(addr as int) % (PAGE_SIZE as int) == 0,
        addr <= align_up(addr as int) < addr + PAGE_SIZE,
{
    let x: usize = (addr + 4095) as usize;
    assert(x & !4095usize == (x / 4096) * 4096) by (bit_vector);
    assert(((x / 4096) * 4096) % 4096 == 0) by (nonlinear_arith);
    assert(x - 4096 < (x / 4096) * 4096 <= x) by (nonlinear_arith);
}

/// Build the free list: free every whole page from the end of the kernel
/// image, rounded up to a page boundary, to the top of RAM, lowest first.
/// Returns the link stores of those frees, in order.
pub fn init(list: &mut FreeList, kernel_end: usize) -> (links: Vec<RegWrite<usize>>)
    requires
        old(list).wf(),
        0 < kernel_end,
        kernel_end + PAGE_SIZE - 1 <= usize::MAX,
        align_up(kernel_end as int) + PAGE_SIZE <= usize::MAX,
        forall|i: int|
            0 <= i < heap_pages(kernel_end as int).len() ==> !old(list)@.contains(
                #[trigger] heap_pages(kernel_end as int)[i],
            ),
    ensures
        final(list).wf(),
        final(list)@ == old(list)@ + heap_pages(kernel_end as int),
        links@ == init_links(old(list)@, heap_pages(kernel_end as int)),
{
    proof {
        lemma_round_up_mask(kernel_end);
    }
    let mut links: Vec<RegWrite<usize>> = Vec::new();
    let heap_start: usize = (kernel_end + PAGE_SIZE - 1) & !(PAGE_SIZE - 1);
    let ghost pages = heap_pages(kernel_end as int);
    let ghost start = heap_start as int;
    let mut addr: usize = heap_start;
    let ghost mut k: int = 0;
    while addr + PAGE_SIZE <= PHYS_END
        invariant
            list.wf(),
            start == align_up(kernel_end as int),
            start % (PAGE_SIZE as int) == 0,
            0 < start,
            start + PAGE_SIZE <= usize::MAX,
            pages == heap_pages(kernel_end as int),
            0 <= k,
            addr == start + k * PAGE_SIZE,
            k > 0 ==> addr <= PHYS_END,
            k <= pages.len(),
            list@ == old(list)@ + pages.take(k),
            links@ == init_links(old(list)@, pages).take(k),
            forall|i: int| 0 <= i < pages.len() ==> !old(list)@.contains(#[trigger] pages[i]),
        decreases PHYS_END + PAGE_SIZE - addr,
    {
        assert(k < pages.len());
        assert(pages[k] == addr);
        assert(!pages.take(k).contains(addr)) by {
            if pages.take(k).contains(addr) {
                let j = choose|j: int| 0 <= j < k && pages.take(k)[j] == addr;
                assert(pages[j] == start + j * PAGE_SIZE);
            }
        }
        assert(!(old(list)@ + pages.take(k)).contains(addr)) by {
            if (old(list)@ + pages.take(k)).contains(addr) {
                let j = choose|j: int| 0 <= j < list@.len() && list@[j] == addr;
                if j < old(list)@.len() {
                    assert(old(list)@.contains(addr));
                } else {
                    assert(pages.take(k)[j - old(list)@.len()] == addr);
                }
            }
        }
        let ghost before = list@;
        let link = kfree(list, addr);
        assert(head(before) == if k == 0 { head(old(list)@) } else { pages[k - 1] }) by {
            if k > 0 {
                assert(before[before.len() - 1] == pages.take(k)[k - 1]);
            } else {
                assert(before =~= old(list)@);
            }
        }
        links.push(link);
        assert(links@ =~= init_links(old(list)@, pages).take(k + 1));
        assert(pages.take(k + 1) == pages.take(k).push(addr));
        addr = addr + PAGE_SIZE;
        proof {
            k = k + 1;
        }
    }
    assert(k == pages.len());
    assert(pages.take(k) == pages);
    assert(init_links(old(list)@, pages).take(k) =~= init_links(old(list)@, pages));
    links
}

/// Whether `page` may be handed to `kfree`: it is a non-null, page-aligned
/// address that is not already on the free list.
pub fn can_free(list: &FreeList, page: usize) -> (ok: bool)
    ensures
        ok == (is_page(page) && !list@.contains(page)),
{
    if page == 0 || page % PAGE_SIZE != 0 {
        return false;
    }
    let mut i: usize = 0;
    while i < list.pages.len()
        invariant
            i <= list.pages@.len(),
            forall|j: int| 0 <= j < i ==> list.pages@[j] != page,
        decreases list.pages@.len() - i,
    {
        if list.pages[i] == page {
            assert(list@[i as int] == page);
            return false;
        }
        i = i + 1;
    }
    true
}

/// Memory held by `pages` pages, in whole MiB, as the boot banner prints it.
pub fn free_megabytes(pages: usize) -> (mib: usize)
    requires
        pages * PAGE_SIZE <= usize::MAX,
    ensures
        mib == (pages * PAGE_SIZE) / 0x10_0000int,
{
    (pages * PAGE_SIZE) / (1024 * 1024)
}

/// Allocating right after freeing `page` hands `page` back and leaves the
/// free list as it was before the free.
pub proof fn lemma_kalloc_undoes_kfree(list: Seq<usize>, page: usize)
    ensures
        allocated(freed(list, page)) == (page, list),
{
    assert(freed(list, page).drop_last() =~= list);
}

/// Freeing adds one page to the count. Allocation gives null exactly when
/// no page is free, and then leaves the list as it is; a non-null page takes
/// one page off the count.
pub proof fn lemma_count_and_null(list: Seq<usize>, page: usize)
    requires
        valid_pages(list),
    ensures
        freed(list, page).len() == list.len() + 1,
        (allocated(list).0 == 0) <==> list.len() == 0,
        allocated(list).0 == 0 ==> allocated(list).1 == list,
        allocated(list).0 != 0 ==> allocated(list).1.len() == list.len() - 1,
{
    if list.len() > 0 {
        assert(is_page(list[list.len() - 1]));
    }
}

/// The pages handed out by `k` successive allocations from `list`, with no
/// free in between.
pub open spec fn allocations(list: Seq<usize>, k: nat) -> Seq<usize>
    decreases k,
{
    if k == 0 {
        Seq::empty()
    } else {
        seq![allocated(list).0] + allocations(allocated(list).1, (k - 1) as nat)
    }
}

/// The free list left after `k` successive allocations from `list`.
pub open spec fn after_allocations(list: Seq<usize>, k: nat) -> Seq<usize>
    decreases k,
{
    if k == 0 {
        list
    } else {
        after_allocations(allocated(list).1, (k - 1) as nat)
    }
}

/// Allocating as many times as there are free pages hands out every free
/// page, non-null, most recently freed first, and empties the list; the next
/// allocation gives null.
pub proof fn lemma_allocate_all(list: Seq<usize>)
    requires
        valid_pages(list),
    ensures
        allocations(list, list.len()).len() == list.len(),
        forall|i: int|
            0 <= i < list.len() ==> #[trigger] allocations(list, list.len())[i] == list[list.len() - 1 - i]
                && is_page(allocations(list, list.len())[i]),
        after_allocations(list, list.len()) == Seq::<usize>::empty(),
        allocated(after_allocations(list, list.len())).0 == 0,
    decreases list.len(),
{
    if list.len() > 0 {
        let rest = list.drop_last();
        assert(valid_pages(rest)) by {
            assert forall|i: int| 0 <= i < rest.len() implies is_page(#[trigger] rest[i]) by {
                assert(rest[i] == list[i]);
            }
            assert forall|i: int, j: int| 0 <= i < rest.len() && 0 <= j < rest.len() && i != j
                implies rest[i] != rest[j] by {
                assert(rest[i] == list[i]);
                assert(rest[j] == list[j]);
            }
        }
        lemma_allocate_all(rest);
        let n = list.len();
        assert(allocated(list) == (list[n - 1], rest));
        assert(allocations(list, n) == seq![list[n - 1]] + allocations(rest, rest.len()));
        assert(is_page(list[n - 1]));
        assert forall|i: int| 0 <= i < n implies #[trigger] allocations(list, n)[i] == list[n - 1 - i]
            && is_page(allocations(list, n)[i]) by {
            if i > 0 {
                assert(allocations(list, n)[i] == allocations(rest, rest.len())[i - 1]);
                assert(rest[rest.len() - 1 - (i - 1)] == list[n - 1 - i]);
            }
        }
    } else {
        assert(list =~= Seq::<usize>::empty());
    }
}

/// The page handed out is no longer on the free list, so no page is handed
/// out twice without being freed in between.
pub proof fn lemma_allocated_page_leaves_list(list: Seq<usize>)
    requires
        valid_pages(list),
        list.len() > 0,
    ensures
        !allocated(list).1.contains(allocated(list).0),
{
    let (page, rest) = allocated(list);
    if rest.contains(page) {
        let j = choose|j: int| 0 <= j < rest.len() && rest[j] == page;
        assert(list[j] == list[list.len() - 1]);
    }
}

/// The pages `init` frees are exactly the whole pages between the end of the
/// kernel image, rounded up to a page boundary, and the top of RAM: each is
/// page aligned and lies wholly in that range, they ascend one page apart,
/// and there are as many as fit.
pub proof fn lemma_heap_pages_fill_ram(kernel_end: usize)
    requires
        0 < kernel_end,
        kernel_end + PAGE_SIZE - 1 <= usize::MAX,
    ensures
        heap_pages(kernel_end as int).len() == pages_below_phys_end(align_up(kernel_end as int)),
        heap_pages(kernel_end as int).len() > 0 ==> heap_pages(kernel_end as int)[0] == align_up(kernel_end as int),
        forall|i: int|
            0 <= i < heap_pages(kernel_end as int).len() ==> {
                let p = #[trigger] heap_pages(kernel_end as int)[i];
                &&& is_page(p)
                &&& kernel_end <= p
                &&& p + PAGE_SIZE <= PHYS_END
                &&& (i + 1 < heap_pages(kernel_end as int).len() ==> heap_pages(kernel_end as int)[i + 1] == p + PAGE_SIZE)
            },
        align_up(kernel_end as int) + PAGE_SIZE * heap_pages(kernel_end as int).len() <= PHYS_END
            || heap_pages(kernel_end as int).len() == 0,
        align_up(kernel_end as int) + PAGE_SIZE * (heap_pages(kernel_end as int).len() + 1) > PHYS_END,
        0x8000_0000 <= kernel_end ==> heap_pages(kernel_end as int).len() <= 0x8000,
{
    lemma_round_up_mask(kernel_end);
    let start = align_up(kernel_end as int);
    let pages = heap_pages(kernel_end as int);
    let n = pages.len() as int;
    assert forall|i: int| 0 <= i < n implies {
        let p = #[trigger] pages[i];
        &&& is_page(p)
        &&& kernel_end <= p
        &&& p + PAGE_SIZE <= PHYS_END
        &&& (i + 1 < n ==> pages[i + 1] == p + PAGE_SIZE)
    } by {
        assert(start + i * PAGE_SIZE + PAGE_SIZE <= start + n * PAGE_SIZE);
        assert((start + i * PAGE_SIZE) % (PAGE_SIZE as int) == 0);
    }
}

/// What the boot-time check of the allocator found.
#[derive(Clone, Copy, Debug, PartialEq, Eq, Structural)]
pub struct BootReport {
    /// Pages on the free list.
    pub free_pages: usize,
    /// The same in whole MiB.
    pub megabytes: usize,
    /// The page a test allocation returned (0 when it failed).
    pub page: usize,
    /// The link store made when that page was freed again.
    pub link: Option<RegWrite<usize>>,
}

/// The allocator check run at boot: count the free pages, allocate one page
/// and, when that succeeded, free it again.
pub fn boot_check(list: &mut FreeList) -> (report: BootReport)
    requires
        old(list).wf(),
        old(list)@.len() * PAGE_SIZE <= usize::MAX,
    ensures
        final(list).wf(),
        final(list)@ == old(list)@,
        report.free_pages == old(list)@.len(),
        report.megabytes == (old(list)@.len() * PAGE_SIZE) / 0x10_0000int,
        report.page == allocated(old(list)@).0,
        report.link == (if report.page == 0 {
            None
        } else {
            Some(link_write(allocated(old(list)@).1, report.page))
        }),
{
    let free_pages = free_page_count(list);
    let page = kalloc(list);
    let megabytes = free_megabytes(free_pages);
    if page != 0 {
        proof {
            lemma_allocated_page_leaves_list(old(list)@);
            if list@.len() == 0 && old(list)@.len() > 0 {
                assert(is_page(old(list)@[old(list)@.len() - 1]));
            }
        }
        let link = kfree(list, page);
        assert(list@ =~= old(list)@);
        BootReport { free_pages, megabytes, page, link: Some(link) }
    } else {
        BootReport { free_pages, megabytes, page, link: None }
    }
}

} // verus!
