//! Bump allocator over a heap region.
//!
//! The region's first bytes hold a [`Header`]: the current end of the
//! allocated area and one value of the global state `G` that the allocator's
//! owner reserves.  Allocations follow the header and only ever move the end
//! forward; freeing or resizing the most recent block moves it back.
//!
//! Addresses are plain integers.  The allocator owns the bytes of its region,
//! from `start` up to its limit, and hands them out through
//! [`BumpAllocator::read`] and [`BumpAllocator::write`].

use vstd::prelude::*;
use vstd::layout::{align_of, layout_for_type_is_valid, size_of};
use crate::bytes::{align_up, lemma_align_up};
use crate::ptr::{align_addr, check_power_of_two, copied, is_power_of_two, memcpy, no_overlap};

verus! {

/// Start address of the program heap region on the runtime.
pub const HEAP_START_ADDRESS: u64 = 0x3_0000_0000;

/// Length of heap that the runtime grants whatever the transaction asked for.
pub const HEAP_LENGTH: usize = 32 * 1024;

/// Start address of the program input region, where the heap region ends at
/// the latest.
pub const PROGRAM_INPUT_ADDRESS: u64 = 0x4_0000_0000;

/// Size and alignment of a block; the alignment is a power of two.
#[derive(Clone, Copy, Debug)]
pub struct Layout {
    pub size: usize,
    pub align: usize,
}

impl Layout {
    pub open spec fn valid(&self) -> bool {
        is_power_of_two(self.align as int)
    }

    /// The layout of `size` bytes aligned to `align`; `None` where `align` is
    /// not a power of two.
    pub fn from_size_align(size: usize, align: usize) -> (r: Option<Layout>)
        ensures
            r is Some <==> is_power_of_two(align as int),
            r matches Some(l) ==> l.size == size && l.align == align && l.valid(),
    {
        if check_power_of_two(align) {
            Some(Layout { size, align })
        } else {
            None
        }
    }
}

/// What the allocator keeps at the front of its region.
pub struct Header<G> {
    end_pos: Option<usize>,
    global: G,
}

/// Where the header placed at the front of a region that starts at `start`
/// ends.
pub open spec fn header_end_for<G>(start: int) -> int {
    align_up(start, align_of::<Header<G>>() as int) + size_of::<Header<G>>()
}

/// The first free address: the end of the allocated area, or the end of the
/// header before anything was allocated.
pub open spec fn cursor_of(end_pos: Option<int>, header_end: int) -> int {
    match end_pos {
        Some(e) => e,
        None => header_end,
    }
}

/// An address handed out, as an integer.
pub open spec fn addr_view(r: Option<usize>) -> Option<int> {
    match r {
        Some(a) => Some(a as int),
        None => None,
    }
}

/// Places a block of `size` bytes aligned to `align` at `from` rounded up:
/// the new end and the block's address, or the end unchanged and `None` where
/// the block would pass `limit`.
pub open spec fn place(end_pos: Option<int>, from: int, limit: int, size: int, align: int) -> (
    Option<int>,
    Option<int>,
) {
    let p = align_up(from, align);
    if p + size <= limit {
        (Some(p + size), Some(p))
    } else {
        (end_pos, None)
    }
}

/// Allocation: the new end and the address handed out.
pub open spec fn alloc_step(end_pos: Option<int>, header_end: int, limit: int, l: Layout) -> (
    Option<int>,
    Option<int>,
) {
    place(end_pos, cursor_of(end_pos, header_end), limit, l.size as int, l.align as int)
}

/// Freeing: the end moves back to `ptr` where the block is the last one, and
/// stays otherwise.
pub open spec fn free_step(end_pos: Option<int>, ptr: int, size: int) -> Option<int> {
    if end_pos == Some(ptr + size) {
        Some(ptr)
    } else {
        end_pos
    }
}

/// Whether resizing the block at `ptr` of `size` bytes to `new_size` moves it.
pub open spec fn moves(end_pos: Option<int>, ptr: int, size: int, new_size: int) -> bool {
    end_pos != Some(ptr + size) && new_size > size
}

/// Resizing: the last block is resized in place, a shrinking block stays, and
/// any other growing block moves past the allocated area.
pub open spec fn realloc_step(
    end_pos: Option<int>,
    header_end: int,
    limit: int,
    ptr: int,
    l: Layout,
    new_size: int,
) -> (Option<int>, Option<int>) {
    if end_pos == Some(ptr + l.size) {
        place(end_pos, ptr, limit, new_size, l.align as int)
    } else if new_size <= l.size {
        (end_pos, Some(ptr))
    } else {
        place(end_pos, cursor_of(end_pos, header_end), limit, new_size, l.align as int)
    }
}

/// `m` with `bytes` written from index `at`.
pub open spec fn written(m: Seq<u8>, at: int, bytes: Seq<u8>) -> Seq<u8> {
    Seq::new(m.len(), |i: int| if at <= i < at + bytes.len() { bytes[i - at] } else { m[i] })
}

/// Bump allocator over a region of `memory().len()` bytes starting at address
/// `start()`, with global state of type `G` kept in its header.
pub struct BumpAllocator<G> {
    heap: Vec<u8>,
    start: usize,
    header_end: usize,
    header: Header<G>,
}

impl<G> BumpAllocator<G> {
    /// First address of the region.
    pub closed spec fn start(&self) -> int {
        self.start as int
    }

    /// The address past the region, which no block may pass.
    pub closed spec fn limit(&self) -> int {
        self.start + self.heap@.len()
    }

    /// The address where the header ends and allocations begin.
    pub closed spec fn header_end(&self) -> int {
        self.header_end as int
    }

    /// The end of the allocated area; `None` before the first allocation.
    pub closed spec fn end_pos(&self) -> Option<int> {
        addr_view(self.header.end_pos)
    }

    /// The bytes of the region, the one at `start()` first.
    pub closed spec fn memory(&self) -> Seq<u8> {
        self.heap@
    }

    /// The global state kept in the header.
    pub closed spec fn global_state(&self) -> G {
        self.header.global
    }

    /// The first free address.
    pub open spec fn cursor(&self) -> int {
        cursor_of(self.end_pos(), self.header_end())
    }

    pub closed spec fn wf(&self) -> bool {
        &&& self.start + self.heap@.len() <= usize::MAX
        &&& self.start <= self.header_end <= self.start + self.heap@.len()
        &&& self.header.end_pos matches Some(e) ==> self.header_end <= e <= self.start
            + self.heap@.len()
    }

    /// Whether `self` and `other` have the same region, header and global
    /// state.
    pub open spec fn same_region(&self, other: &Self) -> bool {
        &&& self.start() == other.start()
        &&& self.limit() == other.limit()
        &&& self.header_end() == other.header_end()
        &&& self.global_state() == other.global_state()
    }

    /// Takes over the region of `heap.len()` bytes that starts at address
    /// `start`, of which the first `safe_len` are sure to exist, and puts
    /// `global` in the header at its front.  `None` where the header does not
    /// fit in those first `safe_len` bytes.
    pub fn new(start: usize, heap: Vec<u8>, safe_len: usize, global: G) -> (r: Option<Self>)
        requires
            start + heap@.len() <= usize::MAX,
            safe_len <= heap@.len(),
        ensures
            r is None <==> header_end_for::<G>(start as int) > start + safe_len,
            r matches Some(a) ==> {
                &&& a.wf()
                &&& a.start() == start
                &&& a.limit() == start + heap@.len()
                &&& a.header_end() == header_end_for::<G>(start as int)
                &&& a.end_pos() is None
                &&& a.memory() == heap@
                &&& a.global_state() == global
            },
    {
        layout_for_type_is_valid::<Header<G>>();
        let align = core::mem::align_of::<Header<G>>();
        let size = core::mem::size_of::<Header<G>>();
        let addr = match align_addr(start, align) {
            None => {
                return None;
            },
            Some(a) => a,
        };
        let safe_end = start + safe_len;
        if addr > safe_end || safe_end - addr < size {
            return None;
        }
        proof {
            lemma_align_up(start as int, align as int);
        }
        Some(BumpAllocator { heap, start, header_end: addr + size, header: Header { end_pos: None, global } })
    }

    /// Takes over the runtime's heap region, whose first [`HEAP_LENGTH`] bytes
    /// always exist and which ends before the program input region.  The
    /// runtime's addresses need a 64-bit address space.
    pub fn for_runtime(heap: Vec<u8>, global: G) -> (r: Option<Self>)
        requires
            PROGRAM_INPUT_ADDRESS <= usize::MAX,
            HEAP_LENGTH <= heap@.len() <= PROGRAM_INPUT_ADDRESS - HEAP_START_ADDRESS,
        ensures
            r is None <==> header_end_for::<G>(HEAP_START_ADDRESS as int) > HEAP_START_ADDRESS
                + HEAP_LENGTH,
            r matches Some(a) ==> {
                &&& a.wf()
                &&& a.start() == HEAP_START_ADDRESS
                &&& a.limit() == HEAP_START_ADDRESS + heap@.len()
                &&& a.header_end() == header_end_for::<G>(HEAP_START_ADDRESS as int)
                &&& a.end_pos() is None
                &&& a.memory() == heap@
                &&& a.global_state() == global
            },
    {
        Self::new(HEAP_START_ADDRESS as usize, heap, HEAP_LENGTH, global)
    }

    /// First address of the region.
    pub fn heap_start(&self) -> (r: usize)
        ensures
            r == self.start(),
    {
        self.start
    }

    /// The address past the region.
    pub fn heap_limit(&self) -> (r: usize)
        requires
            self.wf(),
        ensures
            r == self.limit(),
    {
        self.start + self.heap.len()
    }

    /// The end of the allocated area; `None` before the first allocation.
    pub fn end_position(&self) -> (r: Option<usize>)
        ensures
            addr_view(r) == self.end_pos(),
    {
        self.header.end_pos
    }

    /// The global state reserved in the header.
    pub fn global(&self) -> (r: &G)
        ensures
            *r == self.global_state(),
    {
        &self.header.global
    }

    /// The first free address.
    fn current_cursor(&self) -> (r: usize)
        ensures
            r == self.cursor(),
    {
        match self.header.end_pos {
            Some(e) => e,
            None => self.header_end,
        }
    }

    /// Places a block of `size` bytes at `ptr` rounded up to `align` and moves
    /// the end past it, unless the block would pass the limit.
    fn update_end_pos(&mut self, ptr: usize, size: usize, align: usize) -> (r: Option<usize>)
        requires
            old(self).wf(),
            align > 0,
            old(self).header_end() <= ptr,
        ensures
            final(self).wf(),
            final(self).same_region(old(self)),
            final(self).memory() == old(self).memory(),
            (final(self).end_pos(), addr_view(r)) == place(
                old(self).end_pos(),
                ptr as int,
                old(self).limit(),
                size as int,
                align as int,
            ),
    {
        proof {
            lemma_align_up(ptr as int, align as int);
        }
        let limit = self.start + self.heap.len();
        let p = match align_addr(ptr, align) {
            None => {
                return None;
            },
            Some(p) => p,
        };
        if p > limit || limit - p < size {
            return None;
        }
        self.header.end_pos = Some(p + size);
        Some(p)
    }

    /// Allocates a block of `layout` past the allocated area; `None` where it
    /// would pass the limit, and then nothing changes.
    pub fn allocate(&mut self, layout: Layout) -> (r: Option<usize>)
        requires
            old(self).wf(),
            layout.valid(),
        ensures
            final(self).wf(),
            final(self).same_region(old(self)),
            final(self).memory() == old(self).memory(),
            (final(self).end_pos(), addr_view(r)) == alloc_step(
                old(self).end_pos(),
                old(self).header_end(),
                old(self).limit(),
                layout,
            ),
    {
        let cursor = self.current_cursor();
        self.update_end_pos(cursor, layout.size, layout.align)
    }

    /// Frees the block of `layout` at `ptr`: the end moves back to `ptr` where
    /// the block is the last one; any other block stays allocated.
    pub fn deallocate(&mut self, ptr: usize, layout: Layout)
        requires
            old(self).wf(),
            old(self).header_end() <= ptr,
            ptr + layout.size <= old(self).cursor(),
        ensures
            final(self).wf(),
            final(self).same_region(old(self)),
            final(self).memory() == old(self).memory(),
            final(self).end_pos() == free_step(old(self).end_pos(), ptr as int, layout.size as int),
    {
        match self.header.end_pos {
            Some(e) => {
                if ptr + layout.size == e {
                    self.header.end_pos = Some(ptr);
                }
            },
            None => {},
        }
    }

    /// Resizes the block of `layout` at `ptr` to `new_size` bytes.  The last
    /// block is resized in place; a block that shrinks stays where it is; any
    /// other block that grows is copied to a new block past the allocated
    /// area.  `None` where the block would pass the limit, and then nothing
    /// changes.
    pub fn reallocate(&mut self, ptr: usize, layout: Layout, new_size: usize) -> (r: Option<usize>)
        requires
            old(self).wf(),
            layout.valid(),
            old(self).header_end() <= ptr,
            ptr + layout.size <= old(self).cursor(),
        ensures
            final(self).wf(),
            final(self).same_region(old(self)),
            (final(self).end_pos(), addr_view(r)) == realloc_step(
                old(self).end_pos(),
                old(self).header_end(),
                old(self).limit(),
                ptr as int,
                layout,
                new_size as int,
            ),
            moves(old(self).end_pos(), ptr as int, layout.size as int, new_size as int) ==> (r matches Some(
                q,
            ) ==> final(self).memory() == copied(
                old(self).memory(),
                q - old(self).start(),
                ptr - old(self).start(),
                layout.size as int,
            )),
            !(r is Some && moves(old(self).end_pos(), ptr as int, layout.size as int, new_size as int))
                ==> final(self).memory() == old(self).memory(),
    {
        let is_tail = match self.header.end_pos {
            Some(e) => ptr + layout.size == e,
            None => false,
        };
        if is_tail {
            return self.update_end_pos(ptr, new_size, layout.align);
        }
        if new_size <= layout.size {
            return Some(ptr);
        }
        let cursor = self.current_cursor();
        let r = self.update_end_pos(cursor, new_size, layout.align);
        match r {
            Some(q) => {
                proof {
                    lemma_align_up(cursor as int, layout.align as int);
                }
                memcpy(&mut self.heap, q - self.start, ptr - self.start, layout.size);
            },
            None => {},
        }
        r
    }

    /// The `len` bytes of the region from address `addr`.
    pub fn read(&self, addr: usize, len: usize) -> (r: &[u8])
        requires
            self.wf(),
            self.start() <= addr,
            addr + len <= self.limit(),
        ensures
            r@ == self.memory().subrange(addr - self.start(), addr - self.start() + len),
    {
        vstd::slice::slice_subrange(self.heap.as_slice(), addr - self.start, addr - self.start + len)
    }

    /// Writes `bytes` to the region from address `addr`.
    pub fn write(&mut self, addr: usize, bytes: &[u8])
        requires
            old(self).wf(),
            old(self).start() <= addr,
            addr + bytes@.len() <= old(self).limit(),
        ensures
            final(self).wf(),
            final(self).same_region(old(self)),
            final(self).end_pos() == old(self).end_pos(),
            final(self).memory() == written(old(self).memory(), addr - old(self).start(), bytes@),
    {
        let at = addr - self.start;
        let mut i: usize = 0;
        while i < bytes.len()
            invariant
                i <= bytes@.len(),
                at + bytes@.len() <= old(self).memory().len(),
                self.wf(),
                self.same_region(old(self)),
                self.end_pos() == old(self).end_pos(),
                self.memory().len() == old(self).memory().len(),
                forall|j: int|
                    0 <= j < self.memory().len() && !(at <= j < at + i) ==> self.memory()[j]
                        == old(self).memory()[j],
                forall|j: int| at <= j < at + i ==> self.memory()[j] == bytes@[j - at],
            decreases bytes@.len() - i,
        {
            self.heap[at + i] = bytes[i];
            i = i + 1;
        }
        assert(self.memory() =~= written(old(self).memory(), at as int, bytes@));
    }
}

/// Freeing the block that was just allocated moves the end back to the
/// block's address; where the first free address was already aligned for it,
/// that is where the first free address stood before the allocation.
pub proof fn lemma_free_last_rolls_back(end_pos: Option<int>, header_end: int, limit: int, l: Layout)
    requires
        l.valid(),
        0 <= cursor_of(end_pos, header_end),
        alloc_step(end_pos, header_end, limit, l).1 is Some,
    ensures
        ({
            let (after, r) = alloc_step(end_pos, header_end, limit, l);
            let p = r->0;
            &&& free_step(after, p, l.size as int) == Some(p)
            &&& cursor_of(end_pos, header_end) % (l.align as int) == 0 ==> cursor_of(
                free_step(after, p, l.size as int),
                header_end,
            ) == cursor_of(end_pos, header_end)
        }),
{
    lemma_align_up(cursor_of(end_pos, header_end), l.align as int);
}

/// Freeing a block that a later block of at least one byte follows leaves the
/// end where it is.
pub proof fn lemma_free_earlier_keeps_end(
    end_pos: Option<int>,
    header_end: int,
    limit: int,
    a: Layout,
    b: Layout,
)
    requires
        a.valid(),
        b.valid(),
        b.size > 0,
        0 <= cursor_of(end_pos, header_end),
        alloc_step(end_pos, header_end, limit, a).1 is Some,
        alloc_step(alloc_step(end_pos, header_end, limit, a).0, header_end, limit, b).1 is Some,
    ensures
        ({
            let (mid, ra) = alloc_step(end_pos, header_end, limit, a);
            let (after, _) = alloc_step(mid, header_end, limit, b);
            free_step(after, ra->0, a.size as int) == after
        }),
{
    let (mid, ra) = alloc_step(end_pos, header_end, limit, a);
    lemma_align_up(cursor_of(end_pos, header_end), a.align as int);
    lemma_align_up(cursor_of(mid, header_end), b.align as int);
}

/// Growing the block that was just allocated keeps it at its address, as long
/// as the grown block stays within the limit.
pub proof fn lemma_grow_last_in_place(
    end_pos: Option<int>,
    header_end: int,
    limit: int,
    l: Layout,
    new_size: int,
)
    requires
        l.valid(),
        0 <= new_size,
        0 <= cursor_of(end_pos, header_end),
        alloc_step(end_pos, header_end, limit, l).1 is Some,
        alloc_step(end_pos, header_end, limit, l).1->0 + new_size <= limit,
    ensures
        ({
            let (after, r) = alloc_step(end_pos, header_end, limit, l);
            let p = r->0;
            realloc_step(after, header_end, limit, p, l, new_size) == (Some(p + new_size), Some(p))
        }),
{
    lemma_align_up(cursor_of(end_pos, header_end), l.align as int);
}

/// Growing a block that is not the last one moves it to a block that does not
/// overlap it, and the copy made on the way holds the block's bytes.
pub proof fn lemma_grow_earlier_moves(
    end_pos: Option<int>,
    header_end: int,
    start: int,
    memory: Seq<u8>,
    ptr: int,
    l: Layout,
    new_size: int,
)
    requires
        l.valid(),
        end_pos is Some,
        0 <= start <= header_end <= ptr,
        ptr + l.size <= cursor_of(end_pos, header_end),
        moves(end_pos, ptr, l.size as int, new_size),
        realloc_step(end_pos, header_end, start + memory.len(), ptr, l, new_size).1 is Some,
    ensures
        ({
            let q = realloc_step(end_pos, header_end, start + memory.len(), ptr, l, new_size).1->0;
            &&& q != ptr
            &&& no_overlap(q, l.size as int, ptr, l.size as int)
            &&& copied(memory, q - start, ptr - start, l.size as int).subrange(
                q - start,
                q - start + l.size,
            ) == memory.subrange(ptr - start, ptr - start + l.size)
        }),
{
    let q = realloc_step(end_pos, header_end, start + memory.len(), ptr, l, new_size).1->0;
    lemma_align_up(cursor_of(end_pos, header_end), l.align as int);
    assert(copied(memory, q - start, ptr - start, l.size as int).subrange(
        q - start,
        q - start + l.size,
    ) =~= memory.subrange(ptr - start, ptr - start + l.size));
}

/// An allocation whose end would pass the limit fails and changes nothing,
/// so the same call fails again in the same way.
pub proof fn lemma_alloc_past_limit_fails(end_pos: Option<int>, header_end: int, limit: int, l: Layout)
    requires
        align_up(cursor_of(end_pos, header_end), l.align as int) + l.size > limit,
    ensures
        alloc_step(end_pos, header_end, limit, l) == (end_pos, None::<int>),
        alloc_step(alloc_step(end_pos, header_end, limit, l).0, header_end, limit, l)
            == alloc_step(end_pos, header_end, limit, l),
{
}

} // verus!
