//! The arithmetic of building an address space: whole pages, stacks, and the scratch frames
//! that page tables are made of.

use crate::config::PAGE_SIZE;
use crate::pci::pages_for;
use vstd::prelude::*;

verus! {

/// Permission bits of a mapping: loads.
pub const PERM_R: usize = 1;

/// Stores.
pub const PERM_W: usize = 2;

/// Instruction fetches.
pub const PERM_X: usize = 4;

/// User mode.
pub const PERM_U: usize = 8;

/// Code of a user process: read, execute, user.
pub const USER_CODE: usize = 13;

/// Data of a user process: read, write, user.
pub const USER_DATA: usize = 11;

/// How many scratch frames a mapping reports to have used if it failed.
pub const MAP_FAILED: u32 = 0xffff_ffff;

/// Bytes of a page table's root: some machines keep companion tables right behind it.
pub const ROOT_TABLE_BYTES: usize = 12288;

/// Alignment of a stack pointer.
pub const STACK_ALIGN: usize = 16;

/// Bytes per identity-mapped block.
pub const GIB: u64 = 0x4000_0000;

/// The length in bytes of the pages that hold `n` bytes.
pub open spec fn whole(n: int) -> int {
    pages_for(n) * PAGE_SIZE
}

/// The length in bytes of the pages that hold `n` bytes.
pub fn round4k(n: usize) -> (r: usize)
    requires
        n + PAGE_SIZE - 1 <= usize::MAX,
    ensures
        r == whole(n as int),
        n <= r < n + PAGE_SIZE,
        r % PAGE_SIZE == 0,
{
    (n + (PAGE_SIZE - 1)) / PAGE_SIZE * PAGE_SIZE
}

/// The stack pointer that a thread with this stack starts with.
pub open spec fn top_of(vma: int, len: int) -> int {
    (vma + len) - (vma + len) % STACK_ALIGN as int
}

/// The stack pointer that a thread with this stack starts with: its end, aligned.
pub fn stack_top(vma: usize, len: usize) -> (top: usize)
    requires
        vma + len <= usize::MAX,
    ensures
        top == top_of(vma as int, len as int),
        top <= vma + len < top + STACK_ALIGN,
{
    let end: usize = vma + len;
    end - end % STACK_ALIGN
}

/// How many GiB from address zero on have to be mapped for the kernel to keep running.
pub fn identity_gib(kernel_image_end: u64) -> (gib: u64)
    ensures
        gib == kernel_image_end as int / GIB as int + 1,
        kernel_image_end < gib * GIB,
{
    kernel_image_end / GIB + 1
}

/// Zeroed frames that page tables are made of, and how many are used up.
#[derive(Debug, Clone, Copy, PartialEq, Eq, Structural)]
pub struct PoolCursor {
    /// Physical address of the first frame.
    pub base: usize,
    /// How many frames there are.
    pub pages: usize,
    /// How many are used up.
    pub used: usize,
}

impl PoolCursor {
    /// No more is used than there is, and all of it is addressable.
    pub open spec fn wf(self) -> bool {
        &&& self.used <= self.pages
        &&& self.base + self.pages * PAGE_SIZE <= usize::MAX
    }

    /// Where the unused frames start.
    pub open spec fn free_base(self) -> int {
        self.base + self.used * PAGE_SIZE
    }

    /// How many frames are unused.
    pub open spec fn free_pages(self) -> int {
        self.pages - self.used
    }

    /// A mapping can have reported `n`.
    pub open spec fn can_use(self, n: u32) -> bool {
        n == MAP_FAILED || n <= self.free_pages()
    }

    /// The pool after a mapping used up `n` frames.
    pub open spec fn after(self, n: u32) -> PoolCursor {
        PoolCursor { used: (self.used + n) as usize, ..self }
    }

    /// A pool of which nothing is used.
    pub fn new(base: usize, pages: usize) -> (p: Self)
        requires
            base + pages * PAGE_SIZE <= usize::MAX,
        ensures
            p.wf(),
            p == (PoolCursor { base, pages, used: 0 }),
    {
        PoolCursor { base, pages, used: 0 }
    }

    /// Where the unused frames start, and how many there are.
    pub fn remaining(&self) -> (r: (usize, usize))
        requires
            self.wf(),
        ensures
            r.0 == self.free_base(),
            r.1 == self.free_pages(),
            r.0 + r.1 * PAGE_SIZE <= usize::MAX,
    {
        assert(self.used * PAGE_SIZE <= self.pages * PAGE_SIZE) by (nonlinear_arith)
            requires
                self.used <= self.pages,
        ;
        (self.base + self.used * PAGE_SIZE, self.pages - self.used)
    }

    /// Takes the frames out that a mapping used up. `false` if the mapping failed.
    pub fn consume(&mut self, n: u32) -> (ok: bool)
        requires
            old(self).wf(),
            old(self).can_use(n),
        ensures
            final(self).wf(),
            ok == (n != MAP_FAILED),
            *final(self) == if ok {
                old(self).after(n)
            } else {
                *old(self)
            },
    {
        if n == MAP_FAILED {
            return false;
        }
        self.used = self.used + n as usize;
        true
    }
}

/// A mapping of a physical range into an address space.
#[derive(Debug, Clone, Copy, PartialEq, Eq, Structural)]
pub struct RangeMapping {
    /// Physical address of the root page table.
    pub root_pt: usize,
    /// Virtual address.
    pub va: usize,
    /// Physical address.
    pub phys: usize,
    /// Length in bytes.
    pub len: usize,
    /// Permission bits.
    pub perm_bits: usize,
    /// Where unused scratch frames start.
    pub pool_base: usize,
    /// How many there are.
    pub pool_pages: usize,
}

/// A mapping that draws on a pool.
pub open spec fn mapping_from(
    pool: PoolCursor,
    root_pt: usize,
    va: usize,
    phys: usize,
    len: int,
    perm_bits: usize,
) -> RangeMapping {
    RangeMapping {
        root_pt,
        va,
        phys,
        len: len as usize,
        perm_bits,
        pool_base: pool.free_base() as usize,
        pool_pages: pool.free_pages() as usize,
    }
}

/// A mapping that draws on a pool.
pub fn map_from(
    pool: &PoolCursor,
    root_pt: usize,
    va: usize,
    phys: usize,
    len: usize,
    perm_bits: usize,
) -> (m: RangeMapping)
    requires
        pool.wf(),
    ensures
        m == mapping_from(*pool, root_pt, va, phys, len as int, perm_bits),
        m.pool_base == pool.free_base(),
        m.pool_pages == pool.free_pages(),
{
    let (pool_base, pool_pages) = pool.remaining();
    RangeMapping { root_pt, va, phys, len, perm_bits, pool_base, pool_pages }
}

/// No two mappings that draw on one pool get the same frame: what the later one is offered
/// starts behind what the earlier one used.
pub proof fn pools_are_used_once(pool: PoolCursor, n: u32)
    requires
        pool.wf(),
        pool.can_use(n),
        n != MAP_FAILED,
    ensures
        pool.after(n).wf(),
        pool.after(n).free_base() == pool.free_base() + n * PAGE_SIZE,
        pool.after(n).free_base() + pool.after(n).free_pages() * PAGE_SIZE == pool.base + pool.pages
            * PAGE_SIZE,
{
    assert((pool.used + n) * PAGE_SIZE == pool.used * PAGE_SIZE + n * PAGE_SIZE)
        by (nonlinear_arith);
    assert((pool.pages - pool.used - n) * PAGE_SIZE == pool.pages * PAGE_SIZE - pool.used
        * PAGE_SIZE - n * PAGE_SIZE) by (nonlinear_arith);
}

/// The image of the root task, linked at virtual addresses and loaded at physical ones.
#[derive(Debug, Clone, Copy, PartialEq, Eq, Structural)]
pub struct UserImage {
    /// Virtual address of the code.
    pub text_vma: usize,
    /// Physical address of the code.
    pub text_lma: usize,
    /// Length of the code in bytes, `0` if there is no image.
    pub text_len: usize,
    /// Virtual address of the stack.
    pub stack_vma: usize,
    /// Physical address of the stack.
    pub stack_lma: usize,
    /// Length of the stack in bytes.
    pub stack_len: usize,
    /// Where the root task starts.
    pub entry_vma: usize,
    /// Where the second process starts, `0` if there is none.
    pub worker_entry_vma: usize,
    /// Where the third process starts, `0` if there is none.
    pub subsystem_entry_vma: usize,
    /// Where the thread starts that takes over the root task's counting loop, `0` if there is
    /// none.
    pub a_loop_entry_vma: usize,
}

/// No image.
pub open spec fn no_image() -> UserImage {
    UserImage {
        text_vma: 0,
        text_lma: 0,
        text_len: 0,
        stack_vma: 0,
        stack_lma: 0,
        stack_len: 0,
        entry_vma: 0,
        worker_entry_vma: 0,
        subsystem_entry_vma: 0,
        a_loop_entry_vma: 0,
    }
}

impl UserImage {
    /// No image.
    pub fn empty() -> (u: Self)
        ensures
            u == no_image(),
    {
        UserImage {
            text_vma: 0,
            text_lma: 0,
            text_len: 0,
            stack_vma: 0,
            stack_lma: 0,
            stack_len: 0,
            entry_vma: 0,
            worker_entry_vma: 0,
            subsystem_entry_vma: 0,
            a_loop_entry_vma: 0,
        }
    }
}

impl Default for UserImage {
    /// No image.
    fn default() -> (u: Self)
        ensures
            u == no_image(),
    {
        UserImage::empty()
    }
}

} // verus!
