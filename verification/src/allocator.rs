//! The buddy allocator that carves the slab reserved in a plugin's linear memory.
//!
//! The slab is a tree of nodes. A node of order `k` covers `block_size * 2^k`
//! bytes; it is vacant, occupied as a whole, or split into two buddies of
//! order `k - 1`. Offsets inside the tree are relative to the slab's start.

use vstd::prelude::*;
use vstd::arithmetic::logarithm::log;
use vstd::arithmetic::logarithm::lemma_log_s;
use vstd::arithmetic::logarithm::lemma_log0;
use vstd::arithmetic::power2::pow2;
use vstd::arithmetic::power2::lemma_pow2_pos;
use vstd::arithmetic::power2::lemma_pow2_unfold;
use vstd::arithmetic::power2::lemma_pow2_adds;
use vstd::arithmetic::div_mod::lemma_fundamental_div_mod;
use vstd::arithmetic::div_mod::lemma_mod_multiples_vanish;
use vstd::arithmetic::power2::lemma_pow2_strictly_increases;
use crate::buddy::Node;
use crate::buddy::NodeState;
use crate::engine::grow_memory;
use crate::engine::memory_bytes;
use crate::engine::memory_store;
use crate::engine::store_id;
use crate::engine::memory_is_from_store;
use crate::error::AllocatorError;

verus! {

/// Size in bytes of one page of linear memory.
pub const PAGE_SIZE: u32 = 65536;

/// The largest number of pages a slab may span: the memory is grown by
/// `2^page_count` pages, and a linear memory holds 65536 pages at most.
pub const MAX_PAGE_COUNT: u32 = 16;

/// Parameters of the allocator: how many pages the slab spans and the
/// smallest block it hands out.
#[derive(Debug, Clone, Copy)]
pub struct WasmAllocatorOptions {
    pub page_count: u32,
    pub block_size: u32,
    pub max_level: u32,
}

/// Bytes covered by a block of the given order.
pub open spec fn block_bytes(block_size: int, order: nat) -> int {
    block_size * pow2(order)
}

/// Bytes of the slab that `page_count` pages make up.
pub open spec fn slab_bytes(page_count: int) -> int {
    page_count * 65536
}

/// The order of the block that covers the largest power-of-two number of
/// blocks fitting the slab.
pub open spec fn max_order(page_count: int, block_size: int) -> int {
    log(2, slab_bytes(page_count) / block_size)
}

/// The least order whose block holds `size` bytes.
pub open spec fn order_for_size(block_size: int, size: int) -> nat
    decreases size,
{
    if block_size <= 0 || size <= block_size {
        0
    } else {
        1 + order_for_size(block_size, (size + 1) / 2)
    }
}

impl WasmAllocatorOptions {
    /// The options are usable: the slab spans at least one page and at most
    /// `MAX_PAGE_COUNT`, and a block is neither empty nor larger than the slab.
    pub open spec fn valid(self) -> bool {
        &&& 1 <= self.page_count <= MAX_PAGE_COUNT
        &&& 1 <= self.block_size <= slab_bytes(self.page_count as int)
    }

    /// The options are usable and `max_level` holds the root's order.
    pub open spec fn resolved(self) -> bool {
        &&& self.valid()
        &&& self.max_level == max_order(self.page_count as int, self.block_size as int)
    }

    /// Options with the given slab size and block size. The root's order is
    /// left at zero until the allocator is built.
    pub fn new(page_count: u32, block_size: u32) -> (options: Self)
        ensures
            options.page_count == page_count,
            options.block_size == block_size,
            options.max_level == 0,
    {
        Self { page_count, block_size, max_level: 0 }
    }

    /// Whether the options are usable.
    pub fn is_valid(&self) -> (ok: bool)
        ensures
            ok == self.valid(),
    {
        1 <= self.page_count && self.page_count <= MAX_PAGE_COUNT && 1 <= self.block_size
            && self.block_size <= self.page_count * PAGE_SIZE
    }

    /// The same options with `max_level` set to the root's order.
    pub fn resolve(self) -> (options: Self)
        requires
            self.valid(),
        ensures
            options.resolved(),
            options.page_count == self.page_count,
            options.block_size == self.block_size,
    {
        let slab: u32 = self.page_count * PAGE_SIZE;
        let mut blocks: u32 = slab / self.block_size;
        let mut level: u32 = 0;
        assert(blocks >= 1) by (nonlinear_arith)
            requires
                1 <= self.block_size <= slab,
                blocks == slab / self.block_size,
        ;
        let ghost total: int = blocks as int;
        while blocks >= 2
            invariant
                1 <= blocks,
                blocks as int <= total <= u32::MAX,
                level + blocks <= total,
                log(2, total) == level + log(2, blocks as int),
            decreases blocks,
        {
            proof {
                lemma_log_s(2, blocks as int);
            }
            blocks = blocks / 2;
            level = level + 1;
        }
        proof {
            lemma_log0(2, blocks as int);
        }
        Self { page_count: self.page_count, block_size: self.block_size, max_level: level }
    }
}

impl Default for WasmAllocatorOptions {
    /// One page of slab in blocks of 512 bytes.
    fn default() -> (options: Self)
        ensures
            options.page_count == 1,
            options.block_size == 512,
            options.max_level == 0,
    {
        Self::new(1, 512)
    }
}

/// `block_size * 2^order`, for a block that fits the address space.
pub fn block_size_of(block_size: u32, order: u32) -> (bytes: u32)
    requires
        block_bytes(block_size as int, order as nat) <= u32::MAX,
    ensures
        bytes == block_bytes(block_size as int, order as nat),
{
    let mut bytes: u32 = block_size;
    let mut done: u32 = 0;
    proof {
        vstd::arithmetic::power2::lemma2_to64();
    }
    while done < order
        invariant
            done <= order,
            bytes == block_bytes(block_size as int, done as nat),
            block_bytes(block_size as int, order as nat) <= u32::MAX,
        decreases order - done,
    {
        proof {
            lemma_block_bytes_step(block_size as int, done as nat);
            lemma_block_bytes_monotonic(block_size as int, (done + 1) as nat, order as nat);
        }
        bytes = bytes * 2;
        done = done + 1;
    }
    bytes
}

/// `block_size * 2^order`, or `None` when that does not fit 32 bits.
pub fn checked_block_size(block_size: u32, order: u32) -> (bytes: Option<u32>)
    requires
        block_size > 0,
    ensures
        bytes is Some <==> block_bytes(block_size as int, order as nat) <= u32::MAX,
        bytes matches Some(fitting) ==> fitting == block_bytes(block_size as int, order as nat),
{
    let mut bytes: u32 = block_size;
    let mut done: u32 = 0;
    proof {
        vstd::arithmetic::power2::lemma2_to64();
    }
    while done < order
        invariant
            block_size > 0,
            done <= order,
            bytes == block_bytes(block_size as int, done as nat),
        decreases order - done,
    {
        proof {
            lemma_block_bytes_step(block_size as int, done as nat);
            lemma_block_bytes_monotonic(block_size as int, (done + 1) as nat, order as nat);
        }
        if bytes > u32::MAX / 2 {
            return None;
        }
        bytes = bytes * 2;
        done = done + 1;
    }
    Some(bytes)
}

/// A block of the next order is twice as large.
pub proof fn lemma_block_bytes_step(block_size: int, order: nat)
    ensures
        block_bytes(block_size, order + 1) == 2 * block_bytes(block_size, order),
{
    lemma_pow2_unfold(order + 1);
    assert(block_size * (2 * pow2(order)) == 2 * (block_size * pow2(order))) by (nonlinear_arith);
}

/// Blocks do not shrink as the order grows.
pub proof fn lemma_block_bytes_monotonic(block_size: int, low: nat, high: nat)
    requires
        block_size >= 0,
        low <= high,
    ensures
        block_bytes(block_size, low) <= block_bytes(block_size, high),
        block_size > 0 ==> block_bytes(block_size, low) >= block_size,
{
    lemma_pow2_pos(low);
    if low < high {
        lemma_pow2_strictly_increases(low, high);
    }
    let a = pow2(low) as int;
    let b = pow2(high) as int;
    assert(block_size * a <= block_size * b) by (nonlinear_arith)
        requires
            block_size >= 0,
            a <= b,
    ;
    assert(block_size * a >= block_size) by (nonlinear_arith)
        requires
            block_size >= 0,
            a >= 1,
    ;
}

/// A block of a higher order is a whole number of blocks of a lower one.
pub proof fn lemma_block_bytes_multiple(block_size: int, low: nat, high: nat)
    requires
        low <= high,
    ensures
        block_bytes(block_size, high) == pow2((high - low) as nat) * block_bytes(block_size, low),
{
    lemma_pow2_adds((high - low) as nat, low);
    let count = pow2((high - low) as nat) as int;
    let unit = pow2(low) as int;
    assert(block_size * (count * unit) == count * (block_size * unit)) by (nonlinear_arith);
}

/// An offset that is a multiple of `step` and lies below `count` steps
/// leaves room for one more step below them.
pub proof fn lemma_aligned_below(offset: int, step: int, count: int)
    requires
        step > 0,
        offset >= 0,
        offset % step == 0,
        offset < count * step,
    ensures
        offset + step <= count * step,
{
    lemma_fundamental_div_mod(offset, step);
    let whole = offset / step;
    assert(offset == step * whole);
    assert(whole < count) by (nonlinear_arith)
        requires
            step > 0,
            step * whole < count * step,
    ;
    assert(step * whole + step <= count * step) by (nonlinear_arith)
        requires
            step > 0,
            whole + 1 <= count,
    ;
}

/// Moving an offset by whole steps keeps what it leaves over a step.
pub proof fn lemma_aligned_shift(offset: int, step: int, count: int)
    requires
        step > 0,
    ensures
        (offset + count * step) % step == offset % step,
        (offset - count * step) % step == offset % step,
{
    lemma_mod_multiples_vanish(count, offset, step);
    lemma_mod_multiples_vanish(-count, offset, step);
    assert(step * count + offset == offset + count * step) by (nonlinear_arith);
    assert(step * (-count) + offset == offset - count * step) by (nonlinear_arith);
}

/// The least order whose block holds `size` bytes.
pub fn order_for(block_size: u32, size: u32) -> (order: u32)
    requires
        block_size > 0,
    ensures
        order == order_for_size(block_size as int, size as int),
{
    let mut rest: u32 = size;
    let mut order: u32 = 0;
    while rest > block_size
        invariant
            block_size > 0,
            order + rest <= size,
            order_for_size(block_size as int, size as int) == order + order_for_size(
                block_size as int,
                rest as int,
            ),
        decreases rest,
    {
        rest = rest / 2 + rest % 2;
        order = order + 1;
    }
    order
}

/// `order_for_size` is the least order whose block holds `size` bytes.
pub proof fn lemma_order_for_size(block_size: int, size: int)
    requires
        block_size > 0,
    ensures
        size <= block_bytes(block_size, order_for_size(block_size, size)),
        order_for_size(block_size, size) > 0 ==> block_bytes(
            block_size,
            (order_for_size(block_size, size) - 1) as nat,
        ) < size,
    decreases size,
{
    vstd::arithmetic::power2::lemma2_to64();
    if size <= block_size {
        assert(block_bytes(block_size, 0) == block_size);
    } else {
        let half = (size + 1) / 2;
        let below = order_for_size(block_size, half);
        assert(order_for_size(block_size, size) == 1 + below);
        lemma_order_for_size(block_size, half);
        lemma_block_bytes_step(block_size, below);
        assert(size <= 2 * half);
        if below > 0 {
            lemma_block_bytes_step(block_size, (below - 1) as nat);
            assert(2 * half <= size + 1);
        } else {
            assert(block_bytes(block_size, 0) == block_size);
        }
    }
}

/// A request no larger than a block of some order gets at most that order.
pub proof fn lemma_order_for_size_bounded(block_size: int, size: int, order: nat)
    requires
        block_size > 0,
        size <= block_bytes(block_size, order),
    ensures
        order_for_size(block_size, size) <= order,
{
    lemma_order_for_size(block_size, size);
    let least = order_for_size(block_size, size);
    if least > order {
        lemma_block_bytes_monotonic(block_size, order, (least - 1) as nat);
    }
}

/// The block of the largest order lies inside the slab.
pub proof fn lemma_max_order_in_slab(page_count: int, block_size: int)
    requires
        1 <= block_size <= slab_bytes(page_count),
    ensures
        0 <= max_order(page_count, block_size),
        block_bytes(block_size, max_order(page_count, block_size) as nat) <= slab_bytes(page_count),
{
    let blocks = slab_bytes(page_count) / block_size;
    assert(blocks >= 1 && blocks * block_size <= slab_bytes(page_count)) by (nonlinear_arith)
        requires
            1 <= block_size <= slab_bytes(page_count),
            blocks == slab_bytes(page_count) / block_size,
    ;
    lemma_pow2_log_below(blocks);
    let fitting = pow2(log(2, blocks) as nat) as int;
    assert(block_size * fitting <= blocks * block_size) by (nonlinear_arith)
        requires
            fitting <= blocks,
            block_size >= 1,
    ;
}

/// Two to the whole-number logarithm of `n` does not exceed `n`.
pub proof fn lemma_pow2_log_below(n: int)
    requires
        n >= 1,
    ensures
        log(2, n) >= 0,
        pow2(log(2, n) as nat) <= n,
    decreases n,
{
    vstd::arithmetic::power2::lemma2_to64();
    if n < 2 {
        lemma_log0(2, n);
    } else {
        lemma_log_s(2, n);
        lemma_pow2_log_below(n / 2);
        lemma_pow2_unfold((log(2, n / 2) + 1) as nat);
    }
}

/// Every number is below two to its power.
pub proof fn lemma_below_pow2(n: nat)
    ensures
        n < pow2(n),
    decreases n,
{
    vstd::arithmetic::power2::lemma2_to64();
    if n > 0 {
        lemma_below_pow2((n - 1) as nat);
        lemma_pow2_unfold(n);
    }
}

/// The allocator of one plugin instance: a buddy tree over a slab of the
/// guest's linear memory that starts at `base`.
#[derive(Debug)]
pub struct WasmAllocator {
    pub base: u32,
    pub root: Node,
    pub options: WasmAllocatorOptions,
}

impl WasmAllocator {
    /// The allocator is consistent: its options are resolved, the root is a
    /// well-formed tree of the largest order at offset zero, and the slab
    /// ends inside the 32-bit address space.
    pub open spec fn wf(self) -> bool {
        &&& self.options.resolved()
        &&& self.root.order == self.options.max_level
        &&& self.root.start == 0
        &&& self.root.wf(self.options.block_size as int)
        &&& self.base + slab_bytes(self.options.page_count as int) <= 0x1_0000_0000
    }

    /// The live allocations: each address handed out and not yet freed, with
    /// the order of its block.
    pub open spec fn live(self) -> Map<int, nat> {
        Map::new(
            |address: int| self.root.blocks().dom().contains(address - self.base),
            |address: int| self.root.blocks()[address - self.base],
        )
    }

    /// The order of the block that a request of `size` bytes gets.
    pub open spec fn order_of(self, size: int) -> nat {
        order_for_size(self.options.block_size as int, size)
    }

    /// A request of `size` bytes can be served: its order is within the
    /// slab and some vacant block is large enough.
    pub open spec fn can_serve(self, size: int) -> bool {
        &&& self.order_of(size) <= self.options.max_level
        &&& self.root.fits(self.order_of(size))
    }

    /// The address that a request of `size` bytes gets: the lowest one at
    /// which a vacant block is large enough.
    pub open spec fn next_address(self, size: int) -> int {
        self.base + self.root.first_fit(self.order_of(size))
    }

    /// The free blocks grow from low to high addresses. An allocator with
    /// nothing handed out is in this shape, handing out a block keeps it,
    /// and so does freeing the block that was handed out last.
    pub open spec fn stacked(self) -> bool {
        self.root.stacked()
    }

    /// Bytes handed out and not yet freed, each allocation counted with the
    /// whole block it occupies.
    pub open spec fn occupancy(self) -> int {
        self.root.occupied_bytes(self.options.block_size as int)
    }

    /// An allocator with nothing handed out, over the slab that begins
    /// where the linear memory ended before it was grown.
    pub fn with_previous_pages(previous_pages: u32, options: WasmAllocatorOptions) -> (allocator:
        Self)
        requires
            options.valid(),
            previous_pages + options.page_count <= 65536,
        ensures
            allocator.wf(),
            allocator.base == previous_pages * 65536,
            allocator.options.page_count == options.page_count,
            allocator.options.block_size == options.block_size,
            allocator.root.state is Vacant,
            allocator.live() == Map::<int, nat>::empty(),
            allocator.occupancy() == 0,
            allocator.stacked(),
    {
        let options = options.resolve();
        proof {
            lemma_max_order_in_slab(options.page_count as int, options.block_size as int);
        }
        let allocator = Self {
            base: previous_pages * PAGE_SIZE,
            root: Node { order: options.max_level, start: 0, state: NodeState::Vacant },
            options,
        };
        assert(allocator.live() =~= Map::<int, nat>::empty());
        allocator
    }

    /// Grows the memory by `2^page_count` pages and sets up an allocator
    /// with nothing handed out over the slab that begins at the first new
    /// page. Unusable options and a memory of another store are refused
    /// before anything is grown.
    pub fn new(
        store: &mut wasmer::StoreMut,
        memory: &wasmer::Memory,
        options: WasmAllocatorOptions,
    ) -> (made: Result<Self, AllocatorError>)
        ensures
            options.valid() <==> !(made matches Err(AllocatorError::InvalidOptions)),
            (options.valid() && memory_store(*memory) != store_id(*old(store))) <==> (made matches Err(
                AllocatorError::ForeignMemory,
            )),
            !options.valid() || memory_store(*memory) != store_id(*old(store)) ==> *final(store)
                == *old(store),
            store_id(*final(store)) == store_id(*old(store)),
            made matches Ok(allocator) ==> {
                &&& allocator.wf()
                &&& allocator.options.page_count == options.page_count
                &&& allocator.options.block_size == options.block_size
                &&& allocator.root.state is Vacant
                &&& allocator.live() == Map::<int, nat>::empty()
                &&& allocator.base == memory_bytes(*old(store), *memory).len()
                &&& memory_bytes(*final(store), *memory).len() == allocator.base + 65536 * pow2(
                    options.page_count as nat,
                )
                &&& allocator.base + slab_bytes(options.page_count as int) <= memory_bytes(
                    *final(store),
                    *memory,
                ).len()
                &&& memory_bytes(*final(store), *memory).subrange(0, allocator.base as int)
                    == memory_bytes(*old(store), *memory)
            },
    {
        if !options.is_valid() {
            return Err(AllocatorError::InvalidOptions);
        }
        if !memory_is_from_store(memory, store) {
            return Err(AllocatorError::ForeignMemory);
        }
        proof {
            vstd::arithmetic::power2::lemma2_to64();
            lemma_below_pow2(options.page_count as nat);
            lemma_block_bytes_monotonic(1, options.page_count as nat, 16);
        }
        let pages = block_size_of(1, options.page_count);
        match grow_memory(memory, store, pages) {
            Ok(previous_pages) => Ok(Self::with_previous_pages(previous_pages, options)),
            Err(error) => Err(AllocatorError::GrowFailed(error)),
        }
    }

    /// Hands out the lowest free block that holds `size` bytes and returns
    /// its address, or `None` (and changes nothing) when no block can.
    pub fn allocate(&mut self, size: u32) -> (address: Option<u32>)
        requires
            old(self).wf(),
        ensures
            final(self).wf(),
            final(self).base == old(self).base,
            final(self).options == old(self).options,
            address is Some <==> old(self).can_serve(size as int),
            address matches Some(at) ==> {
                &&& at == old(self).next_address(size as int)
                &&& !old(self).live().dom().contains(at as int)
                &&& final(self).live() == old(self).live().insert(
                    at as int,
                    old(self).order_of(size as int),
                )
            },
            address is None ==> *final(self) == *old(self),
            old(self).stacked() ==> final(self).stacked(),
            address is Some ==> final(self).occupancy() == old(self).occupancy() + block_bytes(
                old(self).options.block_size as int,
                old(self).order_of(size as int),
            ),
    {
        let order = order_for(self.options.block_size, size);
        proof {
            lemma_max_order_in_slab(
                self.options.page_count as int,
                self.options.block_size as int,
            );
            self.root.lemma_blocks_within(self.options.block_size as int);
        }
        match self.root.occupy_free_block(order, &self.options) {
            Some(offset) => {
                proof {
                    self.root.lemma_blocks_within(self.options.block_size as int);
                    assert(self.root.blocks().dom().contains(offset as int));
                    assert(self.live() =~= old(self).live().insert(
                        self.base + offset,
                        order as nat,
                    ));
                }
                Some(self.base + offset)
            },
            None => None,
        }
    }

    /// Frees the block at `address`. An address at which nothing is handed
    /// out changes nothing.
    pub fn free(&mut self, address: u32)
        requires
            old(self).wf(),
        ensures
            final(self).wf(),
            final(self).base == old(self).base,
            final(self).options == old(self).options,
            final(self).live() == old(self).live().remove(address as int),
            !old(self).live().dom().contains(address as int) ==> *final(self) == *old(self),
    {
        if address >= self.base {
            self.root.deoccupy_block_at(address - self.base);
        } else {
            proof {
                self.root.lemma_blocks_within(self.options.block_size as int);
            }
        }
        assert(self.live() =~= old(self).live().remove(address as int));
    }

    /// Whether the allocator is consistent.
    pub fn is_well_formed(&self) -> (ok: bool)
        ensures
            ok == self.wf(),
    {
        if !self.options.is_valid() {
            return false;
        }
        let resolved = self.options.resolve();
        self.options.max_level == resolved.max_level && self.root.order == self.options.max_level
            && self.root.start == 0 && self.root.is_well_formed(self.options.block_size)
            && self.base as u64 + (self.options.page_count * PAGE_SIZE) as u64 <= 0x1_0000_0000
    }

    /// Whether nothing is handed out.
    pub fn is_vacant(&self) -> (vacant: bool)
        requires
            self.wf(),
        ensures
            vacant == (self.live() == Map::<int, nat>::empty()),
            vacant == (self.root.state is Vacant),
            vacant == (self.occupancy() == 0),
    {
        proof {
            self.lemma_vacant_iff_nothing_live();
        }
        self.root.is_vacant()
    }

    /// Bytes handed out and not yet freed.
    pub fn occupied_bytes(&self) -> (bytes: u32)
        requires
            self.wf(),
        ensures
            bytes == self.occupancy(),
    {
        self.root.occupied(self.options.block_size)
    }

    /// The root is vacant exactly when nothing is live, and exactly when no
    /// byte is handed out.
    pub proof fn lemma_vacant_iff_nothing_live(self)
        requires
            self.wf(),
        ensures
            self.root.state is Vacant <==> self.live() == Map::<int, nat>::empty(),
            self.root.state is Vacant <==> self.occupancy() == 0,
    {
        self.root.lemma_blocks_within(self.options.block_size as int);
        self.root.lemma_occupied_bounded(self.options.block_size as int);
        if self.live() =~= Map::<int, nat>::empty() {
            assert forall|start: int| !self.root.blocks().dom().contains(start) by {
                assert(!self.live().dom().contains(start + self.base));
            }
            assert(self.root.blocks() =~= Map::empty());
        }
        if self.root.state is Vacant {
            assert(self.live() =~= Map::<int, nat>::empty());
        }
    }

    /// Every live block lies inside the slab.
    pub proof fn lemma_live_in_slab(self, address: int)
        requires
            self.wf(),
            self.live().dom().contains(address),
        ensures
            self.base <= address,
            address + block_bytes(self.options.block_size as int, self.live()[address])
                <= self.base + slab_bytes(self.options.page_count as int),
            self.live()[address] <= self.options.max_level,
    {
        self.root.lemma_blocks_within(self.options.block_size as int);
        lemma_max_order_in_slab(self.options.page_count as int, self.options.block_size as int);
    }

    /// Two different live blocks do not overlap.
    pub proof fn lemma_live_disjoint(self, first: int, second: int)
        requires
            self.wf(),
            self.live().dom().contains(first),
            self.live().dom().contains(second),
            first < second,
        ensures
            first + block_bytes(self.options.block_size as int, self.live()[first]) <= second,
    {
        self.root.lemma_blocks_disjoint(
            self.options.block_size as int,
            first - self.base,
            second - self.base,
        );
    }

    /// While nothing is live, every request that fits the largest block is
    /// served, at the slab's base.
    pub proof fn lemma_empty_serves(self, size: int)
        requires
            self.wf(),
            self.live() == Map::<int, nat>::empty(),
            size <= block_bytes(self.options.block_size as int, self.options.max_level as nat),
        ensures
            self.can_serve(size),
            self.next_address(size) == self.base,
    {
        self.lemma_vacant_iff_nothing_live();
        lemma_order_for_size_bounded(
            self.options.block_size as int,
            size,
            self.options.max_level as nat,
        );
    }

    /// The tree's blocks are the live blocks, taken relative to the base.
    pub proof fn lemma_blocks_from_live(self)
        ensures
            self.root.blocks() == Map::new(
                |start: int| self.live().dom().contains(start + self.base),
                |start: int| self.live()[start + self.base],
            ),
    {
        assert forall|start: int| #[trigger]
            self.root.blocks().dom().contains(start) == self.live().dom().contains(
                start + self.base,
            ) by {
            assert(start + self.base - self.base == start);
        }
        assert(self.root.blocks() =~= Map::new(
            |start: int| self.live().dom().contains(start + self.base),
            |start: int| self.live()[start + self.base],
        ));
    }

    /// The aligned block of the given order at `address` lies in the slab
    /// and overlaps no live block.
    pub open spec fn free_block(self, address: int, order: nat) -> bool {
        &&& order <= self.options.max_level
        &&& self.base <= address
        &&& address + block_bytes(self.options.block_size as int, order) <= self.base
            + block_bytes(self.options.block_size as int, self.options.max_level as nat)
        &&& (address - self.base) % block_bytes(self.options.block_size as int, order) == 0
        &&& forall|live: int| #[trigger]
            self.live().dom().contains(live) ==> live + block_bytes(
                self.options.block_size as int,
                self.live()[live],
            ) <= address || address + block_bytes(self.options.block_size as int, order) <= live
    }

    /// A request is served exactly when some aligned block of its order is
    /// free, and it gets the lowest such block.
    pub proof fn lemma_serves_lowest_free_block(self, size: int)
        requires
            self.wf(),
        ensures
            self.can_serve(size) ==> self.free_block(self.next_address(size), self.order_of(size)),
            forall|address: int| #[trigger]
                self.free_block(address, self.order_of(size)) ==> self.can_serve(size)
                    && self.next_address(size) <= address,
    {
        let block_size = self.options.block_size as int;
        let order = self.order_of(size);
        self.root.lemma_fits_lowest_free_slot(block_size, order);
        if self.can_serve(size) {
            let offset = self.root.first_fit(order);
            assert(self.root.free_slot(block_size, offset, order));
            assert forall|live: int| #[trigger]
                self.live().dom().contains(live) implies live + block_bytes(
                block_size,
                self.live()[live],
            ) <= self.base + offset || self.base + offset + block_bytes(block_size, order)
                <= live by {
                assert(self.root.blocks().dom().contains(live - self.base));
            }
            assert(self.base + offset - self.base == offset);
        }
        assert forall|address: int| #[trigger]
            self.free_block(address, order) implies self.can_serve(size) && self.next_address(size)
            <= address by {
            let offset = address - self.base;
            assert forall|start: int| #[trigger]
                self.root.blocks().dom().contains(start) implies start + block_bytes(
                block_size,
                self.root.blocks()[start],
            ) <= offset || offset + block_bytes(block_size, order) <= start by {
                assert(start + self.base - self.base == start);
                assert(self.live().dom().contains(start + self.base));
            }
            assert(self.root.free_slot(block_size, offset, order));
        }
    }

    /// While blocks are handed out one after the other, and freed in the
    /// reverse order, a request is served exactly when its block and the
    /// blocks that are handed out fit the largest block together: no free
    /// byte is lost to the layout.
    pub proof fn lemma_stacked_serves(self, size: int)
        requires
            self.wf(),
            self.stacked(),
        ensures
            self.can_serve(size) <==> self.occupancy() + block_bytes(
                self.options.block_size as int,
                self.order_of(size),
            ) <= block_bytes(self.options.block_size as int, self.options.max_level as nat),
    {
        let block_size = self.options.block_size as int;
        let order = self.order_of(size);
        self.root.lemma_stacked_fits(block_size, order);
        self.root.lemma_occupied_bounded(block_size);
        if order > self.options.max_level {
            lemma_block_bytes_step(block_size, self.options.max_level as nat);
            lemma_block_bytes_monotonic(
                block_size,
                (self.options.max_level + 1) as nat,
                order,
            );
            lemma_block_bytes_monotonic(block_size, 0, self.options.max_level as nat);
        }
    }

    /// Two consistent allocators over the same slab with the same live
    /// blocks are the same allocator.
    pub proof fn lemma_live_determines(self, other: WasmAllocator)
        requires
            self.wf(),
            other.wf(),
            self.base == other.base,
            self.options == other.options,
            self.live() == other.live(),
        ensures
            self == other,
    {
        self.lemma_blocks_from_live();
        other.lemma_blocks_from_live();
        self.root.lemma_blocks_determine_tree(other.root, self.options.block_size as int);
    }

    /// An allocation that is freed again leaves the allocator exactly as it
    /// was before, and so its occupancy.
    pub proof fn lemma_free_restores(
        before: WasmAllocator,
        during: WasmAllocator,
        after: WasmAllocator,
        address: int,
        order: nat,
    )
        requires
            before.wf(),
            during.wf(),
            after.wf(),
            during.base == before.base && during.options == before.options,
            after.base == before.base && after.options == before.options,
            !before.live().dom().contains(address),
            during.live() == before.live().insert(address, order),
            after.live() == during.live().remove(address),
        ensures
            after == before,
            after.occupancy() == before.occupancy(),
    {
        assert(after.live() =~= before.live());
        after.lemma_live_determines(before);
    }

    /// Once every live block has been freed the root is vacant again.
    pub proof fn lemma_all_freed_is_vacant(self)
        requires
            self.wf(),
            self.live() == Map::<int, nat>::empty(),
        ensures
            self.root.state is Vacant,
            self.occupancy() == 0,
    {
        self.lemma_vacant_iff_nothing_live();
    }
}

} // verus!
