//! The tree of buddy nodes behind the allocator.

use vstd::prelude::*;
use vstd::arithmetic::power2::pow2;
use crate::allocator::block_bytes;
use crate::allocator::block_size_of;
use crate::allocator::checked_block_size;
use crate::allocator::lemma_aligned_below;
use crate::allocator::lemma_aligned_shift;
use crate::allocator::lemma_block_bytes_monotonic;
use crate::allocator::lemma_block_bytes_multiple;
use crate::allocator::lemma_block_bytes_step;
use crate::allocator::WasmAllocatorOptions;

verus! {

/// What a node of the tree is used for.
#[derive(Debug)]
pub enum NodeState {
    /// The whole block is handed out.
    Occupied,
    /// The whole block is free.
    Vacant,
    /// The block is split into its left and right buddy.
    Seeding(Box<(Node, Node)>),
}

/// A block of `block_size * 2^order` bytes starting `start` bytes into the slab.
#[derive(Debug)]
pub struct Node {
    pub order: u32,
    pub start: u32,
    pub state: NodeState,
}

impl Node {
    /// The left buddy of a split node.
    pub open spec fn left(self) -> Node
        recommends
            self.state is Seeding,
    {
        self.state->Seeding_0.0
    }

    /// The right buddy of a split node.
    pub open spec fn right(self) -> Node
        recommends
            self.state is Seeding,
    {
        self.state->Seeding_0.1
    }

    /// The tree is a buddy tree over blocks of `block_size` bytes: every
    /// block ends inside the address space, a split node's buddies halve it,
    /// and no split node has two vacant buddies.
    pub open spec fn wf(self, block_size: int) -> bool
        decreases self,
    {
        &&& block_size > 0
        &&& self.start + block_bytes(block_size, self.order as nat) <= u32::MAX
        &&& match self.state {
            NodeState::Seeding(children) => {
                &&& self.order > 0
                &&& children.0.order == self.order - 1
                &&& children.1.order == self.order - 1
                &&& children.0.start == self.start
                &&& children.1.start == self.start + block_bytes(
                    block_size,
                    (self.order - 1) as nat,
                )
                &&& children.0.wf(block_size)
                &&& children.1.wf(block_size)
                &&& !(children.0.state is Vacant && children.1.state is Vacant)
            },
            _ => true,
        }
    }

    /// The blocks handed out below this node: each start offset with the
    /// order of its block.
    pub open spec fn blocks(self) -> Map<int, nat>
        decreases self,
    {
        match self.state {
            NodeState::Occupied => Map::empty().insert(self.start as int, self.order as nat),
            NodeState::Vacant => Map::empty(),
            NodeState::Seeding(children) => children.0.blocks().union_prefer_right(
                children.1.blocks(),
            ),
        }
    }

    /// Some vacant node at or below this one has at least the given order.
    pub open spec fn fits(self, order: nat) -> bool
        decreases self,
    {
        match self.state {
            NodeState::Occupied => false,
            NodeState::Vacant => order <= self.order,
            NodeState::Seeding(children) => children.0.fits(order) || children.1.fits(order),
        }
    }

    /// Start of the leftmost vacant node that has at least the given order.
    pub open spec fn first_fit(self, order: nat) -> int
        decreases self,
    {
        match self.state {
            NodeState::Seeding(children) => if children.0.fits(order) {
                children.0.first_fit(order)
            } else {
                children.1.first_fit(order)
            },
            _ => self.start as int,
        }
    }

    /// `at` is where an aligned block of the given order lies inside this node.
    pub open spec fn slot(self, block_size: int, at: int, order: nat) -> bool {
        &&& order <= self.order
        &&& self.start <= at
        &&& at + block_bytes(block_size, order) <= self.start + block_bytes(
            block_size,
            self.order as nat,
        )
        &&& (at - self.start) % block_bytes(block_size, order) == 0
    }

    /// The aligned block of the given order at `at` lies inside this node
    /// and overlaps no block that is handed out.
    pub open spec fn free_slot(self, block_size: int, at: int, order: nat) -> bool {
        &&& self.slot(block_size, at, order)
        &&& forall|start: int| #[trigger]
            self.blocks().dom().contains(start) ==> start + block_bytes(
                block_size,
                self.blocks()[start],
            ) <= at || at + block_bytes(block_size, order) <= start
    }

    /// The highest order of a vacant node at or below this one, or `-1`
    /// where there is none.
    pub open spec fn highest_vacant(self) -> int
        decreases self,
    {
        match self.state {
            NodeState::Vacant => self.order as int,
            NodeState::Occupied => -1,
            NodeState::Seeding(children) => if children.0.highest_vacant()
                >= children.1.highest_vacant() {
                children.0.highest_vacant()
            } else {
                children.1.highest_vacant()
            },
        }
    }

    /// The lowest order of a vacant node at or below this one, or `2^32`,
    /// which is above every order, where there is none.
    pub open spec fn lowest_vacant(self) -> int
        decreases self,
    {
        match self.state {
            NodeState::Vacant => self.order as int,
            NodeState::Occupied => 0x1_0000_0000,
            NodeState::Seeding(children) => if children.0.lowest_vacant()
                <= children.1.lowest_vacant() {
                children.0.lowest_vacant()
            } else {
                children.1.lowest_vacant()
            },
        }
    }

    /// The vacant nodes grow from left to right: every vacant node has a
    /// lower order than every vacant node to its right. This is the shape
    /// that blocks handed out one after the other leave behind.
    pub open spec fn stacked(self) -> bool
        decreases self,
    {
        match self.state {
            NodeState::Seeding(children) => {
                &&& children.0.stacked()
                &&& children.1.stacked()
                &&& children.0.highest_vacant() < children.1.lowest_vacant()
            },
            _ => true,
        }
    }

    /// Bytes handed out below this node.
    pub open spec fn occupied_bytes(self, block_size: int) -> int
        decreases self,
    {
        match self.state {
            NodeState::Occupied => block_bytes(block_size, self.order as nat),
            NodeState::Vacant => 0,
            NodeState::Seeding(children) => children.0.occupied_bytes(block_size)
                + children.1.occupied_bytes(block_size),
        }
    }

    /// Hands out the leftmost free block of exactly the given order,
    /// splitting a larger vacant block as far as needed. Returns the block's
    /// start, or `None` (and changes nothing) when no vacant block is large
    /// enough or the order exceeds `opts.max_level`.
    pub fn occupy_free_block(&mut self, order: u32, opts: &WasmAllocatorOptions) -> (found: Option<
        u32,
    >)
        requires
            old(self).wf(opts.block_size as int),
        ensures
            final(self).wf(opts.block_size as int),
            final(self).order == old(self).order,
            final(self).start == old(self).start,
            found is Some <==> order <= opts.max_level && old(self).fits(order as nat),
            found matches Some(start) ==> {
                &&& start == old(self).first_fit(order as nat)
                &&& !old(self).blocks().dom().contains(start as int)
                &&& final(self).blocks() == old(self).blocks().insert(start as int, order as nat)
                &&& !(final(self).state is Vacant)
            },
            found is None ==> *final(self) == *old(self),
            old(self).stacked() ==> final(self).stacked(),
            final(self).highest_vacant() <= old(self).highest_vacant(),
            found is Some ==> final(self).lowest_vacant() >= old(self).lowest_vacant()
                || final(self).lowest_vacant() >= order,
            found is Some ==> final(self).occupied_bytes(opts.block_size as int)
                == old(self).occupied_bytes(opts.block_size as int) + block_bytes(
                opts.block_size as int,
                order as nat,
            ),
        decreases old(self).order,
    {
        if order > opts.max_level {
            return None;
        }
        proof {
            old(self).lemma_blocks_within(opts.block_size as int);
        }
        match &mut self.state {
            NodeState::Occupied => None,
            NodeState::Vacant => {
                if self.order == order {
                    self.state = NodeState::Occupied;
                    assert(self.highest_vacant() == -1);
                    assert(old(self).occupied_bytes(opts.block_size as int) == 0);
                    Some(self.start)
                } else if self.order < order {
                    None
                } else {
                    proof {
                        lemma_block_bytes_step(opts.block_size as int, (self.order - 1) as nat);
                        lemma_block_bytes_monotonic(
                            opts.block_size as int,
                            0,
                            (self.order - 1) as nat,
                        );
                    }
                    let half = block_size_of(opts.block_size, self.order - 1);
                    let mut left = Node {
                        order: self.order - 1,
                        start: self.start,
                        state: NodeState::Vacant,
                    };
                    let right = Node {
                        order: self.order - 1,
                        start: self.start + half,
                        state: NodeState::Vacant,
                    };
                    let ghost fresh = left;
                    assert(fresh.stacked() && fresh.occupied_bytes(opts.block_size as int) == 0);
                    let found = left.occupy_free_block(order, opts);
                    let ghost taken = left;
                    let ghost spare = right;
                    proof {
                        assert(left.blocks().union_prefer_right(right.blocks()) =~= left.blocks());
                        assert(right.wf(opts.block_size as int));
                        left.lemma_vacancies(opts.block_size as int);
                        assert(fresh.lowest_vacant() == self.order - 1);
                        assert(spare.stacked() && spare.lowest_vacant() == self.order - 1
                            && spare.highest_vacant() == self.order - 1 && spare.occupied_bytes(
                            opts.block_size as int,
                        ) == 0);
                        assert(taken.highest_vacant() < spare.lowest_vacant());
                    }
                    self.state = NodeState::Seeding(Box::new((left, right)));
                    assert(self.wf(opts.block_size as int));
                    assert(self.stacked());
                    assert(self.highest_vacant() == self.order - 1);
                    assert(self.lowest_vacant() >= order);
                    assert(self.occupied_bytes(opts.block_size as int) == taken.occupied_bytes(
                        opts.block_size as int,
                    ));
                    assert(old(self).occupied_bytes(opts.block_size as int) == 0);
                    assert(old(self).highest_vacant() == self.order);
                    found
                }
            },
            NodeState::Seeding(children) => {
                proof {
                    children.0.lemma_blocks_within(opts.block_size as int);
                    children.1.lemma_blocks_within(opts.block_size as int);
                }
                let ghost before_left = children.0.blocks();
                let ghost before_right = children.1.blocks();
                let ghost old_left = children.0;
                let ghost old_right = children.1;
                proof {
                    children.0.lemma_fits_highest(order as nat);
                    assert(old(self).highest_vacant() == if old_left.highest_vacant()
                        >= old_right.highest_vacant() {
                        old_left.highest_vacant()
                    } else {
                        old_right.highest_vacant()
                    });
                    assert(old(self).lowest_vacant() == if old_left.lowest_vacant()
                        <= old_right.lowest_vacant() {
                        old_left.lowest_vacant()
                    } else {
                        old_right.lowest_vacant()
                    });
                    assert(old(self).occupied_bytes(opts.block_size as int)
                        == old_left.occupied_bytes(opts.block_size as int)
                        + old_right.occupied_bytes(opts.block_size as int));
                    assert(old(self).stacked() ==> old_left.stacked() && old_right.stacked()
                        && old_left.highest_vacant() < old_right.lowest_vacant());
                }
                match children.0.occupy_free_block(order, opts) {
                    Some(start) => {
                        proof {
                            children.0.lemma_blocks_within(opts.block_size as int);
                            lemma_block_bytes_monotonic(opts.block_size as int, 0, order as nat);
                            assert(children.0.blocks().dom().contains(start as int));
                            assert(!before_right.dom().contains(start as int));
                            assert(children.0.blocks().union_prefer_right(children.1.blocks())
                                =~= before_left.union_prefer_right(before_right).insert(
                                start as int,
                                order as nat,
                            ));
                        }
                        Some(start)
                    },
                    None => {
                        let found = children.1.occupy_free_block(order, opts);
                        proof {
                            if let Some(start) = found {
                                children.1.lemma_blocks_within(opts.block_size as int);
                                lemma_block_bytes_monotonic(opts.block_size as int, 0, order as nat);
                                assert(children.1.blocks().dom().contains(start as int));
                                assert(!before_left.dom().contains(start as int)) by {
                                    if before_left.dom().contains(start as int) {
                                        lemma_block_bytes_monotonic(
                                            opts.block_size as int,
                                            0,
                                            before_left[start as int],
                                        );
                                    }
                                }
                                assert(children.0.blocks().union_prefer_right(children.1.blocks())
                                    =~= before_left.union_prefer_right(before_right).insert(
                                    start as int,
                                    order as nat,
                                ));
                            }
                        }
                        found
                    },
                }
            },
        }
    }

    /// Frees the block that starts at `address`, if one is handed out there,
    /// and merges buddies that are both vacant again. Any other address
    /// changes nothing.
    pub fn deoccupy_block_at(&mut self, address: u32)
        requires
            exists|block_size: int| old(self).wf(block_size),
        ensures
            forall|block_size: int| old(self).wf(block_size) ==> final(self).wf(block_size),
            final(self).order == old(self).order,
            final(self).start == old(self).start,
            final(self).blocks() == old(self).blocks().remove(address as int),
            !old(self).blocks().dom().contains(address as int) ==> *final(self) == *old(self),
        decreases *old(self),
    {
        let ghost witness = choose|block_size: int| old(self).wf(block_size);
        match &mut self.state {
            NodeState::Occupied => {
                if self.start == address {
                    self.state = NodeState::Vacant;
                }
                assert(self.blocks() =~= old(self).blocks().remove(address as int));
            },
            NodeState::Vacant => {
                assert(self.blocks() =~= old(self).blocks().remove(address as int));
            },
            NodeState::Seeding(children) => {
                let ghost before_left = children.0;
                let ghost before_right = children.1;
                assert(before_left.wf(witness) && before_right.wf(witness));
                children.0.deoccupy_block_at(address);
                children.1.deoccupy_block_at(address);
                let merge = children.0.is_vacant() && children.1.is_vacant();
                proof {
                    assert(children.0.blocks().union_prefer_right(children.1.blocks())
                        =~= before_left.blocks().union_prefer_right(before_right.blocks()).remove(
                        address as int,
                    ));
                }
                let ghost after_left = children.0;
                let ghost after_right = children.1;
                if merge {
                    self.state = NodeState::Vacant;
                    assert(self.blocks() =~= after_left.blocks().union_prefer_right(
                        after_right.blocks(),
                    ));
                }
                assert forall|block_size: int| old(self).wf(block_size) implies self.wf(
                    block_size,
                ) by {
                    assert(before_left.wf(block_size) && before_right.wf(block_size));
                }
            },
        }
    }

    /// Whether the tree is a buddy tree over blocks of `block_size` bytes.
    pub fn is_well_formed(&self, block_size: u32) -> (ok: bool)
        ensures
            ok == self.wf(block_size as int),
        decreases self,
    {
        if block_size == 0 {
            return false;
        }
        let bytes = match checked_block_size(block_size, self.order) {
            Some(bytes) => bytes,
            None => {
                return false;
            },
        };
        if bytes > u32::MAX - self.start {
            return false;
        }
        match &self.state {
            NodeState::Seeding(children) => {
                if self.order == 0 {
                    return false;
                }
                proof {
                    lemma_block_bytes_step(block_size as int, (self.order - 1) as nat);
                    lemma_block_bytes_monotonic(block_size as int, 0, (self.order - 1) as nat);
                }
                let half = block_size_of(block_size, self.order - 1);
                children.0.order == self.order - 1 && children.1.order == self.order - 1
                    && children.0.start == self.start && children.1.start == self.start + half
                    && children.0.is_well_formed(block_size) && children.1.is_well_formed(
                    block_size,
                ) && !(children.0.is_vacant() && children.1.is_vacant())
            },
            _ => true,
        }
    }

    /// Whether the node is free as a whole.
    pub fn is_vacant(&self) -> (vacant: bool)
        ensures
            vacant == (self.state is Vacant),
    {
        match self.state {
            NodeState::Vacant => true,
            _ => false,
        }
    }

    /// Bytes handed out below this node.
    pub fn occupied(&self, block_size: u32) -> (bytes: u32)
        requires
            self.wf(block_size as int),
        ensures
            bytes == self.occupied_bytes(block_size as int),
        decreases self,
    {
        proof {
            self.lemma_occupied_bounded(block_size as int);
        }
        match &self.state {
            NodeState::Occupied => block_size_of(block_size, self.order),
            NodeState::Vacant => 0,
            NodeState::Seeding(children) => {
                proof {
                    children.0.lemma_occupied_bounded(block_size as int);
                    children.1.lemma_occupied_bounded(block_size as int);
                    lemma_block_bytes_step(block_size as int, (self.order - 1) as nat);
                }
                children.0.occupied(block_size) + children.1.occupied(block_size)
            },
        }
    }

    /// A node never hands out more bytes than it covers, and hands out
    /// none exactly when it is vacant.
    pub proof fn lemma_occupied_bounded(self, block_size: int)
        requires
            self.wf(block_size),
        ensures
            0 <= self.occupied_bytes(block_size) <= block_bytes(block_size, self.order as nat),
            self.occupied_bytes(block_size) == 0 <==> self.state is Vacant,
        decreases self,
    {
        lemma_block_bytes_monotonic(block_size, 0, self.order as nat);
        match self.state {
            NodeState::Seeding(children) => {
                children.0.lemma_occupied_bounded(block_size);
                children.1.lemma_occupied_bounded(block_size);
                lemma_block_bytes_step(block_size, (self.order - 1) as nat);
            },
            _ => {},
        }
    }

    /// Two different blocks handed out below a well-formed node do not
    /// overlap.
    pub proof fn lemma_blocks_disjoint(self, block_size: int, first: int, second: int)
        requires
            self.wf(block_size),
            self.blocks().dom().contains(first),
            self.blocks().dom().contains(second),
            first < second,
        ensures
            first + block_bytes(block_size, self.blocks()[first]) <= second,
        decreases self,
    {
        match self.state {
            NodeState::Seeding(children) => {
                children.0.lemma_blocks_within(block_size);
                children.1.lemma_blocks_within(block_size);
                lemma_block_bytes_monotonic(block_size, 0, self.blocks()[first]);
                lemma_block_bytes_monotonic(block_size, 0, self.blocks()[second]);
                if children.1.blocks().dom().contains(first) {
                    children.1.lemma_blocks_disjoint(block_size, first, second);
                } else if children.0.blocks().dom().contains(second) {
                    children.0.lemma_blocks_disjoint(block_size, first, second);
                }
            },
            _ => {},
        }
    }

    /// The buddies of a split node share its blocks between them: the left
    /// one has those that start before the right buddy, the right one the rest.
    pub proof fn lemma_split_blocks(self, block_size: int)
        requires
            self.wf(block_size),
            self.state is Seeding,
        ensures
            self.left().blocks() == self.blocks().restrict(
                Set::new(|start: int| start < self.right().start),
            ),
            self.right().blocks() == self.blocks().restrict(
                Set::new(|start: int| start >= self.right().start),
            ),
    {
        self.left().lemma_blocks_within(block_size);
        self.right().lemma_blocks_within(block_size);
        assert(self.blocks() == self.left().blocks().union_prefer_right(self.right().blocks()));
        assert(self.left().blocks() =~= self.blocks().restrict(
            Set::new(|start: int| start < self.right().start),
        ));
        assert(self.right().blocks() =~= self.blocks().restrict(
            Set::new(|start: int| start >= self.right().start),
        ));
    }

    /// A well-formed tree is determined by the blocks it hands out: two
    /// trees over the same range that hand out the same blocks are equal.
    pub proof fn lemma_blocks_determine_tree(self, other: Node, block_size: int)
        requires
            self.wf(block_size),
            other.wf(block_size),
            self.order == other.order,
            self.start == other.start,
            self.blocks() == other.blocks(),
        ensures
            self == other,
        decreases self,
    {
        self.lemma_blocks_within(block_size);
        other.lemma_blocks_within(block_size);
        match (self.state, other.state) {
            (NodeState::Seeding(mine), NodeState::Seeding(theirs)) => {
                self.lemma_split_blocks(block_size);
                other.lemma_split_blocks(block_size);
                assert(self.right().start == other.right().start);
                mine.0.lemma_blocks_determine_tree(theirs.0, block_size);
                mine.1.lemma_blocks_determine_tree(theirs.1, block_size);
                assert(*mine == *theirs);
            },
            (NodeState::Seeding(mine), NodeState::Occupied) => {
                mine.0.lemma_blocks_within(block_size);
                mine.1.lemma_blocks_within(block_size);
                assert(other.blocks().dom().contains(self.start as int));
                assert(self.blocks().dom().contains(self.start as int));
            },
            (NodeState::Occupied, NodeState::Seeding(theirs)) => {
                theirs.0.lemma_blocks_within(block_size);
                theirs.1.lemma_blocks_within(block_size);
                assert(self.blocks().dom().contains(self.start as int));
                assert(other.blocks().dom().contains(self.start as int));
            },
            _ => {},
        }
    }

    /// Handing out a block and freeing it again leaves the tree as it was,
    /// and so the bytes it hands out.
    pub proof fn lemma_release_restores(
        before: Node,
        during: Node,
        after: Node,
        block_size: int,
        start: int,
        order: nat,
    )
        requires
            before.wf(block_size),
            during.wf(block_size),
            after.wf(block_size),
            during.order == before.order && during.start == before.start,
            after.order == before.order && after.start == before.start,
            !before.blocks().dom().contains(start),
            during.blocks() == before.blocks().insert(start, order),
            after.blocks() == during.blocks().remove(start),
        ensures
            after == before,
            after.occupied_bytes(block_size) == before.occupied_bytes(block_size),
    {
        assert(after.blocks() =~= before.blocks());
        after.lemma_blocks_determine_tree(before, block_size);
    }

    /// A node fits an order exactly when some aligned block of that order
    /// inside it is free, and its first fit is the lowest such block.
    pub proof fn lemma_fits_lowest_free_slot(self, block_size: int, order: nat)
        requires
            self.wf(block_size),
        ensures
            self.fits(order) ==> self.free_slot(block_size, self.first_fit(order), order),
            forall|at: int| #[trigger]
                self.free_slot(block_size, at, order) ==> self.fits(order) && self.first_fit(order)
                    <= at,
        decreases self,
    {
        let step = block_bytes(block_size, order);
        lemma_block_bytes_monotonic(block_size, 0, order);
        self.lemma_blocks_within(block_size);
        match self.state {
            NodeState::Vacant => {
                if order <= self.order {
                    lemma_block_bytes_monotonic(block_size, order, self.order as nat);
                    assert(0int % step == 0);
                }
            },
            NodeState::Occupied => {
                assert(self.blocks().dom().contains(self.start as int));
            },
            NodeState::Seeding(children) => {
                let left = children.0;
                let right = children.1;
                let below = (self.order - 1) as nat;
                let half = block_bytes(block_size, below);
                left.lemma_fits_lowest_free_slot(block_size, order);
                right.lemma_fits_lowest_free_slot(block_size, order);
                left.lemma_blocks_within(block_size);
                right.lemma_blocks_within(block_size);
                lemma_block_bytes_step(block_size, below);
                if order <= below {
                    lemma_block_bytes_multiple(block_size, order, below);
                }
                let count = pow2((below - order) as nat) as int;
                if left.fits(order) {
                    let at = left.first_fit(order);
                    assert(left.free_slot(block_size, at, order));
                    assert(self.free_slot(block_size, at, order));
                } else if right.fits(order) {
                    let at = right.first_fit(order);
                    assert(right.free_slot(block_size, at, order));
                    lemma_aligned_shift(at - right.start, step, count);
                    assert(at - self.start == at - right.start + count * step);
                    assert(self.free_slot(block_size, at, order));
                }
                assert forall|at: int| #[trigger]
                    self.free_slot(block_size, at, order) implies self.fits(order)
                    && self.first_fit(order) <= at by {
                    if order > below {
                        let live = choose|live: int| self.blocks().dom().contains(live);
                        assert(self.blocks().dom().contains(live));
                        assert(false);
                    }
                    if at < right.start {
                        lemma_aligned_below(at - self.start, step, count);
                        assert forall|start: int| #[trigger]
                            left.blocks().dom().contains(start) implies start + block_bytes(
                            block_size,
                            left.blocks()[start],
                        ) <= at || at + step <= start by {
                            assert(self.blocks().dom().contains(start));
                        }
                        assert(left.free_slot(block_size, at, order));
                    } else {
                        lemma_aligned_shift(at - self.start, step, count);
                        assert(at - right.start == at - self.start - count * step);
                        assert forall|start: int| #[trigger]
                            right.blocks().dom().contains(start) implies start + block_bytes(
                            block_size,
                            right.blocks()[start],
                        ) <= at || at + step <= start by {
                            assert(self.blocks().dom().contains(start));
                        }
                        assert(right.free_slot(block_size, at, order));
                        if left.fits(order) {
                            assert(left.free_slot(block_size, left.first_fit(order), order));
                        }
                    }
                }
            },
        }
    }

    /// A node fits an order exactly when its highest vacant order reaches it.
    pub proof fn lemma_fits_highest(self, order: nat)
        ensures
            self.fits(order) <==> order <= self.highest_vacant(),
        decreases self,
    {
        match self.state {
            NodeState::Seeding(children) => {
                children.0.lemma_fits_highest(order);
                children.1.lemma_fits_highest(order);
            },
            _ => {},
        }
    }

    /// The vacant orders of a well-formed node lie between zero and its own
    /// order, which only a vacant node reaches.
    pub proof fn lemma_vacancies(self, block_size: int)
        requires
            self.wf(block_size),
        ensures
            -1 <= self.highest_vacant() <= self.order,
            self.highest_vacant() == self.order <==> self.state is Vacant,
            self.highest_vacant() == -1 <==> self.lowest_vacant() == 0x1_0000_0000,
            self.highest_vacant() >= 0 ==> 0 <= self.lowest_vacant() <= self.highest_vacant(),
        decreases self,
    {
        match self.state {
            NodeState::Seeding(children) => {
                children.0.lemma_vacancies(block_size);
                children.1.lemma_vacancies(block_size);
            },
            _ => {},
        }
    }

    /// In a stacked tree the free bytes are made of vacant blocks of
    /// different orders: they reach the largest vacant block and stay below
    /// twice its size by at least the smallest.
    pub proof fn lemma_stacked_free_bytes(self, block_size: int)
        requires
            self.wf(block_size),
            self.stacked(),
        ensures
            self.highest_vacant() == -1 ==> self.occupied_bytes(block_size) == block_bytes(
                block_size,
                self.order as nat,
            ),
            self.highest_vacant() >= 0 ==> {
                &&& block_bytes(block_size, self.highest_vacant() as nat) <= block_bytes(
                    block_size,
                    self.order as nat,
                ) - self.occupied_bytes(block_size)
                &&& block_bytes(block_size, self.order as nat) - self.occupied_bytes(block_size)
                    + block_bytes(block_size, self.lowest_vacant() as nat) <= 2 * block_bytes(
                    block_size,
                    self.highest_vacant() as nat,
                )
            },
        decreases self,
    {
        self.lemma_vacancies(block_size);
        match self.state {
            NodeState::Seeding(children) => {
                let left = children.0;
                let right = children.1;
                left.lemma_stacked_free_bytes(block_size);
                right.lemma_stacked_free_bytes(block_size);
                left.lemma_vacancies(block_size);
                right.lemma_vacancies(block_size);
                left.lemma_occupied_bounded(block_size);
                right.lemma_occupied_bounded(block_size);
                lemma_block_bytes_step(block_size, (self.order - 1) as nat);
                if left.highest_vacant() >= 0 && right.highest_vacant() >= 0 {
                    lemma_block_bytes_step(block_size, left.highest_vacant() as nat);
                    lemma_block_bytes_monotonic(
                        block_size,
                        (left.highest_vacant() + 1) as nat,
                        right.lowest_vacant() as nat,
                    );
                }
            },
            _ => {},
        }
    }

    /// In a stacked tree a block of an order is there exactly when that
    /// many bytes are free: no free bytes are lost between the blocks.
    pub proof fn lemma_stacked_fits(self, block_size: int, order: nat)
        requires
            self.wf(block_size),
            self.stacked(),
        ensures
            self.fits(order) <==> self.occupied_bytes(block_size) + block_bytes(block_size, order)
                <= block_bytes(block_size, self.order as nat),
    {
        self.lemma_fits_highest(order);
        self.lemma_vacancies(block_size);
        self.lemma_stacked_free_bytes(block_size);
        self.lemma_occupied_bounded(block_size);
        lemma_block_bytes_monotonic(block_size, 0, order);
        let highest = self.highest_vacant();
        if order <= highest {
            lemma_block_bytes_monotonic(block_size, order, highest as nat);
        } else if highest >= 0 {
            lemma_block_bytes_step(block_size, highest as nat);
            lemma_block_bytes_monotonic(block_size, (highest + 1) as nat, order);
            lemma_block_bytes_monotonic(block_size, 0, self.lowest_vacant() as nat);
        }
    }

    /// Every block handed out below a well-formed node lies inside the node,
    /// and is no larger than it.
    pub proof fn lemma_blocks_within(self, block_size: int)
        requires
            self.wf(block_size),
        ensures
            forall|start: int| #[trigger]
                self.blocks().dom().contains(start) ==> {
                    &&& self.blocks()[start] <= self.order
                    &&& self.start <= start
                    &&& start < start + block_bytes(block_size, self.blocks()[start]) <= self.start
                        + block_bytes(block_size, self.order as nat)
                },
            self.state is Vacant <==> self.blocks() =~= Map::empty(),
        decreases self,
    {
        lemma_block_bytes_monotonic(block_size, 0, self.order as nat);
        match self.state {
            NodeState::Seeding(children) => {
                children.0.lemma_blocks_within(block_size);
                children.1.lemma_blocks_within(block_size);
                lemma_block_bytes_step(block_size, (self.order - 1) as nat);
                if !(children.0.state is Vacant) {
                    let witness = choose|start: int| children.0.blocks().dom().contains(start);
                    assert(self.blocks().dom().contains(witness));
                } else {
                    let witness = choose|start: int| children.1.blocks().dom().contains(start);
                    assert(self.blocks().dom().contains(witness));
                }
            },
            NodeState::Occupied => {
                assert(self.blocks().dom().contains(self.start as int));
            },
            NodeState::Vacant => {},
        }
    }
}

} // verus!
