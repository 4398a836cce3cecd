//! A pool of a fixed number of storage blocks.
use crate::boxed::init::{
    on_exchange, InitAction, InitState, INITIALIZED, INITIALIZING, UNINITIALIZED,
};
use crate::boxed::{Box, BoxPool};
use vstd::prelude::*;

verus! {

/// One storage block on loan from a [`Pool`], with the value in it.
#[derive(Debug, PartialEq, Eq)]
pub struct Block<T> {
    index: usize,
    value: T,
}

impl<T> Block<T> {
    /// Which of the pool's blocks this is.
    pub closed spec fn index(&self) -> usize {
        self.index
    }

    /// The value in the block.
    pub closed spec fn value(&self) -> T {
        self.value
    }

    /// Which of the pool's blocks this is.
    pub fn position(&self) -> (index: usize)
        ensures
            index == self.index(),
    {
        self.index
    }
}

/// The free blocks of a pool of `n` blocks that has handed out none: every
/// block once, in the order of registration.
pub open spec fn all_blocks(n: nat) -> Seq<usize> {
    Seq::new(n, |i: int| i as usize)
}

/// A pool of `N` storage blocks for values of type `T`.
///
/// The pool keeps its free blocks on a stack: a block that is released is
/// the next one handed out. The blocks are registered on first use, once.
///
/// A boxed value gives its block back when it is handed to
/// [`Pool::release`]; one that is dropped keeps its block on loan.
#[derive(Debug, PartialEq, Eq)]
pub struct Pool<T, const N: usize> {
    /// The state of the initialization, as the byte that stands for it.
    flag: u8,
    /// The free blocks; the last one is handed out next.
    free: std::vec::Vec<usize>,
    /// For each block, whether it is on loan.
    taken: std::vec::Vec<bool>,
    marker: core::marker::PhantomData<T>,
}

impl<T, const N: usize> Pool<T, N> {
    /// Whether the blocks have been registered.
    pub closed spec fn ready(&self) -> bool {
        self.flag == INITIALIZED
    }

    /// The free blocks, as a stack: the last one is handed out next. Before
    /// the first use these are all the blocks.
    pub closed spec fn free_blocks(&self) -> Seq<usize> {
        if self.flag == INITIALIZED {
            self.free@
        } else {
            all_blocks(N as nat)
        }
    }

    /// The blocks that are on loan.
    pub open spec fn on_loan(&self) -> Set<usize> {
        Set::new(|block: usize| block < N && !self.free_blocks().contains(block))
    }

    /// The invariant of the pool: the initialization is not under way, and
    /// once it is done the stack of free blocks holds blocks of this pool,
    /// none of them twice, and the record of loans agrees with it.
    pub closed spec fn inv(&self) -> bool {
        &&& self.flag == UNINITIALIZED || self.flag == INITIALIZED
        &&& self.flag == UNINITIALIZED ==> self.free@.len() == 0 && self.taken@.len() == 0
        &&& self.flag == INITIALIZED ==> {
            &&& self.taken@.len() == N
            &&& self.free@.no_duplicates()
            &&& forall|k: int| 0 <= k < self.free@.len() ==> #[trigger] self.free@[k] < N
            &&& forall|block: int|
                0 <= block < N ==> (#[trigger] self.taken@[block] <==> !self.free@.contains(
                    block as usize,
                ))
        }
    }

    /// No block is free twice, and every free block is one of the pool's.
    pub proof fn lemma_free_blocks_distinct(&self)
        requires
            self.inv(),
        ensures
            self.free_blocks().no_duplicates(),
            self.free_blocks().len() <= N,
            forall|k: int|
                0 <= k < self.free_blocks().len() ==> #[trigger] self.free_blocks()[k] < N,
    {
        let free = self.free_blocks();
        assert(free.no_duplicates());
        lemma_blocks_fit(free, N as nat);
    }

    /// A pool whose blocks are yet to be registered.
    pub fn new() -> (pool: Self)
        ensures
            pool.inv(),
            !pool.ready(),
            pool.free_blocks() == all_blocks(N as nat),
    {
        Pool {
            flag: UNINITIALIZED,
            free: std::vec::Vec::new(),
            taken: std::vec::Vec::new(),
            marker: core::marker::PhantomData,
        }
    }

    /// The state of the pool's initialization.
    pub fn state(&self) -> (state: InitState)
        requires
            self.inv(),
        ensures
            state == if self.ready() {
                InitState::Initialized
            } else {
                InitState::Uninitialized
            },
    {
        if self.flag == INITIALIZED {
            InitState::Initialized
        } else {
            InitState::Uninitialized
        }
    }

    /// The number of free blocks.
    pub fn available(&self) -> (n: usize)
        requires
            self.inv(),
        ensures
            n == self.free_blocks().len(),
    {
        if self.flag == INITIALIZED {
            self.free.len()
        } else {
            N
        }
    }

    /// Registers the pool's blocks if that has not been done yet. Any call
    /// after the first changes nothing.
    pub fn ensure_initialized(&mut self)
        requires
            old(self).inv(),
        ensures
            final(self).inv(),
            final(self).ready(),
            final(self).free_blocks() == old(self).free_blocks(),
            old(self).ready() ==> *final(self) == *old(self),
    {
        let exchange = if self.flag == UNINITIALIZED {
            self.flag = INITIALIZING;
            Ok(UNINITIALIZED)
        } else {
            Err(self.flag)
        };
        match on_exchange(exchange) {
            Some(InitAction::Register) => {
                let mut block: usize = 0;
                while block < N
                    invariant
                        block <= N,
                        self.free@ == all_blocks(block as nat),
                        self.taken@ == Seq::new(block as nat, |i: int| false),
                    decreases N - block,
                {
                    self.free.push(block);
                    self.taken.push(false);
                    block = block + 1;
                    assert(self.free@ =~= all_blocks(block as nat));
                    assert(self.taken@ =~= Seq::new(block as nat, |i: int| false));
                }
                self.flag = INITIALIZED;
                assert forall|b: int| 0 <= b < N implies !(#[trigger] self.taken@[b])
                    && self.free@.contains(b as usize) by {
                    assert(self.free@[b] == b as usize);
                }
            },
            Some(InitAction::Proceed) => {},
            // With exclusive access nobody else can be at work on the pool.
            Some(InitAction::Wait) => {},
            None => {},
        }
    }

    /// Ends the loan of `boxed` and returns the value it held. The block is
    /// free again and is the next one handed out. A boxed value whose block
    /// is not on loan leaves the pool unchanged.
    ///
    /// The pool knows a block by its number alone: it is for the caller to
    /// hand back only what this pool allocated.
    pub fn release(&mut self, boxed: Box<Self>) -> (value: T)
        requires
            old(self).inv(),
        ensures
            final(self).inv(),
            value == boxed@,
            final(self).ready() == old(self).ready(),
            final(self).free_blocks() == if old(self).on_loan().contains(boxed.0.index()) {
                old(self).free_blocks().push(boxed.0.index())
            } else {
                old(self).free_blocks()
            },
    {
        let Block { index, value } = boxed.0;
        if self.flag == INITIALIZED && index < N && self.taken[index] {
            let ghost free = self.free@;
            self.taken.set(index, false);
            self.free.push(index);
            assert forall|block: int| 0 <= block < N implies (#[trigger] self.taken@[block]
                <==> !self.free@.contains(block as usize)) by {
                if block == index {
                    assert(self.free@.last() == index);
                } else {
                    if free.contains(block as usize) {
                        let k = choose|k: int| 0 <= k < free.len() && free[k] == block as usize;
                        assert(self.free@[k] == block as usize);
                    }
                }
            }
        } else {
            proof {
                if self.flag != INITIALIZED && index < N {
                    assert(all_blocks(N as nat)[index as int] == index);
                }
            }
        }
        value
    }
}

/// The stack of free blocks after `k` allocations in a row, none of which
/// found the stack empty.
pub open spec fn drained(free: Seq<usize>, k: nat) -> Seq<usize>
    decreases k,
{
    if k == 0 {
        free
    } else {
        drained(free, (k - 1) as nat).drop_last()
    }
}

/// The block that the allocation after `k` earlier ones hands out.
pub open spec fn handed_out(free: Seq<usize>, k: nat) -> usize {
    drained(free, k).last()
}

/// What `k` allocations leave of a stack of free blocks: all but its last
/// `k` blocks.
pub proof fn lemma_drained(free: Seq<usize>, k: nat)
    requires
        k <= free.len(),
    ensures
        drained(free, k) == free.take(free.len() - k),
    decreases k,
{
    if k == 0 {
        assert(free.take(free.len() as int) =~= free);
    } else {
        lemma_drained(free, (k - 1) as nat);
        assert(free.take(free.len() - k + 1).drop_last() =~= free.take(free.len() - k));
    }
}

/// Registration puts every block on the stack of free blocks once: no block
/// is free twice.
pub proof fn lemma_all_blocks_distinct(n: nat)
    requires
        n <= usize::MAX,
    ensures
        all_blocks(n).len() == n,
        all_blocks(n).no_duplicates(),
        forall|k: int| 0 <= k < n ==> #[trigger] all_blocks(n)[k] < n,
{
}

/// A pool of `n` blocks serves exactly `n` allocations. From a pool that
/// has handed out nothing, each of the first `n` allocations finds a free
/// block, no two of them get the same block, and after them no block is
/// free, so that the next allocation fails.
pub proof fn lemma_pool_serves_its_capacity(n: nat)
    requires
        n <= usize::MAX,
    ensures
        forall|k: nat| k < n ==> (#[trigger] drained(all_blocks(n), k)).len() > 0,
        forall|i: nat, j: nat|
            i < j < n ==> #[trigger] handed_out(all_blocks(n), i) != #[trigger] handed_out(
                all_blocks(n),
                j,
            ),
        drained(all_blocks(n), n).len() == 0,
{
    let free = all_blocks(n);
    assert forall|k: nat| k <= n implies (#[trigger] drained(free, k)).len() == n - k by {
        lemma_drained(free, k);
    }
    assert forall|i: nat, j: nat| i < j < n implies #[trigger] handed_out(free, i)
        != #[trigger] handed_out(free, j) by {
        lemma_drained(free, i);
        lemma_drained(free, j);
        assert(handed_out(free, i) == free[n - i - 1]);
        assert(handed_out(free, j) == free[n - j - 1]);
    }
}

/// A released block is the next one handed out: after a release the next
/// allocation succeeds, reuses the block, and leaves the free blocks as
/// they were before the release.
pub proof fn lemma_released_block_is_reused(free: Seq<usize>, block: usize)
    ensures
        free.push(block).len() > 0,
        free.push(block).last() == block,
        free.push(block).drop_last() == free,
{
    assert(free.push(block).drop_last() =~= free);
}

/// A stack of distinct blocks of a pool of `n` blocks holds no more than
/// `n` of them.
pub proof fn lemma_blocks_fit(free: Seq<usize>, n: nat)
    requires
        free.no_duplicates(),
        forall|k: int| 0 <= k < free.len() ==> #[trigger] free[k] < n,
    ensures
        free.len() <= n,
{
    let blocks = free.to_set();
    let all = Set::new(|b: usize| b < n);
    free.unique_seq_to_set();
    assert(blocks.subset_of(all)) by {
        assert forall|b: usize| blocks.contains(b) implies all.contains(b) by {
            let k = choose|k: int| 0 <= k < free.len() && free[k] == b;
            assert(free[k] < n);
        }
    }
    lemma_below_finite(n);
    vstd::set_lib::lemma_len_subset(blocks, all);
}

/// There are `n` blocks below `n`, as far as blocks can be counted.
proof fn lemma_below_finite(n: nat)
    ensures
        Set::new(|b: usize| b < n).finite(),
        Set::new(|b: usize| b < n).len() <= n,
    decreases n,
{
    let all = Set::new(|b: usize| b < n);
    if n == 0 {
        assert(all =~= Set::<usize>::empty());
    } else {
        let fewer = Set::new(|b: usize| b < (n - 1) as nat);
        lemma_below_finite((n - 1) as nat);
        if n - 1 <= usize::MAX {
            assert(all =~= fewer.insert((n - 1) as usize));
        } else {
            assert(all =~= fewer);
        }
    }
}

impl<T, const N: usize> BoxPool for Pool<T, N> {
    type Data = T;

    type BoxedValue = Block<T>;

    open spec fn wf(&self) -> bool {
        self.inv()
    }

    open spec fn held(boxed: &Block<T>) -> T {
        boxed.value()
    }

    fn get(boxed: &Block<T>) -> (value: &T) {
        &boxed.value
    }

    fn get_mut(boxed: &mut Block<T>) -> (value: &mut T)
        ensures
            final(boxed).index() == old(boxed).index(),
    {
        &mut boxed.value
    }

    /// Registers the blocks on first use, then moves `value` into the free
    /// block on top of the stack. Fails, and returns `value`, when no block
    /// is free.
    fn allocate(&mut self, value: T) -> (r: Result<Box<Self>, T>)
        ensures
            final(self).ready(),
            r is Ok <==> old(self).free_blocks().len() > 0,
            r is Ok ==> {
                &&& r->Ok_0.0.index() == old(self).free_blocks().last()
                &&& final(self).free_blocks() == old(self).free_blocks().drop_last()
            },
            r is Err ==> final(self).free_blocks() == old(self).free_blocks(),
    {
        self.ensure_initialized();
        let ghost free = self.free@;
        match self.free.pop() {
            Some(index) => {
                assert(free[free.len() - 1] < N);
                self.taken.set(index, true);
                assert forall|block: int| 0 <= block < N implies (#[trigger] self.taken@[block]
                    <==> !self.free@.contains(block as usize)) by {
                    if block == index {
                        if self.free@.contains(index) {
                            let k = choose|k: int| 0 <= k < self.free@.len() && self.free@[k]
                                == index;
                            assert(free[k] == free[free.len() - 1]);
                        }
                    } else {
                        if free.contains(block as usize) {
                            let k = choose|k: int| 0 <= k < free.len() && free[k] == block as usize;
                            assert(self.free@[k] == block as usize);
                        }
                    }
                }
                Ok(Box(Block { index, value }))
            },
            None => Err(value),
        }
    }
}

} // verus!
