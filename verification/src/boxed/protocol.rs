//! A pool and its callers under arbitrary interleaving.
//!
//! Callers share one pool. Each of them goes through the once-only
//! initialization, asks for a block, and may give the block back. Every
//! access to what they share is one atomic step, and the steps of different
//! callers come in any order. This module states that as a transition system
//! over the decisions of [`crate::boxed::init`] and proves what holds of
//! every run: the storage is registered exactly once and before any block is
//! handed out, no block is on loan twice, and a request fails only while
//! every block is on loan.
use crate::boxed::init::{
    action_after, InitAction, InitState, INITIALIZED, INITIALIZING, UNINITIALIZED,
};
use crate::boxed::pool::all_blocks;
use vstd::prelude::*;

verus! {

/// A caller's place in the protocol.
pub enum Phase {
    /// Has not tried to claim the storage yet.
    Arriving,
    /// Claimed the storage and has not registered the blocks yet.
    Registering,
    /// Registered the blocks and has not published yet.
    Publishing,
    /// Found another caller at work and waits for it to publish.
    Waiting,
    /// Through the initialization, about to ask for a block.
    Ready,
    /// Owns the block of this number.
    Holding(usize),
    /// Asked for a block when none was free; may ask again.
    Refused,
    /// Gave its block back.
    Returned,
    /// Met a byte that stands for no state.
    Lost,
}

/// One pool and its callers, at one moment.
pub struct Protocol {
    /// The byte that the callers share.
    pub flag: u8,
    /// How many times the storage has been registered.
    pub registrations: nat,
    /// The number of blocks of the pool.
    pub capacity: nat,
    /// The free blocks, as a stack: the last one is handed out next.
    pub free: Seq<usize>,
    /// The place of each caller.
    pub callers: Seq<Phase>,
}

impl Phase {
    /// Whether a caller in this phase holds the claim on the storage.
    pub open spec fn holds_claim(self) -> bool {
        self is Registering || self is Publishing
    }

    /// Whether a caller in this phase is through the initialization.
    pub open spec fn is_through(self) -> bool {
        self is Ready || self is Holding || self is Refused || self is Returned
    }
}

/// The number of callers that hold a block.
pub open spec fn held_count(callers: Seq<Phase>) -> nat
    decreases callers.len(),
{
    if callers.len() == 0 {
        0
    } else if callers.last() is Holding {
        held_count(callers.drop_last()) + 1
    } else {
        held_count(callers.drop_last())
    }
}

impl Protocol {
    /// A fresh pool of `capacity` blocks with `n` callers that have all yet
    /// to arrive.
    pub open spec fn start(capacity: nat, n: nat) -> Protocol {
        Protocol {
            flag: UNINITIALIZED,
            registrations: 0,
            capacity,
            free: Seq::empty(),
            callers: Seq::new(n, |i: int| Phase::Arriving),
        }
    }

    /// The result of the exchange that an arriving caller makes on the
    /// shared byte.
    pub open spec fn exchange_result(self) -> Result<u8, u8> {
        if self.flag == UNINITIALIZED {
            Ok(self.flag)
        } else {
            Err(self.flag)
        }
    }

    /// The state after caller `id` has taken its next atomic step. Callers
    /// take their steps in any order.
    pub open spec fn step(self, id: int) -> Protocol
        recommends
            0 <= id < self.callers.len(),
    {
        match self.callers[id] {
            Phase::Arriving => {
                let result = self.exchange_result();
                let flag = if result is Ok {
                    INITIALIZING
                } else {
                    self.flag
                };
                let phase = match action_after(result) {
                    Some(InitAction::Register) => Phase::Registering,
                    Some(InitAction::Wait) => Phase::Waiting,
                    Some(InitAction::Proceed) => Phase::Ready,
                    None => Phase::Lost,
                };
                Protocol { flag, callers: self.callers.update(id, phase), ..self }
            },
            Phase::Registering => Protocol {
                registrations: self.registrations + 1,
                free: all_blocks(self.capacity),
                callers: self.callers.update(id, Phase::Publishing),
                ..self
            },
            Phase::Publishing => Protocol {
                flag: INITIALIZED,
                callers: self.callers.update(id, Phase::Ready),
                ..self
            },
            Phase::Waiting => if self.flag == INITIALIZING {
                self
            } else {
                Protocol { callers: self.callers.update(id, Phase::Ready), ..self }
            },
            Phase::Ready | Phase::Refused => if self.free.len() > 0 {
                Protocol {
                    free: self.free.drop_last(),
                    callers: self.callers.update(id, Phase::Holding(self.free.last())),
                    ..self
                }
            } else {
                Protocol { callers: self.callers.update(id, Phase::Refused), ..self }
            },
            Phase::Holding(block) => Protocol {
                free: self.free.push(block),
                callers: self.callers.update(id, Phase::Returned),
                ..self
            },
            Phase::Returned => self,
            Phase::Lost => self,
        }
    }

    /// The state after the callers named in `schedule` have taken one step
    /// each, in that order.
    pub open spec fn run(self, schedule: Seq<int>) -> Protocol
        decreases schedule.len(),
    {
        if schedule.len() == 0 {
            self
        } else {
            self.run(schedule.drop_last()).step(schedule.last())
        }
    }

    /// What holds of the initialization at every moment of every run.
    pub open spec fn init_inv(self) -> bool {
        &&& InitState::decode(self.flag) is Some
        &&& forall|i: int| 0 <= i < self.callers.len() ==> !(#[trigger] self.callers[i] is Lost)
        &&& forall|i: int, j: int|
            0 <= i < self.callers.len() && 0 <= j < self.callers.len() && (
            #[trigger] self.callers[i]).holds_claim() && (#[trigger] self.callers[j]).holds_claim()
                ==> i == j
        &&& forall|i: int|
            0 <= i < self.callers.len() && (#[trigger] self.callers[i]).holds_claim() ==> self.flag
                == INITIALIZING
        &&& forall|i: int|
            0 <= i < self.callers.len() && #[trigger] self.callers[i] is Registering
                ==> self.registrations == 0
        &&& forall|i: int|
            0 <= i < self.callers.len() && #[trigger] self.callers[i] is Publishing
                ==> self.registrations == 1
        &&& forall|i: int|
            0 <= i < self.callers.len() && self.flag == UNINITIALIZED
                ==> #[trigger] self.callers[i] is Arriving
        &&& forall|i: int|
            0 <= i < self.callers.len() && (#[trigger] self.callers[i]).is_through() ==> self.flag
                == INITIALIZED
        &&& self.flag == UNINITIALIZED ==> self.registrations == 0
        &&& self.flag == INITIALIZED ==> self.registrations == 1
        &&& self.registrations <= 1
    }

    /// What holds of the blocks at every moment of every run: before the
    /// registration none is free or on loan; after it every block is either
    /// free or on loan to one caller.
    pub open spec fn loan_inv(self) -> bool {
        &&& self.capacity <= usize::MAX
        &&& self.registrations == 0 ==> self.free.len() == 0
        &&& self.free.no_duplicates()
        &&& forall|k: int| 0 <= k < self.free.len() ==> #[trigger] self.free[k] < self.capacity
        &&& forall|i: int|
            0 <= i < self.callers.len() && #[trigger] self.callers[i] is Holding ==> {
                &&& self.callers[i]->Holding_0 < self.capacity
                &&& !self.free.contains(self.callers[i]->Holding_0)
            }
        &&& forall|i: int, j: int|
            0 <= i < self.callers.len() && 0 <= j < self.callers.len() && #[trigger] self.callers[i]
                is Holding && #[trigger] self.callers[j] is Holding && self.callers[i]->Holding_0
                == self.callers[j]->Holding_0 ==> i == j
        &&& self.registrations == 1 ==> self.free.len() + held_count(self.callers)
            == self.capacity
    }

    /// What holds at every moment of every run.
    pub open spec fn inv(self) -> bool {
        self.init_inv() && self.loan_inv()
    }
}

/// Changing one caller's phase changes the number of holders by that
/// caller's part in it.
pub proof fn lemma_held_count_update(callers: Seq<Phase>, id: int, phase: Phase)
    requires
        0 <= id < callers.len(),
    ensures
        held_count(callers.update(id, phase)) + (if callers[id] is Holding {
            1nat
        } else {
            0nat
        }) == held_count(callers) + (if phase is Holding {
            1nat
        } else {
            0nat
        }),
    decreases callers.len(),
{
    let changed = callers.update(id, phase);
    if id == callers.len() - 1 {
        assert(changed.drop_last() =~= callers.drop_last());
    } else {
        lemma_held_count_update(callers.drop_last(), id, phase);
        assert(changed.drop_last() =~= callers.drop_last().update(id, phase));
    }
}

/// No more callers hold a block than there are callers, and fewer when one
/// of them holds none.
pub proof fn lemma_held_count_bound(callers: Seq<Phase>)
    ensures
        held_count(callers) <= callers.len(),
        forall|i: int|
            0 <= i < callers.len() && !(#[trigger] callers[i] is Holding) ==> held_count(callers)
                < callers.len(),
    decreases callers.len(),
{
    if callers.len() > 0 {
        lemma_held_count_bound(callers.drop_last());
        assert forall|i: int|
            0 <= i < callers.len() && !(#[trigger] callers[i] is Holding) implies held_count(
            callers,
        ) < callers.len() by {
            if i < callers.len() - 1 {
                assert(callers.drop_last()[i] == callers[i]);
            }
        }
    }
}

/// Where nobody holds a block the number of holders is zero.
pub proof fn lemma_held_count_none(callers: Seq<Phase>)
    requires
        forall|i: int| 0 <= i < callers.len() ==> !(#[trigger] callers[i] is Holding),
    ensures
        held_count(callers) == 0,
    decreases callers.len(),
{
    if callers.len() > 0 {
        assert forall|i: int| 0 <= i < callers.drop_last().len() implies !(
        #[trigger] callers.drop_last()[i] is Holding) by {
            assert(callers.drop_last()[i] == callers[i]);
        }
        lemma_held_count_none(callers.drop_last());
    }
}

/// One step of any caller keeps what holds at every moment.
pub proof fn lemma_step_keeps_inv(p: Protocol, id: int)
    requires
        p.inv(),
        0 <= id < p.callers.len(),
    ensures
        p.step(id).inv(),
        p.step(id).callers.len() == p.callers.len(),
        p.step(id).capacity == p.capacity,
{
    let q = p.step(id);
    assert(q.callers.len() == p.callers.len());
    assert forall|i: int| 0 <= i < q.callers.len() && i != id implies #[trigger] q.callers[i]
        == p.callers[i] by {}
    lemma_held_count_update(p.callers, id, q.callers[id]);
    if q.callers =~= p.callers {
    } else {
        assert(q.callers =~= p.callers.update(id, q.callers[id]));
    }
    match p.callers[id] {
        Phase::Arriving => {
            if p.flag == UNINITIALIZED {
                assert forall|i: int| 0 <= i < p.callers.len() implies !(
                #[trigger] p.callers[i]).holds_claim() by {
                    assert(p.callers[i] is Arriving);
                }
            }
        },
        Phase::Registering => {
            assert(p.flag == INITIALIZING);
            assert forall|i: int| 0 <= i < p.callers.len() implies !(
            #[trigger] p.callers[i] is Holding) by {
                if p.callers[i] is Holding {
                    assert(p.callers[i].is_through());
                }
            }
            lemma_held_count_none(p.callers);
            assert(q.free.len() == p.capacity);
        },
        Phase::Publishing => {},
        Phase::Waiting => {
            assert(p.flag != UNINITIALIZED);
        },
        Phase::Ready | Phase::Refused => {
            assert(p.callers[id].is_through());
            if p.free.len() > 0 {
                let block = p.free.last();
                assert(p.free[p.free.len() - 1] == block);
                assert forall|i: int|
                    0 <= i < q.callers.len() && #[trigger] q.callers[i] is Holding implies {
                    &&& q.callers[i]->Holding_0 < q.capacity
                    &&& !q.free.contains(q.callers[i]->Holding_0)
                } by {
                    if i == id {
                        if q.free.contains(block) {
                            let k = choose|k: int| 0 <= k < q.free.len() && q.free[k] == block;
                            assert(p.free[k] == block);
                        }
                    } else {
                        let other = p.callers[i]->Holding_0;
                        if q.free.contains(other) {
                            let k = choose|k: int| 0 <= k < q.free.len() && q.free[k] == other;
                            assert(p.free[k] == other);
                        }
                    }
                }
                assert forall|i: int, j: int|
                    0 <= i < q.callers.len() && 0 <= j < q.callers.len() && #[trigger] q.callers[i]
                        is Holding && #[trigger] q.callers[j] is Holding && q.callers[i]->Holding_0
                        == q.callers[j]->Holding_0 implies i == j by {
                    if i == id && j != id {
                        assert(!p.free.contains(p.callers[j]->Holding_0));
                    }
                    if j == id && i != id {
                        assert(!p.free.contains(p.callers[i]->Holding_0));
                    }
                }
            }
        },
        Phase::Holding(block) => {
            assert(p.callers[id].is_through());
            assert(q.free.last() == block);
            assert forall|i: int|
                0 <= i < q.callers.len() && #[trigger] q.callers[i] is Holding implies {
                &&& q.callers[i]->Holding_0 < q.capacity
                &&& !q.free.contains(q.callers[i]->Holding_0)
            } by {
                let other = p.callers[i]->Holding_0;
                assert(i != id);
                assert(other != block);
                if q.free.contains(other) {
                    let k = choose|k: int| 0 <= k < q.free.len() && q.free[k] == other;
                    if k < p.free.len() {
                        assert(p.free[k] == other);
                    }
                }
            }
            assert forall|a: int, b: int|
                0 <= a < q.free.len() && 0 <= b < q.free.len() && a != b implies q.free[a]
                != q.free[b] by {
                if a == p.free.len() {
                    assert(p.free[b] == q.free[b]);
                } else if b == p.free.len() {
                    assert(p.free[a] == q.free[a]);
                }
            }
        },
        Phase::Returned => {},
        Phase::Lost => {},
    }
}

/// The storage is registered exactly once, and no block is on loan twice,
/// however many callers race.
///
/// Whatever the number of blocks, the number of callers and the order of
/// their steps: the storage is never registered twice; no caller meets a
/// byte that stands for no state; a caller that is through the
/// initialization finds the storage registered once and published; no two
/// callers hold the same block; and every block is either free or on loan.
pub proof fn lemma_registered_exactly_once(capacity: nat, n: nat, schedule: Seq<int>)
    requires
        capacity <= usize::MAX,
        forall|k: int| 0 <= k < schedule.len() ==> 0 <= #[trigger] schedule[k] < n,
    ensures
        Protocol::start(capacity, n).run(schedule).inv(),
        Protocol::start(capacity, n).run(schedule).callers.len() == n,
        Protocol::start(capacity, n).run(schedule).capacity == capacity,
    decreases schedule.len(),
{
    let end = Protocol::start(capacity, n).run(schedule);
    if schedule.len() == 0 {
        let start = Protocol::start(capacity, n);
        assert(end == start);
        lemma_held_count_none(start.callers);
    } else {
        let before = Protocol::start(capacity, n).run(schedule.drop_last());
        lemma_registered_exactly_once(capacity, n, schedule.drop_last());
        lemma_step_keeps_inv(before, schedule.last());
        assert(end == before.step(schedule.last()));
    }
}

/// A request for a block fails only while every block is on loan: the
/// caller is refused exactly when as many callers hold a block as the pool
/// has blocks, and is given a block that nobody holds otherwise.
pub proof fn lemma_refused_only_when_all_on_loan(p: Protocol, id: int)
    requires
        p.inv(),
        0 <= id < p.callers.len(),
        p.callers[id] is Ready || p.callers[id] is Refused,
    ensures
        p.step(id).callers[id] is Refused <==> held_count(p.callers) == p.capacity,
        !(p.step(id).callers[id] is Refused) ==> {
            &&& p.step(id).callers[id] is Holding
            &&& forall|i: int|
                0 <= i < p.callers.len() && #[trigger] p.callers[i] is Holding
                    ==> p.callers[i]->Holding_0 != p.step(id).callers[id]->Holding_0
        },
{
    assert(p.callers[id].is_through());
    if p.free.len() > 0 {
        let block = p.free.last();
        assert(p.free[p.free.len() - 1] == block);
        assert(p.free.contains(block));
    }
}

/// With no more callers than blocks nobody is ever refused.
pub proof fn lemma_enough_blocks_for_all(capacity: nat, n: nat, schedule: Seq<int>)
    requires
        n <= capacity <= usize::MAX,
        forall|k: int| 0 <= k < schedule.len() ==> 0 <= #[trigger] schedule[k] < n,
    ensures
        forall|i: int|
            0 <= i < n ==> !(#[trigger] Protocol::start(capacity, n).run(schedule).callers[i]
                is Refused),
    decreases schedule.len(),
{
    let end = Protocol::start(capacity, n).run(schedule);
    lemma_registered_exactly_once(capacity, n, schedule);
    if schedule.len() > 0 {
        let before = Protocol::start(capacity, n).run(schedule.drop_last());
        let id = schedule.last();
        lemma_registered_exactly_once(capacity, n, schedule.drop_last());
        lemma_enough_blocks_for_all(capacity, n, schedule.drop_last());
        assert(end == before.step(id));
        assert forall|i: int| 0 <= i < n implies !(#[trigger] end.callers[i] is Refused) by {
            if i == id {
                if before.callers[id] is Ready {
                    lemma_refused_only_when_all_on_loan(before, id);
                    lemma_held_count_bound(before.callers);
                }
            } else {
                assert(end.callers[i] == before.callers[i]);
            }
        }
    }
}

} // verus!
