//! The once-only initialization of a pool's storage.
//!
//! A pool's storage is registered on first use. Any number of callers may
//! arrive at once; a single byte, changed only by atomic operations, decides
//! which one of them registers the storage. The others wait, without
//! blocking, until the storage is published, and callers that arrive later
//! pass straight through.
//!
//! This module holds the decisions of that protocol and the atomic
//! operations they rest on. What the decisions achieve when callers race is
//! shown in [`crate::boxed::protocol`].
use vstd::prelude::*;

verus! {

/// The byte of a pool whose storage nobody has claimed yet.
pub const UNINITIALIZED: u8 = 0;

/// The byte of a pool whose storage one caller is registering.
pub const INITIALIZING: u8 = 1;

/// The byte of a pool whose storage is registered and published.
pub const INITIALIZED: u8 = 2;

/// The three states of a pool's initialization.
#[derive(Debug, Clone, Copy, PartialEq, Eq, Structural)]
pub enum InitState {
    /// Nobody has claimed the storage yet.
    Uninitialized,
    /// One caller is registering the storage.
    Initializing,
    /// The storage is registered and published.
    Initialized,
}

/// What a caller of the protocol does after its attempt to claim the
/// storage.
#[derive(Debug, Clone, Copy, PartialEq, Eq, Structural)]
pub enum InitAction {
    /// The caller claimed the storage: it registers every block and then
    /// publishes.
    Register,
    /// Another caller is registering: wait until it has published.
    Wait,
    /// The storage is published already: go on.
    Proceed,
}

impl InitState {
    /// The byte that stands for this state.
    pub open spec fn code(self) -> u8 {
        match self {
            InitState::Uninitialized => UNINITIALIZED,
            InitState::Initializing => INITIALIZING,
            InitState::Initialized => INITIALIZED,
        }
    }

    /// The state that `code` stands for, if it stands for one.
    pub open spec fn decode(code: u8) -> Option<InitState> {
        if code == UNINITIALIZED {
            Some(InitState::Uninitialized)
        } else if code == INITIALIZING {
            Some(InitState::Initializing)
        } else if code == INITIALIZED {
            Some(InitState::Initialized)
        } else {
            None
        }
    }

    /// The byte that stands for this state.
    pub fn as_u8(self) -> (code: u8)
        ensures
            code == self.code(),
    {
        match self {
            InitState::Uninitialized => UNINITIALIZED,
            InitState::Initializing => INITIALIZING,
            InitState::Initialized => INITIALIZED,
        }
    }

    /// The state that `code` stands for; `None` for a byte that stands for
    /// no state.
    pub fn from_u8(code: u8) -> (state: Option<InitState>)
        ensures
            state == Self::decode(code),
    {
        if code == UNINITIALIZED {
            Some(InitState::Uninitialized)
        } else if code == INITIALIZING {
            Some(InitState::Initializing)
        } else if code == INITIALIZED {
            Some(InitState::Initialized)
        } else {
            None
        }
    }
}

/// What the attempt to change the byte from [`UNINITIALIZED`] to
/// [`INITIALIZING`] calls for, given the exchange's result: `Ok` with the
/// byte it replaced, or `Err` with the byte it found instead.
///
/// `None` stands for a result that no run of the protocol produces.
pub open spec fn action_after(exchange: Result<u8, u8>) -> Option<InitAction> {
    match exchange {
        Ok(found) => if found == UNINITIALIZED {
            Some(InitAction::Register)
        } else {
            None
        },
        Err(found) => if found == INITIALIZING {
            Some(InitAction::Wait)
        } else if found == INITIALIZED {
            Some(InitAction::Proceed)
        } else {
            None
        },
    }
}

/// Decides what a caller does after its attempt to claim the storage.
pub fn on_exchange(exchange: Result<u8, u8>) -> (action: Option<InitAction>)
    ensures
        action == action_after(exchange),
{
    match exchange {
        Ok(found) => match InitState::from_u8(found) {
            Some(InitState::Uninitialized) => Some(InitAction::Register),
            _ => None,
        },
        Err(found) => match InitState::from_u8(found) {
            Some(InitState::Initializing) => Some(InitAction::Wait),
            Some(InitState::Initialized) => Some(InitAction::Proceed),
            _ => None,
        },
    }
}

/// Whether a waiting caller that has read `observed` goes on waiting: it
/// does while the byte says that the storage is being registered.
pub fn keeps_waiting(observed: u8) -> (wait: bool)
    ensures
        wait == (observed == INITIALIZING),
{
    observed == INITIALIZING
}

/// The atomic byte of `portable_atomic`. Verus sees nothing inside it: what
/// it holds at any moment depends on every caller that shares it.
#[verifier::external_type_specification]
#[verifier::external_body]
pub struct ExAtomicU8(portable_atomic::AtomicU8);

/// `AtomicU8::compare_exchange`, acquire-release on success and acquire on
/// failure: writes `new` if the byte holds `current`. On success the
/// result holds the byte that was replaced, which is `current`; on failure
/// it holds the byte that was found, which is not `current`.
#[verifier::external_body]
fn exchange(flag: &portable_atomic::AtomicU8, current: u8, new: u8) -> (r: Result<u8, u8>)
    ensures
        r is Ok ==> r->Ok_0 == current,
        r is Err ==> r->Err_0 != current,
{
    flag.compare_exchange(
        current,
        new,
        portable_atomic::Ordering::AcqRel,
        portable_atomic::Ordering::Acquire,
    )
}

/// `AtomicU8::load`, with acquire ordering. Nothing is promised of the byte
/// that comes back.
#[verifier::external_body]
fn load_acquire(flag: &portable_atomic::AtomicU8) -> (observed: u8) {
    flag.load(portable_atomic::Ordering::Acquire)
}

/// `AtomicU8::store`, with release ordering.
#[verifier::external_body]
fn store_release(flag: &portable_atomic::AtomicU8, value: u8) {
    flag.store(value, portable_atomic::Ordering::Release)
}

/// Whether `exchange` can be the result of an attempt to change a byte from
/// [`UNINITIALIZED`] to another value.
pub open spec fn is_claim_result(exchange: Result<u8, u8>) -> bool {
    match exchange {
        Ok(found) => found == UNINITIALIZED,
        Err(found) => found != UNINITIALIZED,
    }
}

/// A caller's first step: tries to claim the storage behind `flag` and says
/// what the caller does next. `None` reports a byte that stands for no
/// state, which no run of the protocol produces; the caller treats it as
/// fatal.
///
/// The answer depends on what the other callers have done: it is the
/// decision of [`on_exchange`] for some result that the exchange can have.
pub fn claim(flag: &portable_atomic::AtomicU8) -> (action: Option<InitAction>)
    ensures
        exists|result: Result<u8, u8>|
            is_claim_result(result) && action == #[trigger] action_after(result),
{
    let result = exchange(flag, UNINITIALIZED, INITIALIZING);
    assert(is_claim_result(result));
    on_exchange(result)
}

/// The last step of the caller that registered the storage: publishes it,
/// so that every caller that then reads `flag` sees the registered blocks.
pub fn publish(flag: &portable_atomic::AtomicU8) {
    store_release(flag, INITIALIZED);
}

/// One look of a waiting caller at `flag`: whether the storage is still
/// being registered.
pub fn is_initializing(flag: &portable_atomic::AtomicU8) -> bool {
    keeps_waiting(load_acquire(flag))
}

} // verus!
