use mayheap::boxed::init::{
    claim, is_initializing, keeps_waiting, on_exchange, publish, InitAction, InitState,
    INITIALIZED, INITIALIZING, UNINITIALIZED,
};
use mayheap::boxed::{Box, BoxPool, Pool};
use portable_atomic::{AtomicU8, Ordering};

#[test]
fn pool_of_two_serves_two_and_reuses_a_released_block() {
    let mut pool: Pool<u32, 2> = Pool::new();
    let first = pool.allocate(42).unwrap();
    let second = pool.allocate(43).unwrap();
    assert_eq!(*first, 42);
    assert_eq!(*second, 43);
    assert_ne!(first.0.position(), second.0.position());
    assert_eq!(pool.allocate(44), Err(44));
    let freed = first.0.position();
    assert_eq!(pool.release(first), 42);
    let third = pool.allocate(45).unwrap();
    assert_eq!(*third, 45);
    assert_eq!(third.0.position(), freed);
    assert_eq!(pool.allocate(46), Err(46));
    assert_eq!(*second, 43);
}

#[test]
fn pool_hands_out_every_block_once() {
    fn drain<const N: usize>() {
        let mut pool: Pool<usize, N> = Pool::new();
        assert_eq!(pool.available(), N);
        let mut boxes = std::vec::Vec::new();
        for i in 0..N {
            boxes.push(pool.allocate(i).unwrap());
            assert_eq!(pool.available(), N - i - 1);
        }
        let mut seen = std::vec::Vec::new();
        for b in boxes.iter() {
            assert!(b.0.position() < N);
            assert!(!seen.contains(&b.0.position()));
            seen.push(b.0.position());
        }
        assert_eq!(pool.allocate(N), Err(N));
        for (i, b) in boxes.into_iter().enumerate() {
            assert_eq!(pool.release(b), i);
        }
        assert_eq!(pool.available(), N);
    }
    drain::<0>();
    drain::<1>();
    drain::<3>();
    drain::<16>();
}

#[test]
fn pool_initializes_once() {
    let mut pool: Pool<u8, 3> = Pool::new();
    assert_eq!(pool.state(), InitState::Uninitialized);
    assert_eq!(pool.available(), 3);
    pool.ensure_initialized();
    assert_eq!(pool.state(), InitState::Initialized);
    assert_eq!(pool.available(), 3);
    let held = pool.allocate(1).unwrap();
    let snapshot = pool.available();
    for _ in 0..5 {
        pool.ensure_initialized();
    }
    assert_eq!(pool.available(), snapshot);
    assert_eq!(pool.state(), InitState::Initialized);
    assert_eq!(pool.release(held), 1);
    assert_eq!(pool.available(), 3);
}

#[test]
fn pool_ignores_a_box_that_is_not_on_loan_from_it() {
    let mut lender: Pool<u8, 2> = Pool::new();
    let mut other: Pool<u8, 2> = Pool::new();
    let loan = lender.allocate(7).unwrap();
    assert_eq!(other.release(loan), 7);
    assert_eq!(other.available(), 2);
    assert_eq!(other.state(), InitState::Uninitialized);
    other.ensure_initialized();
    let stray = lender.allocate(8).unwrap();
    assert_eq!(other.release(stray), 8);
    assert_eq!(other.available(), 2);
    assert_eq!(lender.available(), 0);
}

#[test]
fn boxed_value_can_be_changed_in_place() {
    let mut pool: Pool<u32, 2> = Pool::new();
    let mut boxed = pool.allocate(42).unwrap();
    let block = boxed.0.position();
    assert_eq!(*boxed, 42);
    *boxed = 100;
    assert_eq!(*boxed, 100);
    assert_eq!(boxed.0.position(), block);
    assert_eq!(pool.release(boxed), 100);
}

#[test]
fn heap_pool_always_allocates() {
    let mut pool: mayheap::heap::boxed::Pool<u32, 2> = mayheap::heap::boxed::Pool::new();
    let mut first = pool.allocate(42).unwrap();
    let second = pool.allocate(43).unwrap();
    let third = pool.allocate(44).unwrap();
    assert_eq!((*first, *second, *third), (42, 43, 44));
    *first = 100;
    assert_eq!(pool.release(first), 100);
    assert_eq!(pool.release(third), 44);
    let wrapped: Box<mayheap::heap::boxed::Pool<u32, 2>> = Box::new(std::boxed::Box::new(5));
    assert_eq!(*wrapped, 5);
    assert_eq!(wrapped, Box::new(std::boxed::Box::new(5)));
}

#[test]
fn state_bytes() {
    assert_eq!(InitState::Uninitialized.as_u8(), 0);
    assert_eq!(InitState::Initializing.as_u8(), 1);
    assert_eq!(InitState::Initialized.as_u8(), 2);
    assert_eq!((UNINITIALIZED, INITIALIZING, INITIALIZED), (0, 1, 2));
    assert_eq!(InitState::from_u8(0), Some(InitState::Uninitialized));
    assert_eq!(InitState::from_u8(1), Some(InitState::Initializing));
    assert_eq!(InitState::from_u8(2), Some(InitState::Initialized));
    assert_eq!(InitState::from_u8(3), None);
    assert_eq!(InitState::from_u8(255), None);
}

#[test]
fn decisions_after_the_exchange() {
    assert_eq!(on_exchange(Ok(0)), Some(InitAction::Register));
    assert_eq!(on_exchange(Err(1)), Some(InitAction::Wait));
    assert_eq!(on_exchange(Err(2)), Some(InitAction::Proceed));
    assert_eq!(on_exchange(Ok(1)), None);
    assert_eq!(on_exchange(Ok(2)), None);
    assert_eq!(on_exchange(Err(0)), None);
    assert_eq!(on_exchange(Err(3)), None);
    assert!(keeps_waiting(1));
    assert!(!keeps_waiting(0));
    assert!(!keeps_waiting(2));
    assert!(!keeps_waiting(9));
}

#[test]
fn protocol_on_a_real_atomic_byte() {
    let flag = AtomicU8::new(UNINITIALIZED);
    assert!(!is_initializing(&flag));
    assert_eq!(claim(&flag), Some(InitAction::Register));
    assert_eq!(flag.load(Ordering::SeqCst), INITIALIZING);
    assert!(is_initializing(&flag));
    assert_eq!(claim(&flag), Some(InitAction::Wait));
    assert_eq!(flag.load(Ordering::SeqCst), INITIALIZING);
    publish(&flag);
    assert_eq!(flag.load(Ordering::SeqCst), INITIALIZED);
    assert!(!is_initializing(&flag));
    assert_eq!(claim(&flag), Some(InitAction::Proceed));
    assert_eq!(claim(&flag), Some(InitAction::Proceed));
    assert_eq!(flag.load(Ordering::SeqCst), INITIALIZED);
    let broken = AtomicU8::new(7);
    assert_eq!(claim(&broken), None);
    assert_eq!(broken.load(Ordering::SeqCst), 7);
}
