use std::cell::Cell;
use std::rc::Rc;
use std::sync::atomic::{AtomicUsize, Ordering};
use std::sync::{Barrier, Mutex};

use sixty_challenge_days::bank_account::BankAccount;
use sixty_challenge_days::channel::{Channel, ChannelError, OneShotChannel};
use sixty_challenge_days::locked_data::LockedData;
use sixty_challenge_days::once_cell::MyOnceCell;
use sixty_challenge_days::spin_lock::SpinLock;

#[test]
fn spin_lock_is_not_reentrant() {
    let lock = SpinLock::new();
    assert!(lock.try_lock());
    assert!(lock.is_locked());
    assert!(!lock.try_lock());
    lock.unlock();
    assert!(lock.try_lock());
}

#[test]
fn channel_refuses_misuse() {
    let mut channel = Channel::new();
    assert!(!channel.is_ready());
    assert_eq!(channel.receive(), Err(ChannelError::NotReady));
    assert_eq!(channel.send(5), Ok(()));
    assert_eq!(channel.send(6), Err(ChannelError::AlreadySent));
    assert!(channel.is_ready());
    assert_eq!(channel.receive(), Ok(5));
    assert!(!channel.is_ready());
    assert_eq!(channel.receive(), Err(ChannelError::AlreadyReceived));
    assert_eq!(channel.send(7), Err(ChannelError::AlreadySent));
}

struct DropCounter(Rc<Cell<usize>>);

impl Drop for DropCounter {
    fn drop(&mut self) {
        self.0.set(self.0.get() + 1);
    }
}

#[test]
fn dropping_a_channel_drops_its_pending_value_once() {
    let drops = Rc::new(Cell::new(0));
    {
        let mut channel = Channel::new();
        assert!(channel.send(DropCounter(Rc::clone(&drops))).is_ok());
        assert_eq!(drops.get(), 0);
    }
    assert_eq!(drops.get(), 1);

    let mut channel = Channel::new();
    assert!(channel.send(DropCounter(Rc::clone(&drops))).is_ok());
    let taken = channel.receive();
    drop(channel);
    assert_eq!(drops.get(), 1);
    drop(taken);
    assert_eq!(drops.get(), 2);
}

#[test]
fn test_new_is_empty() {
    let mut cell: MyOnceCell<u32> = MyOnceCell::new();
    assert_eq!(cell.get(), None);
    assert_eq!(*cell.get_or_init(|| 42), 42);
}

#[test]
fn test_get_or_init_returns_same_value() {
    let mut cell = MyOnceCell::new();
    let value1 = *cell.get_or_init(|| 42);
    let value2 = *cell.get_or_init(|| 84);

    assert_eq!(value1, 42);
    assert_eq!(value2, 42);
}

#[test]
fn test_init_runs_once() {
    let mut cell = MyOnceCell::new();
    let mut counter = 0;

    let value = *cell.get_or_init(|| {
        counter += 1;
        counter
    });

    assert_eq!(value, 1);

    let value = *cell.get_or_init(|| {
        counter += 1;
        counter
    });

    assert_eq!(value, 1);
    assert_eq!(counter, 1);
}

#[test]
fn test_with_complex_type() {
    struct ComplexType {
        value: String,
    }

    let mut cell = MyOnceCell::new();
    let result = cell.get_or_init(|| ComplexType {
        value: "hello world".to_string(),
    });

    assert_eq!(result.value, "hello world");
}

#[test]
fn one_shot_channel_refuses_a_second_send() {
    let channel = OneShotChannel::new();
    let (first, receiver) = channel.split();
    let (second, _) = channel.split();
    assert_eq!(first.send(1), Ok(()));
    assert_eq!(second.send(2), Err(ChannelError::AlreadySent));
    assert_eq!(receiver.receive(), Ok(1));
}

#[test]
fn locked_channel_hands_over_once() {
    let channel = LockedData::new(Channel::new());
    assert!(!channel.with_lock("receiver", |_, c| c.is_ready()));
    assert_eq!(channel.with_lock("sender", |_, c| c.send("Hello world!")), Ok(()));
    assert_eq!(
        channel.with_lock("receiver", |_, c| c.receive()),
        Ok("Hello world!")
    );
    assert_eq!(
        channel.with_lock("receiver", |_, c| c.receive()),
        Err(ChannelError::AlreadyReceived)
    );
}

#[test]
fn closing_a_one_shot_channel_drops_its_pending_value_once() {
    let drops = Rc::new(Cell::new(0));
    let channel = OneShotChannel::new();
    {
        let (sender, _) = channel.split();
        assert!(sender.send(DropCounter(Rc::clone(&drops))).is_ok());
    }
    let pending = channel.into_pending();
    assert!(pending.is_some());
    assert_eq!(drops.get(), 0);
    drop(pending);
    assert_eq!(drops.get(), 1);

    let channel: OneShotChannel<DropCounter> = OneShotChannel::new();
    assert!(channel.into_pending().is_none());
}

#[test]
fn locked_data_hands_back_its_value() {
    let data = LockedData::new(vec![1, 2]);
    data.with_lock("main", |_, v| v.push(3));
    assert_eq!(data.into_inner(), vec![1, 2, 3]);
}

fn pool(workers: usize) -> rayon::ThreadPool {
    rayon::ThreadPoolBuilder::new()
        .num_threads(workers)
        .build()
        .unwrap()
}

fn acquire(lock: &SpinLock) {
    while !lock.try_lock() {
        std::hint::spin_loop();
    }
}

#[test]
fn test_spin_lock() {
    let locked_account = LockedData::new(BankAccount::new(1, 1000));
    let num_threads = 5;
    let operations_per_thread = 2;

    pool(num_threads + 1).scope(|s| {
        for i in 0..num_threads {
            let account = &locked_account;
            s.spawn(move |_| {
                let actor_name = format!("Thread-{}", i);
                for j in 0..operations_per_thread {
                    if (i + j) % 2 == 0 {
                        let amount_to_deposit = (j * 10 + 50) as i64;
                        account.with_lock(&actor_name, |actor, account| {
                            account.deposit(amount_to_deposit, actor);
                        });
                    } else {
                        let amount_to_withdraw = (j * 10 + 30) as i64;
                        account.with_lock(&actor_name, |actor, account| {
                            account.withdraw(amount_to_withdraw, actor);
                        });
                    }
                }
            });
        }
    });

    locked_account.with_lock("main_thread_final_check", |_, account| {
        assert_eq!(account.id, 1);
        assert_eq!(account.transaction_log.len(), 10);
        assert_eq!(account.balance, 1000 + 3 * 50 + 2 * 60 - 2 * 30 - 3 * 40);
    });
}

#[test]
fn locked_data_counts_every_increment() {
    let data = LockedData::new(0u64);
    pool(11).scope(|s| {
        for i in 0..10 {
            let data = &data;
            s.spawn(move |_| {
                let name = format!("Thread-{}", i);
                for _ in 0..10_000 {
                    data.with_lock(&name, |_, n| *n += 1);
                }
            });
        }
    });
    assert_eq!(data.with_lock("main", |_, n| *n), 100_000);
}

#[test]
fn spin_lock_guards_a_counter() {
    let lock = SpinLock::new();
    let counter = AtomicUsize::new(0);
    pool(11).scope(|s| {
        for _ in 0..10 {
            let lock = &lock;
            let counter = &counter;
            s.spawn(move |_| {
                for _ in 0..10_000 {
                    acquire(lock);
                    let seen = counter.load(Ordering::Relaxed);
                    counter.store(seen + 1, Ordering::Relaxed);
                    lock.unlock();
                }
            });
        }
    });
    assert_eq!(counter.load(Ordering::Relaxed), 100_000);
    assert!(!lock.is_locked());
}

#[test]
fn test_channel_send_receive_with_thread_parking() {
    let channel = OneShotChannel::new();
    let received = pool(2).scope(|s| {
        let (sender, receiver) = channel.split();
        s.spawn(move |_| {
            assert_eq!(sender.send("Hello world!"), Ok(()));
        });
        loop {
            if receiver.is_ready() {
                break receiver.receive();
            }
            std::hint::spin_loop();
        }
    });
    assert_eq!(received, Ok("Hello world!"));
    let (_, receiver) = channel.split();
    assert_eq!(receiver.receive(), Err(ChannelError::AlreadyReceived));
}

#[derive(Debug, Clone, Copy, PartialEq)]
struct Payload {
    a: u64,
    b: u64,
}

#[test]
fn channel_hands_over_the_whole_value() {
    let workers = pool(2);
    for round in 0..10_000u64 {
        let channel = OneShotChannel::new();
        let received = workers.scope(|s| {
            let (sender, receiver) = channel.split();
            s.spawn(move |_| {
                let mut payload = Payload { a: 0, b: 0 };
                payload.a = round;
                payload.b = round * 2 + 1;
                sender.send(payload).unwrap();
            });
            loop {
                if let Ok(p) = receiver.receive() {
                    break p;
                }
                std::hint::spin_loop();
            }
        });
        assert_eq!(received.a, round);
        assert_eq!(received.b, received.a * 2 + 1);
    }
}

#[test]
fn test_multithreaded_init() {
    let cell = LockedData::new(MyOnceCell::new());
    let runs = AtomicUsize::new(0);
    let threads = 10;
    let barrier = Barrier::new(threads);
    let results = Mutex::new(Vec::new());

    pool(threads + 1).scope(|s| {
        for i in 0..threads {
            let (cell, runs, barrier, results) = (&cell, &runs, &barrier, &results);
            s.spawn(move |_| {
                barrier.wait();
                let value = cell.with_lock("thread", |_, c| {
                    *c.get_or_init(|| {
                        runs.fetch_add(1, Ordering::SeqCst);
                        i
                    })
                });
                results.lock().unwrap().push(value);
            });
        }
    });

    let results = results.into_inner().unwrap();
    assert_eq!(results.len(), threads);
    let first = results[0];
    for result in results {
        assert_eq!(result, first);
    }
    assert_eq!(runs.load(Ordering::SeqCst), 1);
}
