use std::sync::mpsc::{Receiver, Sender};
use std::sync::Arc;
use vstd::prelude::*;
use vstd::rwlock::{RwLock, RwLockPredicate};

use crate::op::Op;
use crate::store::{copy_of, lookup_of, Store};

verus! {

#[verifier::external_type_specification]
#[verifier::external_body]
#[verifier::reject_recursive_types(T)]
pub struct ExSender<T>(Sender<T>);

#[verifier::external_type_specification]
#[verifier::external_body]
#[verifier::reject_recursive_types(T)]
pub struct ExReceiver<T>(Receiver<T>);

/// Relies on `std::sync::mpsc::channel`: a sender and a receiver of one
/// unbounded channel; nothing more is stated.
pub assume_specification<T>[ std::sync::mpsc::channel::<T> ]() -> (Sender<T>, Receiver<T>);

/// Relies on `Sender::send`: it fails only when the receiver is gone, and then
/// hands the message back.
#[verifier::external_body]
fn deliver<T>(sender: &Sender<T>, msg: T) -> (r: Result<(), T>)
    ensures
        r matches Err(back) ==> back == msg,
{
    sender.send(msg).map_err(|e| e.0)
}

/// Relies on `Receiver::recv`: blocks for the next message; `None` once every
/// sender is gone and the queue is drained.
#[verifier::external_body]
fn receive<T>(receiver: &Receiver<T>) -> Option<T> {
    receiver.recv().ok()
}

/// Relies on `<Sender as Clone>::clone`: another sender on the same channel.
#[verifier::external_body]
fn another_sender<T>(sender: &Sender<T>) -> Sender<T> {
    sender.clone()
}

/// Relies on `<Arc as Clone>::clone`: another pointer to the same value.
#[verifier::external_body]
fn share<T>(a: &Arc<T>) -> (r: Arc<T>)
    ensures
        r == *a,
{
    Arc::clone(a)
}

/// Lock predicate: the store inside is well formed.
pub struct WellFormed;

impl<B> RwLockPredicate<Store<B>> for WellFormed {
    open spec fn inv(self, s: Store<B>) -> bool {
        s.wf()
    }
}

/// Lock predicate that admits every value.
pub struct Unconstrained;

impl<V> RwLockPredicate<V> for Unconstrained {
    open spec fn inv(self, v: V) -> bool {
        true
    }
}

/// A handle on a store: it submits messages to the store's listener and reads
/// the store directly. Clones share one store and one channel.
#[verifier::reject_recursive_types(B)]
pub struct DataStore<B> {
    store: Arc<RwLock<Store<B>, WellFormed>>,
    sender: Sender<Op<B>>,
    receiver: Arc<RwLock<Option<Receiver<Op<B>>>, Unconstrained>>,
}

/// The single writer of a store: it takes messages off the channel and
/// applies them one at a time.
#[verifier::reject_recursive_types(B)]
pub struct Listener<B> {
    store: Arc<RwLock<Store<B>, WellFormed>>,
    receiver: Receiver<Op<B>>,
}

impl<B> DataStore<B> {
    /// The lock that holds the store.
    pub closed spec fn shared(&self) -> RwLock<Store<B>, WellFormed> {
        *self.store
    }

    /// A handle on a new, empty store whose listener has not been taken yet.
    pub fn new() -> (r: DataStore<B>)
        ensures
            r.shared().pred() == WellFormed,
    {
        let (sender, receiver) = std::sync::mpsc::channel();
        let store = RwLock::new(Store::new(), Ghost(WellFormed));
        let slot = RwLock::new(Some(receiver), Ghost(Unconstrained));
        DataStore { store: Arc::new(store), sender, receiver: Arc::new(slot) }
    }

    /// Submits a message to the listener without waiting for it to be applied.
    /// Fails, handing the message back, once the listener's side is gone.
    pub fn send(&self, msg: Op<B>) -> (r: Result<(), Op<B>>)
        ensures
            r matches Err(back) ==> back == msg,
    {
        deliver(&self.sender, msg)
    }

    /// The listener of this store: handed out to the first caller only.
    pub fn listener(&self) -> (r: Option<Listener<B>>)
        ensures
            r matches Some(l) ==> l.shared() == self.shared(),
    {
        let (slot, handle) = self.receiver.acquire_write();
        match slot {
            Some(receiver) => {
                handle.release_write(None);
                Some(Listener { store: share(&self.store), receiver })
            },
            None => {
                handle.release_write(None);
                None
            },
        }
    }
}

impl<B: Clone> DataStore<B> {
    /// A copy of the whole store as it stands: of one state that the lock held.
    pub fn all(&self) -> (r: Store<B>)
        ensures
            r.wf(),
            exists|s: Store<B>| #[trigger] self.shared().inv(s) && copy_of(r, s),
    {
        let handle = self.store.acquire_read();
        let ghost held = handle.view();
        let r = handle.borrow().snapshot();
        handle.release_read();
        assert(self.shared().inv(held) && copy_of(r, held));
        r
    }

    /// A copy of the current value of `key`, or `None` where it has no entry,
    /// in one state that the lock held.
    pub fn get(&self, key: String) -> (r: Option<B>)
        ensures
            exists|s: Store<B>| #[trigger] self.shared().inv(s) && lookup_of(r, s@, key@),
    {
        let handle = self.store.acquire_read();
        let ghost held = handle.view();
        let r = handle.borrow().get(&key);
        handle.release_read();
        assert(self.shared().inv(held) && lookup_of(r, held@, key@));
        r
    }
}

impl<B> Clone for DataStore<B> {
    fn clone(&self) -> Self {
        DataStore {
            store: share(&self.store),
            sender: another_sender(&self.sender),
            receiver: share(&self.receiver),
        }
    }
}

impl<B> Listener<B> {
    /// The lock that holds the store this listener writes.
    pub closed spec fn shared(&self) -> RwLock<Store<B>, WellFormed> {
        *self.store
    }
}

impl<B: Clone + Default> Listener<B> {
    /// Waits for the next message and applies it while holding the store's
    /// write lock. Returns `false`, applying nothing, once every sender is gone.
    pub fn step(&self) -> bool {
        match receive(&self.receiver) {
            Some(op) => {
                let (mut store, handle) = self.store.acquire_write();
                store.apply(op);
                handle.release_write(store);
                true
            },
            None => false,
        }
    }
}

} // verus!
