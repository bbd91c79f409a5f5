use vstd::prelude::*;
use vstd::rwlock::{RwLock, RwLockPredicate};

verus! {

/// Where a one-shot channel stands in its life.
#[derive(PartialEq, Eq, Structural, Debug, Clone, Copy)]
pub enum ChannelState {
    /// Nothing was sent yet.
    Empty,
    /// A value was sent and waits for the receiver.
    Ready,
    /// The value was taken by the receiver.
    Consumed,
}

/// A misuse of a one-shot channel, reported instead of corrupting its state.
#[derive(PartialEq, Eq, Structural, Debug, Clone, Copy)]
pub enum ChannelError {
    /// A second `send` on the same channel.
    AlreadySent,
    /// A `receive` before anything was sent.
    NotReady,
    /// A second `receive` after the value was taken.
    AlreadyReceived,
}

/// A single-use hand-off slot for one value of type `T`.
///
/// The slot is written at most once and read at most once. Dropping a channel
/// that still holds a value drops that value once.
pub struct Channel<T> {
    message: Option<T>,
    in_use: bool,
}

impl<T> Channel<T> {
    /// A slot holds a value only after a send.
    pub closed spec fn wf(&self) -> bool {
        self.message is Some ==> self.in_use
    }

    pub closed spec fn state(&self) -> ChannelState {
        if self.message is Some {
            ChannelState::Ready
        } else if self.in_use {
            ChannelState::Consumed
        } else {
            ChannelState::Empty
        }
    }

    /// The value waiting in the slot, if any.
    pub closed spec fn pending(&self) -> Option<T> {
        self.message
    }

    /// What `send(message)` does to `pre`, giving `post` and `r`.
    pub open spec fn send_post(pre: Self, message: T, post: Self, r: Result<(), ChannelError>) -> bool {
        if pre.state() == ChannelState::Empty {
            &&& r == Ok::<(), ChannelError>(())
            &&& post.state() == ChannelState::Ready
            &&& post.pending() == Some(message)
        } else {
            &&& r == Err::<(), ChannelError>(ChannelError::AlreadySent)
            &&& post == pre
        }
    }

    /// What `receive()` does to `pre`, giving `post` and `r`.
    pub open spec fn receive_post(pre: Self, post: Self, r: Result<T, ChannelError>) -> bool {
        match pre.state() {
            ChannelState::Ready => {
                &&& r == Ok::<T, ChannelError>(pre.pending()->0)
                &&& post.state() == ChannelState::Consumed
            },
            ChannelState::Empty => {
                &&& r == Err::<T, ChannelError>(ChannelError::NotReady)
                &&& post == pre
            },
            ChannelState::Consumed => {
                &&& r == Err::<T, ChannelError>(ChannelError::AlreadyReceived)
                &&& post == pre
            },
        }
    }

    /// A fresh, empty channel.
    pub fn new() -> (r: Self)
        ensures
            r.wf(),
            r.state() == ChannelState::Empty,
    {
        Channel { message: None, in_use: false }
    }

    /// Puts `message` in the slot and marks it ready; a second send is refused
    /// and leaves the channel as it was.
    pub fn send(&mut self, message: T) -> (r: Result<(), ChannelError>)
        requires
            old(self).wf(),
        ensures
            final(self).wf(),
            Self::send_post(*old(self), message, *final(self), r),
    {
        if self.in_use {
            Err(ChannelError::AlreadySent)
        } else {
            self.in_use = true;
            self.message = Some(message);
            Ok(())
        }
    }

    /// Whether a value waits in the slot; never takes it.
    pub fn is_ready(&self) -> (r: bool)
        ensures
            r == (self.state() == ChannelState::Ready),
    {
        self.message.is_some()
    }

    /// Takes the value out of the slot. Receiving before a send, or a second
    /// time, is refused and leaves the channel as it was.
    pub fn receive(&mut self) -> (r: Result<T, ChannelError>)
        requires
            old(self).wf(),
        ensures
            final(self).wf(),
            Self::receive_post(*old(self), *final(self), r),
    {
        match self.message.take() {
            Some(message) => Ok(message),
            None => {
                if self.in_use {
                    Err(ChannelError::AlreadyReceived)
                } else {
                    Err(ChannelError::NotReady)
                }
            },
        }
    }
}

/// The lock invariant of a shared channel: the channel is well formed.
pub struct WellFormed;

impl<T> RwLockPredicate<Channel<T>> for WellFormed {
    open spec fn inv(self, c: Channel<T>) -> bool {
        c.wf()
    }
}

/// A one-shot channel shared between a sending and a receiving thread.
///
/// Each step of the protocol runs on the channel under a spin lock whose
/// acquisition is `Acquire` and whose release is `Release`, so a value written
/// before `send` is seen whole by the `receive` that takes it.
pub struct OneShotChannel<T> {
    slot: RwLock<Channel<T>, WellFormed>,
}

/// The sending half of a [`OneShotChannel`]; sending consumes it.
pub struct Sender<'a, T> {
    channel: &'a OneShotChannel<T>,
}

/// The receiving half of a [`OneShotChannel`].
pub struct Receiver<'a, T> {
    channel: &'a OneShotChannel<T>,
}

impl<T> OneShotChannel<T> {
    /// A fresh, empty channel.
    pub fn new() -> (r: Self) {
        OneShotChannel { slot: RwLock::new(Channel::new(), Ghost(WellFormed)) }
    }

    /// Closes the channel and hands back the value still waiting in it, if any,
    /// so that it is dropped exactly once. Dropping a `OneShotChannel` without
    /// this leaves a waiting value undropped.
    pub fn into_pending(self) -> (r: Option<T>) {
        let mut channel = self.slot.into_inner();
        channel.message.take()
    }

    /// The two halves of the channel.
    pub fn split(&self) -> (r: (Sender<'_, T>, Receiver<'_, T>))
        ensures
            r.0.target() == *self,
            r.1.target() == *self,
    {
        (Sender { channel: self }, Receiver { channel: self })
    }
}

impl<'a, T> Sender<'a, T> {
    /// The channel this half belongs to.
    pub closed spec fn target(&self) -> OneShotChannel<T> {
        *self.channel
    }

    /// Sends `message`. Whether another sender came first depends on the other
    /// threads: the send succeeds, or is refused as a second send.
    pub fn send(self, message: T) -> (r: Result<(), ChannelError>)
        ensures
            r is Ok || r == Err::<(), ChannelError>(ChannelError::AlreadySent),
    {
        let (mut channel, handle) = self.channel.slot.acquire_write();
        let r = channel.send(message);
        handle.release_write(channel);
        r
    }
}

impl<'a, T> Receiver<'a, T> {
    /// The channel this half belongs to.
    pub closed spec fn target(&self) -> OneShotChannel<T> {
        *self.channel
    }

    /// Whether a value waits in the channel at the moment of the look; never
    /// takes it.
    pub fn is_ready(&self) -> (r: bool) {
        let handle = self.channel.slot.acquire_read();
        let ready = handle.borrow().is_ready();
        handle.release_read();
        ready
    }

    /// Takes the value if one waits. Whether it has come yet depends on the
    /// sending thread: the result is the value, or a refusal because nothing
    /// was sent yet or the value was already taken.
    pub fn receive(&self) -> (r: Result<T, ChannelError>)
        ensures
            r is Ok || r == Err::<T, ChannelError>(ChannelError::NotReady) || r == Err::<T, ChannelError>(
                ChannelError::AlreadyReceived,
            ),
    {
        let (mut channel, handle) = self.channel.slot.acquire_write();
        let r = channel.receive();
        handle.release_write(channel);
        r
    }
}

/// Exactly-once delivery: on a fresh channel, a send followed by a receive hands
/// over the sent value, and a further receive is refused.
pub proof fn lemma_exactly_once_delivery<T>(
    c0: Channel<T>,
    message: T,
    c1: Channel<T>,
    sent: Result<(), ChannelError>,
    c2: Channel<T>,
    first: Result<T, ChannelError>,
    c3: Channel<T>,
    second: Result<T, ChannelError>,
)
    requires
        c0.state() == ChannelState::Empty,
        Channel::send_post(c0, message, c1, sent),
        Channel::receive_post(c1, c2, first),
        Channel::receive_post(c2, c3, second),
    ensures
        sent == Ok::<(), ChannelError>(()),
        first == Ok::<T, ChannelError>(message),
        second == Err::<T, ChannelError>(ChannelError::AlreadyReceived),
        c3.state() == ChannelState::Consumed,
{
}

} // verus!
