//! The channels that carry new block headers and new blocks to the subscriptions of every
//! connection.

use std::marker::PhantomData;
use std::sync::Arc;

use serde_json::Value;
use tokio::sync::broadcast::error::SendError;
use tokio::sync::broadcast::{Receiver, Sender};
use vstd::arithmetic::power2::pow2;
use vstd::prelude::*;

use super::data::Block;

verus! {

/// The largest capacity of a topic. With a larger one the buffer of a `tokio` broadcast channel may
/// exceed what a single allocation can hold.
pub const MAX_TOPIC_CAPACITY: usize = usize::MAX / 128;

/// The sending half of a `tokio` broadcast channel.
#[verifier::external_type_specification]
#[verifier::external_body]
#[verifier::reject_recursive_types(T)]
pub struct ExSender<T>(tokio::sync::broadcast::Sender<T>);

/// The receiving half of a `tokio` broadcast channel.
#[verifier::external_type_specification]
#[verifier::external_body]
#[verifier::reject_recursive_types(T)]
pub struct ExReceiver<T>(tokio::sync::broadcast::Receiver<T>);

/// The error of `tokio::sync::broadcast::Sender::send`.
#[verifier::external_type_specification]
#[verifier::external_body]
#[verifier::reject_recursive_types(T)]
pub struct ExSendError<T>(tokio::sync::broadcast::error::SendError<T>);

/// How many headers the channel of a sender retains for a receiver that lags behind.
pub uninterp spec fn header_slots(sender: Sender<Arc<Value>>) -> nat;

/// How many blocks the channel of a sender retains for a receiver that lags behind.
pub uninterp spec fn block_slots(sender: Sender<Arc<Block>>) -> nat;

/// The sender whose headers a receiver is given.
pub uninterp spec fn header_source(receiver: Receiver<Arc<Value>>) -> Sender<Arc<Value>>;

/// The sender whose blocks a receiver is given.
pub uninterp spec fn block_source(receiver: Receiver<Arc<Block>>) -> Sender<Arc<Block>>;

/// Whether `slots` is `capacity` rounded up to a power of two.
pub open spec fn rounds_up(capacity: nat, slots: nat) -> bool {
    &&& exists|exponent: nat| slots == #[trigger] pow2(exponent)
    &&& capacity <= slots < 2 * capacity
}

/// `tokio::sync::broadcast::Sender::clone` gives another handle to the same channel. A sender
/// holds nothing but a reference to its channel, so the handles are interchangeable.
pub assume_specification<T>[ <tokio::sync::broadcast::Sender<T> as Clone>::clone ](
    sender: &tokio::sync::broadcast::Sender<T>,
) -> (handle: tokio::sync::broadcast::Sender<T>)
    ensures
        handle == *sender,
;

/// `tokio::sync::broadcast::Sender::receiver_count` counts the receivers that are alive at the
/// moment of the call. Other tasks make and drop receivers at any time, so nothing is said of
/// the count.
pub assume_specification<T>[ tokio::sync::broadcast::Sender::<T>::receiver_count ](
    sender: &tokio::sync::broadcast::Sender<T>,
) -> (count: usize)
;

/// `tokio::sync::broadcast::Sender::send` puts a value on the channel and returns the number of
/// receivers, which is never zero: without a receiver it fails instead. Which of the two happens
/// depends on the receivers at that moment; that a failure hands the value back is left unsaid.
pub assume_specification<T>[ tokio::sync::broadcast::Sender::<T>::send ](
    sender: &tokio::sync::broadcast::Sender<T>,
    value: T,
) -> (sent: Result<usize, tokio::sync::broadcast::error::SendError<T>>)
    ensures
        sent matches Ok(count) ==> count >= 1,
;

/// `tokio::sync::broadcast::channel` makes a channel for headers whose buffer has the capacity
/// asked for, rounded up to a power of two. The receiver that comes with it is dropped.
#[verifier::external_body]
fn header_channel(capacity: usize) -> (sender: Sender<Arc<Value>>)
    requires
        0 < capacity <= MAX_TOPIC_CAPACITY,
    ensures
        rounds_up(capacity as nat, header_slots(sender)),
{
    tokio::sync::broadcast::channel(capacity).0
}

/// `tokio::sync::broadcast::channel` makes a channel for blocks whose buffer has the capacity
/// asked for, rounded up to a power of two. The receiver that comes with it is dropped.
#[verifier::external_body]
fn block_channel(capacity: usize) -> (sender: Sender<Arc<Block>>)
    requires
        0 < capacity <= MAX_TOPIC_CAPACITY,
    ensures
        rounds_up(capacity as nat, block_slots(sender)),
{
    tokio::sync::broadcast::channel(capacity).0
}

/// `tokio::sync::broadcast::Sender::subscribe` makes a receiver of the sender's own channel. That
/// it is given only what is sent after the call is left unsaid: it depends on what other tasks
/// send and when. A channel bounds its receivers by a number that memory cannot hold.
#[verifier::external_body]
fn subscribe_to_headers(sender: &Sender<Arc<Value>>) -> (receiver: Receiver<Arc<Value>>)
    ensures
        header_source(receiver) == *sender,
{
    sender.subscribe()
}

/// `tokio::sync::broadcast::Sender::subscribe` makes a receiver of the sender's own channel. That
/// it is given only what is sent after the call is left unsaid: it depends on what other tasks
/// send and when. A channel bounds its receivers by a number that memory cannot hold.
#[verifier::external_body]
pub(crate) fn subscribe_to_blocks(sender: &Sender<Arc<Block>>) -> (receiver: Receiver<Arc<Block>>)
    ensures
        block_source(receiver) == *sender,
{
    sender.subscribe()
}

/// Whether `count` is a result of `receiver_count` for `sender`, which only a call can tell.
pub open spec fn counted(sender: Sender<Arc<Value>>, count: usize) -> bool {
    call_ensures(Sender::<Arc<Value>>::receiver_count, (&sender,), count)
}

/// Whether `outcome` is a result of `send` for `sender` and `value`, which only a call can tell.
pub open spec fn handed_on(
    sender: Sender<Arc<Value>>,
    value: Arc<Value>,
    outcome: Result<usize, SendError<Arc<Value>>>,
) -> bool {
    call_ensures(Sender::<Arc<Value>>::send, (&sender, value), outcome)
}

/// Whether `outcome` is a result of `send` for `channel` and `value`.
pub open spec fn put_on<C, O, S: FnOnce(&C, Arc<Value>) -> O>(
    send: S,
    channel: &C,
    value: Arc<Value>,
    outcome: O,
) -> bool {
    send.ensures((channel, value), outcome)
}

/// A broadcast sender that turns each item into JSON once, for all subscribers together. The JSON
/// is shared between them, not copied.
#[derive(Debug)]
pub struct JsonBroadcaster<T> {
    sender: Sender<Arc<Value>>,
    item_type: PhantomData<T>,
}

impl<T> JsonBroadcaster<T> {
    /// The channel that the items go to.
    pub closed spec fn sender(&self) -> Sender<Arc<Value>> {
        self.sender
    }

    /// Makes a broadcaster whose channel retains at least `capacity` items.
    pub fn with_capacity(capacity: usize) -> (broadcaster: Self)
        requires
            0 < capacity <= MAX_TOPIC_CAPACITY,
        ensures
            rounds_up(capacity as nat, header_slots(broadcaster.sender())),
    {
        JsonBroadcaster { sender: header_channel(capacity), item_type: PhantomData }
    }

    /// What is broadcast of an item when `receivers` of them listen: without a receiver nothing,
    /// and `to_value` is not called; with one, the JSON that `to_value` gives. Its error is passed
    /// on.
    pub fn encode<E, F: FnOnce(T) -> Result<Value, E>>(
        receivers: usize,
        item: T,
        to_value: F,
    ) -> (encoded: Result<Option<Arc<Value>>, E>)
        requires
            receivers > 0 ==> to_value.requires((item,)),
        ensures
            receivers == 0 ==> encoded == Ok::<Option<Arc<Value>>, E>(None),
            receivers > 0 ==> match encoded {
                Ok(Some(value)) => to_value.ensures((item,), Ok(*value)),
                Ok(None) => false,
                Err(error) => to_value.ensures((item,), Err(error)),
            },
    {
        if receivers > 0 {
            match to_value(item) {
                Ok(value) => Ok(Some(Arc::new(value))),
                Err(error) => Err(error),
            }
        } else {
            Ok(None)
        }
    }

    /// Hands the JSON of an item to a channel of any kind, with `send`, if `receivers` of them listen.
    /// Nothing but `send` can use the channel, and it can be called only once.
    fn hand_on<C, O, E, F: FnOnce(T) -> Result<Value, E>, S: FnOnce(&C, Arc<Value>) -> O>(
        channel: &C,
        receivers: usize,
        item: T,
        to_value: F,
        send: S,
    ) -> (sent: Result<Option<O>, E>)
        requires
            receivers > 0 ==> to_value.requires((item,)),
            forall|value: Arc<Value>|
                receivers > 0 && to_value.ensures((item,), Ok(*value)) ==> #[trigger] send.requires(
                    (channel, value),
                ),
        ensures
            receivers == 0 ==> sent == Ok::<Option<O>, E>(None),
            receivers > 0 ==> match sent {
                Ok(outcome) => outcome is Some,
                Err(error) => to_value.ensures((item,), Err(error)),
            },
            sent matches Ok(Some(outcome)) ==> exists|value: Arc<Value>|
                to_value.ensures((item,), Ok(*value)) && #[trigger] put_on(
                    send,
                    channel,
                    value,
                    outcome,
                ),
    {
        match Self::encode(receivers, item, to_value) {
            Ok(Some(value)) => {
                let outcome = send(channel, value);
                assert(put_on(send, channel, value, outcome));
                let sent: Result<Option<O>, E> = Ok(Some(outcome));
                assert(sent->Ok_0->0 == outcome);
                assert(exists|value: Arc<Value>|
                    to_value.ensures((item,), Ok(*value)) && #[trigger] put_on(
                        send,
                        channel,
                        value,
                        sent->Ok_0->0,
                    ));
                sent
            },
            Ok(None) => Ok(None),
            Err(error) => Err(error),
        }
    }

    /// Whether JSON that `to_value` gives for `item` was handed to the channel, whatever came of it.
    pub open spec fn broadcasts<E, F: FnOnce(T) -> Result<Value, E>>(
        &self,
        item: T,
        to_value: F,
    ) -> bool {
        exists|value: Arc<Value>, outcome: Result<usize, SendError<Arc<Value>>>|
            to_value.ensures((item,), Ok(*value)) && #[trigger] handed_on(
                self.sender(),
                value,
                outcome,
            )
    }

    /// Broadcasts an item, unless nobody listens: when the receivers are counted and there are some,
    /// the JSON that `to_value` gives is handed to the channel. It fails only where `to_value` does:
    /// that the channel loses its last receiver in the meantime is no error.
    pub fn send_if_receiving<E, F: FnOnce(T) -> Result<Value, E>>(
        &self,
        item: T,
        to_value: F,
    ) -> (sent: Result<(), E>)
        requires
            forall|receivers: usize| #[trigger]
                counted(self.sender(), receivers) && receivers > 0 ==> to_value.requires((item,)),
        ensures
            exists|receivers: usize| #[trigger]
                counted(self.sender(), receivers) && match sent {
                    Ok(()) => receivers == 0 || self.broadcasts(item, to_value),
                    Err(error) => receivers > 0 && to_value.ensures((item,), Err(error)),
                },
    {
        let receivers: usize = self.sender.receiver_count();
        assert(counted(self.sender(), receivers));
        match Self::hand_on(
            &self.sender,
            receivers,
            item,
            to_value,
            Sender::<Arc<Value>>::send,
        ) {
            Ok(Some(outcome)) => {
                proof {
                    let value = choose|value: Arc<Value>|
                        to_value.ensures((item,), Ok(*value)) && #[trigger] put_on(
                            Sender::<Arc<Value>>::send,
                            &self.sender,
                            value,
                            outcome,
                        );
                    assert(handed_on(self.sender(), value, outcome));
                }
                Ok(())
            },
            Ok(None) => Ok(()),
            Err(error) => Err(error),
        }
    }

    /// Makes a receiver of what is broadcast from now on.
    pub fn subscribe(&self) -> (receiver: Receiver<Arc<Value>>)
        ensures
            header_source(receiver) == self.sender(),
    {
        subscribe_to_headers(&self.sender)
    }
}

impl<T> Clone for JsonBroadcaster<T> {
    fn clone(&self) -> (handle: Self)
        ensures
            handle.sender() == self.sender(),
    {
        JsonBroadcaster { sender: self.sender.clone(), item_type: PhantomData }
    }
}

/// The channels of all topics. `T` is what a block header is.
#[derive(Debug)]
pub struct TopicBroadcasters<T> {
    pub new_head: JsonBroadcaster<T>,
    pub blocks: Sender<Arc<Block>>,
}

impl<T> TopicBroadcasters<T> {
    /// Whether each channel retains `capacity` items, rounded up to a power of two.
    pub open spec fn retains(&self, capacity: nat) -> bool {
        &&& rounds_up(capacity, header_slots(self.new_head.sender()))
        &&& rounds_up(capacity, block_slots(self.blocks))
    }

    pub fn with_capacity(capacity: usize) -> (broadcasters: TopicBroadcasters<T>)
        requires
            0 < capacity <= MAX_TOPIC_CAPACITY,
        ensures
            broadcasters.retains(capacity as nat),
    {
        TopicBroadcasters {
            new_head: JsonBroadcaster::with_capacity(capacity),
            blocks: block_channel(capacity),
        }
    }
}

impl<T> Default for TopicBroadcasters<T> {
    fn default() -> (broadcasters: Self)
        ensures
            broadcasters.retains(100),
    {
        TopicBroadcasters::with_capacity(100)
    }
}

impl<T> Clone for TopicBroadcasters<T> {
    fn clone(&self) -> (handles: Self)
        ensures
            handles.new_head.sender() == self.new_head.sender(),
            handles.blocks == self.blocks,
    {
        TopicBroadcasters { new_head: self.new_head.clone(), blocks: self.blocks.clone() }
    }
}

/// What every websocket connection of the node shares.
#[derive(Debug)]
pub struct WebsocketContext<T> {
    /// How many messages are buffered on their way to a client.
    pub socket_buffer_capacity: usize,
    pub broadcasters: TopicBroadcasters<T>,
}

impl<T> WebsocketContext<T> {
    pub open spec fn wf(&self) -> bool {
        self.socket_buffer_capacity > 0
    }

    pub fn new(socket_buffer_capacity: usize, topic_sender_capacity: usize) -> (context: Self)
        requires
            socket_buffer_capacity > 0,
            0 < topic_sender_capacity <= MAX_TOPIC_CAPACITY,
        ensures
            context.wf(),
            context.socket_buffer_capacity == socket_buffer_capacity,
            context.broadcasters.retains(topic_sender_capacity as nat),
    {
        let broadcasters = TopicBroadcasters::with_capacity(topic_sender_capacity);
        WebsocketContext { socket_buffer_capacity, broadcasters }
    }
}

impl<T> Default for WebsocketContext<T> {
    fn default() -> (context: Self)
        ensures
            context.wf(),
            context.socket_buffer_capacity == 100,
            context.broadcasters.retains(100),
    {
        WebsocketContext { socket_buffer_capacity: 100, broadcasters: TopicBroadcasters::default() }
    }
}

impl<T> Clone for WebsocketContext<T> {
    fn clone(&self) -> (context: Self)
        ensures
            context.socket_buffer_capacity == self.socket_buffer_capacity,
            context.broadcasters.new_head.sender() == self.broadcasters.new_head.sender(),
            context.broadcasters.blocks == self.broadcasters.blocks,
    {
        WebsocketContext {
            socket_buffer_capacity: self.socket_buffer_capacity,
            broadcasters: self.broadcasters.clone(),
        }
    }
}

/// A channel retains at least as many items as are asked for, fewer than twice as many, and just as
/// many if that is a power of two.
pub proof fn law_capacity_is_rounded_up(capacity: nat, slots: nat)
    requires
        rounds_up(capacity, slots),
    ensures
        capacity <= slots < 2 * capacity,
        exists|exponent: nat| slots == #[trigger] pow2(exponent),
        forall|exponent: nat| capacity == #[trigger] pow2(exponent) ==> slots == capacity,
{
    let found = choose|exponent: nat| slots == #[trigger] pow2(exponent);
    assert forall|exponent: nat| capacity == #[trigger] pow2(exponent) implies slots == capacity by {
        vstd::arithmetic::power2::lemma_pow2_unfold(exponent + 1);
        if found > exponent {
            if found > exponent + 1 {
                vstd::arithmetic::power2::lemma_pow2_strictly_increases(exponent + 1, found);
            }
        }
        if found < exponent {
            vstd::arithmetic::power2::lemma_pow2_strictly_increases(found, exponent);
        }
    }
}

/// The channels of both topics retain what is asked for.
pub proof fn law_both_topics_have_the_capacity<T>(broadcasters: TopicBroadcasters<T>, capacity: nat)
    requires
        broadcasters.retains(capacity),
    ensures
        rounds_up(capacity, header_slots(broadcasters.new_head.sender())),
        rounds_up(capacity, block_slots(broadcasters.blocks)),
{
}

/// What is broadcast of an item is JSON that `to_value` gives for this very item, put on the channel
/// of the broadcaster.
pub proof fn law_item_itself_is_broadcast<T, E, F: FnOnce(T) -> Result<Value, E>>(
    broadcaster: JsonBroadcaster<T>,
    item: T,
    to_value: F,
)
    requires
        broadcaster.broadcasts(item, to_value),
    ensures
        exists|value: Arc<Value>, outcome: Result<usize, SendError<Arc<Value>>>|
            to_value.ensures((item,), Ok(*value)) && #[trigger] call_ensures(
                Sender::<Arc<Value>>::send,
                (&broadcaster.sender(), value),
                outcome,
            ),
{
    let (value, outcome) = choose|
        value: Arc<Value>,
        outcome: Result<usize, SendError<Arc<Value>>>,
    |
        to_value.ensures((item,), Ok(*value)) && #[trigger] handed_on(
            broadcaster.sender(),
            value,
            outcome,
        );
    assert(call_ensures(
        Sender::<Arc<Value>>::send,
        (&broadcaster.sender(), value),
        outcome,
    ));
}

} // verus!
