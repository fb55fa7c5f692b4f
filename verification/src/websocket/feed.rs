//! What a running subscription does with what its channel hands it.
//!
//! A subscription alternates between receiving from its channel and sending to the client. Each
//! `step` takes what came of the last action and says what to do next.

use std::collections::VecDeque;
use std::sync::Arc;

use serde_json::Value;
use vstd::prelude::*;

use super::data::{
    Block, EmittedEvent, EmittedEventView, EventFilterParams, ResponseEvent, ResponseView,
    SubscriptionItem,
};
use super::events::EventFilter;

verus! {

/// What a broadcast channel hands a receiver.
#[derive(Debug, PartialEq, Eq)]
pub enum Received<T> {
    Item(T),
    /// The receiver was too slow, and this many items are lost to it.
    Lagged(u64),
    /// All senders are gone.
    Closed,
}

/// What came of the last action of a subscription.
#[derive(Debug, PartialEq, Eq)]
pub enum FeedEvent<T> {
    Received(Received<T>),
    /// Whether the response could be handed on.
    Sent(bool),
}

/// What a subscription does next.
#[derive(Debug, PartialEq, Eq)]
pub enum FeedAction<R> {
    Receive,
    Send(ResponseEvent<R>),
    /// Sends a response, and stops whether it could be handed on or not.
    SendLast(ResponseEvent<R>),
    Stop,
}

/// What a [`FeedAction`] says.
pub enum FeedActionView<R> {
    Receive,
    Send(ResponseView<R>),
    SendLast(ResponseView<R>),
    Stop,
}

impl<R> View for FeedAction<R> {
    type V = FeedActionView<R>;

    open spec fn view(&self) -> FeedActionView<R> {
        match *self {
            FeedAction::Receive => FeedActionView::Receive,
            FeedAction::Send(response) => FeedActionView::Send(response@),
            FeedAction::SendLast(response) => FeedActionView::SendLast(response@),
            FeedAction::Stop => FeedActionView::Stop,
        }
    }
}

/// What a subscriber is told when headers are lost to it: the subscription ends.
pub open spec fn lost_headers<R>(subscription_id: u32) -> ResponseView<R> {
    ResponseView::SubscriptionClosed {
        subscription_id,
        reason: "Lagging stream, some headers were skipped. Closing subscription."@,
    }
}

/// What a subscriber is told when blocks are lost to it: the subscription ends.
pub open spec fn lost_events<R>(subscription_id: u32) -> ResponseView<R> {
    ResponseView::SubscriptionClosed {
        subscription_id,
        reason: "Lagging stream, some events were skipped. Closing subscription."@,
    }
}

/// What a subscription to new headers does after `event`.
pub open spec fn header_action<R>(
    subscription_id: u32,
    event: FeedEvent<Arc<Value>>,
) -> FeedActionView<R> {
    match event {
        FeedEvent::Received(Received::Item(header)) => FeedActionView::Send(
            ResponseView::Header { subscription_id, header: *header },
        ),
        FeedEvent::Received(Received::Lagged(_)) => FeedActionView::SendLast(
            lost_headers(subscription_id),
        ),
        FeedEvent::Received(Received::Closed) => FeedActionView::Stop,
        FeedEvent::Sent(true) => FeedActionView::Receive,
        FeedEvent::Sent(false) => FeedActionView::Stop,
    }
}

/// A step of a subscription to new headers.
pub fn header_subscription<R>(subscription_id: u32, event: FeedEvent<Arc<Value>>) -> (action:
    FeedAction<R>)
    ensures
        action@ == header_action::<R>(subscription_id, event),
{
    match event {
        FeedEvent::Received(Received::Item(header)) => FeedAction::Send(
            ResponseEvent::Header(SubscriptionItem { subscription_id, item: header }),
        ),
        FeedEvent::Received(Received::Lagged(_)) => FeedAction::SendLast(
            ResponseEvent::SubscriptionClosed {
                subscription_id,
                reason:
                    "Lagging stream, some headers were skipped. Closing subscription.".to_owned(),
            },
        ),
        FeedEvent::Received(Received::Closed) => FeedAction::Stop,
        FeedEvent::Sent(sent) => if sent {
            FeedAction::Receive
        } else {
            FeedAction::Stop
        },
    }
}

/// A subscription to the events of new blocks.
#[derive(Debug, PartialEq, Eq)]
pub struct EventSubscription {
    subscription_id: u32,
    filter: EventFilter,
    pending: VecDeque<EmittedEvent>,
}

/// What an [`EventSubscription`] holds: the events of the last block that are still to be sent,
/// besides what it was made of.
pub struct EventSubscriptionView {
    pub subscription_id: u32,
    pub filter: EventFilterParams,
    pub pending: Seq<EmittedEventView>,
}

impl EventSubscriptionView {
    pub open spec fn initial(subscription_id: u32, filter: EventFilterParams) -> Self {
        EventSubscriptionView { subscription_id, filter, pending: Seq::empty() }
    }

    /// Sends the first event that is still to be sent, or else waits for the next block.
    pub open spec fn advance<R>(self) -> (Self, FeedActionView<R>) {
        if self.pending.len() == 0 {
            (self, FeedActionView::Receive)
        } else {
            (
                EventSubscriptionView { pending: self.pending.drop_first(), ..self },
                FeedActionView::Send(
                    ResponseView::Event {
                        subscription_id: self.subscription_id,
                        event: self.pending[0],
                    },
                ),
            )
        }
    }

    /// What the subscription becomes, and what it does, after `event`.
    pub open spec fn next<R>(self, event: FeedEvent<Arc<Block>>) -> (Self, FeedActionView<R>) {
        match event {
            FeedEvent::Received(Received::Item(block)) => EventSubscriptionView {
                pending: self.filter.select(block.events()),
                ..self
            }.advance(),
            FeedEvent::Received(Received::Lagged(_)) => (
                self,
                FeedActionView::SendLast(lost_events(self.subscription_id)),
            ),
            FeedEvent::Received(Received::Closed) => (self, FeedActionView::Stop),
            FeedEvent::Sent(true) => self.advance(),
            FeedEvent::Sent(false) => (self, FeedActionView::Stop),
        }
    }
}

impl View for EventSubscription {
    type V = EventSubscriptionView;

    closed spec fn view(&self) -> EventSubscriptionView {
        EventSubscriptionView {
            subscription_id: self.subscription_id,
            filter: self.filter.params(),
            pending: self.pending@.map_values(|event: EmittedEvent| event@),
        }
    }
}

impl EventSubscription {
    pub closed spec fn wf(self) -> bool {
        self.filter.wf()
    }

    pub fn new(subscription_id: u32, filter: EventFilterParams) -> (subscription: Self)
        ensures
            subscription.wf(),
            subscription@ == EventSubscriptionView::initial(subscription_id, filter),
    {
        let subscription = EventSubscription {
            subscription_id,
            filter: EventFilter::new(filter),
            pending: VecDeque::new(),
        };
        assert(subscription@.pending =~= Seq::empty());
        subscription
    }

    fn advance<R>(&mut self) -> (action: FeedAction<R>)
        requires
            old(self).wf(),
        ensures
            final(self).wf(),
            (final(self)@, action@) == old(self)@.advance::<R>(),
    {
        let ghost view = |event: EmittedEvent| event@;
        match self.pending.pop_front() {
            Some(event) => {
                assert(self.pending@.map_values(view) =~= old(self)@.pending.drop_first());
                FeedAction::Send(
                    ResponseEvent::Event(
                        SubscriptionItem {
                            subscription_id: self.subscription_id,
                            item: Arc::new(event),
                        },
                    ),
                )
            },
            None => {
                assert(self.pending@.map_values(view) =~= old(self)@.pending);
                FeedAction::Receive
            },
        }
    }

    /// A step of the subscription.
    pub fn step<R>(&mut self, event: FeedEvent<Arc<Block>>) -> (action: FeedAction<R>)
        requires
            old(self).wf(),
        ensures
            final(self).wf(),
            (final(self)@, action@) == old(self)@.next::<R>(event),
    {
        match event {
            FeedEvent::Received(Received::Item(block)) => {
                self.pending = self.filter.select(&block);
                self.advance()
            },
            FeedEvent::Received(Received::Lagged(_)) => FeedAction::SendLast(
                ResponseEvent::SubscriptionClosed {
                    subscription_id: self.subscription_id,
                    reason:
                        "Lagging stream, some events were skipped. Closing subscription.".to_owned(),
                },
            ),
            FeedEvent::Received(Received::Closed) => FeedAction::Stop,
            FeedEvent::Sent(sent) => if sent {
                self.advance()
            } else {
                FeedAction::Stop
            },
        }
    }
}

impl EventSubscriptionView {
    /// What the subscription becomes, and what it does, once it has received `block` and sent
    /// `count` of its events.
    pub open spec fn after_sending<R>(self, block: Arc<Block>, count: nat) -> (
        Self,
        FeedActionView<R>,
    )
        decreases count,
    {
        if count == 0 {
            self.next(FeedEvent::Received(Received::Item(block)))
        } else {
            self.after_sending::<R>(block, (count - 1) as nat).0.next(FeedEvent::Sent(true))
        }
    }
}

/// As long as the client can be reached, it is sent each event of a block that the filter lets
/// through, in order; when all of them are sent, the subscription is ready for the next block.
pub proof fn law_block_is_delivered<R>(
    subscription: EventSubscriptionView,
    block: Arc<Block>,
    count: nat,
)
    requires
        count <= subscription.filter.select(block.events()).len(),
    ensures
        ({
            let events = subscription.filter.select(block.events());
            let (left, action) = subscription.after_sending::<R>(block, count);
            &&& left.subscription_id == subscription.subscription_id
            &&& left.filter == subscription.filter
            &&& count < events.len() ==> action == FeedActionView::<R>::Send(
                ResponseView::Event {
                    subscription_id: subscription.subscription_id,
                    event: events[count as int],
                },
            ) && left.pending == events.skip(count as int + 1)
            &&& count == events.len() ==> action is Receive && left.pending.len() == 0
        }),
    decreases count,
{
    if count > 0 {
        law_block_is_delivered::<R>(subscription, block, (count - 1) as nat);
    }
}

/// Whether `event` can come of `action`. Nothing comes of the last action of a subscription.
pub open spec fn comes_of<T, R>(event: FeedEvent<T>, action: FeedActionView<R>) -> bool {
    match action {
        FeedActionView::Receive => event is Received,
        FeedActionView::Send(_) => event is Sent,
        FeedActionView::SendLast(_) => false,
        FeedActionView::Stop => false,
    }
}

/// What a subscription does before the event at `index`, where `actions` is what it does after each
/// event. It starts by receiving.
pub open spec fn action_before<R>(actions: Seq<FeedActionView<R>>, index: int) -> FeedActionView<
    R,
> {
    if index == 0 {
        FeedActionView::Receive
    } else {
        actions[index - 1]
    }
}

/// Whether each event of a series comes of what the subscription does before it.
pub open spec fn accepted<T, R>(
    events: Seq<FeedEvent<T>>,
    actions: Seq<FeedActionView<R>>,
) -> bool {
    forall|i: int|
        0 <= i < events.len() ==> comes_of(#[trigger] events[i], action_before(actions, i))
}

/// The responses among the actions, in order.
pub open spec fn responses<R>(actions: Seq<FeedActionView<R>>) -> Seq<ResponseView<R>>
    decreases actions.len(),
{
    if actions.len() == 0 {
        Seq::empty()
    } else {
        let earlier = responses(actions.drop_last());
        match actions.last() {
            FeedActionView::Send(response) => earlier.push(response),
            FeedActionView::SendLast(response) => earlier.push(response),
            _ => earlier,
        }
    }
}

/// The items that a series of events brings, in order.
pub open spec fn items<T>(events: Seq<FeedEvent<T>>) -> Seq<T>
    decreases events.len(),
{
    if events.len() == 0 {
        Seq::empty()
    } else {
        match events.last() {
            FeedEvent::Received(Received::Item(item)) => items(events.drop_last()).push(item),
            _ => items(events.drop_last()),
        }
    }
}

/// Whether an event tells that items are lost.
pub open spec fn is_lag<T>(event: FeedEvent<T>) -> bool {
    event matches FeedEvent::Received(received) && received is Lagged
}

/// Whether nothing comes after an event: items are lost, the channel is closed, or a response could
/// not be handed on.
pub open spec fn is_end<T>(event: FeedEvent<T>) -> bool {
    match event {
        FeedEvent::Received(received) => received is Lagged || received is Closed,
        FeedEvent::Sent(sent) => !sent,
    }
}

/// What is said at the end of a series of events, if its last one tells that items are lost.
pub open spec fn farewell<T, R>(events: Seq<FeedEvent<T>>, lost: ResponseView<R>) -> Seq<
    ResponseView<R>,
> {
    if events.len() > 0 && is_lag(events.last()) {
        seq![lost]
    } else {
        Seq::empty()
    }
}

proof fn lemma_accepted_earlier<T, R>(
    events: Seq<FeedEvent<T>>,
    actions: Seq<FeedActionView<R>>,
)
    requires
        events.len() > 0,
        actions.len() == events.len(),
        accepted(events, actions),
    ensures
        accepted(events.drop_last(), actions.drop_last()),
        comes_of(events.last(), action_before(actions, events.len() - 1)),
{
    let earlier = events.drop_last();
    assert(events[events.len() - 1] == events.last());
    assert forall|i: int| 0 <= i < earlier.len() implies comes_of(
        #[trigger] earlier[i],
        action_before(actions.drop_last(), i),
    ) by {
        assert(earlier[i] == events[i]);
    }
}

/// What a subscription to new headers does after each of a series of events.
pub open spec fn header_actions<R>(
    subscription_id: u32,
    events: Seq<FeedEvent<Arc<Value>>>,
) -> Seq<FeedActionView<R>> {
    events.map_values(|event: FeedEvent<Arc<Value>>| header_action::<R>(subscription_id, event))
}

/// The responses that bring headers to a subscriber.
pub open spec fn header_responses<R>(subscription_id: u32, headers: Seq<Arc<Value>>) -> Seq<
    ResponseView<R>,
> {
    headers.map_values(
        |header: Arc<Value>| ResponseView::<R>::Header { subscription_id, header: *header },
    )
}

/// A subscriber is sent the headers that are received, each once and in order. If some are lost, the
/// subscriber is told so, and that is the last it is sent.
pub proof fn law_headers_are_sent_in_order<R>(
    subscription_id: u32,
    events: Seq<FeedEvent<Arc<Value>>>,
)
    requires
        accepted(events, header_actions::<R>(subscription_id, events)),
    ensures
        responses(header_actions::<R>(subscription_id, events)) == header_responses::<R>(
            subscription_id,
            items(events),
        ) + farewell(events, lost_headers::<R>(subscription_id)),
    decreases events.len(),
{
    let actions = header_actions::<R>(subscription_id, events);
    if events.len() > 0 {
        let earlier = events.drop_last();
        lemma_accepted_earlier(events, actions);
        assert(actions.drop_last() =~= header_actions::<R>(subscription_id, earlier));
        law_headers_are_sent_in_order::<R>(subscription_id, earlier);
        law_header_subscription_ends::<R>(subscription_id, events);
        if earlier.len() > 0 {
            assert(events[earlier.len() - 1] == earlier.last());
        }
    }
    assert(responses(actions) =~= header_responses::<R>(subscription_id, items(events)) + farewell(
        events,
        lost_headers::<R>(subscription_id),
    ));
}

/// Nothing follows when headers are lost, when the channel is closed, or when a response could not
/// be handed on.
pub proof fn law_header_subscription_ends<R>(
    subscription_id: u32,
    events: Seq<FeedEvent<Arc<Value>>>,
)
    requires
        accepted(events, header_actions::<R>(subscription_id, events)),
    ensures
        forall|i: int| 0 <= i < events.len() - 1 ==> !is_end(#[trigger] events[i]),
{
    let actions = header_actions::<R>(subscription_id, events);
    assert forall|i: int| 0 <= i < events.len() - 1 implies !is_end(#[trigger] events[i]) by {
        assert(comes_of(events[i + 1], action_before(actions, i + 1)));
    }
}

impl EventSubscriptionView {
    /// What the subscription becomes in the course of a series of events.
    pub open spec fn after<R>(self, events: Seq<FeedEvent<Arc<Block>>>) -> Self
        decreases events.len(),
    {
        if events.len() == 0 {
            self
        } else {
            self.after::<R>(events.drop_last()).next::<R>(events.last()).0
        }
    }

    /// What the subscription does after each of a series of events.
    pub open spec fn actions<R>(self, events: Seq<FeedEvent<Arc<Block>>>) -> Seq<FeedActionView<R>>
        decreases events.len(),
    {
        if events.len() == 0 {
            Seq::empty()
        } else {
            self.actions::<R>(events.drop_last()).push(
                self.after::<R>(events.drop_last()).next::<R>(events.last()).1,
            )
        }
    }

    /// The events of a block that the filter lets through, in order.
    pub open spec fn selected_of(self, block: Arc<Block>) -> Seq<EmittedEventView> {
        self.filter.select(block.events())
    }

    /// The events of a series of blocks that the filter lets through, in order.
    pub open spec fn selected(self, blocks: Seq<Arc<Block>>) -> Seq<EmittedEventView>
        decreases blocks.len(),
    {
        if blocks.len() == 0 {
            Seq::empty()
        } else {
            self.selected(blocks.drop_last()) + self.selected_of(blocks.last())
        }
    }

    /// The responses that bring events to the subscriber.
    pub open spec fn event_responses<R>(self, events: Seq<EmittedEventView>) -> Seq<
        ResponseView<R>,
    > {
        events.map_values(
            |event: EmittedEventView|
                ResponseView::<R>::Event { subscription_id: self.subscription_id, event },
        )
    }
}

proof fn lemma_event_actions<R>(
    subscription: EventSubscriptionView,
    events: Seq<FeedEvent<Arc<Block>>>,
)
    ensures
        subscription.actions::<R>(events).len() == events.len(),
        forall|i: int|
            0 <= i < events.len() && is_end(#[trigger] events[i]) ==> subscription.actions::<R>(
                events,
            )[i] is SendLast || subscription.actions::<R>(events)[i] is Stop,
    decreases events.len(),
{
    if events.len() > 0 {
        let earlier = events.drop_last();
        lemma_event_actions::<R>(subscription, earlier);
        assert forall|i: int| 0 <= i < events.len() && is_end(#[trigger] events[i]) implies
            subscription.actions::<R>(events)[i] is SendLast || subscription.actions::<R>(
            events,
        )[i] is Stop by {
            if i < earlier.len() {
                assert(is_end(earlier[i]));
            }
        }
    }
}

/// Nothing follows when blocks are lost, when the channel is closed, or when a response could not be
/// handed on.
pub proof fn law_event_subscription_ends<R>(
    subscription: EventSubscriptionView,
    events: Seq<FeedEvent<Arc<Block>>>,
)
    requires
        accepted(events, subscription.actions::<R>(events)),
    ensures
        forall|i: int| 0 <= i < events.len() - 1 ==> !is_end(#[trigger] events[i]),
{
    let actions = subscription.actions::<R>(events);
    lemma_event_actions::<R>(subscription, events);
    assert forall|i: int| 0 <= i < events.len() - 1 implies !is_end(#[trigger] events[i]) by {
        assert(comes_of(events[i + 1], action_before(actions, i + 1)));
    }
}

/// A subscriber is sent the events that the filter lets through of each block that is received, each
/// once and in order; those that are not sent yet are still to be sent. If blocks are lost, the
/// subscriber is told so, and that is the last it is sent.
pub proof fn law_events_are_sent_in_order<R>(
    subscription: EventSubscriptionView,
    events: Seq<FeedEvent<Arc<Block>>>,
)
    requires
        subscription.pending.len() == 0,
        accepted(events, subscription.actions::<R>(events)),
    ensures
        responses(subscription.actions::<R>(events)) + subscription.event_responses::<R>(
            subscription.after::<R>(events).pending,
        ) == subscription.event_responses::<R>(subscription.selected(items(events))) + farewell(
            events,
            lost_events::<R>(subscription.subscription_id),
        ),
        action_before(subscription.actions::<R>(events), events.len() as int) is Receive
            ==> subscription.after::<R>(events).pending.len() == 0,
        subscription.after::<R>(events).subscription_id == subscription.subscription_id,
        subscription.after::<R>(events).filter == subscription.filter,
    decreases events.len(),
{
    let actions = subscription.actions::<R>(events);
    let after = subscription.after::<R>(events);
    let lost = lost_events::<R>(subscription.subscription_id);
    if events.len() > 0 {
        let earlier = events.drop_last();
        let before = subscription.after::<R>(earlier);
        lemma_event_actions::<R>(subscription, events);
        lemma_event_actions::<R>(subscription, earlier);
        lemma_accepted_earlier(events, actions);
        assert(actions.drop_last() =~= subscription.actions::<R>(earlier));
        law_events_are_sent_in_order::<R>(subscription, earlier);
        law_event_subscription_ends::<R>(subscription, events);
        if earlier.len() > 0 {
            assert(events[earlier.len() - 1] == earlier.last());
        }
        assert(farewell(earlier, lost) =~= Seq::empty());
        assert(action_before(actions, earlier.len() as int) == action_before(
            subscription.actions::<R>(earlier),
            earlier.len() as int,
        ));
        let told = responses(subscription.actions::<R>(earlier));
        let chosen = subscription.selected(items(earlier));
        match events.last() {
            FeedEvent::Received(Received::Item(block)) => {
                let fresh = subscription.selected_of(block);
                assert(items(events).drop_last() =~= items(earlier));
                assert(subscription.selected(items(events)) =~= chosen + fresh);
                assert(subscription.event_responses::<R>(before.pending) =~= Seq::empty());
                assert(told =~= subscription.event_responses::<R>(chosen));
                assert(responses(actions) + subscription.event_responses::<R>(after.pending)
                    =~= told + subscription.event_responses::<R>(fresh));
                assert(subscription.event_responses::<R>(chosen + fresh)
                    =~= subscription.event_responses::<R>(chosen)
                    + subscription.event_responses::<R>(fresh));
            },
            FeedEvent::Sent(true) => {
                assert(responses(actions) + subscription.event_responses::<R>(after.pending)
                    =~= told + subscription.event_responses::<R>(before.pending));
            },
            _ => {},
        }
    }
    assert(responses(actions) + subscription.event_responses::<R>(after.pending)
        =~= subscription.event_responses::<R>(subscription.selected(items(events))) + farewell(
        events,
        lost,
    ));
}

/// A new subscription keeps its id and the whole filter that it was made of, and has nothing to send.
pub proof fn law_new_subscription_keeps_its_filter(
    subscription_id: u32,
    filter: EventFilterParams,
)
    ensures
        ({
            let subscription = EventSubscriptionView::initial(subscription_id, filter);
            &&& subscription.subscription_id == subscription_id
            &&& subscription.filter.address == filter.address
            &&& subscription.filter.keys == filter.keys
            &&& subscription.pending.len() == 0
        }),
{
}

/// What is said of an action is all that it holds.
pub proof fn law_action_view_leaves_nothing_out<R>(action: FeedAction<R>)
    ensures
        match (action, action@) {
            (FeedAction::Receive, FeedActionView::Receive) => true,
            (FeedAction::Send(response), FeedActionView::Send(viewed)) => viewed == response@,
            (FeedAction::SendLast(response), FeedActionView::SendLast(viewed)) => viewed
                == response@,
            (FeedAction::Stop, FeedActionView::Stop) => true,
            _ => false,
        },
{
}

/// A subscription ends only when items are lost, when the channel is closed, or when a response could
/// not be handed on. Otherwise it goes on: after each response it sends the next or waits for more.
pub proof fn law_subscription_goes_on_until_its_end<R>(
    subscription_id: u32,
    header: FeedEvent<Arc<Value>>,
    subscription: EventSubscriptionView,
    block: FeedEvent<Arc<Block>>,
)
    ensures
        ({
            let action = header_action::<R>(subscription_id, header);
            &&& action is Stop || action is SendLast <==> is_end(header)
            &&& action is SendLast <==> is_lag(header)
            &&& header == FeedEvent::<Arc<Value>>::Sent(true) ==> action is Receive
        }),
        ({
            let action = subscription.next::<R>(block).1;
            &&& action is Stop || action is SendLast <==> is_end(block)
            &&& action is SendLast <==> is_lag(block)
            &&& block == FeedEvent::<Arc<Block>>::Sent(true) ==> (action is Receive
                <==> subscription.pending.len() == 0)
        }),
{
}

} // verus!
