//! The subscriptions of a single connection.

use std::collections::HashMap;
use std::sync::Arc;

use serde_json::Value;
use tokio::sync::broadcast::{Receiver, Sender};
use vstd::prelude::*;

use super::broadcast::{block_source, header_source, subscribe_to_blocks, TopicBroadcasters};
use super::data::{
    same_text, Block, EventFilterParams, RawParams, RequestId, ResponseEvent, ResponseView, RpcError,
};

verus! {

broadcast use vstd::std_specs::hash::group_hash_axioms;

pub const NEW_HEADS_TOPIC: &'static str = "newHeads";

pub const EVENTS_TOPIC: &'static str = "events";

/// What a subscription is about.
pub enum Topic {
    NewHeads,
    Events(EventFilterParams),
}

/// What becomes of a request to subscribe.
pub enum Verdict {
    Accepted(Topic),
    /// The request is refused, and may use up a subscription id all the same.
    Refused { reason: Seq<char>, uses_id: bool },
}

/// What becomes of a request to subscribe with these parameters. Once the topic has been read, an
/// id is used up, whether the subscription is accepted or not.
pub open spec fn verdict(params: RawParams) -> Verdict {
    match params.kind {
        Err(error) => Verdict::Refused { reason: error.reason(), uses_id: false },
        Ok(kind) => if kind.kind@ == NEW_HEADS_TOPIC@ {
            Verdict::Accepted(Topic::NewHeads)
        } else if kind.kind@ == EVENTS_TOPIC@ {
            match params.filter {
                Ok(filter) => Verdict::Accepted(Topic::Events(filter)),
                Err(error) => Verdict::Refused { reason: error.reason(), uses_id: true },
            }
        } else {
            Verdict::Refused { reason: "Unknown subscription type"@, uses_id: true }
        },
    }
}

/// A subscription that is about to run.
#[derive(Debug)]
pub enum SubscriptionTask {
    Headers { subscription_id: u32, headers: Receiver<Arc<Value>> },
    Events { subscription_id: u32, blocks: Receiver<Arc<Block>>, filter: EventFilterParams },
}

/// What a [`SubscriptionTask`] is given, its receiver by the sender that feeds it.
pub enum SubscriptionTaskView {
    Headers { subscription_id: u32, headers: Sender<Arc<Value>> },
    Events { subscription_id: u32, blocks: Sender<Arc<Block>>, filter: EventFilterParams },
}

impl View for SubscriptionTask {
    type V = SubscriptionTaskView;

    open spec fn view(&self) -> SubscriptionTaskView {
        match *self {
            SubscriptionTask::Headers { subscription_id, headers } => {
                SubscriptionTaskView::Headers { subscription_id, headers: header_source(headers) }
            },
            SubscriptionTask::Events { subscription_id, blocks, filter } => {
                SubscriptionTaskView::Events {
                    subscription_id,
                    blocks: block_source(blocks),
                    filter,
                }
            },
        }
    }
}

impl Topic {
    /// The task that serves a subscription to this topic.
    pub open spec fn task<T>(
        self,
        subscription_id: u32,
        source: TopicBroadcasters<T>,
    ) -> SubscriptionTaskView {
        match self {
            Topic::NewHeads => SubscriptionTaskView::Headers {
                subscription_id,
                headers: source.new_head.sender(),
            },
            Topic::Events(filter) => SubscriptionTaskView::Events {
                subscription_id,
                blocks: source.blocks,
                filter,
            },
        }
    }
}

/// Whether `handle` is what `spawn` returned for a task that is given what `task` says.
pub open spec fn spawned<H, F: FnOnce(SubscriptionTask) -> H>(
    spawn: F,
    task: SubscriptionTaskView,
    handle: H,
) -> bool {
    exists|running: SubscriptionTask|
        running@ == task && #[trigger] spawn.ensures((running,), handle)
}

/// Whether `handle` is that of the subscription which a request with these parameters starts, if
/// it starts one.
pub open spec fn started<H, T, F: FnOnce(SubscriptionTask) -> H>(
    spawn: F,
    params: RawParams,
    subscription_id: u32,
    source: TopicBroadcasters<T>,
    handle: H,
) -> bool {
    verdict(params) matches Verdict::Accepted(topic) ==> spawned(
        spawn,
        topic.task(subscription_id, source),
        handle,
    )
}

/// Whether `task` is the one that a request with these parameters starts. A refused request starts
/// none.
pub open spec fn asked_for<T>(
    params: RawParams,
    subscription_id: u32,
    source: TopicBroadcasters<T>,
    task: SubscriptionTask,
) -> bool {
    verdict(params) matches Verdict::Accepted(topic) && task@ == topic.task(subscription_id, source)
}

/// What a [`SubscriptionManager`] holds.
pub struct ManagerView<H> {
    /// The id that the next subscription is given.
    pub next_id: u32,
    /// The handle of each running subscription.
    pub live: Map<u32, H>,
}

impl<H> ManagerView<H> {
    pub open spec fn initial() -> Self {
        ManagerView { next_id: 0, live: Map::empty() }
    }

    /// Every running subscription was given its id earlier.
    pub open spec fn wf(self) -> bool {
        forall|id: u32| #[trigger] self.live.contains_key(id) ==> id < self.next_id
    }

    /// Whether a request with these parameters can be handled: where it uses up an id, there is
    /// one left.
    pub open spec fn can_subscribe(self, params: RawParams) -> bool {
        params.kind is Ok ==> self.next_id < u32::MAX
    }

    /// The subscriptions after a request to subscribe. `handle` is that of the new subscription, if
    /// there is one.
    pub open spec fn subscribe(self, params: RawParams, handle: H) -> Self {
        match verdict(params) {
            Verdict::Accepted(_) => ManagerView {
                next_id: (self.next_id + 1) as u32,
                live: self.live.insert(self.next_id, handle),
            },
            Verdict::Refused { uses_id, .. } => ManagerView {
                next_id: if uses_id {
                    (self.next_id + 1) as u32
                } else {
                    self.next_id
                },
                ..self
            },
        }
    }

    /// What a request to subscribe is answered.
    pub open spec fn subscribe_response<R>(
        self,
        request_id: RequestId,
        params: RawParams,
    ) -> ResponseView<R> {
        match verdict(params) {
            Verdict::Accepted(_) => ResponseView::Subscribed {
                subscription_id: self.next_id,
                request_id,
            },
            Verdict::Refused { reason, .. } => ResponseView::InvalidParams(request_id, reason),
        }
    }

    /// The handle of the subscription that a request to unsubscribe ends.
    pub open spec fn ended(self, params: RawParams) -> Option<H> {
        match params.subscription_id {
            Ok(subscription) => if self.live.contains_key(subscription.id) {
                Some(self.live[subscription.id])
            } else {
                None
            },
            Err(_) => None,
        }
    }

    /// The subscriptions after a request to unsubscribe.
    pub open spec fn unsubscribe(self, params: RawParams) -> Self {
        match params.subscription_id {
            Ok(subscription) => ManagerView { live: self.live.remove(subscription.id), ..self },
            Err(_) => self,
        }
    }

    /// What a request to unsubscribe is answered.
    pub open spec fn unsubscribe_response<R>(
        self,
        request_id: RequestId,
        params: RawParams,
    ) -> ResponseView<R> {
        match params.subscription_id {
            Ok(subscription) => ResponseView::Unsubscribed {
                success: self.live.contains_key(subscription.id),
                request_id,
            },
            Err(error) => ResponseView::InvalidParams(request_id, error.reason()),
        }
    }
}

/// Whether `handles` lists each entry of `live` exactly once, in any order.
pub open spec fn lists_all<H>(handles: Seq<(u32, H)>, live: Map<u32, H>) -> bool {
    &&& forall|i: int|
        0 <= i < handles.len() ==> live.contains_key((#[trigger] handles[i]).0)
            && live[handles[i].0] == handles[i].1
    &&& forall|i: int, j: int|
        0 <= i < j < handles.len() ==> (#[trigger] handles[i]).0 != (#[trigger] handles[j]).0
    &&& forall|id: u32| #[trigger]
        live.contains_key(id) ==> exists|i: int|
            0 <= i < handles.len() && (#[trigger] handles[i]).0 == id
}

/// Manages the subscriptions of a single connection. `H` is the handle of a running subscription.
#[derive(Debug)]
pub struct SubscriptionManager<H> {
    next_id: u32,
    subscriptions: HashMap<u32, H>,
}

impl<H> View for SubscriptionManager<H> {
    type V = ManagerView<H>;

    closed spec fn view(&self) -> ManagerView<H> {
        ManagerView { next_id: self.next_id, live: self.subscriptions@ }
    }
}

impl<H> Default for SubscriptionManager<H> {
    fn default() -> (manager: Self)
        ensures
            manager@ == ManagerView::<H>::initial(),
    {
        SubscriptionManager { next_id: 0, subscriptions: HashMap::new() }
    }
}

impl<H> SubscriptionManager<H> {
    /// The id that the next subscription is given.
    pub fn next_id(&self) -> (id: u32)
        ensures
            id == self@.next_id,
    {
        self.next_id
    }

    /// Handles a request to subscribe: where the parameters are in order, starts a subscription
    /// with `spawn` and keeps its handle. Where they are not, `spawn` is not called: it need accept
    /// no other task than the one that is asked for.
    pub fn subscribe<T, R, F: FnOnce(SubscriptionTask) -> H>(
        &mut self,
        request_id: RequestId,
        request_params: RawParams,
        websocket_source: &TopicBroadcasters<T>,
        spawn: F,
    ) -> (response: ResponseEvent<R>)
        requires
            old(self)@.wf(),
            old(self)@.can_subscribe(request_params),
            forall|task: SubscriptionTask|
                asked_for(request_params, old(self)@.next_id, *websocket_source, task)
                    ==> #[trigger] spawn.requires((task,)),
        ensures
            final(self)@.wf(),
            response@ == old(self)@.subscribe_response::<R>(request_id, request_params),
            exists|handle: H|
                {
                    &&& final(self)@ == #[trigger] old(self)@.subscribe(request_params, handle)
                    &&& started(
                        spawn,
                        request_params,
                        old(self)@.next_id,
                        *websocket_source,
                        handle,
                    )
                },
    {
        let kind = match request_params.kind {
            Ok(kind) => kind,
            Err(error) => {
                proof {
                    let handle: H = arbitrary();
                    assert(self@ == old(self)@.subscribe(request_params, handle));
                }
                return ResponseEvent::InvalidParams(request_id, error.into_reason());
            },
        };
        let subscription_id: u32 = self.next_id;
        self.next_id = self.next_id + 1;
        let handle = if same_text(&kind.kind, NEW_HEADS_TOPIC) {
            let headers = websocket_source.new_head.subscribe();
            spawn(SubscriptionTask::Headers { subscription_id, headers })
        } else if same_text(&kind.kind, EVENTS_TOPIC) {
            match request_params.filter {
                Ok(filter) => {
                    let blocks = subscribe_to_blocks(&websocket_source.blocks);
                    spawn(SubscriptionTask::Events { subscription_id, blocks, filter })
                },
                Err(error) => {
                    proof {
                        let handle: H = arbitrary();
                        assert(self@ == old(self)@.subscribe(request_params, handle));
                    }
                    return ResponseEvent::InvalidParams(request_id, error.into_reason());
                },
            }
        } else {
            proof {
                let handle: H = arbitrary();
                assert(self@ == old(self)@.subscribe(request_params, handle));
            }
            return ResponseEvent::InvalidParams(request_id, "Unknown subscription type".to_owned());
        };
        self.subscriptions.insert(subscription_id, handle);
        assert(self@ == old(self)@.subscribe(request_params, handle));
        ResponseEvent::Subscribed { subscription_id, request_id }
    }

    /// Handles a request to unsubscribe. The response is due once the subscription whose handle is
    /// returned has ended.
    pub fn unsubscribe<R>(&mut self, request_id: RequestId, request_params: RawParams) -> (ended: (
        Option<H>,
        ResponseEvent<R>,
    ))
        requires
            old(self)@.wf(),
        ensures
            final(self)@.wf(),
            final(self)@ == old(self)@.unsubscribe(request_params),
            ended.0 == old(self)@.ended(request_params),
            ended.1@ == old(self)@.unsubscribe_response::<R>(request_id, request_params),
    {
        let subscription = match request_params.subscription_id {
            Ok(subscription) => subscription,
            Err(error) => {
                return (None, ResponseEvent::InvalidParams(request_id, error.into_reason()));
            },
        };
        let handle = self.subscriptions.remove(&subscription.id);
        let success: bool = handle.is_some();
        (handle, ResponseEvent::Unsubscribed { success, request_id })
    }

    /// Gives up all subscriptions, so that their tasks can be ended.
    pub fn abort_all(self) -> (handles: Vec<(u32, H)>)
        ensures
            lists_all(handles@, self@.live),
    {
        let mut subscriptions = self.subscriptions;
        let ghost live = subscriptions@;
        let mut ids: Vec<u32> = Vec::new();
        for id in entries: subscriptions.keys()
            invariant
                ids@ == entries.seq().unref().take(entries.index() as int),
                entries.seq().no_duplicates(),
                entries.seq().unref().to_set() == live.dom(),
                entries.index() == entries.seq().len() ==> ids@ == entries.seq().unref(),
        {
            ids.push(*id);
        }
        assert(ids@.to_set() == live.dom());
        let mut handles: Vec<(u32, H)> = Vec::new();
        for i in 0..ids.len()
            invariant
                ids@.no_duplicates(),
                ids@.to_set() == live.dom(),
                handles@.len() == i,
                forall|j: int|
                    0 <= j < i ==> (#[trigger] handles@[j]).0 == ids@[j] && live[ids@[j]]
                        == handles@[j].1,
                forall|j: int|
                    i <= j < ids@.len() ==> #[trigger] subscriptions@.contains_key(ids@[j])
                        && subscriptions@[ids@[j]] == live[ids@[j]],
        {
            match subscriptions.remove(&ids[i]) {
                Some(handle) => handles.push((ids[i], handle)),
                None => {},
            }
        }
        proof {
            assert forall|j: int| 0 <= j < handles@.len() implies live.contains_key(
                (#[trigger] handles@[j]).0,
            ) by {
                assert(ids@.to_set().contains(ids@[j]));
            }
            assert forall|id: u32| #[trigger] live.contains_key(id) implies exists|j: int|
                0 <= j < handles@.len() && (#[trigger] handles@[j]).0 == id by {
                assert(ids@.to_set().contains(id));
                let j = choose|j: int| 0 <= j < ids@.len() && ids@[j] == id;
                assert(handles@[j].0 == id);
            }
        }
        handles
    }
}

/// A new subscription has an id that no running one has, and leaves those as they are.
pub proof fn law_subscription_is_new<H>(manager: ManagerView<H>, params: RawParams, handle: H)
    requires
        manager.wf(),
        manager.can_subscribe(params),
        verdict(params) is Accepted,
    ensures
        ({
            let after = manager.subscribe(params, handle);
            &&& after.wf()
            &&& !manager.live.contains_key(manager.next_id)
            &&& after.live.contains_key(manager.next_id) && after.live[manager.next_id] == handle
            &&& manager.live.submap_of(after.live)
            &&& after.live.dom() == manager.live.dom().insert(manager.next_id)
            &&& after.next_id == manager.next_id + 1
        }),
{
}

/// A refused request starts and ends nothing.
pub proof fn law_refusal_changes_no_subscription<H>(
    manager: ManagerView<H>,
    params: RawParams,
    handle: H,
)
    requires
        verdict(params) is Refused,
    ensures
        manager.subscribe(params, handle).live == manager.live,
{
}

/// To unsubscribe from a new subscription ends it, and leaves the others as they were before it.
pub proof fn law_unsubscribe_undoes_subscribe<H, R>(
    manager: ManagerView<H>,
    params: RawParams,
    handle: H,
    request_id: RequestId,
    ending: RawParams,
)
    requires
        manager.wf(),
        manager.can_subscribe(params),
        verdict(params) is Accepted,
        ending.subscription_id matches Ok(subscription) && subscription.id == manager.next_id,
    ensures
        ({
            let after = manager.subscribe(params, handle);
            &&& after.ended(ending) == Some(handle)
            &&& after.unsubscribe(ending).live == manager.live
            &&& after.unsubscribe_response::<R>(request_id, ending) == ResponseView::<
                R,
            >::Unsubscribed { success: true, request_id }
        }),
{
    assert(manager.subscribe(params, handle).unsubscribe(ending).live =~= manager.live);
}

/// To unsubscribe a second time fails, and changes nothing.
pub proof fn law_unsubscribe_succeeds_once<H, R>(
    manager: ManagerView<H>,
    request_id: RequestId,
    params: RawParams,
)
    requires
        params.subscription_id is Ok,
    ensures
        ({
            let after = manager.unsubscribe(params);
            &&& after.ended(params) is None
            &&& after.unsubscribe(params) == after
            &&& after.unsubscribe_response::<R>(request_id, params) == ResponseView::<
                R,
            >::Unsubscribed { success: false, request_id }
        }),
{
    let after = manager.unsubscribe(params);
    assert(after.unsubscribe(params).live =~= after.live);
}

/// What a request to subscribe is answered, and what it leaves: a subscription to new heads is always
/// accepted, one to events if the filter could be read, and no other. A request whose topic could be
/// read uses up an id.
pub proof fn law_subscribe_depends_on_topic_and_filter<H, R>(
    manager: ManagerView<H>,
    request_id: RequestId,
    params: RawParams,
    handle: H,
)
    requires
        manager.can_subscribe(params),
    ensures
        ({
            let after = manager.subscribe(params, handle);
            let response = manager.subscribe_response::<R>(request_id, params);
            match params.kind {
                Err(error) => {
                    &&& response == ResponseView::<R>::InvalidParams(request_id, error.reason())
                    &&& after.next_id == manager.next_id
                    &&& after.live == manager.live
                },
                Ok(kind) => {
                    &&& after.next_id == manager.next_id + 1
                    &&& if kind.kind@ == "newHeads"@ || (kind.kind@ == "events"@
                        && params.filter is Ok) {
                        &&& response == ResponseView::<R>::Subscribed {
                            subscription_id: manager.next_id,
                            request_id,
                        }
                        &&& after.live == manager.live.insert(manager.next_id, handle)
                    } else {
                        &&& after.live == manager.live
                        &&& kind.kind@ == "events"@ ==> response == ResponseView::<R>::InvalidParams(
                            request_id,
                            params.filter->Err_0.reason(),
                        )
                        &&& kind.kind@ != "events"@ ==> response == ResponseView::<R>::InvalidParams(
                            request_id,
                            "Unknown subscription type"@,
                        )
                    }
                },
            }
        }),
{
    reveal_strlit("newHeads");
    reveal_strlit("events");
}

/// A request for the events of new blocks starts a task that is given the filter that was read, with
/// its address and all its keys, and the channel of new blocks.
pub proof fn law_events_task_carries_the_filter<H, T, F: FnOnce(SubscriptionTask) -> H>(
    spawn: F,
    params: RawParams,
    asked: EventFilterParams,
    subscription_id: u32,
    source: TopicBroadcasters<T>,
    handle: H,
)
    requires
        started(spawn, params, subscription_id, source, handle),
        params.kind matches Ok(kind) && kind.kind@ == "events"@,
        params.filter == Ok::<EventFilterParams, RpcError>(asked),
    ensures
        exists|task: SubscriptionTask| #[trigger]
            spawn.ensures((task,), handle) && (task matches SubscriptionTask::Events {
                subscription_id: id,
                blocks,
                filter,
            } && id == subscription_id && block_source(blocks) == source.blocks && filter.address
                == asked.address && filter.keys == asked.keys),
{
    reveal_strlit("newHeads");
    reveal_strlit("events");
    assert("newHeads"@.len() != "events"@.len());
    let view = SubscriptionTaskView::Events {
        subscription_id,
        blocks: source.blocks,
        filter: asked,
    };
    assert(spawned(spawn, view, handle));
    let task = choose|task: SubscriptionTask|
        task@ == view && #[trigger] spawn.ensures((task,), handle);
    assert(task is Events);
}

/// A request for new heads starts a task that is given the channel of new headers, whatever else is
/// asked.
pub proof fn law_heads_task_is_fed_headers<H, T, F: FnOnce(SubscriptionTask) -> H>(
    spawn: F,
    params: RawParams,
    subscription_id: u32,
    source: TopicBroadcasters<T>,
    handle: H,
)
    requires
        started(spawn, params, subscription_id, source, handle),
        params.kind matches Ok(kind) && kind.kind@ == "newHeads"@,
    ensures
        exists|task: SubscriptionTask| #[trigger]
            spawn.ensures((task,), handle) && (task matches SubscriptionTask::Headers {
                subscription_id: id,
                headers,
            } && id == subscription_id && header_source(headers) == source.new_head.sender()),
{
    let view = SubscriptionTaskView::Headers {
        subscription_id,
        headers: source.new_head.sender(),
    };
    assert(spawned(spawn, view, handle));
    let task = choose|task: SubscriptionTask|
        task@ == view && #[trigger] spawn.ensures((task,), handle);
    assert(task is Headers);
}

/// No task is asked for but one of the topic that the request names, with the filter that was read.
pub proof fn law_no_other_task_is_asked_for<T>(
    params: RawParams,
    subscription_id: u32,
    source: TopicBroadcasters<T>,
    task: SubscriptionTask,
)
    requires
        asked_for(params, subscription_id, source, task),
    ensures
        match task {
            SubscriptionTask::Headers { subscription_id: id, headers } => {
                &&& params.kind matches Ok(kind) && kind.kind@ == "newHeads"@
                &&& id == subscription_id
                &&& header_source(headers) == source.new_head.sender()
            },
            SubscriptionTask::Events { subscription_id: id, blocks, filter } => {
                &&& params.kind matches Ok(kind) && kind.kind@ == "events"@
                &&& id == subscription_id
                &&& block_source(blocks) == source.blocks
                &&& params.filter matches Ok(asked) && filter.address == asked.address
                    && filter.keys == asked.keys
            },
        },
{
}

/// To unsubscribe ends the subscription that is named, if it runs, and leaves every other one; it is
/// answered with whether there was one.
pub proof fn law_unsubscribe_ends_what_is_named<H, R>(
    manager: ManagerView<H>,
    request_id: RequestId,
    params: RawParams,
    other: u32,
)
    ensures
        ({
            let after = manager.unsubscribe(params);
            let response = manager.unsubscribe_response::<R>(request_id, params);
            &&& after.next_id == manager.next_id
            &&& match params.subscription_id {
                Ok(subscription) => {
                    &&& !after.live.contains_key(subscription.id)
                    &&& other != subscription.id ==> after.live.contains_key(other)
                        == manager.live.contains_key(other) && after.live[other]
                        == manager.live[other]
                    &&& manager.live.contains_key(subscription.id) ==> manager.ended(params)
                        == Some(manager.live[subscription.id])
                    &&& !manager.live.contains_key(subscription.id) ==> manager.ended(
                        params,
                    ) is None
                    &&& response == ResponseView::<R>::Unsubscribed {
                        success: manager.live.contains_key(subscription.id),
                        request_id,
                    }
                },
                Err(error) => {
                    &&& after.live == manager.live
                    &&& manager.ended(params) is None
                    &&& response == ResponseView::<R>::InvalidParams(request_id, error.reason())
                },
            }
        }),
{
}

/// A list of all subscriptions has each of them with its own handle, and no other.
pub proof fn law_list_has_each_subscription<H>(
    handles: Seq<(u32, H)>,
    live: Map<u32, H>,
    id: u32,
    handle: H,
)
    requires
        lists_all(handles, live),
    ensures
        handles.contains((id, handle)) <==> live.contains_key(id) && live[id] == handle,
        handles.no_duplicates(),
{
    if live.contains_key(id) && live[id] == handle {
        let i = choose|i: int| 0 <= i < handles.len() && (#[trigger] handles[i]).0 == id;
        assert(handles[i] == (id, handle));
    }
}

/// A request can be handled unless it uses up an id and none is left.
pub proof fn law_requests_are_handled_while_ids_last<H>(manager: ManagerView<H>, params: RawParams)
    ensures
        manager.can_subscribe(params) <==> params.kind is Err || manager.next_id
            != 0xffff_ffffu32,
{
}

} // verus!
