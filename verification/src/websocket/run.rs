//! What is true of a connection over any series of events.

use vstd::prelude::*;
use vstd::utf8::encode_utf8;

use super::connection::{
    ConnectionView, Incoming, ReadAction, ReadActionView, ReadEvent, StageView, UNSUBSCRIBE_METHOD,
};
use super::data::{ResponseView, RpcRequest, RpcRequestError};
use super::subscriptions::law_list_has_each_subscription;

verus! {

/// A series of events, each with the handle of the subscription that it starts, if it starts one.
pub type Run<H, R> = Seq<(ReadEvent<R>, H)>;

/// What a new connection becomes in the course of a run.
pub open spec fn state_after<H, R>(run: Run<H, R>) -> ConnectionView<H, R>
    decreases run.len(),
{
    if run.len() == 0 {
        ConnectionView::initial()
    } else {
        state_after(run.drop_last()).next(run.last().0, run.last().1).0
    }
}

/// What a new connection does in the course of a run, after each event in turn.
pub open spec fn actions<H, R>(run: Run<H, R>) -> Seq<ReadActionView<H, R>>
    decreases run.len(),
{
    if run.len() == 0 {
        Seq::empty()
    } else {
        actions(run.drop_last()).push(
            state_after(run.drop_last()).next(run.last().0, run.last().1).1,
        )
    }
}

/// Whether each event of a run can be handled when it comes.
pub open spec fn accepted<H, R>(run: Run<H, R>) -> bool
    decreases run.len(),
{
    run.len() > 0 ==> {
        &&& accepted(run.drop_last())
        &&& state_after(run.drop_last()).accepts(run.last().0)
    }
}

/// How many requests are taken up.
pub open spec fn requests<H, R>(actions: Seq<ReadActionView<H, R>>) -> nat {
    actions.filter(|action: ReadActionView<H, R>| action is Parse).len()
}

/// How many responses are sent.
pub open spec fn responses<H, R>(actions: Seq<ReadActionView<H, R>>) -> nat {
    actions.filter(|action: ReadActionView<H, R>| action is Send).len()
}

/// Whether a request is taken up and not yet answered.
pub open spec fn owes_response<R>(stage: StageView<R>) -> bool {
    stage is Parsing || stage is Ending || stage is Routing
}

/// Each request is answered exactly once, before the next is taken up.
pub proof fn law_one_response_per_request<H, R>(run: Run<H, R>)
    requires
        accepted(run),
    ensures
        requests(actions(run)) == responses(actions(run)) + if owes_response(
            state_after(run).stage,
        ) {
            1nat
        } else {
            0nat
        },
    decreases run.len(),
{
    reveal(Seq::filter);
    if run.len() > 0 {
        law_one_response_per_request(run.drop_last());
        assert(actions(run).drop_last() =~= actions(run.drop_last()));
    }
}

pub(crate) proof fn lemma_actions<H, R>(run: Run<H, R>)
    ensures
        actions(run).len() == run.len(),
        run.len() > 0 ==> forall|i: int|
            0 <= i < run.len() - 1 ==> #[trigger] actions(run)[i] == actions(run.drop_last())[i],
    decreases run.len(),
{
    if run.len() > 0 {
        lemma_actions(run.drop_last());
    }
}

/// Whether the event at `index` starts the subscription `id`.
pub open spec fn starts<H, R>(run: Run<H, R>, index: int, id: u32) -> bool {
    &&& 0 <= index < run.len()
    &&& actions(run)[index] matches ReadActionView::Send(
        ResponseView::Subscribed { subscription_id, .. },
    ) && subscription_id == id
}

/// Whether an event brings a request with the id of a subscription to end.
pub open spec fn names<R>(event: ReadEvent<R>, id: u32) -> bool {
    event matches ReadEvent::Parsed(Ok(request)) && request.params.subscription_id matches Ok(
        subscription,
    ) && subscription.id == id
}

/// Whether the action at `index` ends the subscription `id`, which runs under `handle`: either a
/// request names it, or the connection is done.
pub open spec fn ends<H, R>(run: Run<H, R>, index: int, id: u32, handle: H) -> bool {
    &&& 0 <= index < run.len()
    &&& match actions(run)[index] {
        ReadActionView::End(ended) => ended == handle && names(run[index].0, id),
        ReadActionView::Close(live) => live.contains_key(id) && live[id] == handle,
        _ => false,
    }
}

/// What is true of the subscriptions in the course of a run.
proof fn lemma_subscriptions<H, R>(run: Run<H, R>)
    requires
        accepted(run),
    ensures
        state_after(run).manager.wf(),
        // Only an event that starts a subscription is answered with its id.
        state_after(run).stage matches StageView::Ending(response) ==> !(response is Subscribed),
        forall|i: int, id: u32| #[trigger]
            starts(run, i, id) ==> {
                &&& state_after(run).stage is Closed || id < state_after(run).manager.next_id
                &&& {
                    ||| state_after(run).manager.live.contains_key(id)
                        && state_after(run).manager.live[id] == run[i].1
                    ||| exists|j: int| i < j && #[trigger] ends(run, j, id, run[i].1)
                }
            },
    decreases run.len(),
{
    if run.len() > 0 {
        let earlier = run.drop_last();
        let before = state_after(earlier);
        let (event, handle) = run.last();
        let last = run.len() - 1;
        lemma_subscriptions(earlier);
        lemma_actions(run);
        lemma_actions(earlier);
        assert forall|i: int, id: u32| #[trigger] starts(run, i, id) implies {
            &&& state_after(run).stage is Closed || id < state_after(run).manager.next_id
            &&& {
                ||| state_after(run).manager.live.contains_key(id)
                    && state_after(run).manager.live[id] == run[i].1
                ||| exists|j: int| i < j && #[trigger] ends(run, j, id, run[i].1)
            }
        } by {
            if i < last {
                assert(starts(earlier, i, id));
                assert(earlier[i] == run[i]);
                if before.manager.live.contains_key(id) && before.manager.live[id] == run[i].1 {
                    if !(state_after(run).manager.live.contains_key(id)
                        && state_after(run).manager.live[id] == run[i].1) {
                        assert(ends(run, last, id, run[i].1));
                    }
                } else {
                    let j = choose|j: int| i < j && #[trigger] ends(earlier, j, id, run[i].1);
                    assert(ends(run, j, id, run[i].1));
                }
            }
        }
    }
}

/// The ids of the subscriptions of a connection grow: none is ever given out twice.
pub proof fn law_ids_grow<H, R>(run: Run<H, R>, i: int, first: u32, j: int, second: u32)
    requires
        accepted(run),
        starts(run, i, first),
        starts(run, j, second),
        i < j,
    ensures
        first < second,
    decreases run.len(),
{
    let earlier = run.drop_last();
    lemma_actions(run);
    lemma_actions(earlier);
    if j < run.len() - 1 {
        assert(starts(earlier, i, first));
        assert(starts(earlier, j, second));
        law_ids_grow(earlier, i, first, j, second);
    } else {
        lemma_subscriptions(earlier);
        assert(starts(earlier, i, first));
    }
}

/// When a connection is done, each subscription that it ever started has been ended.
pub proof fn law_no_subscription_is_left<H, R>(run: Run<H, R>, i: int, id: u32)
    requires
        accepted(run),
        state_after(run).stage is Closed,
        starts(run, i, id),
    ensures
        exists|j: int| i < j && #[trigger] ends(run, j, id, run[i].1),
{
    lemma_subscriptions(run);
    lemma_closed_holds_nothing(run);
}

proof fn lemma_closed_holds_nothing<H, R>(run: Run<H, R>)
    requires
        accepted(run),
        state_after(run).stage is Closed,
    ensures
        state_after(run).manager.live == Map::<u32, H>::empty(),
    decreases run.len(),
{
    if run.len() > 0 {
        if state_after(run.drop_last()).stage is Closed {
            lemma_closed_holds_nothing(run.drop_last());
        }
    }
}

/// Whether the event at `index` is answered with the success of a request to unsubscribe.
pub open spec fn confirms_end<H, R>(run: Run<H, R>, index: int) -> bool {
    &&& 0 <= index < run.len()
    &&& actions(run)[index] matches ReadActionView::Send(
        ResponseView::Unsubscribed { success, .. },
    ) && success
}

/// The request that an event brings.
pub open spec fn request_of<R>(event: ReadEvent<R>) -> RpcRequest
    recommends
        event matches ReadEvent::Parsed(request) && request is Ok,
{
    event->Parsed_0->Ok_0
}

/// Whether the event before `index` is a request to unsubscribe that ends the subscription `id`,
/// and the event at `index` is the end of its task.
pub open spec fn ended_before<H, R>(run: Run<H, R>, index: int, id: u32) -> bool {
    let before = state_after(run.take(index - 1)).manager.live;
    &&& 0 < index < run.len()
    &&& run[index].0 is Ended
    &&& run[index - 1].0 matches ReadEvent::Parsed(request) && request is Ok
    &&& request_of(run[index - 1].0).method@ == UNSUBSCRIBE_METHOD@
    &&& names(run[index - 1].0, id)
    &&& before.contains_key(id)
    &&& actions(run)[index - 1] == ReadActionView::<H, R>::End(before[id])
    &&& actions(run)[index] matches ReadActionView::Send(
        ResponseView::Unsubscribed { request_id, .. },
    ) && request_id == request_of(run[index - 1].0).id
}

/// What is true while the end of a subscription is awaited.
proof fn lemma_awaited_end<H, R>(run: Run<H, R>)
    requires
        accepted(run),
        state_after(run).stage matches StageView::Ending(response),
    ensures
        ({
            let last = run.len() - 1;
            let request = request_of(run[last].0);
            let before = state_after(run.drop_last()).manager.live;
            let id = request.params.subscription_id->Ok_0.id;
            &&& run.len() > 0
            &&& run[last].0 matches ReadEvent::Parsed(parsed) && parsed is Ok
            &&& request.method@ == UNSUBSCRIBE_METHOD@
            &&& names(run[last].0, id)
            &&& before.contains_key(id)
            &&& actions(run)[last] == ReadActionView::<H, R>::End(before[id])
            &&& state_after(run).stage == StageView::<R>::Ending(
                ResponseView::Unsubscribed { success: true, request_id: request.id },
            )
            &&& !state_after(run).manager.live.contains_key(id)
        }),
{
    lemma_actions(run);
    lemma_actions(run.drop_last());
}

proof fn lemma_actions_of_prefix<H, R>(run: Run<H, R>, count: int)
    requires
        0 <= count <= run.len(),
        accepted(run),
    ensures
        accepted(run.take(count)),
        actions(run).len() == run.len(),
        actions(run).take(count) == actions(run.take(count)),
    decreases run.len(),
{
    lemma_actions(run);
    if count < run.len() {
        let earlier = run.drop_last();
        lemma_actions(earlier);
        lemma_actions_of_prefix(earlier, count);
        assert(earlier.take(count) =~= run.take(count));
        assert(actions(run).take(count) =~= actions(earlier).take(count));
    } else {
        assert(run.take(count) =~= run);
        assert(actions(run).take(count) =~= actions(run));
    }
}

/// Only the awaited end of a subscription is answered with the success of a request to unsubscribe.
proof fn lemma_awaited_end_is_next<H, R>(run: Run<H, R>, next: (ReadEvent<R>, H))
    requires
        state_after(run).accepts(next.0),
        state_after(run).next(next.0, next.1).1 matches ReadActionView::Send(
            ResponseView::Unsubscribed { success, .. },
        ) && success,
    ensures
        state_after(run).stage is Ending,
        next.0 is Ended,
{
}

/// A client is told that a subscription has ended only once its task has: right before the answer
/// comes the end of the task, and before that the request, which names a running subscription.
pub proof fn law_unsubscribed_after_the_end<H, R>(run: Run<H, R>, index: int)
    requires
        accepted(run),
        confirms_end(run, index),
    ensures
        exists|id: u32| #[trigger] ended_before(run, index, id),
{
    let now = run.take(index + 1);
    let earlier = run.take(index);
    lemma_actions_of_prefix(run, index + 1);
    lemma_actions_of_prefix(run, index);
    assert(now.drop_last() =~= earlier);
    assert(actions(now)[index] == actions(run)[index]);
    assert(now.last() == run[index]);
    let before = state_after(earlier);
    assert(actions(run)[index] == before.next(run[index].0, run[index].1).1) by {
        lemma_actions(now);
        lemma_actions(earlier);
    }
    lemma_awaited_end_is_next(earlier, run[index]);
    lemma_awaited_end(earlier);
    let id = request_of(run[index - 1].0).params.subscription_id->Ok_0.id;
    assert(earlier.drop_last() =~= run.take(index - 1));
    assert(earlier[index - 1] == run[index - 1]);
    assert(actions(run)[index - 1] == actions(run).take(index)[index - 1]);
    assert(ended_before(run, index, id));
}

/// A subscription that has ended stays so: nothing runs under its id any more, and the id is not given
/// out again.
pub proof fn law_ended_subscription_stays_ended<H, R>(run: Run<H, R>, index: int, id: u32)
    requires
        accepted(run),
        ended_before(run, index, id),
    ensures
        !state_after(run).manager.live.contains_key(id),
        state_after(run).stage is Closed || id < state_after(run).manager.next_id,
    decreases run.len(),
{
    let earlier = run.drop_last();
    lemma_actions(run);
    lemma_actions(earlier);
    if index < run.len() - 1 {
        assert(earlier.take(index - 1) =~= run.take(index - 1));
        assert(ended_before(earlier, index, id));
        law_ended_subscription_stays_ended(earlier, index, id);
    } else {
        let asking = run.take(index - 1);
        lemma_actions_of_prefix(run, index - 1);
        lemma_subscriptions(asking);
        assert(earlier.drop_last() =~= asking);
        assert(earlier.last() == run[index - 1]);
        assert(accepted(earlier));
        assert(state_after(earlier) == state_after(asking).next(
            run[index - 1].0,
            run[index - 1].1,
        ).0);
        assert(!state_after(earlier).manager.live.contains_key(id));
        assert(run.last() == run[index]);
    }
}

/// A ping or a pong changes nothing.
pub proof fn law_pings_change_nothing<H, R>(
    connection: ConnectionView<H, R>,
    message: Incoming,
    handle: H,
)
    requires
        connection.stage is Receiving,
        message is Ping || message is Pong,
    ensures
        connection.next(ReadEvent::Received(message), handle) == (
            connection,
            ReadActionView::<H, R>::Receive,
        ),
{
}

/// The bytes of a message that may hold a request.
pub open spec fn bytes_of(message: Incoming) -> Seq<u8>
    recommends
        message is Text || message is Binary,
{
    match message {
        Incoming::Text(text) => encode_utf8(text@),
        Incoming::Binary(bytes) => bytes@,
        _ => Seq::empty(),
    }
}

/// What a client is sent of the answer of the RPC router.
pub open spec fn routed<R>(answer: Result<R, RpcRequestError>) -> ResponseView<R> {
    match answer {
        Ok(responses) => ResponseView::Responses(responses),
        Err(RpcRequestError::ParseError(reason)) => ResponseView::InvalidRequest(reason@),
        Err(RpcRequestError::InvalidRequest(reason)) => ResponseView::InvalidRequest(reason@),
    }
}

/// A request for any other method goes to the RPC router, with the very bytes that were received,
/// and what the router answers is sent. The subscriptions stay as they are.
pub proof fn law_other_methods_go_to_the_router<H, R>(
    connection: ConnectionView<H, R>,
    message: Incoming,
    request: RpcRequest,
    answer: Result<R, RpcRequestError>,
    handle: H,
)
    requires
        connection.stage is Receiving,
        message is Text || message is Binary,
        request.method@ != "pathfinder_subscribe"@,
        request.method@ != "pathfinder_unsubscribe"@,
    ensures
        ({
            let (parsing, parse) = connection.next(ReadEvent::Received(message), handle);
            let (routing, route) = parsing.next(ReadEvent::Parsed(Ok(request)), handle);
            let (sending, send) = routing.next(ReadEvent::Routed(answer), handle);
            &&& parse == ReadActionView::<H, R>::Parse(bytes_of(message))
            &&& route == ReadActionView::<H, R>::Route(bytes_of(message))
            &&& send == ReadActionView::<H, R>::Send(routed(answer))
            &&& sending.manager == connection.manager
        }),
{
}

/// A message that is no request is answered with the reason, and the connection goes on.
pub proof fn law_invalid_request_is_survived<H, R>(
    connection: ConnectionView<H, R>,
    reason: String,
    handle: H,
)
    requires
        connection.stage is Parsing,
    ensures
        ({
            let (sending, send) = connection.next(ReadEvent::Parsed(Err(reason)), handle);
            let (receiving, receive) = sending.next(ReadEvent::Sent(true), handle);
            &&& send == ReadActionView::<H, R>::Send(ResponseView::InvalidRequest(reason@))
            &&& receive == ReadActionView::<H, R>::Receive
            &&& receiving.manager == connection.manager
            &&& receiving.stage is Receiving
        }),
{
}

/// A message with a request is parsed, text as UTF-8 and binary as it is; a ping or a pong is skipped;
/// and anything else closes the connection, as a response does that cannot be handed on. Whenever it
/// closes, all its subscriptions are given up.
pub proof fn law_connection_closes_exactly<H, R>(
    connection: ConnectionView<H, R>,
    event: ReadEvent<R>,
    handle: H,
)
    requires
        connection.accepts(event),
    ensures
        ({
            let (after, action) = connection.next(event, handle);
            &&& after.stage is Closed <==> action is Close
            &&& action is Close <==> event == ReadEvent::<R>::Sent(false) || (
            event matches ReadEvent::Received(message) && (message is Close || message is Failed
                || message is End))
            &&& action is Close ==> action == ReadActionView::<H, R>::Close(
                connection.manager.live,
            )
            &&& event matches ReadEvent::Received(Incoming::Text(text)) ==> action
                == ReadActionView::<H, R>::Parse(encode_utf8(text@))
            &&& event matches ReadEvent::Received(Incoming::Binary(bytes)) ==> action
                == ReadActionView::<H, R>::Parse(bytes@)
            &&& event == ReadEvent::<R>::Sent(true) ==> action is Receive
        }),
{
}

/// A request is handled by the method it names: a subscription starts or ends as it asks, and the
/// answer is the one that is due for it.
pub proof fn law_requests_are_handled_by_method<H, R>(
    connection: ConnectionView<H, R>,
    request: RpcRequest,
    handle: H,
)
    requires
        connection.stage is Parsing,
    ensures
        ({
            let (after, action) = connection.next(ReadEvent::Parsed(Ok(request)), handle);
            let before = connection.manager;
            &&& request.method@ == "pathfinder_subscribe"@ ==> {
                &&& after.manager == before.subscribe(request.params, handle)
                &&& action == ReadActionView::<H, R>::Send(
                    before.subscribe_response(request.id, request.params),
                )
            }
            &&& request.method@ == "pathfinder_unsubscribe"@ ==> {
                &&& after.manager == before.unsubscribe(request.params)
                &&& before.ended(request.params) matches Some(ended) ==> action
                    == ReadActionView::<H, R>::End(ended) && after.next(
                    ReadEvent::Ended,
                    handle,
                ).1 == ReadActionView::<H, R>::Send(
                    before.unsubscribe_response(request.id, request.params),
                )
                &&& before.ended(request.params) is None ==> action == ReadActionView::<H, R>::Send(
                    before.unsubscribe_response(request.id, request.params),
                )
            }
        }),
{
    reveal_strlit("pathfinder_subscribe");
    reveal_strlit("pathfinder_unsubscribe");
    assert("pathfinder_subscribe"@.len() != "pathfinder_unsubscribe"@.len());
}

/// An action that is as described carries the very bytes, handle, response or subscriptions of the
/// description.
pub proof fn law_described_action_is_exact<H, R>(
    action: ReadAction<H, R>,
    described: ReadActionView<H, R>,
)
    requires
        action.is_as(described),
    ensures
        match (action, described) {
            (ReadAction::Receive, ReadActionView::Receive) => true,
            (ReadAction::Parse(request), ReadActionView::Parse(bytes)) => request@ == bytes,
            (ReadAction::End(handle), ReadActionView::End(ended)) => handle == ended,
            (ReadAction::Route(request), ReadActionView::Route(bytes)) => request@ == bytes,
            (ReadAction::Send(sent), ReadActionView::Send(response)) => sent@ == response,
            (ReadAction::Close(handles), ReadActionView::Close(live)) => forall|id: u32| #[trigger]
                live.contains_key(id) ==> handles@.contains((id, live[id])),
            _ => false,
        },
{
    if let (ReadAction::Close(handles), ReadActionView::Close(live)) = (action, described) {
        assert forall|id: u32| #[trigger] live.contains_key(id) implies handles@.contains(
            (id, live[id]),
        ) by {
            law_list_has_each_subscription(handles@, live, id, live[id]);
        }
    }
}

/// A connection takes whatever comes of what it does, but for a request that uses up an id when none is
/// left.
pub proof fn law_everything_awaited_is_taken<H, R>(
    connection: ConnectionView<H, R>,
    event: ReadEvent<R>,
)
    requires
        connection.manager.next_id < u32::MAX,
    ensures
        connection.accepts(event) <==> match event {
            ReadEvent::Received(_) => connection.stage is Receiving,
            ReadEvent::Parsed(_) => connection.stage is Parsing,
            ReadEvent::Ended => connection.stage is Ending,
            ReadEvent::Routed(_) => connection.stage is Routing,
            ReadEvent::Sent(_) => connection.stage is Sending,
        },
{
}

/// The subscriptions change only by a request to subscribe or unsubscribe, or when the connection
/// closes.
pub proof fn law_subscriptions_change_only_on_request<H, R>(
    connection: ConnectionView<H, R>,
    event: ReadEvent<R>,
    handle: H,
)
    requires
        connection.accepts(event),
        event matches ReadEvent::Parsed(Ok(request)) ==> request.method@ != "pathfinder_subscribe"@
            && request.method@ != "pathfinder_unsubscribe"@,
        !(connection.next(event, handle).1 is Close),
    ensures
        connection.next(event, handle).0.manager == connection.manager,
{
}

} // verus!
