//! What a client is sent by a connection and by the subscriptions that run beside it, in any order in
//! which they take their steps.

use std::sync::Arc;

use serde_json::Value;
use vstd::prelude::*;

use super::connection::{subscribes, ConnectionView, ReadActionView, ReadEvent, StageView};
use super::data::{Block, ResponseView};
use super::feed::{
    comes_of, header_action, EventSubscriptionView, FeedActionView, FeedEvent,
};
use super::run::{ended_before, names, request_of, state_after, Run};
use super::subscriptions::{verdict, Topic, Verdict};

verus! {

/// A step of a connection, or of one of its subscriptions.
pub enum Moment<H, R> {
    /// The connection takes a step. The handle is that of the subscription which it starts, if it
    /// starts one.
    Connection(ReadEvent<R>, H),
    /// A subscription to new headers takes a step.
    Headers(u32, FeedEvent<Arc<Value>>),
    /// A subscription to the events of new blocks takes a step.
    Events(u32, FeedEvent<Arc<Block>>),
}

/// The task of a subscription, with what it does at the time.
pub enum TaskView<R> {
    Headers(FeedActionView<R>),
    Events(EventSubscriptionView, FeedActionView<R>),
}

impl Topic {
    /// The task of a new subscription to this topic, which starts by receiving.
    pub open spec fn begin<R>(self, subscription_id: u32) -> TaskView<R> {
        match self {
            Topic::NewHeads => TaskView::Headers(FeedActionView::Receive),
            Topic::Events(filter) => TaskView::Events(
                EventSubscriptionView::initial(subscription_id, filter),
                FeedActionView::Receive,
            ),
        }
    }
}

/// A connection, together with the tasks of its subscriptions.
pub struct SessionView<H, R> {
    pub connection: ConnectionView<H, R>,
    /// The tasks that have not been ended, by the ids of their subscriptions.
    pub tasks: Map<u32, TaskView<R>>,
    /// The subscription whose end the connection waits for, if it does.
    pub ending: Option<u32>,
}

/// The response that an action hands on, if it hands on one.
pub open spec fn handed_on<R>(action: FeedActionView<R>) -> Option<ResponseView<R>> {
    match action {
        FeedActionView::Send(response) => Some(response),
        FeedActionView::SendLast(response) => Some(response),
        _ => None,
    }
}

impl<H, R> SessionView<H, R> {
    pub open spec fn initial() -> Self {
        SessionView {
            connection: ConnectionView::initial(),
            tasks: Map::empty(),
            ending: None,
        }
    }

    /// Whether a step can be taken. A task takes no step before its subscription has started, none
    /// after its last action, and none once its end has come.
    pub open spec fn accepts(self, moment: Moment<H, R>) -> bool {
        match moment {
            Moment::Connection(event, _) => self.connection.accepts(event),
            Moment::Headers(id, event) => {
                &&& self.tasks.contains_key(id)
                &&& self.tasks[id] matches TaskView::Headers(action) && comes_of(event, action)
            },
            Moment::Events(id, event) => {
                &&& self.tasks.contains_key(id)
                &&& self.tasks[id] matches TaskView::Events(_, action) && comes_of(event, action)
            },
        }
    }

    /// The tasks after a step of the connection: a new one where a subscription starts, and one less
    /// where the end of a subscription has come.
    pub open spec fn tasks_after(self, event: ReadEvent<R>) -> Map<u32, TaskView<R>> {
        match (event, self.ending) {
            (ReadEvent::Ended, Some(id)) => self.tasks.remove(id),
            _ => match subscribes(event) {
                Some(params) => match verdict(params) {
                    Verdict::Accepted(topic) => self.tasks.insert(
                        self.connection.manager.next_id,
                        topic.begin(self.connection.manager.next_id),
                    ),
                    _ => self.tasks,
                },
                None => self.tasks,
            },
        }
    }

    /// What the session becomes with a step, and the response that the step queues for the client, if
    /// it queues one.
    pub open spec fn next(self, moment: Moment<H, R>) -> (Self, Option<ResponseView<R>>) {
        match moment {
            Moment::Connection(event, handle) => {
                let (connection, action) = self.connection.next(event, handle);
                let ending = match action {
                    ReadActionView::End(_) => Some(
                        request_of(event).params.subscription_id->Ok_0.id,
                    ),
                    _ => None,
                };
                (
                    SessionView { connection, tasks: self.tasks_after(event), ending },
                    match action {
                        ReadActionView::Send(response) => Some(response),
                        _ => None,
                    },
                )
            },
            Moment::Headers(id, event) => {
                let action = header_action::<R>(id, event);
                (
                    SessionView {
                        tasks: self.tasks.insert(id, TaskView::Headers(action)),
                        ..self
                    },
                    handed_on(action),
                )
            },
            Moment::Events(id, event) => {
                let (subscription, action) = self.tasks[id]->Events_0.next::<R>(event);
                (
                    SessionView {
                        tasks: self.tasks.insert(id, TaskView::Events(subscription, action)),
                        ..self
                    },
                    handed_on(action),
                )
            },
        }
    }
}

/// A series of steps.
pub type Session<H, R> = Seq<Moment<H, R>>;

/// What a new session becomes in the course of a series of steps.
pub open spec fn session_after<H, R>(session: Session<H, R>) -> SessionView<H, R>
    decreases session.len(),
{
    if session.len() == 0 {
        SessionView::initial()
    } else {
        session_after(session.drop_last()).next(session.last()).0
    }
}

/// Whether each step of a series can be taken when it comes.
pub open spec fn accepted<H, R>(session: Session<H, R>) -> bool
    decreases session.len(),
{
    session.len() > 0 ==> {
        &&& accepted(session.drop_last())
        &&& session_after(session.drop_last()).accepts(session.last())
    }
}

/// The response that the step at `index` queues for the client, if it queues one.
pub open spec fn queued<H, R>(session: Session<H, R>, index: int) -> Option<ResponseView<R>> {
    session_after(session.take(index)).next(session[index]).1
}

/// The steps of the connection alone.
pub open spec fn reads<H, R>(session: Session<H, R>) -> Run<H, R>
    decreases session.len(),
{
    if session.len() == 0 {
        Seq::empty()
    } else {
        match session.last() {
            Moment::Connection(event, handle) => reads(session.drop_last()).push((event, handle)),
            _ => reads(session.drop_last()),
        }
    }
}

/// Whether a response is part of what the subscription `id` delivers, its end on a lag among it.
pub open spec fn concerns<R>(response: ResponseView<R>, id: u32) -> bool {
    match response {
        ResponseView::Header { subscription_id, .. } => subscription_id == id,
        ResponseView::Event { subscription_id, .. } => subscription_id == id,
        ResponseView::SubscriptionClosed { subscription_id, .. } => subscription_id == id,
        _ => false,
    }
}

/// Whether the step at `index` is the end of the subscription `id`, which is answered with the
/// success of the request to unsubscribe.
pub open spec fn unsubscribes<H, R>(session: Session<H, R>, index: int, id: u32) -> bool {
    let run = reads(session.take(index + 1));
    &&& 0 <= index < session.len()
    &&& session[index] is Connection
    &&& ended_before(run, run.len() - 1, id)
}

/// Within a session, a connection behaves as it does alone: the laws of a run hold of it.
pub proof fn law_connection_runs_as_alone<H, R>(session: Session<H, R>)
    requires
        accepted(session),
    ensures
        super::run::accepted(reads(session)),
        session_after(session).connection == state_after(reads(session)),
    decreases session.len(),
{
    if session.len() > 0 {
        law_connection_runs_as_alone(session.drop_last());
        if session.last() is Connection {
            assert(reads(session).drop_last() =~= reads(session.drop_last()));
        }
    }
}

/// What is true of a session after any series of steps.
proof fn lemma_session<H, R>(session: Session<H, R>)
    requires
        accepted(session),
    ensures
        ({
            let state = session_after(session);
            let run = reads(session);
            &&& state.connection.manager.wf()
            &&& forall|id: u32| #[trigger]
                state.tasks.contains_key(id) ==> {
                    &&& state.connection.stage is Closed || id < state.connection.manager.next_id
                    &&& state.tasks[id] matches TaskView::Events(subscription, _)
                        ==> subscription.subscription_id == id
                }
            &&& state.connection.stage matches StageView::Ending(response) ==> {
                &&& response is Unsubscribed
                &&& run.len() > 0
                &&& state.ending matches Some(id) && names(run.last().0, id)
            }
        }),
    decreases session.len(),
{
    if session.len() > 0 {
        lemma_session(session.drop_last());
    }
}

/// What is true of a session after a client was told that a subscription has ended.
proof fn lemma_unsubscribed<H, R>(session: Session<H, R>, index: int, id: u32)
    requires
        accepted(session),
        unsubscribes(session, index, id),
    ensures
        ({
            let state = session_after(session);
            &&& !state.tasks.contains_key(id)
            &&& state.connection.stage is Closed || id < state.connection.manager.next_id
        }),
    decreases session.len(),
{
    let earlier = session.drop_last();
    if index < session.len() - 1 {
        assert(earlier.take(index + 1) =~= session.take(index + 1));
        lemma_unsubscribed(earlier, index, id);
        lemma_session(earlier);
    } else {
        let run = reads(session);
        assert(session.take(index + 1) =~= session);
        law_connection_runs_as_alone(session);
        law_connection_runs_as_alone(earlier);
        super::run::law_ended_subscription_stays_ended(run, run.len() - 1, id);
        lemma_session(earlier);
        assert(session.last() == session[index]);
        assert(run.drop_last() =~= reads(earlier));
        assert(run[run.len() - 2] == reads(earlier).last());
        assert(run.last() == run[run.len() - 1]);
    }
}

proof fn lemma_prefix_is_accepted<H, R>(session: Session<H, R>, count: int)
    requires
        accepted(session),
        0 <= count <= session.len(),
    ensures
        accepted(session.take(count)),
        count < session.len() ==> session_after(session.take(count)).accepts(session[count]),
    decreases session.len(),
{
    if count < session.len() {
        let earlier = session.drop_last();
        lemma_prefix_is_accepted(earlier, count);
        assert(earlier.take(count) =~= session.take(count));
        if count == session.len() - 1 {
            assert(earlier =~= session.take(count));
        }
    } else {
        assert(session.take(count) =~= session);
    }
}

/// Once a client has been told that a subscription has ended, nothing more is sent under its id,
/// whatever is broadcast later.
pub proof fn law_nothing_is_sent_after_unsubscribing<H, R>(
    session: Session<H, R>,
    index: int,
    later: int,
    id: u32,
)
    requires
        accepted(session),
        unsubscribes(session, index, id),
        index < later < session.len(),
    ensures
        queued(session, later) matches Some(response) ==> !concerns(response, id),
{
    let earlier = session.take(later);
    lemma_prefix_is_accepted(session, later);
    assert(earlier.take(index + 1) =~= session.take(index + 1));
    assert(unsubscribes(earlier, index, id));
    lemma_unsubscribed(earlier, index, id);
    lemma_session(earlier);
}

/// The success of a request to unsubscribe is queued only where a subscription has ended.
pub proof fn law_success_is_told_at_the_end<H, R>(session: Session<H, R>, index: int)
    requires
        accepted(session),
        0 <= index < session.len(),
        queued(session, index) matches Some(ResponseView::Unsubscribed { success, .. }) && success,
    ensures
        exists|id: u32| #[trigger] unsubscribes(session, index, id),
{
    let now = session.take(index + 1);
    let earlier = session.take(index);
    lemma_prefix_is_accepted(session, index + 1);
    lemma_prefix_is_accepted(session, index);
    assert(now.drop_last() =~= earlier);
    assert(now.last() == session[index]);
    lemma_session(earlier);
    law_connection_runs_as_alone(now);
    law_connection_runs_as_alone(earlier);
    let run = reads(now);
    assert(session[index] is Connection);
    assert(run.drop_last() =~= reads(earlier));
    super::run::lemma_actions(run);
    super::run::lemma_actions(reads(earlier));
    assert(super::run::confirms_end(run, run.len() - 1));
    super::run::law_unsubscribed_after_the_end(run, run.len() - 1);
    let id = choose|id: u32| #[trigger] ended_before(run, run.len() - 1, id);
    assert(unsubscribes(session, index, id));
}

} // verus!
