//! The reading side of a connection: what becomes of each message of a client.
//!
//! A connection alternates between decisions and work that only its surroundings can do, such as
//! receiving a message or waiting for a task to end. Each `step` takes what came of the last action
//! and says what to do next.

use vstd::pervasive::unreached;
use vstd::prelude::*;
use vstd::string::StrSliceExecFns;
use vstd::utf8::encode_utf8;

use super::broadcast::TopicBroadcasters;
use super::data::{
    same_text, RawParams, ResponseEvent, ResponseView, RpcRequest, RpcRequestError,
};
use super::subscriptions::{
    asked_for, lists_all, started, ManagerView, SubscriptionManager, SubscriptionTask,
};

verus! {

pub const SUBSCRIBE_METHOD: &'static str = "pathfinder_subscribe";

pub const UNSUBSCRIBE_METHOD: &'static str = "pathfinder_unsubscribe";

/// What is received from a client.
#[derive(Debug, PartialEq, Eq)]
pub enum Incoming {
    Text(String),
    Binary(Vec<u8>),
    /// Answered by the websocket layer itself.
    Ping,
    Pong,
    /// The client closes the connection.
    Close,
    /// The connection is broken.
    Failed,
    /// There is nothing more to receive.
    End,
}

/// What came of the last action of a connection. `R` is what the RPC router answers with.
#[derive(Debug, PartialEq, Eq)]
pub enum ReadEvent<R> {
    Received(Incoming),
    /// The request, or why it is none.
    Parsed(Result<RpcRequest, String>),
    /// The task of a subscription has ended.
    Ended,
    /// What the RPC router answers.
    Routed(Result<R, RpcRequestError>),
    /// Whether the response could be handed on.
    Sent(bool),
}

/// What a connection does next. `H` is the handle of a running subscription.
#[derive(Debug, PartialEq, Eq)]
pub enum ReadAction<H, R> {
    Receive,
    Parse(Vec<u8>),
    /// Ends the task of a subscription, and waits for it.
    End(H),
    /// Lets the RPC router answer.
    Route(Vec<u8>),
    Send(ResponseEvent<R>),
    /// Ends the tasks of all these subscriptions; the connection is done.
    Close(Vec<(u32, H)>),
}

/// What a [`ReadAction`] says.
pub enum ReadActionView<H, R> {
    Receive,
    Parse(Seq<u8>),
    End(H),
    Route(Seq<u8>),
    Send(ResponseView<R>),
    Close(Map<u32, H>),
}

impl<H, R> ReadAction<H, R> {
    /// Whether the action is the one described. The subscriptions that are given up are listed in
    /// any order.
    pub open spec fn is_as(self, described: ReadActionView<H, R>) -> bool {
        match described {
            ReadActionView::Receive => self is Receive,
            ReadActionView::Parse(bytes) => self matches ReadAction::Parse(request) && request@
                == bytes,
            ReadActionView::End(handle) => self == ReadAction::<H, R>::End(handle),
            ReadActionView::Route(bytes) => self matches ReadAction::Route(request) && request@
                == bytes,
            ReadActionView::Send(response) => self matches ReadAction::Send(sent) && sent@
                == response,
            ReadActionView::Close(live) => self matches ReadAction::Close(handles) && lists_all(
                handles@,
                live,
            ),
        }
    }
}

/// What a connection waits for.
#[derive(Debug, PartialEq, Eq)]
enum Stage<R> {
    Receiving,
    Parsing(Vec<u8>),
    Ending(ResponseEvent<R>),
    Routing,
    Sending,
    Closed,
}

/// What a connection waits for.
pub enum StageView<R> {
    /// A message of the client.
    Receiving,
    /// The request that these bytes stand for.
    Parsing(Seq<u8>),
    /// The end of a subscription, which is to be answered with this response.
    Ending(ResponseView<R>),
    /// The answer of the RPC router.
    Routing,
    /// Whether the response could be handed on.
    Sending,
    /// Nothing: the connection is done.
    Closed,
}

/// What a [`Connection`] holds.
pub struct ConnectionView<H, R> {
    pub manager: ManagerView<H>,
    pub stage: StageView<R>,
}

impl<H, R> ConnectionView<H, R> {
    pub open spec fn initial() -> Self {
        ConnectionView { manager: ManagerView::initial(), stage: StageView::Receiving }
    }

    /// Whether an event is one that the connection waits for.
    pub open spec fn awaits(self, event: ReadEvent<R>) -> bool {
        match self.stage {
            StageView::Receiving => event is Received,
            StageView::Parsing(_) => event is Parsed,
            StageView::Ending(_) => event is Ended,
            StageView::Routing => event is Routed,
            StageView::Sending => event is Sent,
            StageView::Closed => false,
        }
    }

    /// Whether an event can be handled: it is waited for, and where it uses up a subscription id,
    /// there is one left.
    pub open spec fn accepts(self, event: ReadEvent<R>) -> bool {
        &&& self.awaits(event)
        &&& subscribes(event) matches Some(params) ==> self.manager.can_subscribe(params)
    }

    /// Gives up all subscriptions.
    pub open spec fn close(self) -> (Self, ReadActionView<H, R>) {
        (
            ConnectionView { manager: ManagerView::initial(), stage: StageView::Closed },
            ReadActionView::Close(self.manager.live),
        )
    }

    pub open spec fn parse(self, request: Seq<u8>) -> (Self, ReadActionView<H, R>) {
        (
            ConnectionView { stage: StageView::Parsing(request), ..self },
            ReadActionView::Parse(request),
        )
    }

    pub open spec fn send(self, response: ResponseView<R>) -> (Self, ReadActionView<H, R>) {
        (ConnectionView { stage: StageView::Sending, ..self }, ReadActionView::Send(response))
    }

    pub open spec fn receive(self) -> (Self, ReadActionView<H, R>) {
        (ConnectionView { stage: StageView::Receiving, ..self }, ReadActionView::Receive)
    }

    /// What becomes of a message.
    pub open spec fn on_message(self, message: Incoming) -> (Self, ReadActionView<H, R>) {
        match message {
            Incoming::Text(text) => self.parse(encode_utf8(text@)),
            Incoming::Binary(bytes) => self.parse(bytes@),
            Incoming::Ping => self.receive(),
            Incoming::Pong => self.receive(),
            Incoming::Close => self.close(),
            Incoming::Failed => self.close(),
            Incoming::End => self.close(),
        }
    }

    /// What becomes of the request that `bytes` stand for. `handle` is that of the subscription it
    /// starts, if it starts one.
    pub open spec fn on_request(self, bytes: Seq<u8>, request: RpcRequest, handle: H) -> (
        Self,
        ReadActionView<H, R>,
    ) {
        if request.method@ == SUBSCRIBE_METHOD@ {
            ConnectionView {
                manager: self.manager.subscribe(request.params, handle),
                ..self
            }.send(self.manager.subscribe_response(request.id, request.params))
        } else if request.method@ == UNSUBSCRIBE_METHOD@ {
            let response = self.manager.unsubscribe_response(request.id, request.params);
            let left = ConnectionView { manager: self.manager.unsubscribe(request.params), ..self };
            match self.manager.ended(request.params) {
                Some(ended) => (
                    ConnectionView { stage: StageView::Ending(response), ..left },
                    ReadActionView::End(ended),
                ),
                None => left.send(response),
            }
        } else {
            (ConnectionView { stage: StageView::Routing, ..self }, ReadActionView::Route(bytes))
        }
    }

    /// What the connection becomes, and what it does, after `event`. `handle` is that of the
    /// subscription which the event starts, if it starts one.
    pub open spec fn next(self, event: ReadEvent<R>, handle: H) -> (Self, ReadActionView<H, R>) {
        match (self.stage, event) {
            (StageView::Receiving, ReadEvent::Received(message)) => self.on_message(message),
            (StageView::Parsing(_), ReadEvent::Parsed(Err(reason))) => self.send(
                ResponseView::InvalidRequest(reason@),
            ),
            (StageView::Parsing(bytes), ReadEvent::Parsed(Ok(request))) => self.on_request(
                bytes,
                request,
                handle,
            ),
            (StageView::Ending(response), ReadEvent::Ended) => self.send(response),
            (StageView::Routing, ReadEvent::Routed(Ok(responses))) => self.send(
                ResponseView::Responses(responses),
            ),
            (StageView::Routing, ReadEvent::Routed(Err(RpcRequestError::ParseError(reason)))) => {
                self.send(ResponseView::InvalidRequest(reason@))
            },
            (
                StageView::Routing,
                ReadEvent::Routed(Err(RpcRequestError::InvalidRequest(reason))),
            ) => self.send(ResponseView::InvalidRequest(reason@)),
            (StageView::Sending, ReadEvent::Sent(true)) => self.receive(),
            (StageView::Sending, ReadEvent::Sent(false)) => self.close(),
            _ => arbitrary(),
        }
    }
}

/// The parameters of the request to subscribe that an event brings, if it brings one.
pub open spec fn subscribes<R>(event: ReadEvent<R>) -> Option<RawParams> {
    match event {
        ReadEvent::Parsed(Ok(request)) => if request.method@ == SUBSCRIBE_METHOD@ {
            Some(request.params)
        } else {
            None
        },
        _ => None,
    }
}

/// The reading side of a connection.
#[derive(Debug)]
pub struct Connection<H, R> {
    manager: SubscriptionManager<H>,
    stage: Stage<R>,
}

impl<H, R> View for Connection<H, R> {
    type V = ConnectionView<H, R>;

    closed spec fn view(&self) -> ConnectionView<H, R> {
        ConnectionView {
            manager: self.manager@,
            stage: match self.stage {
                Stage::Receiving => StageView::Receiving,
                Stage::Parsing(bytes) => StageView::Parsing(bytes@),
                Stage::Ending(response) => StageView::Ending(response@),
                Stage::Routing => StageView::Routing,
                Stage::Sending => StageView::Sending,
                Stage::Closed => StageView::Closed,
            },
        }
    }
}

impl<H, R> Connection<H, R> {
    /// A new connection, which waits for its first message.
    pub fn new() -> (connection: Self)
        ensures
            connection@ == ConnectionView::<H, R>::initial(),
    {
        Connection { manager: SubscriptionManager::default(), stage: Stage::Receiving }
    }

    /// The id that the next subscription is given.
    pub fn next_id(&self) -> (id: u32)
        ensures
            id == self@.manager.next_id,
    {
        self.manager.next_id()
    }

    fn close(&mut self) -> (action: ReadAction<H, R>)
        ensures
            final(self)@ == old(self)@.close().0,
            action.is_as(old(self)@.close().1),
    {
        let mut manager: SubscriptionManager<H> = SubscriptionManager::default();
        std::mem::swap(&mut manager, &mut self.manager);
        self.stage = Stage::Closed;
        ReadAction::Close(manager.abort_all())
    }

    fn send(&mut self, response: ResponseEvent<R>) -> (action: ReadAction<H, R>)
        ensures
            final(self)@ == old(self)@.send(response@).0,
            action.is_as(old(self)@.send(response@).1),
    {
        self.stage = Stage::Sending;
        ReadAction::Send(response)
    }

    fn parse(&mut self, request: Vec<u8>) -> (action: ReadAction<H, R>)
        ensures
            final(self)@ == old(self)@.parse(request@).0,
            action.is_as(old(self)@.parse(request@).1),
    {
        let copy = request.clone();
        assert(copy@ =~= request@);
        self.stage = Stage::Parsing(copy);
        ReadAction::Parse(request)
    }

    fn receive(&mut self) -> (action: ReadAction<H, R>)
        ensures
            final(self)@ == old(self)@.receive().0,
            action.is_as(old(self)@.receive().1),
    {
        self.stage = Stage::Receiving;
        ReadAction::Receive
    }

    fn on_message(&mut self, message: Incoming) -> (action: ReadAction<H, R>)
        ensures
            final(self)@ == old(self)@.on_message(message).0,
            action.is_as(old(self)@.on_message(message).1),
    {
        match message {
            Incoming::Text(text) => self.parse(text.as_str().as_bytes_vec()),
            Incoming::Binary(bytes) => self.parse(bytes),
            Incoming::Ping | Incoming::Pong => self.receive(),
            Incoming::Close | Incoming::Failed | Incoming::End => self.close(),
        }
    }

    fn on_request<T, F: FnOnce(SubscriptionTask) -> H>(
        &mut self,
        bytes: Vec<u8>,
        request: RpcRequest,
        source: &TopicBroadcasters<T>,
        spawn: F,
    ) -> (action: ReadAction<H, R>)
        requires
            old(self)@.manager.wf(),
            request.method@ == SUBSCRIBE_METHOD@ ==> old(self)@.manager.can_subscribe(
                request.params,
            ),
            forall|task: SubscriptionTask|
                request.method@ == SUBSCRIBE_METHOD@ && asked_for(
                    request.params,
                    old(self)@.manager.next_id,
                    *source,
                    task,
                ) ==> #[trigger] spawn.requires((task,)),
        ensures
            final(self)@.manager.wf(),
            exists|handle: H|
                {
                    &&& final(self)@ == (#[trigger] old(self)@.on_request(
                        bytes@,
                        request,
                        handle,
                    )).0
                    &&& action.is_as(old(self)@.on_request(bytes@, request, handle).1)
                    &&& request.method@ == SUBSCRIBE_METHOD@ ==> started(
                        spawn,
                        request.params,
                        old(self)@.manager.next_id,
                        *source,
                        handle,
                    )
                },
    {
        if same_text(&request.method, SUBSCRIBE_METHOD) {
            let response = self.manager.subscribe(request.id, request.params, source, spawn);
            let ghost handle = choose|handle: H|
                {
                    &&& self.manager@ == #[trigger] old(self)@.manager.subscribe(
                        request.params,
                        handle,
                    )
                    &&& started(
                        spawn,
                        request.params,
                        old(self)@.manager.next_id,
                        *source,
                        handle,
                    )
                };
            let action = self.send(response);
            assert(self@ == old(self)@.on_request(bytes@, request, handle).0);
            action
        } else if same_text(&request.method, UNSUBSCRIBE_METHOD) {
            let (ended, response) = self.manager.unsubscribe(request.id, request.params);
            let ghost handle: H = arbitrary();
            let action = match ended {
                Some(handle) => {
                    self.stage = Stage::Ending(response);
                    ReadAction::End(handle)
                },
                None => self.send(response),
            };
            assert(self@ == old(self)@.on_request(bytes@, request, handle).0);
            action
        } else {
            let ghost handle: H = arbitrary();
            self.stage = Stage::Routing;
            assert(self@ == old(self)@.on_request(bytes@, request, handle).0);
            ReadAction::Route(bytes)
        }
    }

    /// A step of the connection. A subscription is started with `spawn`, fed by `source`, and only
    /// where a request asks for it.
    pub fn step<T, F: FnOnce(SubscriptionTask) -> H>(
        &mut self,
        event: ReadEvent<R>,
        source: &TopicBroadcasters<T>,
        spawn: F,
    ) -> (action: ReadAction<H, R>)
        requires
            old(self)@.manager.wf(),
            old(self)@.accepts(event),
            forall|task: SubscriptionTask|
                (subscribes(event) matches Some(params) && asked_for(
                    params,
                    old(self)@.manager.next_id,
                    *source,
                    task,
                )) ==> #[trigger] spawn.requires((task,)),
        ensures
            final(self)@.manager.wf(),
            exists|handle: H|
                {
                    &&& final(self)@ == (#[trigger] old(self)@.next(event, handle)).0
                    &&& action.is_as(old(self)@.next(event, handle).1)
                    &&& subscribes(event) matches Some(params) ==> started(
                        spawn,
                        params,
                        old(self)@.manager.next_id,
                        *source,
                        handle,
                    )
                },
    {
        let mut stage: Stage<R> = Stage::Sending;
        std::mem::swap(&mut stage, &mut self.stage);
        let ghost before = *self;
        match (stage, event) {
            (Stage::Parsing(bytes), ReadEvent::Parsed(Ok(request))) => {
                let action = self.on_request(bytes, request, source, spawn);
                proof {
                    let handle = choose|handle: H|
                        {
                            &&& self@ == (#[trigger] before@.on_request(
                                bytes@,
                                request,
                                handle,
                            )).0
                            &&& action.is_as(before@.on_request(bytes@, request, handle).1)
                            &&& request.method@ == SUBSCRIBE_METHOD@ ==> started(
                                spawn,
                                request.params,
                                before@.manager.next_id,
                                *source,
                                handle,
                            )
                        };
                    assert(self@ == old(self)@.next(event, handle).0);
                }
                action
            },
            (stage, event) => {
                let action = match (stage, event) {
                    (Stage::Receiving, ReadEvent::Received(message)) => self.on_message(message),
                    (Stage::Parsing(_), ReadEvent::Parsed(Err(reason))) => self.send(
                        ResponseEvent::InvalidRequest(reason),
                    ),
                    (Stage::Ending(response), ReadEvent::Ended) => self.send(response),
                    (Stage::Routing, ReadEvent::Routed(Ok(responses))) => self.send(
                        ResponseEvent::Responses(responses),
                    ),
                    (
                        Stage::Routing,
                        ReadEvent::Routed(Err(RpcRequestError::ParseError(reason))),
                    ) => self.send(ResponseEvent::InvalidRequest(reason)),
                    (
                        Stage::Routing,
                        ReadEvent::Routed(Err(RpcRequestError::InvalidRequest(reason))),
                    ) => self.send(ResponseEvent::InvalidRequest(reason)),
                    (Stage::Sending, ReadEvent::Sent(true)) => self.receive(),
                    (Stage::Sending, ReadEvent::Sent(false)) => self.close(),
                    _ => unreached(),
                };
                let ghost handle: H = arbitrary();
                assert(self@ == old(self)@.next(event, handle).0);
                action
            },
        }
    }
}

} // verus!
