//! Connections, driven step by step, over real broadcast channels.

use std::sync::Arc;

use pathfinder::felt::Felt;
use pathfinder::websocket::broadcast::{JsonBroadcaster, TopicBroadcasters, WebsocketContext};
use pathfinder::websocket::connection::{Connection, Incoming, ReadAction, ReadEvent};
use pathfinder::websocket::data::{
    Block, EmittedEvent, Event, EventFilterParams, Kind, RawParams, Receipt, RequestId,
    ResponseEvent, RpcError, RpcRequest, RpcRequestError, SubscriptionId, SubscriptionItem,
};
use pathfinder::websocket::events::EventFilter;
use pathfinder::websocket::feed::{
    header_subscription, EventSubscription, FeedAction, FeedEvent, Received,
};
use pathfinder::websocket::subscriptions::{SubscriptionManager, SubscriptionTask};
use pathfinder::websocket::writer::{WriteAction, WriteEvent};
use serde_json::Value;
use tokio::sync::broadcast::error::TryRecvError;
use tokio::sync::broadcast::Receiver;

fn felt(low: u128) -> Felt {
    Felt { high: 0, low }
}

fn felt_of(value: &Value) -> Result<Felt, RpcError> {
    let text = value.as_str().ok_or(RpcError::InvalidParams("no text".to_owned()))?;
    u128::from_str_radix(text.trim_start_matches("0x"), 16)
        .map(felt)
        .map_err(|error| RpcError::InvalidParams(error.to_string()))
}

fn invalid(error: serde_json::Error) -> RpcError {
    RpcError::InvalidParams(error.to_string())
}

/// A parameter, by name or by position.
fn param<'a>(params: &'a Value, name: &str, position: usize) -> Option<&'a Value> {
    match params {
        Value::Object(members) => members.get(name),
        Value::Array(elements) => elements.get(position),
        _ => None,
    }
}

fn params(text: &str) -> RawParams {
    let parse = || serde_json::from_str::<Value>(text).map_err(invalid);
    let missing = |name: &str| RpcError::InvalidParams(format!("missing field `{name}`"));
    RawParams {
        kind: parse().and_then(|value| {
            param(&value, "kind", 0)
                .and_then(Value::as_str)
                .map(|kind| Kind { kind: kind.to_owned() })
                .ok_or(missing("kind"))
        }),
        filter: parse().and_then(|value| {
            let address = match param(&value, "address", 1) {
                Some(address) => Some(felt_of(address)?),
                None => None,
            };
            let mut keys = vec![];
            if let Some(Value::Array(positions)) = param(&value, "keys", 2) {
                for position in positions {
                    let mut listed = vec![];
                    for key in position.as_array().unwrap() {
                        listed.push(felt_of(key)?);
                    }
                    keys.push(listed);
                }
            }
            Ok(EventFilterParams { address, keys })
        }),
        subscription_id: parse().and_then(|value| {
            param(&value, "id", 0)
                .and_then(Value::as_u64)
                .map(|id| SubscriptionId { id: id as u32 })
                .ok_or(missing("id"))
        }),
    }
}

/// What a client sees of a node.
struct Client {
    source: TopicBroadcasters<u64>,
    connection: Connection<usize, Value>,
    tasks: Vec<Option<Task>>,
}

enum Task {
    Headers(u32, Receiver<Arc<Value>>),
    Events(EventSubscription, Receiver<Arc<Block>>),
}

impl Client {
    fn new() -> Client {
        let context: WebsocketContext<u64> = WebsocketContext::default();
        assert_eq!(context.socket_buffer_capacity, 100);
        Client {
            source: context.broadcasters.clone(),
            connection: Connection::new(),
            tasks: vec![],
        }
    }

    fn step(&mut self, event: ReadEvent<Value>) -> ReadAction<usize, Value> {
        let tasks = &mut self.tasks;
        self.connection.step(event, &self.source, |task| {
            tasks.push(Some(match task {
                SubscriptionTask::Headers { subscription_id, headers } => {
                    Task::Headers(subscription_id, headers)
                }
                SubscriptionTask::Events { subscription_id, blocks, filter } => {
                    Task::Events(EventSubscription::new(subscription_id, filter), blocks)
                }
            }));
            tasks.len() - 1
        })
    }

    /// Sends a request, and gives the response.
    fn request(&mut self, method: &str, text: &str, id: RequestId) -> ResponseEvent<Value> {
        let bytes = b"{\"jsonrpc\":\"2.0\"}".to_vec();
        let action = self.step(ReadEvent::Received(Incoming::Binary(bytes.clone())));
        assert_eq!(action, ReadAction::Parse(bytes.clone()));
        let request = RpcRequest { method: method.to_owned(), params: params(text), id };
        let mut action = self.step(ReadEvent::Parsed(Ok(request)));
        if let ReadAction::Route(routed) = action {
            assert_eq!(routed, bytes);
            let chain_id = Value::from("0x534e5f5345504f4c4941");
            action = self.step(ReadEvent::Routed(Ok(chain_id)));
        }
        if let ReadAction::End(handle) = action {
            assert!(self.tasks[handle].take().is_some());
            action = self.step(ReadEvent::Ended);
        }
        let ReadAction::Send(response) = action else { panic!("no response") };
        assert_eq!(self.step(ReadEvent::Sent(true)), ReadAction::Receive);
        response
    }

    fn subscribed(&mut self, text: &str, id: i64, subscription_id: u32) {
        let request_id = RequestId::Number(id);
        assert_eq!(
            self.request("pathfinder_subscribe", text, RequestId::Number(id)),
            ResponseEvent::Subscribed { subscription_id, request_id }
        );
    }

    fn unsubscribe(&mut self, text: &str, id: &str) -> ResponseEvent<Value> {
        self.request("pathfinder_unsubscribe", text, RequestId::String(id.to_owned()))
    }

    /// What the running subscriptions send.
    fn responses(&mut self) -> Vec<ResponseEvent<Value>> {
        let mut responses = vec![];
        for slot in self.tasks.iter_mut() {
            let mut done = false;
            match slot {
                None => {}
                Some(Task::Headers(id, headers)) => {
                    while let Some(received) = receive(headers) {
                        match header_subscription(*id, FeedEvent::Received(received)) {
                            FeedAction::Send(response) => responses.push(response),
                            FeedAction::SendLast(response) => {
                                responses.push(response);
                                done = true;
                                break;
                            }
                            _ => break,
                        }
                        let next: FeedAction<Value> = header_subscription(*id, FeedEvent::Sent(true));
                        assert_eq!(next, FeedAction::Receive);
                    }
                }
                Some(Task::Events(subscription, blocks)) => {
                    while let Some(received) = receive(blocks) {
                        let mut action = subscription.step(FeedEvent::Received(received));
                        while let FeedAction::Send(response) = action {
                            responses.push(response);
                            action = subscription.step(FeedEvent::Sent(true));
                        }
                        if let FeedAction::SendLast(response) = action {
                            responses.push(response);
                            done = true;
                            break;
                        }
                        if action == FeedAction::Stop {
                            break;
                        }
                    }
                }
            }
            if done {
                *slot = None;
            }
        }
        responses
    }
}

fn receive<T: Clone>(receiver: &mut Receiver<T>) -> Option<Received<T>> {
    match receiver.try_recv() {
        Ok(item) => Some(Received::Item(item)),
        Err(TryRecvError::Empty) => None,
        Err(TryRecvError::Closed) => Some(Received::Closed),
        Err(TryRecvError::Lagged(amount)) => Some(Received::Lagged(amount)),
    }
}

fn json(number: u64) -> Result<Value, String> {
    Ok(Value::from(number))
}

fn event(from: u128, data: u128, keys: &[u128]) -> Event {
    Event {
        from_address: felt(from),
        data: vec![felt(data)],
        keys: keys.iter().map(|key| felt(*key)).collect(),
    }
}

fn block_sample() -> Arc<Block> {
    Arc::new(Block {
        block_hash: felt(1),
        block_number: 1,
        transaction_receipts: vec![
            (
                Receipt { transaction_hash: felt(1) },
                vec![event(0x2, 0xa, &[0xb, 0xdeadbeef])],
            ),
            (
                Receipt { transaction_hash: felt(2) },
                vec![event(0x3, 0xc, &[0xd, 0xcafebabe]), event(0x4, 0xe, &[0xf, 0x1234])],
            ),
        ],
    })
}

fn emitted(from: u128, data: u128, keys: &[u128], transaction: u128) -> EmittedEvent {
    EmittedEvent {
        data: vec![felt(data)],
        keys: keys.iter().map(|key| felt(*key)).collect(),
        from_address: felt(from),
        block_hash: Some(felt(1)),
        block_number: Some(1),
        transaction_hash: felt(transaction),
    }
}

fn item(subscription_id: u32, event: EmittedEvent) -> ResponseEvent<Value> {
    ResponseEvent::Event(SubscriptionItem { subscription_id, item: Arc::new(event) })
}

#[test]
fn params_are_required() {
    let mut client = Client::new();
    assert_eq!(
        client.request("pathfinder_subscribe", "", RequestId::Null),
        ResponseEvent::InvalidParams(
            RequestId::Null,
            "EOF while parsing a value at line 1 column 0".to_owned()
        )
    );
}

#[test]
fn subscribe_new_heads() {
    let mut client = Client::new();
    client.subscribed(r#"["newHeads"]"#, 37, 0);

    for i in 0..10 {
        client.source.new_head.send_if_receiving(i, json).unwrap();
        assert_eq!(
            client.responses(),
            vec![ResponseEvent::Header(SubscriptionItem {
                subscription_id: 0,
                item: Arc::new(Value::from(i)),
            })]
        );
    }

    assert_eq!(
        client.unsubscribe(r#"{"id": 0}"#, "req_id"),
        ResponseEvent::Unsubscribed {
            success: true,
            request_id: RequestId::String("req_id".to_owned()),
        }
    );

    // Nobody listens any more: the header is not even put into JSON.
    let unused = |_: u64| -> Result<Value, String> { panic!("encoded for nobody") };
    client.source.new_head.send_if_receiving(10, unused).unwrap();
    assert_eq!(client.responses(), vec![]);
}

#[test]
fn fall_back_to_rpc_method() {
    let mut client = Client::new();
    assert_eq!(
        client.request("pathfinder_test", "", RequestId::Number(1)),
        ResponseEvent::Responses(Value::from("0x534e5f5345504f4c4941"))
    );
}

#[test]
fn subscribe_events() {
    let mut client = Client::new();
    let block = block_sample();
    let success = |id: &str| ResponseEvent::Unsubscribed {
        success: true,
        request_id: RequestId::String(id.to_owned()),
    };

    client.subscribed(r#"["events"]"#, 37, 0);
    client.source.blocks.send(block.clone()).unwrap();
    assert_eq!(
        client.responses(),
        vec![
            item(0, emitted(0x2, 0xa, &[0xb, 0xdeadbeef], 1)),
            item(0, emitted(0x3, 0xc, &[0xd, 0xcafebabe], 2)),
            item(0, emitted(0x4, 0xe, &[0xf, 0x1234], 2)),
        ]
    );
    assert_eq!(client.unsubscribe(r#"{"id": 0}"#, "unsub_1"), success("unsub_1"));

    client.subscribed(r#"{"kind": "events", "keys": [[], ["0xdeadbeef"]]}"#, 38, 1);
    client.source.blocks.send(block.clone()).unwrap();
    assert_eq!(
        client.responses(),
        vec![item(1, emitted(0x2, 0xa, &[0xb, 0xdeadbeef], 1))]
    );
    assert_eq!(client.unsubscribe(r#"{"id": 1}"#, "unsub_2"), success("unsub_2"));

    client.subscribed(r#"{"kind": "events", "address": "0x3"}"#, 39, 2);
    client.source.blocks.send(block).unwrap();
    assert_eq!(
        client.responses(),
        vec![item(2, emitted(0x3, 0xc, &[0xd, 0xcafebabe], 2))]
    );
    assert_eq!(client.responses(), vec![]);
}

#[test]
fn unknown_topic_uses_up_an_id() {
    let mut client = Client::new();
    assert_eq!(
        client.request("pathfinder_subscribe", r#"["oldHeads"]"#, RequestId::Null),
        ResponseEvent::InvalidParams(RequestId::Null, "Unknown subscription type".to_owned())
    );
    assert_eq!(client.connection.next_id(), 1);
    client.subscribed(r#"["newHeads"]"#, 1, 1);
}

#[test]
fn unreadable_topic_uses_up_no_id() {
    let mut client = Client::new();
    assert_eq!(
        client.request("pathfinder_subscribe", "{}", RequestId::Null),
        ResponseEvent::InvalidParams(RequestId::Null, "missing field `kind`".to_owned())
    );
    assert_eq!(client.connection.next_id(), 0);
}

#[test]
fn unreadable_filter_uses_up_an_id() {
    let mut client = Client::new();
    let text = r#"{"kind": "events", "address": 3}"#;
    assert_eq!(
        client.request("pathfinder_subscribe", text, RequestId::Null),
        ResponseEvent::InvalidParams(RequestId::Null, "no text".to_owned())
    );
    assert_eq!(client.connection.next_id(), 1);
    // The filter does not matter for headers.
    client.subscribed(r#"{"kind": "newHeads", "address": 3}"#, 1, 1);
}

#[test]
fn other_parsing_errors_have_a_fixed_text() {
    let text = "Unexpected parsing error".to_owned();
    assert_eq!(RpcError::Other.into_reason(), text);
    let mut manager: SubscriptionManager<u8> = SubscriptionManager::default();
    let mut request = params(r#"["newHeads"]"#);
    request.subscription_id = Err(RpcError::Other);
    let ended = manager.unsubscribe::<Value>(RequestId::Notification, request);
    assert_eq!(ended, (None, ResponseEvent::InvalidParams(RequestId::Notification, text)));
}

#[test]
fn unsubscribe_succeeds_once() {
    let mut client = Client::new();
    client.subscribed(r#"["newHeads"]"#, 1, 0);
    let unsubscribed = |success| ResponseEvent::Unsubscribed {
        success,
        request_id: RequestId::String("x".to_owned()),
    };
    assert_eq!(client.unsubscribe(r#"{"id": 5}"#, "x"), unsubscribed(false));
    assert_eq!(client.unsubscribe(r#"{"id": 0}"#, "x"), unsubscribed(true));
    assert_eq!(client.unsubscribe(r#"{"id": 0}"#, "x"), unsubscribed(false));
    assert_eq!(
        client.unsubscribe(r#"{}"#, "x"),
        ResponseEvent::InvalidParams(
            RequestId::String("x".to_owned()),
            "missing field `id`".to_owned()
        )
    );
}

#[test]
fn ids_are_never_given_out_twice() {
    let mut client = Client::new();
    client.subscribed(r#"["newHeads"]"#, 1, 0);
    client.subscribed(r#"["newHeads"]"#, 2, 1);
    client.unsubscribe(r#"{"id": 1}"#, "x");
    client.subscribed(r#"["events"]"#, 3, 2);
}

#[test]
fn two_subscriptions_to_one_topic_both_deliver() {
    let mut client = Client::new();
    client.subscribed(r#"["newHeads"]"#, 1, 0);
    client.subscribed(r#"["newHeads"]"#, 2, 1);
    client.source.new_head.send_if_receiving(7, json).unwrap();
    let header = |subscription_id| {
        ResponseEvent::Header(SubscriptionItem { subscription_id, item: Arc::new(Value::from(7)) })
    };
    assert_eq!(client.responses(), vec![header(0), header(1)]);
}

#[test]
fn closing_gives_up_all_subscriptions() {
    for last in [Incoming::Close, Incoming::Failed, Incoming::End] {
        let mut client = Client::new();
        client.subscribed(r#"["newHeads"]"#, 1, 0);
        client.subscribed(r#"["events"]"#, 2, 1);
        client.subscribed(r#"["events"]"#, 3, 2);
        client.unsubscribe(r#"{"id": 1}"#, "x");
        let ReadAction::Close(mut handles) = client.step(ReadEvent::Received(last)) else {
            panic!("not closed")
        };
        handles.sort();
        assert_eq!(handles, vec![(0, 0), (2, 2)]);
    }
}

#[test]
fn failure_to_send_closes_the_connection() {
    let mut client = Client::new();
    client.subscribed(r#"["newHeads"]"#, 1, 0);
    let action = client.step(ReadEvent::Received(Incoming::Text("?".to_owned())));
    assert_eq!(action, ReadAction::Parse(vec![b'?']));
    let action = client.step(ReadEvent::Parsed(Err("no request".to_owned())));
    assert_eq!(action, ReadAction::Send(ResponseEvent::InvalidRequest("no request".to_owned())));
    assert_eq!(client.step(ReadEvent::Sent(false)), ReadAction::Close(vec![(0, 0)]));
}

#[test]
fn pings_are_skipped() {
    let mut client = Client::new();
    assert_eq!(client.step(ReadEvent::Received(Incoming::Ping)), ReadAction::Receive);
    assert_eq!(client.step(ReadEvent::Received(Incoming::Pong)), ReadAction::Receive);
    client.subscribed(r#"["newHeads"]"#, 1, 0);
}

#[test]
fn text_is_parsed_as_utf8() {
    let mut client = Client::new();
    let action = client.step(ReadEvent::Received(Incoming::Text("né".to_owned())));
    assert_eq!(action, ReadAction::Parse(vec![0x6e, 0xc3, 0xa9]));
}

#[test]
fn router_errors_are_invalid_requests() {
    for error in [
        RpcRequestError::ParseError("reason".to_owned()),
        RpcRequestError::InvalidRequest("reason".to_owned()),
    ] {
        let mut client = Client::new();
        client.step(ReadEvent::Received(Incoming::Binary(vec![1, 2])));
        let request = RpcRequest {
            method: "starknet_chainId".to_owned(),
            params: params(""),
            id: RequestId::Null,
        };
        let action = client.step(ReadEvent::Parsed(Ok(request)));
        assert_eq!(action, ReadAction::Route(vec![1, 2]));
        assert_eq!(
            client.step(ReadEvent::Routed(Err(error))),
            ReadAction::Send(ResponseEvent::InvalidRequest("reason".to_owned()))
        );
    }
}

#[test]
fn abort_all_of_nothing_is_nothing() {
    let manager: SubscriptionManager<u8> = SubscriptionManager::default();
    assert_eq!(manager.abort_all(), vec![]);
}

#[test]
fn slow_header_subscribers_are_told_and_closed() {
    let mut client = Client::new();
    client.source = TopicBroadcasters::with_capacity(2);
    client.subscribed(r#"["newHeads"]"#, 1, 0);
    for i in 0..5 {
        client.source.new_head.send_if_receiving(i, json).unwrap();
    }
    assert_eq!(
        client.responses(),
        vec![ResponseEvent::SubscriptionClosed {
            subscription_id: 0,
            reason: "Lagging stream, some headers were skipped. Closing subscription.".to_owned(),
        }]
    );
    let unused = |_: u64| -> Result<Value, String> { panic!("encoded for nobody") };
    client.source.new_head.send_if_receiving(5, unused).unwrap();
    assert_eq!(client.responses(), vec![]);
}

#[test]
fn slow_event_subscribers_are_told_and_closed() {
    let mut client = Client::new();
    // The capacity is rounded up to four.
    client.source = WebsocketContext::new(1, 3).broadcasters;
    client.subscribed(r#"["events"]"#, 1, 0);
    for _ in 0..4 {
        client.source.blocks.send(block_sample()).unwrap();
    }
    assert_eq!(client.responses().len(), 12);
    for _ in 0..5 {
        client.source.blocks.send(block_sample()).unwrap();
    }
    assert_eq!(
        client.responses(),
        vec![ResponseEvent::SubscriptionClosed {
            subscription_id: 0,
            reason: "Lagging stream, some events were skipped. Closing subscription.".to_owned(),
        }]
    );
    assert!(client.source.blocks.send(block_sample()).is_err());
    assert_eq!(client.responses(), vec![]);
}

#[test]
fn other_subscriptions_outlive_a_lagging_one() {
    let mut client = Client::new();
    client.source = TopicBroadcasters::with_capacity(1);
    client.subscribed(r#"["newHeads"]"#, 1, 0);
    client.source.new_head.send_if_receiving(1, json).unwrap();
    client.source.new_head.send_if_receiving(2, json).unwrap();
    client.subscribed(r#"["newHeads"]"#, 2, 1);
    assert_eq!(client.responses().len(), 1);
    client.source.new_head.send_if_receiving(3, json).unwrap();
    assert_eq!(
        client.responses(),
        vec![ResponseEvent::Header(SubscriptionItem {
            subscription_id: 1,
            item: Arc::new(Value::from(3)),
        })]
    );
}

#[test]
fn tasks_start_only_where_a_request_asks_for_one() {
    let mut client = Client::new();
    client.step(ReadEvent::Received(Incoming::Ping));
    client.request("pathfinder_subscribe", r#"["oldHeads"]"#, RequestId::Null);
    client.request("pathfinder_subscribe", "", RequestId::Null);
    client.request("pathfinder_subscribe", r#"["events", 3]"#, RequestId::Null);
    client.request("pathfinder_test", r#"["newHeads"]"#, RequestId::Null);
    client.unsubscribe(r#"{"id": 0, "kind": "newHeads"}"#, "x");
    assert!(client.tasks.is_empty());
    assert_eq!(client.source.blocks.receiver_count(), 0);
    client.subscribed(r#"["events"]"#, 1, 2);
    assert_eq!(client.tasks.len(), 1);
    assert_eq!(client.source.blocks.receiver_count(), 1);
}

#[test]
fn default_topics_retain_128_items() {
    let source: TopicBroadcasters<u64> = TopicBroadcasters::default();
    let mut headers = source.new_head.subscribe();
    for i in 0..128 {
        source.new_head.send_if_receiving(i, json).unwrap();
    }
    assert_eq!(headers.try_recv(), Ok(Arc::new(Value::from(0))));
    source.new_head.send_if_receiving(128, json).unwrap();
    source.new_head.send_if_receiving(129, json).unwrap();
    assert_eq!(headers.try_recv(), Err(TryRecvError::Lagged(1)));
}

#[test]
fn clones_share_their_channels() {
    let source: TopicBroadcasters<u64> = TopicBroadcasters::with_capacity(4);
    let handles = source.clone();
    let mut headers = handles.new_head.subscribe();
    let mut blocks = handles.blocks.subscribe();
    source.new_head.send_if_receiving(3, json).unwrap();
    source.blocks.send(block_sample()).unwrap();
    assert_eq!(headers.try_recv(), Ok(Arc::new(Value::from(3))));
    assert_eq!(blocks.try_recv(), Ok(block_sample()));
}

#[test]
fn encoding_errors_are_passed_on() {
    let source: TopicBroadcasters<u64> = TopicBroadcasters::default();
    let failing = |_: u64| -> Result<Value, String> { Err("no JSON".to_owned()) };
    assert_eq!(source.new_head.send_if_receiving(1, failing), Ok(()));
    let mut headers = source.new_head.subscribe();
    assert_eq!(source.new_head.send_if_receiving(1, failing), Err("no JSON".to_owned()));
    assert_eq!(headers.try_recv(), Err(TryRecvError::Empty));
}

#[test]
fn encode_depends_on_the_receivers() {
    assert_eq!(JsonBroadcaster::encode(0, 5, json), Ok(None));
    assert_eq!(JsonBroadcaster::encode(1, 5, json), Ok(Some(Arc::new(Value::from(5)))));
}

#[test]
fn subscriptions_stop_when_their_channel_or_client_is_gone() {
    let action: FeedAction<Value> = header_subscription(0, FeedEvent::Received(Received::Closed));
    assert_eq!(action, FeedAction::Stop);
    let action: FeedAction<Value> = header_subscription(0, FeedEvent::Sent(false));
    assert_eq!(action, FeedAction::Stop);

    let open = EventFilterParams { address: None, keys: vec![] };
    let mut subscription = EventSubscription::new(4, open);
    let action = subscription.step::<Value>(FeedEvent::Received(Received::Item(block_sample())));
    assert_eq!(action, FeedAction::Send(item(4, emitted(0x2, 0xa, &[0xb, 0xdeadbeef], 1))));
    assert_eq!(subscription.step::<Value>(FeedEvent::Sent(false)), FeedAction::Stop);
    let action = subscription.step::<Value>(FeedEvent::Received(Received::Closed));
    assert_eq!(action, FeedAction::Stop);
}

fn filter(address: Option<u128>, keys: &[&[u128]]) -> EventFilter {
    EventFilter::new(EventFilterParams {
        address: address.map(felt),
        keys: keys.iter().map(|listed| listed.iter().map(|key| felt(*key)).collect()).collect(),
    })
}

#[test]
fn filters_go_by_position() {
    let sample = event(7, 0, &[1, 2]);
    assert!(filter(None, &[]).matches(&sample));
    assert!(filter(None, &[&[1]]).matches(&sample));
    assert!(filter(None, &[&[3, 1], &[2]]).matches(&sample));
    assert!(filter(None, &[&[], &[2]]).matches(&sample));
    assert!(!filter(None, &[&[2]]).matches(&sample));
    assert!(!filter(None, &[&[1], &[1]]).matches(&sample));
    assert!(filter(Some(7), &[&[1]]).matches(&sample));
    assert!(!filter(Some(8), &[&[1]]).matches(&sample));
}

#[test]
fn filters_ask_for_as_many_keys_as_they_have_positions() {
    let sample = event(7, 0, &[1]);
    assert!(filter(None, &[&[1]]).matches(&sample));
    assert!(!filter(None, &[&[1], &[]]).matches(&sample));
    // Without any listed key there is no condition on the keys.
    assert!(filter(None, &[&[], &[], &[]]).matches(&sample));
    assert!(filter(None, &[&[]]).matches(&event(7, 0, &[])));
}

#[test]
fn selection_keeps_the_order_of_the_block() {
    let selected = filter(None, &[&[0xb, 0xf]]).select(&block_sample());
    assert_eq!(
        Vec::from(selected),
        vec![
            emitted(0x2, 0xa, &[0xb, 0xdeadbeef], 1),
            emitted(0x4, 0xe, &[0xf, 0x1234], 2),
        ]
    );
}

#[test]
fn high_halves_count() {
    let address = Felt { high: 1, low: 7 };
    let params = EventFilterParams { address: Some(address), keys: vec![] };
    assert!(!EventFilter::new(params).matches(&event(7, 0, &[])));
}

#[test]
fn responses_are_written_in_order() {
    let mut written = vec![];
    let mut action = WriteAction::Dequeue;
    let mut queue = vec![Ok("1".to_owned()), Ok("2".to_owned()), Err("no JSON".to_owned())];
    queue.push(Ok("4".to_owned()));
    let mut queue = queue.into_iter();
    while action != WriteAction::Stop {
        let event = match action {
            WriteAction::Dequeue => match queue.next() {
                Some(text) => WriteEvent::Dequeued(text),
                None => WriteEvent::Finished,
            },
            WriteAction::Send(text) => {
                written.push(text);
                WriteEvent::Sent(true)
            }
            WriteAction::Stop => unreachable!(),
        };
        action = pathfinder::websocket::writer::write(event);
    }
    assert_eq!(written, vec!["1", "2"]);
    assert_eq!(queue.len(), 1);
}

#[test]
fn writer_stops_at_the_first_failure() {
    let text = || "{}".to_owned();
    assert_eq!(pathfinder::websocket::writer::write(WriteEvent::Dequeued(Ok(text()))), WriteAction::Send(text()));
    assert_eq!(pathfinder::websocket::writer::write(WriteEvent::Sent(true)), WriteAction::Dequeue);
    assert_eq!(pathfinder::websocket::writer::write(WriteEvent::Sent(false)), WriteAction::Stop);
    assert_eq!(pathfinder::websocket::writer::write(WriteEvent::Dequeued(Err("no JSON".to_owned()))), WriteAction::Stop);
    assert_eq!(pathfinder::websocket::writer::write(WriteEvent::Finished), WriteAction::Stop);
}

#[test]
fn invalid_requests_are_survived() {
    let mut client = Client::new();
    client.subscribed(r#"["newHeads"]"#, 1, 0);
    client.step(ReadEvent::Received(Incoming::Binary(vec![b'?'])));
    let action = client.step(ReadEvent::Parsed(Err("no request".to_owned())));
    assert_eq!(action, ReadAction::Send(ResponseEvent::InvalidRequest("no request".to_owned())));
    assert_eq!(client.step(ReadEvent::Sent(true)), ReadAction::Receive);
    client.source.new_head.send_if_receiving(4, json).unwrap();
    assert_eq!(client.responses().len(), 1);
}

#[test]
fn selection_is_piecewise_and_narrowed_by_an_address() {
    let whole = block_sample();
    let (first, second) = match block_sample().transaction_receipts.as_slice() {
        [first, second] => (first.0, second.0),
        _ => panic!("two transactions"),
    };
    let part = |receipt: Receipt, events: Vec<Event>| Block {
        block_hash: felt(1),
        block_number: 1,
        transaction_receipts: vec![(receipt, events)],
    };
    let first = part(first, vec![event(0x2, 0xa, &[0xb, 0xdeadbeef])]);
    let second = part(
        second,
        vec![event(0x3, 0xc, &[0xd, 0xcafebabe]), event(0x4, 0xe, &[0xf, 0x1234])],
    );
    let open = filter(None, &[&[0xb, 0xd]]);
    let mut pieces = Vec::from(open.select(&first));
    pieces.extend(open.select(&second));
    assert_eq!(pieces, Vec::from(open.select(&whole)));
    assert_eq!(pieces.len(), 2);

    let narrowed = Vec::from(filter(Some(0x3), &[&[0xb, 0xd]]).select(&whole));
    assert_eq!(narrowed, vec![emitted(0x3, 0xc, &[0xd, 0xcafebabe], 2)]);
    assert!(pieces.contains(&narrowed[0]));
}

#[test]
fn text_frames_are_routed_as_they_came() {
    let mut client = Client::new();
    let text = "{\"method\":\"é\"}";
    client.step(ReadEvent::Received(Incoming::Text(text.to_owned())));
    let request =
        RpcRequest { method: "é".to_owned(), params: params(""), id: RequestId::Null };
    let action = client.step(ReadEvent::Parsed(Ok(request)));
    assert_eq!(action, ReadAction::Route(text.as_bytes().to_vec()));
    let error = RpcRequestError::InvalidRequest("reason".to_owned());
    assert_eq!(
        client.step(ReadEvent::Routed(Err(error))),
        ReadAction::Send(ResponseEvent::InvalidRequest("reason".to_owned()))
    );
}

#[test]
fn nothing_is_sent_after_unsubscribing() {
    let mut client = Client::new();
    client.subscribed(r#"["newHeads"]"#, 1, 0);
    client.subscribed(r#"["events"]"#, 2, 1);
    client.subscribed(r#"["newHeads"]"#, 3, 2);
    // These are still on their way when the client unsubscribes.
    client.source.new_head.send_if_receiving(1, json).unwrap();
    client.source.blocks.send(block_sample()).unwrap();
    client.unsubscribe(r#"{"id": 0}"#, "x");
    client.unsubscribe(r#"{"id": 1}"#, "y");
    assert_eq!(client.source.new_head.send_if_receiving(2, json), Ok(()));
    let header = |number: u64| {
        ResponseEvent::Header(SubscriptionItem {
            subscription_id: 2,
            item: Arc::new(Value::from(number)),
        })
    };
    assert_eq!(client.responses(), vec![header(1), header(2)]);
    assert!(client.source.blocks.send(block_sample()).is_err());
}
