//! The values that pass through a websocket connection: requests, responses, and the blocks whose
//! events subscribers are told about.

use std::sync::Arc;

use serde_json::Value;
use vstd::prelude::*;

use crate::felt::Felt;

verus! {

/// A JSON value as `serde_json` holds it. Nothing is said of what is inside: such a value is only
/// passed on.
#[verifier::external_type_specification]
#[verifier::external_body]
pub struct ExValue(serde_json::Value);

/// The `id` member of a JSON-RPC request.
#[derive(Debug, PartialEq, Eq)]
pub enum RequestId {
    Number(i64),
    String(String),
    Null,
    Notification,
}

/// Why the parameters of a request could not be read.
#[derive(Debug, PartialEq, Eq)]
pub enum RpcError {
    /// The parameters do not have the expected shape; the text says in what way.
    InvalidParams(String),
    /// Any other failure.
    Other,
}

impl RpcError {
    /// The text that a client is given.
    pub open spec fn reason(self) -> Seq<char> {
        match self {
            RpcError::InvalidParams(text) => text@,
            RpcError::Other => "Unexpected parsing error"@,
        }
    }

    pub fn into_reason(self) -> (reason: String)
        ensures
            reason@ == self.reason(),
    {
        match self {
            RpcError::InvalidParams(text) => text,
            RpcError::Other => "Unexpected parsing error".to_owned(),
        }
    }
}

/// The topic that a client subscribes to, by name.
#[derive(Debug, PartialEq, Eq)]
pub struct Kind {
    pub kind: String,
}

/// The subscription that a client ends.
#[derive(Clone, Copy, Debug, PartialEq, Eq)]
pub struct SubscriptionId {
    pub id: u32,
}

/// Which events a subscriber wants: those of one contract, or of any; and, for each key position,
/// those with one of the listed keys, where an empty list stands for any key.
#[derive(Debug, PartialEq, Eq)]
pub struct EventFilterParams {
    pub address: Option<Felt>,
    pub keys: Vec<Vec<Felt>>,
}

/// The parameters of a request, read in each of the shapes that a subscription method may ask for.
#[derive(Debug, PartialEq, Eq)]
pub struct RawParams {
    pub kind: Result<Kind, RpcError>,
    pub filter: Result<EventFilterParams, RpcError>,
    pub subscription_id: Result<SubscriptionId, RpcError>,
}

#[derive(Debug, PartialEq, Eq)]
pub struct RpcRequest {
    pub method: String,
    pub params: RawParams,
    pub id: RequestId,
}

/// Why the RPC router did not answer a request.
#[derive(Debug, PartialEq, Eq)]
pub enum RpcRequestError {
    ParseError(String),
    InvalidRequest(String),
}

/// An event as a contract emits it.
#[derive(Debug, PartialEq, Eq)]
pub struct Event {
    pub from_address: Felt,
    pub data: Vec<Felt>,
    pub keys: Vec<Felt>,
}

#[derive(Clone, Copy, Debug, PartialEq, Eq)]
pub struct Receipt {
    pub transaction_hash: Felt,
}

/// A block, with the events of each of its transactions.
#[derive(Debug, PartialEq, Eq)]
pub struct Block {
    pub block_hash: Felt,
    pub block_number: u64,
    pub transaction_receipts: Vec<(Receipt, Vec<Event>)>,
}

/// An event together with the place it was emitted at.
#[derive(Debug, PartialEq, Eq)]
pub struct EmittedEvent {
    pub data: Vec<Felt>,
    pub keys: Vec<Felt>,
    pub from_address: Felt,
    pub block_hash: Option<Felt>,
    pub block_number: Option<u64>,
    pub transaction_hash: Felt,
}

/// What an [`EmittedEvent`] holds.
pub struct EmittedEventView {
    pub data: Seq<Felt>,
    pub keys: Seq<Felt>,
    pub from_address: Felt,
    pub block_hash: Option<Felt>,
    pub block_number: Option<u64>,
    pub transaction_hash: Felt,
}

impl View for EmittedEvent {
    type V = EmittedEventView;

    open spec fn view(&self) -> EmittedEventView {
        EmittedEventView {
            data: self.data@,
            keys: self.keys@,
            from_address: self.from_address,
            block_hash: self.block_hash,
            block_number: self.block_number,
            transaction_hash: self.transaction_hash,
        }
    }
}

/// Something that a subscription delivers.
#[derive(Debug, PartialEq, Eq)]
pub struct SubscriptionItem<T> {
    pub subscription_id: u32,
    pub item: T,
}

/// What a client is sent. `R` is what the RPC router answers with.
#[derive(Debug, PartialEq, Eq)]
pub enum ResponseEvent<R> {
    Subscribed { subscription_id: u32, request_id: RequestId },
    Unsubscribed { success: bool, request_id: RequestId },
    SubscriptionClosed { subscription_id: u32, reason: String },
    InvalidRequest(String),
    InvalidParams(RequestId, String),
    Header(SubscriptionItem<Arc<Value>>),
    Event(SubscriptionItem<Arc<EmittedEvent>>),
    Responses(R),
}

/// What a [`ResponseEvent`] says.
pub enum ResponseView<R> {
    Subscribed { subscription_id: u32, request_id: RequestId },
    Unsubscribed { success: bool, request_id: RequestId },
    SubscriptionClosed { subscription_id: u32, reason: Seq<char> },
    InvalidRequest(Seq<char>),
    InvalidParams(RequestId, Seq<char>),
    Header { subscription_id: u32, header: Value },
    Event { subscription_id: u32, event: EmittedEventView },
    Responses(R),
}

impl<R> View for ResponseEvent<R> {
    type V = ResponseView<R>;

    open spec fn view(&self) -> ResponseView<R> {
        match *self {
            ResponseEvent::Subscribed { subscription_id, request_id } => ResponseView::Subscribed {
                subscription_id,
                request_id,
            },
            ResponseEvent::Unsubscribed { success, request_id } => ResponseView::Unsubscribed {
                success,
                request_id,
            },
            ResponseEvent::SubscriptionClosed { subscription_id, reason } => {
                ResponseView::SubscriptionClosed { subscription_id, reason: reason@ }
            },
            ResponseEvent::InvalidRequest(reason) => ResponseView::InvalidRequest(reason@),
            ResponseEvent::InvalidParams(request_id, reason) => ResponseView::InvalidParams(
                request_id,
                reason@,
            ),
            ResponseEvent::Header(item) => ResponseView::Header {
                subscription_id: item.subscription_id,
                header: *item.item,
            },
            ResponseEvent::Event(item) => ResponseView::Event {
                subscription_id: item.subscription_id,
                event: (*item.item)@,
            },
            ResponseEvent::Responses(responses) => ResponseView::Responses(responses),
        }
    }
}

/// Whether two strings hold the same characters.
pub(crate) fn same_text(left: &String, right: &str) -> (same: bool)
    ensures
        same == (left@ == right@),
{
    *left == right.to_owned()
}

/// A client is given the very text that says what is wrong with the parameters.
pub proof fn law_reason_is_passed_on(text: String)
    ensures
        RpcError::InvalidParams(text).reason() == text@,
        RpcError::Other.reason() == "Unexpected parsing error"@,
{
}

/// What is said of an emitted event is all that it holds.
pub proof fn law_event_view_leaves_nothing_out(event: EmittedEvent)
    ensures
        event@.data.len() == event.data@.len(),
        forall|i: int| 0 <= i < event.data@.len() ==> event@.data[i] == #[trigger] event.data@[i],
        event@.keys.len() == event.keys@.len(),
        forall|i: int| 0 <= i < event.keys@.len() ==> event@.keys[i] == #[trigger] event.keys@[i],
        event@.from_address == event.from_address,
        event@.block_hash == event.block_hash,
        event@.block_number == event.block_number,
        event@.transaction_hash == event.transaction_hash,
{
}

/// What is said of a response is all that it holds.
pub proof fn law_response_view_leaves_nothing_out<R>(response: ResponseEvent<R>)
    ensures
        match (response, response@) {
            (
                ResponseEvent::Subscribed { subscription_id, request_id },
                ResponseView::Subscribed { subscription_id: id, request_id: request },
            ) => id == subscription_id && request == request_id,
            (
                ResponseEvent::Unsubscribed { success, request_id },
                ResponseView::Unsubscribed { success: ended, request_id: request },
            ) => ended == success && request == request_id,
            (
                ResponseEvent::SubscriptionClosed { subscription_id, reason },
                ResponseView::SubscriptionClosed { subscription_id: id, reason: text },
            ) => id == subscription_id && text == reason@,
            (ResponseEvent::InvalidRequest(reason), ResponseView::InvalidRequest(text)) => text
                == reason@,
            (
                ResponseEvent::InvalidParams(request_id, reason),
                ResponseView::InvalidParams(request, text),
            ) => request == request_id && text == reason@,
            (
                ResponseEvent::Header(item),
                ResponseView::Header { subscription_id, header },
            ) => subscription_id == item.subscription_id && header == *item.item,
            (
                ResponseEvent::Event(item),
                ResponseView::Event { subscription_id, event },
            ) => subscription_id == item.subscription_id && event == (*item.item)@,
            (ResponseEvent::Responses(sent), ResponseView::Responses(responses)) => responses
                == sent,
            _ => false,
        },
{
}

} // verus!
