//! The writing side of a connection: it sends the responses in the order in which they are queued,
//! until one cannot be sent.

use vstd::prelude::*;

verus! {

/// What came of the last action of the writing side.
#[derive(Debug, PartialEq, Eq)]
pub enum WriteEvent {
    /// The next response as text. `Err` if it cannot be put into text.
    Dequeued(Result<String, String>),
    /// No response will be queued any more.
    Finished,
    /// Whether the text reached the socket.
    Sent(bool),
}

/// What the writing side does next.
#[derive(Debug, PartialEq, Eq)]
pub enum WriteAction {
    Dequeue,
    Send(String),
    Stop,
}

/// What the writing side does after `event`.
pub open spec fn write_action(event: WriteEvent) -> WriteAction {
    match event {
        WriteEvent::Dequeued(Ok(text)) => WriteAction::Send(text),
        WriteEvent::Dequeued(Err(_)) => WriteAction::Stop,
        WriteEvent::Finished => WriteAction::Stop,
        WriteEvent::Sent(true) => WriteAction::Dequeue,
        WriteEvent::Sent(false) => WriteAction::Stop,
    }
}

/// A step of the writing side.
pub fn write(event: WriteEvent) -> (action: WriteAction)
    ensures
        action == write_action(event),
{
    match event {
        WriteEvent::Dequeued(Ok(text)) => WriteAction::Send(text),
        WriteEvent::Dequeued(Err(_)) => WriteAction::Stop,
        WriteEvent::Finished => WriteAction::Stop,
        WriteEvent::Sent(sent) => if sent {
            WriteAction::Dequeue
        } else {
            WriteAction::Stop
        },
    }
}

/// What the writing side does before the event at `index` of a series. It starts by waiting for a
/// response.
pub open spec fn action_before(events: Seq<WriteEvent>, index: int) -> WriteAction {
    if index == 0 {
        WriteAction::Dequeue
    } else {
        write_action(events[index - 1])
    }
}

/// Whether `event` can come of `action`.
pub open spec fn comes_of(event: WriteEvent, action: WriteAction) -> bool {
    match action {
        WriteAction::Dequeue => event is Dequeued || event is Finished,
        WriteAction::Send(_) => event is Sent,
        WriteAction::Stop => false,
    }
}

/// Whether each event of a series comes of what the writing side does before it.
pub open spec fn accepted(events: Seq<WriteEvent>) -> bool {
    forall|i: int|
        0 <= i < events.len() ==> comes_of(#[trigger] events[i], action_before(events, i))
}

/// The responses that are queued as text, in order.
pub open spec fn queued(events: Seq<WriteEvent>) -> Seq<String>
    decreases events.len(),
{
    if events.len() == 0 {
        Seq::empty()
    } else {
        match events.last() {
            WriteEvent::Dequeued(Ok(text)) => queued(events.drop_last()).push(text),
            _ => queued(events.drop_last()),
        }
    }
}

/// The texts that reach the socket, in order.
pub open spec fn delivered(events: Seq<WriteEvent>) -> Seq<String>
    decreases events.len(),
{
    if events.len() == 0 {
        Seq::empty()
    } else {
        let earlier = events.drop_last();
        match (action_before(events, events.len() - 1), events.last()) {
            (WriteAction::Send(text), WriteEvent::Sent(true)) => delivered(earlier).push(text),
            _ => delivered(earlier),
        }
    }
}

/// The text that is on its way to the socket, or did not reach it, at the end of a series.
pub open spec fn undelivered(events: Seq<WriteEvent>) -> Seq<String> {
    if events.len() == 0 {
        Seq::empty()
    } else {
        match events.last() {
            WriteEvent::Dequeued(Ok(text)) => seq![text],
            WriteEvent::Sent(false) => match action_before(events, events.len() - 1) {
                WriteAction::Send(text) => seq![text],
                _ => Seq::empty(),
            },
            _ => Seq::empty(),
        }
    }
}

/// What reaches the socket is what is queued, each response once and in order, up to the first that
/// cannot be put into text or sent; after that one nothing follows.
pub proof fn law_responses_are_written_in_order(events: Seq<WriteEvent>)
    requires
        accepted(events),
    ensures
        queued(events) == delivered(events) + undelivered(events),
        forall|i: int|
            0 <= i < events.len() - 1 ==> (#[trigger] events[i] matches WriteEvent::Dequeued(text)
                && text is Ok) || events[i] == WriteEvent::Sent(true),
    decreases events.len(),
{
    assert forall|i: int| 0 <= i < events.len() - 1 implies (
    #[trigger] events[i] matches WriteEvent::Dequeued(text) && text is Ok) || events[i]
        == WriteEvent::Sent(true) by {
        assert(comes_of(events[i + 1], action_before(events, i + 1)));
    }
    if events.len() > 0 {
        let earlier = events.drop_last();
        assert(events[events.len() - 1] == events.last());
        assert forall|i: int| 0 <= i < earlier.len() implies comes_of(
            #[trigger] earlier[i],
            action_before(earlier, i),
        ) by {
            assert(earlier[i] == events[i]);
        }
        law_responses_are_written_in_order(earlier);
        if earlier.len() > 0 {
            assert(events[earlier.len() - 1] == earlier.last());
        }
        assert(queued(events) =~= delivered(events) + undelivered(events));
    }
}

/// Every response that is put into text is sent as it is, and as long as that succeeds the next one is
/// waited for. The writing side stops only when there is nothing more to write, or something fails.
pub proof fn law_writing_goes_on_until_a_failure(event: WriteEvent, text: String)
    ensures
        write_action(WriteEvent::Dequeued(Ok(text))) == WriteAction::Send(text),
        write_action(WriteEvent::Sent(true)) == WriteAction::Dequeue,
        write_action(event) is Stop <==> event is Finished || event == WriteEvent::Sent(false) || (
        event matches WriteEvent::Dequeued(response) && response is Err),
{
}

} // verus!
