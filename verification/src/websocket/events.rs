//! Which events of a block a subscriber is told about.

use std::collections::VecDeque;

use vstd::prelude::*;

use super::data::{Block, EmittedEvent, EmittedEventView, Event, EventFilterParams};
use crate::felt::Felt;

verus! {

impl Event {
    /// The event as a subscriber sees it, of a transaction of `block`.
    pub open spec fn emitted(self, block: Block, transaction_hash: Felt) -> EmittedEventView {
        EmittedEventView {
            data: self.data@,
            keys: self.keys@,
            from_address: self.from_address,
            block_hash: Some(block.block_hash),
            block_number: Some(block.block_number),
            transaction_hash,
        }
    }
}

impl Block {
    /// The events of one transaction, in order.
    pub open spec fn events_of_transaction(self, index: int) -> Seq<EmittedEventView> {
        let (receipt, events) = self.transaction_receipts@[index];
        events@.map_values(|event: Event| event.emitted(self, receipt.transaction_hash))
    }

    /// The events of the first `count` transactions, in order.
    pub open spec fn events_before(self, count: nat) -> Seq<EmittedEventView>
        decreases count,
    {
        if count == 0 {
            Seq::empty()
        } else {
            self.events_before((count - 1) as nat) + self.events_of_transaction(count - 1)
        }
    }

    /// All events of the block, in order.
    pub open spec fn events(self) -> Seq<EmittedEventView> {
        self.events_before(self.transaction_receipts@.len())
    }
}

impl EventFilterParams {
    /// Whether no position lists any key.
    pub open spec fn lists_no_key(self) -> bool {
        forall|i: int| 0 <= i < self.keys@.len() ==> (#[trigger] self.keys@[i])@.len() == 0
    }

    /// Whether an event has a key at each position that the filter speaks of, and each of them is
    /// one of those listed there; an empty list stands for any key. A filter that lists no key at
    /// all puts no condition on the keys, not even on how many there are.
    pub open spec fn admits_keys(self, keys: Seq<Felt>) -> bool {
        ||| self.lists_no_key()
        ||| {
            &&& self.keys@.len() <= keys.len()
            &&& forall|i: int|
                0 <= i < self.keys@.len() ==> (#[trigger] self.keys@[i])@.len() == 0
                    || self.keys@[i]@.contains(keys[i])
        }
    }

    /// Whether a subscriber wants to be told about an event of a contract with these keys.
    pub open spec fn admits(self, from_address: Felt, keys: Seq<Felt>) -> bool {
        &&& self.address matches Some(address) ==> from_address == address
        &&& self.admits_keys(keys)
    }

    /// The events among `events` that a subscriber is told about, in order.
    pub open spec fn select(self, events: Seq<EmittedEventView>) -> Seq<EmittedEventView> {
        events.filter(|event: EmittedEventView| self.admits(event.from_address, event.keys))
    }
}

/// A filter made ready for use.
#[derive(Debug, PartialEq, Eq)]
pub struct EventFilter {
    params: EventFilterParams,
    key_filter_is_empty: bool,
}

/// Whether a list of keys holds a key.
fn lists_key(keys: &Vec<Felt>, key: Felt) -> (listed: bool)
    ensures
        listed == keys@.contains(key),
{
    for i in 0..keys.len()
        invariant
            forall|j: int| 0 <= j < i ==> keys@[j] != key,
    {
        if keys[i] == key {
            return true;
        }
    }
    false
}

impl EventFilter {
    pub closed spec fn wf(self) -> bool {
        self.key_filter_is_empty == self.params.lists_no_key()
    }

    /// What the filter was made of.
    pub closed spec fn params(self) -> EventFilterParams {
        self.params
    }

    pub fn new(params: EventFilterParams) -> (filter: Self)
        ensures
            filter.wf(),
            filter.params() == params,
    {
        let mut key_filter_is_empty: bool = true;
        for i in 0..params.keys.len()
            invariant
                key_filter_is_empty == (forall|j: int|
                    0 <= j < i ==> (#[trigger] params.keys@[j])@.len() == 0),
        {
            if params.keys[i].len() > 0 {
                key_filter_is_empty = false;
            }
        }
        EventFilter { params, key_filter_is_empty }
    }

    /// Whether the filter lets an event with these keys through.
    fn matches_keys(&self, keys: &Vec<Felt>) -> (matches: bool)
        requires
            self.wf(),
        ensures
            matches == self.params().admits_keys(keys@),
    {
        if self.key_filter_is_empty {
            return true;
        }
        if keys.len() < self.params.keys.len() {
            return false;
        }
        for i in 0..self.params.keys.len()
            invariant
                self.wf(),
                !self.key_filter_is_empty,
                self.params.keys@.len() <= keys@.len(),
                forall|j: int|
                    0 <= j < i ==> (#[trigger] self.params.keys@[j])@.len() == 0
                        || self.params.keys@[j]@.contains(keys@[j]),
        {
            if self.params.keys[i].len() > 0 && !lists_key(&self.params.keys[i], keys[i]) {
                return false;
            }
        }
        true
    }

    /// Whether the filter lets an event through.
    pub fn matches(&self, event: &Event) -> (matches: bool)
        requires
            self.wf(),
        ensures
            matches == self.params().admits(event.from_address, event.keys@),
    {
        if let Some(address) = self.params.address {
            if event.from_address != address {
                return false;
            }
        }
        self.matches_keys(&event.keys)
    }

    /// The events of a block that the filter lets through, in order.
    pub fn select(&self, block: &Block) -> (selected: VecDeque<EmittedEvent>)
        requires
            self.wf(),
        ensures
            selected@.map_values(|event: EmittedEvent| event@) == self.params().select(
                block.events(),
            ),
    {
        let mut selected: VecDeque<EmittedEvent> = VecDeque::new();
        let ghost view = |event: EmittedEvent| event@;
        let ghost admits = |event: EmittedEventView| self.params.admits(event.from_address, event.keys);
        assert(selected@.map_values(view) =~= block.events_before(0).filter(admits));
        for i in 0..block.transaction_receipts.len()
            invariant
                self.wf(),
                view == (|event: EmittedEvent| event@),
                admits == (|event: EmittedEventView| self.params.admits(event.from_address, event.keys)),
                selected@.map_values(view) == block.events_before(i as nat).filter(admits),
        {
            let receipt = block.transaction_receipts[i].0;
            let events = &block.transaction_receipts[i].1;
            let ghost earlier = block.events_before(i as nat);
            let ghost current = block.events_of_transaction(i as int);
            assert(current.take(0) =~= Seq::empty());
            assert(earlier + current.take(0) =~= earlier);
            for j in 0..events.len()
                invariant
                    self.wf(),
                    i < block.transaction_receipts@.len(),
                    *events == block.transaction_receipts@[i as int].1,
                    receipt == block.transaction_receipts@[i as int].0,
                    current == block.events_of_transaction(i as int),
                    view == (|event: EmittedEvent| event@),
                    admits == (|event: EmittedEventView| self.params.admits(event.from_address, event.keys)),
                    selected@.map_values(view) == (earlier + current.take(j as int)).filter(admits),
            {
                let event = &events[j];
                let ghost before = earlier + current.take(j as int);
                let ghost next = event.emitted(*block, receipt.transaction_hash);
                let ghost kept = selected@;
                assert(current[j as int] == next);
                assert(earlier + current.take(j + 1) =~= before.push(next));
                proof {
                    before.lemma_filter_push(next, admits);
                }
                if self.matches(event) {
                    let emitted = EmittedEvent {
                        data: event.data.clone(),
                        keys: event.keys.clone(),
                        from_address: event.from_address,
                        block_hash: Some(block.block_hash),
                        block_number: Some(block.block_number),
                        transaction_hash: receipt.transaction_hash,
                    };
                    assert(emitted.data@ =~= event.data@);
                    assert(emitted.keys@ =~= event.keys@);
                    selected.push_back(emitted);
                    assert(selected@.map_values(view) =~= kept.map_values(view).push(next));
                }
            }
            assert(current.take(events@.len() as int) =~= current);
        }
        selected
    }
}

/// A filter without an address and without a key lets every event through.
pub proof fn law_open_filter_selects_all(filter: EventFilterParams, events: Seq<EmittedEventView>)
    requires
        filter.address is None,
        filter.lists_no_key(),
    ensures
        filter.select(events) == events,
    decreases events.len(),
{
    reveal(Seq::filter);
    if events.len() > 0 {
        law_open_filter_selects_all(filter, events.drop_last());
        assert(events.drop_last().push(events.last()) =~= events);
    }
}

/// A subscriber is told about an event exactly if it is among the events and the filter lets it
/// through.
pub proof fn law_selection_is_exact(
    filter: EventFilterParams,
    events: Seq<EmittedEventView>,
    event: EmittedEventView,
)
    ensures
        filter.select(events).contains(event) <==> events.contains(event) && filter.admits(
            event.from_address,
            event.keys,
        ),
    decreases events.len(),
{
    reveal(Seq::filter);
    if events.len() > 0 {
        let earlier = events.drop_last();
        law_selection_is_exact(filter, earlier, event);
        let selected = filter.select(events);
        assert(events =~= earlier.push(events.last()));
        if selected.contains(event) && !filter.select(earlier).contains(event) {
            let i = choose|i: int| 0 <= i < selected.len() && selected[i] == event;
            assert(i == selected.len() - 1);
            assert(events[events.len() - 1] == event);
        }
        if earlier.contains(event) {
            let i = choose|i: int| 0 <= i < earlier.len() && earlier[i] == event;
            assert(events[i] == event);
        }
        if filter.select(earlier).contains(event) {
            let chosen = filter.select(earlier);
            let i = choose|i: int| 0 <= i < chosen.len() && chosen[i] == event;
            assert(selected[i] == event);
        }
        if events.contains(event) && !earlier.contains(event) {
            let i = choose|i: int| 0 <= i < events.len() && events[i] == event;
            if i < earlier.len() {
                assert(earlier[i] == event);
            }
            assert(event == events.last());
            if filter.admits(event.from_address, event.keys) {
                assert(selected[selected.len() - 1] == event);
            }
        }
    }
}

/// What a subscriber is told about one series of events after another is what it is told about both
/// together.
pub proof fn law_selection_is_piecewise(
    filter: EventFilterParams,
    first: Seq<EmittedEventView>,
    second: Seq<EmittedEventView>,
)
    ensures
        filter.select(first + second) == filter.select(first) + filter.select(second),
{
    Seq::filter_distributes_over_add(
        first,
        second,
        |event: EmittedEventView| filter.admits(event.from_address, event.keys),
    );
}

/// Naming a contract never lets more events through.
pub proof fn law_address_narrows(
    filter: EventFilterParams,
    open: EventFilterParams,
    from_address: Felt,
    keys: Seq<Felt>,
)
    requires
        open.keys == filter.keys,
        open.address is None,
        filter.admits(from_address, keys),
    ensures
        open.admits(from_address, keys),
{
}

/// How many events the first `count` transactions of a block have.
pub open spec fn event_count(block: Block, count: nat) -> nat
    decreases count,
{
    if count == 0 {
        0
    } else {
        event_count(block, (count - 1) as nat) + block.transaction_receipts@[count - 1].1@.len()
    }
}

/// Whether `event` is the event at `j` of the transaction at `i`, as the contract emitted it, with the
/// block and the transaction it stands in.
pub open spec fn stands_at(block: Block, i: int, j: int, event: EmittedEventView) -> bool {
    let (receipt, events) = block.transaction_receipts@[i];
    &&& 0 <= i < block.transaction_receipts@.len()
    &&& 0 <= j < events@.len()
    &&& event.data.len() == events@[j].data@.len()
    &&& forall|k: int| 0 <= k < event.data.len() ==> event.data[k] == #[trigger] events@[j].data@[k]
    &&& event.keys.len() == events@[j].keys@.len()
    &&& forall|k: int| 0 <= k < event.keys.len() ==> event.keys[k] == #[trigger] events@[j].keys@[k]
    &&& event.from_address == events@[j].from_address
    &&& event.block_hash == Some(block.block_hash)
    &&& event.block_number == Some(block.block_number)
    &&& event.transaction_hash == receipt.transaction_hash
}

proof fn lemma_event_at(block: Block, count: nat, i: int, j: int)
    requires
        0 <= i < count <= block.transaction_receipts@.len(),
        0 <= j < block.transaction_receipts@[i].1@.len(),
    ensures
        event_count(block, i as nat) + j < block.events_before(count).len(),
        stands_at(block, i, j, block.events_before(count)[event_count(block, i as nat) + j]),
    decreases count,
{
    let fewer = (count - 1) as nat;
    let k = event_count(block, i as nat) + j;
    lemma_event_count(block, fewer);
    if i < fewer {
        lemma_event_at(block, fewer, i, j);
        assert(block.events_before(count)[k] == block.events_before(fewer)[k]);
    } else {
        assert(block.events_before(count)[k] == block.events_of_transaction(i)[j]);
    }
}

proof fn lemma_event_count(block: Block, count: nat)
    ensures
        block.events_before(count).len() == event_count(block, count),
    decreases count,
{
    if count > 0 {
        lemma_event_count(block, (count - 1) as nat);
    }
}

proof fn lemma_event_of(block: Block, count: nat, k: int)
    requires
        count <= block.transaction_receipts@.len(),
        0 <= k < block.events_before(count).len(),
    ensures
        exists|i: int, j: int| stands_at(block, i, j, block.events_before(count)[k]),
    decreases count,
{
    if count > 0 {
        let fewer = (count - 1) as nat;
        let event = block.events_before(count)[k];
        if k < block.events_before(fewer).len() {
            lemma_event_of(block, fewer, k);
            assert(event == block.events_before(fewer)[k]);
        } else {
            let j = k - block.events_before(fewer).len();
            assert(event == block.events_of_transaction(count - 1)[j]);
            assert(stands_at(block, count - 1, j, event));
        }
    }
}

/// The events of a block are those of its transactions, one for one and in order: the one at `j` of
/// the transaction at `i` comes after those of all earlier transactions and the earlier ones of its
/// own. Each has the data, the keys and the address that the contract emitted.
pub proof fn law_events_are_as_emitted(block: Block, i: int, j: int)
    requires
        0 <= i < block.transaction_receipts@.len(),
        0 <= j < block.transaction_receipts@[i].1@.len(),
    ensures
        block.events().len() == event_count(block, block.transaction_receipts@.len()),
        event_count(block, i as nat) + j < block.events().len(),
        stands_at(block, i, j, block.events()[event_count(block, i as nat) + j]),
{
    lemma_event_count(block, block.transaction_receipts@.len());
    lemma_event_at(block, block.transaction_receipts@.len(), i, j);
}

/// A block has no events but those of its transactions.
pub proof fn law_block_has_no_other_events(block: Block, k: int)
    requires
        0 <= k < block.events().len(),
    ensures
        exists|i: int, j: int| stands_at(block, i, j, block.events()[k]),
{
    lemma_event_of(block, block.transaction_receipts@.len(), k);
}

/// Whatever a subscriber is told about a block is an event of that block, as it was emitted.
pub proof fn law_subscriber_is_told_what_was_emitted(
    filter: EventFilterParams,
    block: Block,
    event: EmittedEventView,
)
    requires
        filter.select(block.events()).contains(event),
    ensures
        exists|i: int, j: int| stands_at(block, i, j, event),
{
    law_selection_is_exact(filter, block.events(), event);
    let k = choose|k: int| 0 <= k < block.events().len() && block.events()[k] == event;
    law_block_has_no_other_events(block, k);
}

/// Whether a filter that has a list for each of some key positions finds its key at `i` in an event.
pub open spec fn finds_key(filter: EventFilterParams, event: EmittedEventView, i: int) -> bool {
    exists|k: int|
        0 <= k < filter.keys@[i]@.len() && #[trigger] filter.keys@[i]@[k] == event.keys[i]
}

/// With an address, only events of that contract are selected, whatever the keys. With a listed key,
/// only events with as many keys as the filter has positions are, and at each position with a list
/// only those with a key of that list, whatever the address.
pub proof fn law_selected_event_fits_the_filter(
    filter: EventFilterParams,
    events: Seq<EmittedEventView>,
    event: EmittedEventView,
)
    requires
        filter.select(events).contains(event),
    ensures
        filter.address is Some ==> event.from_address == filter.address->0,
        forall|p: int|
            0 <= p < filter.keys@.len() && (#[trigger] filter.keys@[p])@.len() > 0 ==> {
                &&& event.keys.len() >= filter.keys@.len()
                &&& finds_key(filter, event, p)
            },
{
    law_selection_is_exact(filter, events, event);
    assert forall|p: int|
        0 <= p < filter.keys@.len() && (#[trigger] filter.keys@[p])@.len() > 0 implies {
        &&& event.keys.len() >= filter.keys@.len()
        &&& finds_key(filter, event, p)
    } by {
        let k = choose|k: int|
            0 <= k < filter.keys@[p]@.len() && filter.keys@[p]@[k] == event.keys[p];
        assert(filter.keys@[p]@[k] == event.keys[p]);
    }
}

/// An event of the right contract is selected if the filter lists no key, and if it has as many keys
/// as the filter has positions, each of them listed where there is a list. Together with
/// [`law_selection_is_piecewise`] this tells what is selected of any series.
pub proof fn law_fitting_event_is_selected(filter: EventFilterParams, event: EmittedEventView)
    ensures
        filter.select(Seq::empty()) == Seq::<EmittedEventView>::empty(),
        (filter.address is None || filter.address == Some(event.from_address)) && ((forall|p: int|
            0 <= p < filter.keys@.len() ==> (#[trigger] filter.keys@[p])@.len() == 0) || (
        event.keys.len() >= filter.keys@.len() && forall|p: int|
            0 <= p < filter.keys@.len() && (#[trigger] filter.keys@[p])@.len() > 0 ==> finds_key(
                filter,
                event,
                p,
            ))) <==> filter.select(seq![event]) == seq![event],
        filter.select(seq![event]) == seq![event] || filter.select(seq![event]) == Seq::<
            EmittedEventView,
        >::empty(),
{
    reveal(Seq::filter);
    let none = Seq::<EmittedEventView>::empty();
    let one = seq![event];
    none.lemma_filter_push(
        event,
        |event: EmittedEventView| filter.admits(event.from_address, event.keys),
    );
    assert(none.push(event) =~= one);
    assert(filter.select(one) == if filter.admits(event.from_address, event.keys) {
        one
    } else {
        none
    });
    if filter.select(one) == one {
        assert(one[0] == event);
        assert(filter.select(one).len() == 1);
        assert(filter.select(one).contains(event));
        law_selected_event_fits_the_filter(filter, one, event);
    } else {
        assert(!filter.admits(event.from_address, event.keys));
        if event.keys.len() >= filter.keys@.len() && forall|p: int|
            0 <= p < filter.keys@.len() && (#[trigger] filter.keys@[p])@.len() > 0 ==> finds_key(
                filter,
                event,
                p,
            ) {
            assert forall|p: int| 0 <= p < filter.keys@.len() implies (
            #[trigger] filter.keys@[p])@.len() == 0 || filter.keys@[p]@.contains(event.keys[p]) by {
                if filter.keys@[p]@.len() > 0 {
                    assert(finds_key(filter, event, p));
                }
            }
        }
    }
}

} // verus!
