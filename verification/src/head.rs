//! The head of the chain, as far as peers have announced it.

use vstd::prelude::*;

use crate::felt::Felt;

verus! {

/// The largest number that a block can have.
pub const MAX_BLOCK_NUMBER: u64 = 0x7fff_ffff_ffff_ffff;

/// The header of a block, as far as it says which block it is.
#[derive(Clone, Copy, Debug, PartialEq, Eq, Structural)]
pub struct Header {
    pub number: u64,
    pub block_hash: Felt,
}

/// Part of an announcement of a block.
#[derive(Clone, Copy, Debug, PartialEq, Eq, Structural)]
pub enum HeaderPart {
    Header(Header),
    Other,
}

/// A block that a peer announces.
#[derive(Debug, PartialEq, Eq)]
pub enum NewBlock {
    Header(Vec<HeaderPart>),
    Other,
}

/// Something that happens on the peer-to-peer network.
#[derive(Debug, PartialEq, Eq)]
pub enum P2PEvent {
    BlockPropagation(NewBlock),
    SyncPeerConnected,
    Test,
}

impl P2PEvent {
    /// The header that the event announces: that of the last part, if this is a header.
    pub open spec fn announced(self) -> Option<Header> {
        match self {
            P2PEvent::BlockPropagation(NewBlock::Header(parts)) => if parts@.len() > 0 {
                match parts@.last() {
                    HeaderPart::Header(header) => Some(header),
                    HeaderPart::Other => None,
                }
            } else {
                None
            },
            _ => None,
        }
    }
}

/// The number of the head; before any is known, that of the genesis block.
pub open spec fn height(head: Option<Header>) -> u64 {
    match head {
        Some(header) => header.number,
        None => 0,
    }
}

/// Whether the number of the head is one that a block can have.
pub open spec fn valid_head(head: Option<Header>) -> bool {
    height(head) <= MAX_BLOCK_NUMBER
}

/// The head after a header was announced: the higher of the two, the old one if neither is.
pub open spec fn next_head(head: Option<Header>, announced: Option<Header>) -> Option<Header> {
    match announced {
        Some(header) => if header.number > height(head) {
            announced
        } else {
            head
        },
        None => head,
    }
}

/// The head after a series of headers was announced.
pub open spec fn head_after(head: Option<Header>, announced: Seq<Header>) -> Option<Header>
    decreases announced.len(),
{
    if announced.len() == 0 {
        head
    } else {
        next_head(head_after(head, announced.drop_last()), Some(announced.last()))
    }
}

/// Updates the head with what an event announces, and says whether it changed.
pub fn handle_p2p_event(event: P2PEvent, head: &mut Option<Header>) -> (modified: bool)
    requires
        valid_head(*old(head)),
        valid_head(event.announced()),
    ensures
        valid_head(*final(head)),
        *final(head) == next_head(*old(head), event.announced()),
        modified == (*final(head) != *old(head)),
{
    match event {
        P2PEvent::BlockPropagation(NewBlock::Header(parts)) => {
            let mut parts = parts;
            if let Some(HeaderPart::Header(header)) = parts.pop() {
                let current_height: u64 = match *head {
                    Some(current) => current.number,
                    None => 0,
                };
                if header.number > current_height {
                    *head = Some(header);
                    return true;
                }
            }
            false
        },
        _ => false,
    }
}

/// The head never falls behind.
pub proof fn law_head_never_falls(head: Option<Header>, announced: Seq<Header>)
    ensures
        height(head_after(head, announced)) >= height(head),
        head is Some ==> head_after(head, announced) is Some,
    decreases announced.len(),
{
    if announced.len() > 0 {
        law_head_never_falls(head, announced.drop_last());
    }
}

/// The head is as high as the highest header announced since, and one of those, unless it is still
/// the one before.
pub proof fn law_head_is_highest(head: Option<Header>, announced: Seq<Header>)
    ensures
        forall|i: int|
            0 <= i < announced.len() ==> (#[trigger] announced[i]).number <= height(
                head_after(head, announced),
            ),
        head_after(head, announced) == head || (head_after(head, announced) matches Some(header)
            && announced.contains(header)),
    decreases announced.len(),
{
    if announced.len() > 0 {
        let earlier = announced.drop_last();
        law_head_is_highest(head, earlier);
        assert forall|i: int| 0 <= i < announced.len() implies (#[trigger] announced[i]).number
            <= height(head_after(head, announced)) by {
            if i < earlier.len() {
                assert(earlier[i] == announced[i]);
            }
        }
        assert(announced[announced.len() - 1] == announced.last());
        if head_after(head, earlier) != head {
            let header = head_after(head, earlier)->0;
            let i = choose|i: int| 0 <= i < earlier.len() && earlier[i] == header;
            assert(announced[i] == header);
        }
    }
}

/// What is announced a second time changes nothing.
pub proof fn law_announcing_twice_changes_nothing(head: Option<Header>, header: Header)
    ensures
        next_head(next_head(head, Some(header)), Some(header)) == next_head(head, Some(header)),
{
}

/// A header becomes the head exactly if its number is above that of the head, or above zero where no
/// head is known; otherwise the head stays.
pub proof fn law_only_a_higher_header_becomes_head(head: Option<Header>, header: Header)
    ensures
        next_head(head, None) == head,
        next_head(None, Some(header)) == if header.number == 0 {
            None
        } else {
            Some(header)
        },
        head matches Some(current) ==> if header.number <= current.number {
            next_head(head, Some(header)) == head
        } else {
            next_head(head, Some(header)) == Some(header)
        },
{
}

/// An announcement counts by its last part alone, whatever comes before it, and no other event
/// announces anything.
pub proof fn law_last_part_is_announced(event: P2PEvent, header: Header)
    ensures
        event.announced() == Some(header) <==> (event matches P2PEvent::BlockPropagation(
            NewBlock::Header(parts),
        ) && parts@.len() > 0 && parts@[parts@.len() - 1] == HeaderPart::Header(header)),
{
}

/// Every number that fits into a signed word can be that of a block, and no other.
pub proof fn law_block_numbers_fit_a_signed_word(header: Header)
    ensures
        valid_head(None),
        valid_head(Some(header)) <==> header.number <= i64::MAX,
{
}

} // verus!
