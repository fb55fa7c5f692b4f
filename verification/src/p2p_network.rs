//! Joining the peer-to-peer network: which commands the network client is given, in which order.

use std::collections::VecDeque;

use libp2p::identity::Keypair;
use libp2p::multiaddr::Protocol;
use libp2p::Multiaddr;
use vstd::pervasive::unreached;
use vstd::prelude::*;
use vstd::string::StringExecFns;

verus! {

/// A network address as `libp2p` holds it: a list of protocol components, kept as bytes.
#[verifier::external_type_specification]
#[verifier::external_body]
pub struct ExMultiaddr(libp2p::Multiaddr);

/// The key pair of a node as `libp2p` holds it. It is only passed on.
#[verifier::external_type_specification]
#[verifier::external_body]
pub struct ExKeypair(libp2p::identity::Keypair);

/// The bytes of an address.
pub uninterp spec fn address_bytes(address: Multiaddr) -> Seq<u8>;

/// For each component of the address with these bytes, in order, the peer id it holds, as bytes, if
/// it is a `p2p` component.
pub uninterp spec fn component_peers(address: Seq<u8>) -> Seq<Option<Seq<u8>>>;

/// The bytes of a `p2p-circuit` component: its code, 290, as a variable-length integer.
pub open spec fn circuit_component() -> Seq<u8> {
    seq![0xa2u8, 0x02u8]
}

pub open spec fn peer_view(peer: Option<Vec<u8>>) -> Option<Seq<u8>> {
    match peer {
        Some(bytes) => Some(bytes@),
        None => None,
    }
}

/// `libp2p::Multiaddr::iter` hands out the components of an address, in order. Of each, only the
/// peer id that it may hold is kept. Which components an address has is named, not spelled out.
#[verifier::external_body]
fn peers_of(address: &Multiaddr) -> (peers: Vec<Option<Vec<u8>>>)
    ensures
        peers@.map_values(|peer: Option<Vec<u8>>| peer_view(peer)) == component_peers(
            address_bytes(*address),
        ),
{
    address
        .iter()
        .map(|component| match component {
            Protocol::P2p(peer_id) => Some(peer_id.to_bytes()),
            _ => None,
        })
        .collect()
}

/// `libp2p::Multiaddr::with` appends a component to an address; here it is `p2p-circuit`, which
/// carries no data.
#[verifier::external_body]
fn with_circuit(address: &Multiaddr) -> (relay: Multiaddr)
    ensures
        address_bytes(relay) == address_bytes(*address) + circuit_component(),
{
    address.clone().with(Protocol::P2pCircuit)
}

/// What the node brings to the network. `S` is its storage.
pub struct P2PContext<S> {
    /// The chain id in hexadecimal, with its prefix.
    pub chain_id: String,
    pub storage: S,
    /// Whether the node is fed by a proxy, and so needs no news of blocks from the network.
    pub proxy: bool,
    pub keypair: Keypair,
    pub listen_on: Multiaddr,
    pub bootstrap_addresses: Vec<Multiaddr>,
}

/// Something that the network client does.
pub enum P2PCommand {
    StartListening(Multiaddr),
    /// Connects to a peer, given by the bytes of its id.
    Dial { peer_id: Vec<u8>, address: Multiaddr },
    /// Listens at an address that a relay forwards.
    StartRelayListening(Multiaddr),
    SubscribeTopic(String),
    ProvideCapability(String),
}

/// What a [`P2PCommand`] says.
pub enum P2PCommandView {
    StartListening(Seq<u8>),
    Dial { peer_id: Seq<u8>, address: Seq<u8> },
    StartRelayListening(Seq<u8>),
    SubscribeTopic(Seq<char>),
    ProvideCapability(Seq<char>),
}

impl View for P2PCommand {
    type V = P2PCommandView;

    open spec fn view(&self) -> P2PCommandView {
        match *self {
            P2PCommand::StartListening(address) => P2PCommandView::StartListening(
                address_bytes(address),
            ),
            P2PCommand::Dial { peer_id, address } => P2PCommandView::Dial {
                peer_id: peer_id@,
                address: address_bytes(address),
            },
            P2PCommand::StartRelayListening(address) => P2PCommandView::StartRelayListening(
                address_bytes(address),
            ),
            P2PCommand::SubscribeTopic(topic) => P2PCommandView::SubscribeTopic(topic@),
            P2PCommand::ProvideCapability(name) => P2PCommandView::ProvideCapability(name@),
        }
    }
}

impl P2PCommandView {
    /// What is added to the error of the client when the command fails.
    pub open spec fn failure_context(self) -> Option<Seq<char>> {
        match self {
            P2PCommandView::StartListening(_) => Some("Starting P2P listener"@),
            P2PCommandView::StartRelayListening(_) => Some("Starting relay listener"@),
            _ => None,
        }
    }
}

impl P2PCommand {
    /// What is added to the error of the client when the command fails.
    pub fn failure_context(&self) -> (context: Option<String>)
        ensures
            match context {
                Some(text) => self@.failure_context() == Some(text@),
                None => self@.failure_context() is None,
            },
    {
        match self {
            P2PCommand::StartListening(_) => Some("Starting P2P listener".to_owned()),
            P2PCommand::StartRelayListening(_) => Some("Starting relay listener".to_owned()),
            _ => None,
        }
    }
}

/// Why the node cannot join the network.
#[derive(Clone, Copy, Debug, PartialEq, Eq, Structural)]
pub enum StartError {
    /// A bootstrap address names no peer.
    MissingPeerId,
}

impl StartError {
    pub fn message(&self) -> (text: String)
        ensures
            text@ == "Boostrap addresses must inlcude peer ID"@,
    {
        "Boostrap addresses must inlcude peer ID".to_owned()
    }
}

/// How the node joins the network.
pub struct StartPlan<S> {
    pub storage: S,
    pub keypair: Keypair,
    /// What the client does, in order, as long as it succeeds.
    pub commands: Vec<P2PCommand>,
    /// What follows when all commands have succeeded: the topic on which blocks are announced, or
    /// the reason why the node gives up.
    pub outcome: Result<String, StartError>,
}

/// A bootstrap address, with what is read from it and made of it.
pub struct BootstrapPeer {
    /// The id of the peer that the address names, as bytes.
    pub peer_id: Option<Vec<u8>>,
    pub address: Multiaddr,
    /// The address at which the peer relays for the node.
    pub relay: Multiaddr,
}

/// What a [`BootstrapPeer`] says.
pub struct BootstrapPeerView {
    pub peer_id: Option<Seq<u8>>,
    pub address: Seq<u8>,
    pub relay: Seq<u8>,
}

impl View for BootstrapPeer {
    type V = BootstrapPeerView;

    open spec fn view(&self) -> BootstrapPeerView {
        BootstrapPeerView {
            peer_id: peer_view(self.peer_id),
            address: address_bytes(self.address),
            relay: address_bytes(self.relay),
        }
    }
}

pub open spec fn bootstrap_views(peers: Seq<BootstrapPeer>) -> Seq<BootstrapPeerView> {
    peers.map_values(|peer: BootstrapPeer| peer@)
}

/// The first peer id among those of the components of an address.
pub open spec fn first_peer(peers: Seq<Option<Seq<u8>>>) -> Option<Seq<u8>>
    decreases peers.len(),
{
    if peers.len() == 0 {
        None
    } else if peers[0] is Some {
        peers[0]
    } else {
        first_peer(peers.drop_first())
    }
}

/// What is read from a bootstrap address and made of it.
pub open spec fn bootstrap_peer(address: Multiaddr) -> BootstrapPeerView {
    let bytes = address_bytes(address);
    BootstrapPeerView {
        peer_id: first_peer(component_peers(bytes)),
        address: bytes,
        relay: bytes + circuit_component(),
    }
}

/// How many of the peers come before the first without an id.
pub open spec fn dialable(peers: Seq<BootstrapPeerView>) -> nat
    decreases peers.len(),
{
    if peers.len() == 0 || peers[0].peer_id is None {
        0
    } else {
        1 + dialable(peers.drop_first())
    }
}

/// Whether every peer has an id.
pub open spec fn all_dialable(peers: Seq<BootstrapPeerView>) -> bool {
    forall|i: int| 0 <= i < peers.len() ==> (#[trigger] peers[i]).peer_id is Some
}

/// What is done with the first `count` bootstrap peers: each is dialled, and relays for the node.
pub open spec fn bootstrap_commands(peers: Seq<BootstrapPeerView>, count: nat) -> Seq<
    P2PCommandView,
>
    decreases count,
{
    if count == 0 {
        Seq::empty()
    } else {
        let peer = peers[count - 1];
        bootstrap_commands(peers, (count - 1) as nat) + seq![
            P2PCommandView::Dial { peer_id: peer.peer_id->0, address: peer.address },
            P2PCommandView::StartRelayListening(peer.relay),
        ]
    }
}

/// The topic on which the blocks of a chain are announced.
pub open spec fn block_topic(chain_id: Seq<char>) -> Seq<char> {
    "blocks/"@ + chain_id
}

/// What is done once all bootstrap peers are dialled.
pub open spec fn final_commands(proxy: bool, chain_id: Seq<char>) -> Seq<P2PCommandView> {
    let provided = seq![
        P2PCommandView::ProvideCapability("core/block-propagate/1"@),
        P2PCommandView::ProvideCapability("core/blocks-sync/1"@),
    ];
    if proxy {
        provided
    } else {
        seq![P2PCommandView::SubscribeTopic(block_topic(chain_id))] + provided
    }
}

/// What the client does, in order, as long as it succeeds.
pub open spec fn start_commands(
    listen_on: Seq<u8>,
    peers: Seq<BootstrapPeerView>,
    proxy: bool,
    chain_id: Seq<char>,
) -> Seq<P2PCommandView> {
    let first = seq![P2PCommandView::StartListening(listen_on)] + bootstrap_commands(
        peers,
        dialable(peers),
    );
    if all_dialable(peers) {
        first + final_commands(proxy, chain_id)
    } else {
        first
    }
}

/// Whether `outcome` is what follows when all commands have succeeded.
pub open spec fn start_outcome(
    outcome: Result<String, StartError>,
    peers: Seq<BootstrapPeerView>,
    chain_id: Seq<char>,
) -> bool {
    match outcome {
        Ok(topic) => all_dialable(peers) && topic@ == block_topic(chain_id),
        Err(error) => !all_dialable(peers) && error == StartError::MissingPeerId,
    }
}

/// The peers before the first without an id are those counted.
proof fn lemma_dialable(peers: Seq<BootstrapPeerView>, count: nat)
    requires
        count <= peers.len(),
        forall|i: int| 0 <= i < count ==> (#[trigger] peers[i]).peer_id is Some,
        count < peers.len() ==> peers[count as int].peer_id is None,
    ensures
        dialable(peers) == count,
    decreases peers.len(),
{
    if count > 0 {
        assert(peers[0].peer_id is Some);
        let rest = peers.drop_first();
        assert forall|i: int| 0 <= i < count - 1 implies (#[trigger] rest[i]).peer_id is Some by {
            assert(rest[i] == peers[i + 1]);
        }
        lemma_dialable(rest, (count - 1) as nat);
    }
}

/// Picks the first peer id among those of the components of an address.
pub fn pick_peer(peers: Vec<Option<Vec<u8>>>) -> (picked: Option<Vec<u8>>)
    ensures
        peer_view(picked) == first_peer(
            peers@.map_values(|peer: Option<Vec<u8>>| peer_view(peer)),
        ),
{
    let ghost named = peers@.map_values(|peer: Option<Vec<u8>>| peer_view(peer));
    let ghost mut rest = named;
    for peer in components: peers
        invariant
            named == peers@.map_values(|peer: Option<Vec<u8>>| peer_view(peer)),
            components.seq() == peers@,
            rest == named.skip(components.index() as int),
            first_peer(rest) == first_peer(named),
    {
        proof {
            assert(named[components.index() as int] == peer_view(peer));
            assert(rest[0] == peer_view(peer));
        }
        if peer.is_some() {
            return peer;
        }
        proof {
            rest = rest.drop_first();
        }
    }
    None
}

/// Reads the peer from a bootstrap address, and makes the address at which it relays.
pub fn resolve(address: Multiaddr) -> (peer: BootstrapPeer)
    ensures
        peer@ == bootstrap_peer(address),
{
    let peer_id = pick_peer(peers_of(&address));
    let relay = with_circuit(&address);
    BootstrapPeer { peer_id, address, relay }
}

/// Decides what the client does: it listens, dials each bootstrap peer and lets it relay, and, where
/// all of them can be dialled, takes part in the announcement of blocks.
pub fn plan(
    listen_on: Multiaddr,
    bootstrap: Vec<BootstrapPeer>,
    proxy: bool,
    chain_id: String,
) -> (plan: (Vec<P2PCommand>, Result<String, StartError>))
    ensures
        plan.0@.map_values(|command: P2PCommand| command@) == start_commands(
            address_bytes(listen_on),
            bootstrap_views(bootstrap@),
            proxy,
            chain_id@,
        ),
        start_outcome(plan.1, bootstrap_views(bootstrap@), chain_id@),
{
    let ghost view = |command: P2PCommand| command@;
    let ghost peers = bootstrap_views(bootstrap@);
    let ghost first = seq![P2PCommandView::StartListening(address_bytes(listen_on))];
    let ghost mut count: nat = 0;
    let mut commands: Vec<P2PCommand> = Vec::new();
    commands.push(P2PCommand::StartListening(listen_on));
    assert(commands@.map_values(view) =~= first + bootstrap_commands(peers, 0));
    for peer in entries: bootstrap
        invariant
            peers == bootstrap_views(bootstrap@),
            entries.seq() == bootstrap@,
            count == entries.index(),
            first == seq![P2PCommandView::StartListening(address_bytes(listen_on))],
            view == (|command: P2PCommand| command@),
            forall|i: int| 0 <= i < count ==> (#[trigger] peers[i]).peer_id is Some,
            commands@.map_values(view) == first + bootstrap_commands(peers, count),
    {
        assert(peers[entries.index() as int] == peer@);
        match peer.peer_id {
            Some(peer_id) => {
                let ghost earlier = commands@;
                commands.push(P2PCommand::Dial { peer_id, address: peer.address });
                commands.push(P2PCommand::StartRelayListening(peer.relay));
                proof {
                    count = count + 1;
                    let added = seq![
                        P2PCommandView::Dial { peer_id: peer_id@, address: peer@.address },
                        P2PCommandView::StartRelayListening(peer@.relay),
                    ];
                    assert(commands@.map_values(view) =~= earlier.map_values(view) + added);
                    assert(commands@.map_values(view) =~= first + bootstrap_commands(peers, count));
                }
            },
            None => {
                proof {
                    lemma_dialable(peers, count);
                }
                return (commands, Err(StartError::MissingPeerId));
            },
        }
    }
    proof {
        lemma_dialable(peers, count);
    }
    let ghost dialled = commands@.map_values(view);
    let topic = "blocks/".to_owned().concat(chain_id.as_str());
    if !proxy {
        commands.push(P2PCommand::SubscribeTopic(topic.clone()));
    }
    commands.push(P2PCommand::ProvideCapability("core/block-propagate/1".to_owned()));
    commands.push(P2PCommand::ProvideCapability("core/blocks-sync/1".to_owned()));
    assert(commands@.map_values(view) =~= dialled + final_commands(proxy, chain_id@));
    (commands, Ok(topic))
}

impl<S> P2PContext<S> {
    /// What is read from the bootstrap addresses and made of them.
    pub open spec fn bootstrap_peers(self) -> Seq<BootstrapPeerView> {
        self.bootstrap_addresses@.map_values(|address: Multiaddr| bootstrap_peer(address))
    }
}

/// Decides how the node joins the network.
pub fn start<S>(context: P2PContext<S>) -> (started: StartPlan<S>)
    ensures
        started.storage == context.storage,
        started.keypair == context.keypair,
        started.commands@.map_values(|command: P2PCommand| command@) == start_commands(
            address_bytes(context.listen_on),
            context.bootstrap_peers(),
            context.proxy,
            context.chain_id@,
        ),
        start_outcome(started.outcome, context.bootstrap_peers(), context.chain_id@),
{
    let ghost peers = context.bootstrap_peers();
    let mut bootstrap: Vec<BootstrapPeer> = Vec::new();
    for address in entries: context.bootstrap_addresses
        invariant
            peers == context.bootstrap_peers(),
            entries.seq() == context.bootstrap_addresses@,
            bootstrap_views(bootstrap@) == peers.take(entries.index() as int),
    {
        let ghost earlier = bootstrap@;
        bootstrap.push(resolve(address));
        assert(bootstrap_views(bootstrap@) =~= bootstrap_views(earlier).push(
            bootstrap_peer(address),
        ));
        assert(bootstrap_views(bootstrap@) =~= peers.take(entries.index() + 1));
    }
    assert(bootstrap_views(bootstrap@) =~= peers);
    let (commands, outcome) = plan(
        context.listen_on,
        bootstrap,
        context.proxy,
        context.chain_id,
    );
    StartPlan { storage: context.storage, keypair: context.keypair, commands, outcome }
}

proof fn lemma_bootstrap_commands(peers: Seq<BootstrapPeerView>, count: nat)
    ensures
        bootstrap_commands(peers, count).len() == 2 * count,
        forall|i: int|
            #![trigger peers[i]]
            0 <= i < count ==> bootstrap_commands(peers, count)[2 * i] == (P2PCommandView::Dial {
                peer_id: peers[i].peer_id->0,
                address: peers[i].address,
            }) && bootstrap_commands(peers, count)[2 * i + 1]
                == P2PCommandView::StartRelayListening(peers[i].relay),
    decreases count,
{
    if count > 0 {
        lemma_bootstrap_commands(peers, (count - 1) as nat);
    }
}

proof fn lemma_dialable_at_least(peers: Seq<BootstrapPeerView>, count: nat)
    requires
        count <= peers.len(),
        forall|i: int| 0 <= i < count ==> (#[trigger] peers[i]).peer_id is Some,
    ensures
        count <= dialable(peers) <= peers.len(),
    decreases peers.len(),
{
    if peers.len() > 0 && peers[0].peer_id is Some {
        let rest = peers.drop_first();
        let fewer = if count > 0 {
            (count - 1) as nat
        } else {
            0
        };
        assert forall|i: int| 0 <= i < fewer implies (#[trigger] rest[i]).peer_id is Some by {
            assert(rest[i] == peers[i + 1]);
        }
        lemma_dialable_at_least(rest, fewer);
    } else if count > 0 {
        assert(peers[0].peer_id is Some);
    }
}

/// The bootstrap peers are dialled in the order of their addresses, up to the first address that
/// names none; each of them relays for the node right after it was dialled.
pub proof fn law_peers_are_dialled_in_order(
    listen_on: Seq<u8>,
    peers: Seq<BootstrapPeerView>,
    proxy: bool,
    chain_id: Seq<char>,
    i: int,
)
    requires
        0 <= i < peers.len(),
        forall|j: int| 0 <= j <= i ==> (#[trigger] peers[j]).peer_id is Some,
    ensures
        ({
            let commands = start_commands(listen_on, peers, proxy, chain_id);
            &&& commands.len() > 2 * i + 2
            &&& commands[0] == P2PCommandView::StartListening(listen_on)
            &&& commands[2 * i + 1] == (P2PCommandView::Dial {
                peer_id: peers[i].peer_id->0,
                address: peers[i].address,
            })
            &&& commands[2 * i + 2] == P2PCommandView::StartRelayListening(peers[i].relay)
        }),
{
    lemma_dialable_at_least(peers, (i + 1) as nat);
    lemma_bootstrap_commands(peers, dialable(peers));
    assert(peers[i].peer_id is Some);
}

/// A node subscribes to the topic of its chain unless it is fed by a proxy, and to no other; and it
/// does so only if all bootstrap addresses name a peer.
pub proof fn law_proxied_node_does_not_subscribe(
    listen_on: Seq<u8>,
    peers: Seq<BootstrapPeerView>,
    proxy: bool,
    chain_id: Seq<char>,
    topic: Seq<char>,
)
    ensures
        start_commands(listen_on, peers, proxy, chain_id).contains(
            P2PCommandView::SubscribeTopic(topic),
        ) <==> !proxy && all_dialable(peers) && topic == block_topic(chain_id),
{
    let count = dialable(peers);
    let command = P2PCommandView::SubscribeTopic(topic);
    let commands = start_commands(listen_on, peers, proxy, chain_id);
    lemma_bootstrap_commands(peers, count);
    lemma_dialable_at_least(peers, 0);
    assert forall|i: int| 0 <= i < 1 + 2 * count implies commands[i] != command by {
        if i > 0 {
            let peer = peers[(i - 1) / 2];
            assert(bootstrap_commands(peers, count)[i - 1] == commands[i]);
            assert(i - 1 == 2 * ((i - 1) / 2) || i - 1 == 2 * ((i - 1) / 2) + 1);
        }
    }
    if !proxy && all_dialable(peers) {
        assert(commands[1 + 2 * (count as int)] == P2PCommandView::SubscribeTopic(block_topic(chain_id)));
    }
    if commands.contains(command) {
        let i = choose|i: int| 0 <= i < commands.len() && commands[i] == command;
        assert(i >= 1 + 2 * count);
    }
}

/// Why the node did not join the network. `E` is the error of the network client.
#[derive(Debug, PartialEq, Eq)]
pub enum JoinError<E> {
    /// A command failed; the text, if there is one, is added to the error.
    Client { error: E, context: Option<String> },
    /// The node gives up, though no command failed.
    Start(StartError),
}

/// What a joining node does next.
pub enum JoinAction<E> {
    /// Lets the network client do something.
    Perform(P2PCommand),
    /// The node has joined; blocks are announced on this topic.
    Joined(String),
    Fail(JoinError<E>),
}

/// What a [`JoinError`] says.
pub enum JoinErrorView<E> {
    Client { error: E, context: Option<Seq<char>> },
    Start(StartError),
}

/// What a [`JoinAction`] says.
pub enum JoinActionView<E> {
    Perform(P2PCommandView),
    Joined(Seq<char>),
    Fail(JoinErrorView<E>),
}

pub open spec fn text_view(text: Option<String>) -> Option<Seq<char>> {
    match text {
        Some(text) => Some(text@),
        None => None,
    }
}

pub open spec fn outcome_view(outcome: Result<String, StartError>) -> Result<
    Seq<char>,
    StartError,
> {
    match outcome {
        Ok(topic) => Ok(topic@),
        Err(error) => Err(error),
    }
}

impl<E> View for JoinAction<E> {
    type V = JoinActionView<E>;

    open spec fn view(&self) -> JoinActionView<E> {
        match *self {
            JoinAction::Perform(command) => JoinActionView::Perform(command@),
            JoinAction::Joined(topic) => JoinActionView::Joined(topic@),
            JoinAction::Fail(JoinError::Client { error, context }) => JoinActionView::Fail(
                JoinErrorView::Client { error, context: text_view(context) },
            ),
            JoinAction::Fail(JoinError::Start(error)) => JoinActionView::Fail(
                JoinErrorView::Start(error),
            ),
        }
    }
}

/// What a [`Joining`] node waits for.
pub enum JoiningView {
    /// The reply of the client to a command.
    Waiting {
        /// What is added to the error if the command fails.
        context: Option<Seq<char>>,
        /// What the client does after that, in order.
        remaining: Seq<P2PCommandView>,
        /// What follows when all commands have succeeded.
        outcome: Result<Seq<char>, StartError>,
    },
    /// Nothing: all is decided.
    Decided,
}

impl JoiningView {
    /// What a node waits for, and does, with these commands left.
    pub open spec fn advance<E>(
        remaining: Seq<P2PCommandView>,
        outcome: Result<Seq<char>, StartError>,
    ) -> (Self, JoinActionView<E>) {
        if remaining.len() > 0 {
            (
                JoiningView::Waiting {
                    context: remaining[0].failure_context(),
                    remaining: remaining.drop_first(),
                    outcome,
                },
                JoinActionView::Perform(remaining[0]),
            )
        } else {
            (
                JoiningView::Decided,
                match outcome {
                    Ok(topic) => JoinActionView::Joined(topic),
                    Err(error) => JoinActionView::Fail(JoinErrorView::Start(error)),
                },
            )
        }
    }

    /// What the node waits for, and does, after a reply of the client.
    pub open spec fn next<E>(self, reply: Result<(), E>) -> (Self, JoinActionView<E>) {
        match (self, reply) {
            (JoiningView::Waiting { remaining, outcome, .. }, Ok(())) => Self::advance(
                remaining,
                outcome,
            ),
            (JoiningView::Waiting { context, .. }, Err(error)) => (
                JoiningView::Decided,
                JoinActionView::Fail(JoinErrorView::Client { error, context }),
            ),
            _ => arbitrary(),
        }
    }
}

/// A node that joins the network, one command after another.
pub enum Joining {
    /// It waits for the reply of the client to a command.
    Waiting {
        context: Option<String>,
        remaining: VecDeque<P2PCommand>,
        outcome: Result<String, StartError>,
    },
    /// It waits for nothing: all is decided.
    Decided,
}

impl View for Joining {
    type V = JoiningView;

    open spec fn view(&self) -> JoiningView {
        match *self {
            Joining::Waiting { context, remaining, outcome } => JoiningView::Waiting {
                context: text_view(context),
                remaining: remaining@.map_values(|command: P2PCommand| command@),
                outcome: outcome_view(outcome),
            },
            Joining::Decided => JoiningView::Decided,
        }
    }
}

impl Joining {
    fn advance<E>(remaining: VecDeque<P2PCommand>, outcome: Result<String, StartError>) -> (joining:
        (Joining, JoinAction<E>))
        ensures
            (joining.0@, joining.1@) == JoiningView::advance::<E>(
                remaining@.map_values(|command: P2PCommand| command@),
                outcome_view(outcome),
            ),
    {
        let ghost view = |command: P2PCommand| command@;
        let ghost commands = remaining@.map_values(view);
        let mut remaining = remaining;
        match remaining.pop_front() {
            Some(command) => {
                assert(remaining@.map_values(view) =~= commands.drop_first());
                let context = command.failure_context();
                (Joining::Waiting { context, remaining, outcome }, JoinAction::Perform(command))
            },
            None => match outcome {
                Ok(topic) => (Joining::Decided, JoinAction::Joined(topic)),
                Err(error) => (Joining::Decided, JoinAction::Fail(JoinError::Start(error))),
            },
        }
    }

    /// Starts to carry out what [`start`] has decided.
    pub fn new<E>(commands: Vec<P2PCommand>, outcome: Result<String, StartError>) -> (joining: (
        Joining,
        JoinAction<E>,
    ))
        ensures
            (joining.0@, joining.1@) == JoiningView::advance::<E>(
                commands@.map_values(|command: P2PCommand| command@),
                outcome_view(outcome),
            ),
    {
        let ghost listed = commands@;
        let mut remaining: VecDeque<P2PCommand> = VecDeque::new();
        for command in entries: commands
            invariant
                entries.seq() == listed,
                remaining@ == listed.take(entries.index() as int),
        {
            remaining.push_back(command);
            assert(remaining@ =~= listed.take(entries.index() + 1));
        }
        assert(remaining@ =~= listed);
        Joining::advance(remaining, outcome)
    }

    /// A step of the joining node: the next command if the last one succeeded, and the failure with
    /// its context if it did not.
    pub fn step<E>(self, reply: Result<(), E>) -> (stepped: (Joining, JoinAction<E>))
        requires
            self@ is Waiting,
        ensures
            (stepped.0@, stepped.1@) == self@.next(reply),
    {
        match (self, reply) {
            (Joining::Waiting { remaining, outcome, .. }, Ok(())) => Joining::advance(
                remaining,
                outcome,
            ),
            (Joining::Waiting { context, .. }, Err(error)) => (
                Joining::Decided,
                JoinAction::Fail(JoinError::Client { error, context }),
            ),
            _ => unreached(),
        }
    }
}

/// What a joining node waits for, and does, after a series of replies of the client.
pub open spec fn joining_after<E>(
    commands: Seq<P2PCommandView>,
    outcome: Result<Seq<char>, StartError>,
    replies: Seq<Result<(), E>>,
) -> (JoiningView, JoinActionView<E>)
    decreases replies.len(),
{
    if replies.len() == 0 {
        JoiningView::advance(commands, outcome)
    } else {
        joining_after(commands, outcome, replies.drop_last()).0.next(replies.last())
    }
}

/// Whether the node waits for each reply of a series when it comes.
pub open spec fn awaited<E>(
    commands: Seq<P2PCommandView>,
    outcome: Result<Seq<char>, StartError>,
    replies: Seq<Result<(), E>>,
) -> bool
    decreases replies.len(),
{
    replies.len() > 0 ==> {
        &&& awaited(commands, outcome, replies.drop_last())
        &&& joining_after(commands, outcome, replies.drop_last()).0 is Waiting
    }
}

/// The client is given the commands one by one, in order, as long as it succeeds. The first failure
/// ends it, with the context of the command that failed, and no command follows. When all have
/// succeeded, the outcome that was decided stands.
pub proof fn law_first_failure_ends_the_start<E>(
    commands: Seq<P2PCommandView>,
    outcome: Result<Seq<char>, StartError>,
    replies: Seq<Result<(), E>>,
)
    requires
        awaited(commands, outcome, replies),
    ensures
        replies.len() <= commands.len(),
        forall|i: int| 0 <= i < replies.len() - 1 ==> (#[trigger] replies[i]) is Ok,
        ({
            let (joining, action) = joining_after(commands, outcome, replies);
            if replies.len() > 0 && replies.last() is Err {
                &&& joining is Decided
                &&& action == JoinActionView::Fail(
                    JoinErrorView::Client {
                        error: replies.last()->Err_0,
                        context: commands[replies.len() - 1].failure_context(),
                    },
                )
            } else if replies.len() < commands.len() {
                &&& joining == (JoiningView::Waiting {
                    context: commands[replies.len() as int].failure_context(),
                    remaining: commands.skip(replies.len() as int + 1),
                    outcome,
                })
                &&& action == JoinActionView::<E>::Perform(commands[replies.len() as int])
            } else {
                &&& joining is Decided
                &&& action == match outcome {
                    Ok(topic) => JoinActionView::<E>::Joined(topic),
                    Err(error) => JoinActionView::Fail(JoinErrorView::Start(error)),
                }
            }
        }),
    decreases replies.len(),
{
    if replies.len() == 0 {
        if commands.len() > 0 {
            assert(commands.drop_first() =~= commands.skip(1));
        }
    } else {
        let earlier = replies.drop_last();
        law_first_failure_ends_the_start(commands, outcome, earlier);
        assert forall|i: int| 0 <= i < replies.len() - 1 implies (#[trigger] replies[i]) is Ok by {
            if i < earlier.len() - 1 {
                assert(earlier[i] == replies[i]);
            } else {
                assert(earlier.last() == replies[i]);
            }
        }
        if replies.len() < commands.len() {
            assert(commands.skip(earlier.len() as int + 1).drop_first() =~= commands.skip(
                replies.len() as int + 1,
            ));
        }
    }
}

/// A node joins exactly if every bootstrap address names a peer and every command succeeds. Otherwise
/// it fails: with the error of the first command that failed, or else for want of a peer.
pub proof fn law_start_succeeds_exactly<E>(
    listen_on: Seq<u8>,
    peers: Seq<BootstrapPeerView>,
    proxy: bool,
    chain_id: Seq<char>,
    outcome: Result<String, StartError>,
    replies: Seq<Result<(), E>>,
)
    requires
        start_outcome(outcome, peers, chain_id),
        awaited(start_commands(listen_on, peers, proxy, chain_id), outcome_view(outcome), replies),
        joining_after(
            start_commands(listen_on, peers, proxy, chain_id),
            outcome_view(outcome),
            replies,
        ).0 is Decided,
    ensures
        ({
            let action = joining_after(
                start_commands(listen_on, peers, proxy, chain_id),
                outcome_view(outcome),
                replies,
            ).1;
            let all_succeed = forall|i: int|
                0 <= i < replies.len() ==> (#[trigger] replies[i]) is Ok;
            &&& all_dialable(peers) && all_succeed ==> action == JoinActionView::<E>::Joined(
                block_topic(chain_id),
            )
            &&& !all_dialable(peers) && all_succeed ==> action == JoinActionView::<E>::Fail(
                JoinErrorView::Start(StartError::MissingPeerId),
            )
            &&& !all_succeed ==> action matches JoinActionView::Fail(JoinErrorView::Client { .. })
        }),
{
    let commands = start_commands(listen_on, peers, proxy, chain_id);
    law_first_failure_ends_the_start(commands, outcome_view(outcome), replies);
    if replies.len() > 0 {
        assert(replies[replies.len() - 1] == replies.last());
        if replies.last() is Ok {
            assert forall|i: int| 0 <= i < replies.len() implies (#[trigger] replies[i]) is Ok by {
            }
        }
    }
}

/// The topic of a chain is the text `blocks/` followed by the whole chain id, so that different chains
/// have different topics.
pub proof fn law_topic_names_the_chain(chain_id: Seq<char>, other: Seq<char>)
    ensures
        block_topic(chain_id).len() == 7 + chain_id.len(),
        block_topic(chain_id).take(7) == seq!['b', 'l', 'o', 'c', 'k', 's', '/'],
        block_topic(chain_id).skip(7) == chain_id,
        block_topic(chain_id) == block_topic(other) ==> chain_id == other,
{
    reveal_strlit("blocks/");
    assert(block_topic(chain_id).take(7) =~= seq!['b', 'l', 'o', 'c', 'k', 's', '/']);
    assert(block_topic(chain_id).skip(7) =~= chain_id);
    assert(block_topic(other).skip(7) =~= other);
}

/// A node that joins is told, and unless it is fed by a proxy subscribes to, the topic that consists of
/// `blocks/` and the id of its own chain, and to no other.
pub proof fn law_node_joins_its_own_chain(
    listen_on: Seq<u8>,
    peers: Seq<BootstrapPeerView>,
    proxy: bool,
    chain_id: Seq<char>,
    outcome: Result<String, StartError>,
)
    requires
        start_outcome(outcome, peers, chain_id),
    ensures
        outcome matches Ok(topic) ==> topic@ == seq!['b', 'l', 'o', 'c', 'k', 's', '/'] + chain_id,
        forall|topic: Seq<char>|
            #[trigger] start_commands(listen_on, peers, proxy, chain_id).contains(
                P2PCommandView::SubscribeTopic(topic),
            ) ==> topic == seq!['b', 'l', 'o', 'c', 'k', 's', '/'] + chain_id,
        outcome is Ok && !proxy ==> start_commands(listen_on, peers, proxy, chain_id).contains(
            P2PCommandView::SubscribeTopic(seq!['b', 'l', 'o', 'c', 'k', 's', '/'] + chain_id),
        ),
{
    let topic = seq!['b', 'l', 'o', 'c', 'k', 's', '/'] + chain_id;
    law_topic_names_the_chain(chain_id, chain_id);
    assert(block_topic(chain_id) =~= block_topic(chain_id).take(7) + block_topic(chain_id).skip(7));
    assert(block_topic(chain_id) == topic);
    assert forall|other: Seq<char>|
        #[trigger] start_commands(listen_on, peers, proxy, chain_id).contains(
            P2PCommandView::SubscribeTopic(other),
        ) implies other == topic by {
        law_proxied_node_does_not_subscribe(listen_on, peers, proxy, chain_id, other);
    }
    law_proxied_node_does_not_subscribe(listen_on, peers, proxy, chain_id, topic);
}

/// Where all bootstrap addresses name a peer, the client listens, dials and relays through each of
/// them, subscribes unless it is fed by a proxy, provides the two capabilities, and does nothing else.
pub proof fn law_commands_are_exactly(
    listen_on: Seq<u8>,
    peers: Seq<BootstrapPeerView>,
    proxy: bool,
    chain_id: Seq<char>,
)
    requires
        forall|i: int| 0 <= i < peers.len() ==> (#[trigger] peers[i]).peer_id is Some,
    ensures
        ({
            let commands = start_commands(listen_on, peers, proxy, chain_id);
            let dialled = 1 + 2 * peers.len() as int;
            &&& commands.len() == dialled + if proxy {
                2int
            } else {
                3int
            }
            &&& commands[0] == P2PCommandView::StartListening(listen_on)
            &&& !proxy ==> commands[dialled] is SubscribeTopic
            &&& commands[commands.len() - 2] == P2PCommandView::ProvideCapability(
                "core/block-propagate/1"@,
            )
            &&& commands[commands.len() - 1] == P2PCommandView::ProvideCapability(
                "core/blocks-sync/1"@,
            )
        }),
{
    lemma_dialable(peers, peers.len());
    lemma_bootstrap_commands(peers, peers.len());
}

/// Where an address names no peer, the client listens, and dials and relays through the peers before
/// the first such address, and does nothing else.
pub proof fn law_commands_stop_at_the_first_missing_peer(
    listen_on: Seq<u8>,
    peers: Seq<BootstrapPeerView>,
    proxy: bool,
    chain_id: Seq<char>,
    missing: nat,
)
    requires
        missing < peers.len(),
        peers[missing as int].peer_id is None,
        forall|i: int| 0 <= i < missing ==> (#[trigger] peers[i]).peer_id is Some,
    ensures
        start_commands(listen_on, peers, proxy, chain_id).len() == 1 + 2 * missing,
        start_commands(listen_on, peers, proxy, chain_id)[0] == P2PCommandView::StartListening(
            listen_on,
        ),
{
    lemma_dialable(peers, missing);
    lemma_bootstrap_commands(peers, missing);
}

/// The peer of an address is the first that any of its components names.
pub proof fn law_first_named_peer_is_taken(peers: Seq<Option<Seq<u8>>>, i: int)
    requires
        0 <= i <= peers.len(),
        forall|j: int| 0 <= j < i ==> (#[trigger] peers[j]) is None,
        i < peers.len() ==> peers[i] is Some,
    ensures
        first_peer(peers) == if i < peers.len() {
            peers[i]
        } else {
            None
        },
    decreases peers.len(),
{
    if i > 0 {
        let rest = peers.drop_first();
        assert(peers[0] is None);
        assert forall|j: int| 0 <= j < i - 1 implies (#[trigger] rest[j]) is None by {
            assert(rest[j] == peers[j + 1]);
        }
        law_first_named_peer_is_taken(rest, i - 1);
    }
}

/// A peer is dialled at the very address that was given, and relays at that address followed by the
/// two bytes of a `p2p-circuit` component.
pub proof fn law_bootstrap_address_is_kept(address: Multiaddr)
    ensures
        ({
            let peer = bootstrap_peer(address);
            let bytes = address_bytes(address);
            &&& peer.address == bytes
            &&& peer.relay.len() == bytes.len() + 2
            &&& peer.relay.take(bytes.len() as int) == bytes
            &&& peer.relay[bytes.len() as int] == 0xa2
            &&& peer.relay[bytes.len() as int + 1] == 0x02
            &&& peer.peer_id == first_peer(component_peers(bytes))
        }),
{
    assert(bootstrap_peer(address).relay.take(address_bytes(address).len() as int)
        =~= address_bytes(address));
}

/// What is said of a command, and of a bootstrap peer, is all that it holds.
pub proof fn law_command_view_leaves_nothing_out(command: P2PCommand, peer: BootstrapPeer)
    ensures
        match (command, command@) {
            (P2PCommand::StartListening(address), P2PCommandView::StartListening(bytes)) => bytes
                == address_bytes(address),
            (
                P2PCommand::Dial { peer_id, address },
                P2PCommandView::Dial { peer_id: id, address: bytes },
            ) => id == peer_id@ && bytes == address_bytes(address),
            (
                P2PCommand::StartRelayListening(address),
                P2PCommandView::StartRelayListening(bytes),
            ) => bytes == address_bytes(address),
            (P2PCommand::SubscribeTopic(topic), P2PCommandView::SubscribeTopic(text)) => text
                == topic@,
            (P2PCommand::ProvideCapability(name), P2PCommandView::ProvideCapability(text)) => text
                == name@,
            _ => false,
        },
        peer@.address == address_bytes(peer.address),
        peer@.relay == address_bytes(peer.relay),
        peer.peer_id matches Some(id) ==> peer@.peer_id == Some(id@),
        peer.peer_id is None ==> peer@.peer_id is None,
{
}

/// Only a failure to listen is given a context, which tells the node's own address from that of a
/// relay.
pub proof fn law_failure_to_listen_has_a_context(command: P2PCommandView)
    ensures
        command.failure_context() is Some <==> command is StartListening
            || command is StartRelayListening,
        command is StartListening ==> command.failure_context() == Some("Starting P2P listener"@),
        command is StartRelayListening ==> command.failure_context() == Some(
            "Starting relay listener"@,
        ),
{
}

/// Every bootstrap address counts, each in its place.
pub proof fn law_no_bootstrap_address_is_passed_over<S>(
    context: P2PContext<S>,
    peers: Seq<BootstrapPeer>,
    i: int,
)
    ensures
        context.bootstrap_peers().len() == context.bootstrap_addresses@.len(),
        0 <= i < context.bootstrap_addresses@.len() ==> context.bootstrap_peers()[i]
            == bootstrap_peer(context.bootstrap_addresses@[i]),
        bootstrap_views(peers).len() == peers.len(),
        0 <= i < peers.len() ==> bootstrap_views(peers)[i] == peers[i]@,
{
}

/// What is said of an action of a joining node is all that it holds.
pub proof fn law_join_view_leaves_nothing_out<E>(action: JoinAction<E>)
    ensures
        match (action, action@) {
            (JoinAction::Perform(command), JoinActionView::Perform(viewed)) => viewed == command@,
            (JoinAction::Joined(topic), JoinActionView::Joined(text)) => text == topic@,
            (
                JoinAction::Fail(JoinError::Client { error, context }),
                JoinActionView::Fail(JoinErrorView::Client { error: viewed, context: text }),
            ) => {
                &&& viewed == error
                &&& context matches Some(added) ==> text == Some(added@)
                &&& context is None ==> text is None
            },
            (
                JoinAction::Fail(JoinError::Start(error)),
                JoinActionView::Fail(JoinErrorView::Start(viewed)),
            ) => viewed == error,
            _ => false,
        },
{
}

} // verus!
