//! Joining the peer-to-peer network, with real addresses, and following the announced head.

use libp2p::identity::Keypair;
use libp2p::{Multiaddr, PeerId};
use pathfinder::felt::Felt;
use pathfinder::head::{handle_p2p_event, Header, HeaderPart, NewBlock, P2PEvent};
use pathfinder::p2p_network::{
    pick_peer, plan, resolve, start, BootstrapPeer, JoinAction, JoinError, Joining, P2PCommand,
    P2PContext, StartError,
};

const FIRST: &str = "12D3KooWNbxTMWr7RxEi5TZBZzCD8bLkbEPZQ5bfKbVtDYsDK1b9";
const SECOND: &str = "QmcgpsyWgH8Y8ajJz1Cu72KnS5uo2Aa2LpzU7kinSupNKC";

fn peer(text: &str) -> PeerId {
    text.parse().unwrap()
}

fn address(text: &str) -> Multiaddr {
    text.parse().unwrap()
}

/// A command in words.
fn describe(command: &P2PCommand) -> String {
    match command {
        P2PCommand::StartListening(address) => format!("listen {address}"),
        P2PCommand::Dial { peer_id, address } => {
            format!("dial {} {address}", PeerId::from_bytes(peer_id).unwrap())
        }
        P2PCommand::StartRelayListening(address) => format!("relay {address}"),
        P2PCommand::SubscribeTopic(topic) => format!("subscribe {topic}"),
        P2PCommand::ProvideCapability(name) => format!("provide {name}"),
    }
}

fn context(proxy: bool, bootstrap_addresses: Vec<Multiaddr>) -> P2PContext<u8> {
    P2PContext {
        chain_id: "0x534e5f5345504f4c4941".to_owned(),
        storage: 7,
        proxy,
        keypair: Keypair::generate_ed25519(),
        listen_on: address("/ip4/127.0.0.1/tcp/4001"),
        bootstrap_addresses,
    }
}

fn described(commands: &[P2PCommand]) -> Vec<String> {
    commands.iter().map(describe).collect()
}

#[test]
fn start_dials_every_bootstrap_peer() {
    let one = format!("/ip4/10.0.0.1/tcp/1/p2p/{FIRST}");
    let two = format!("/dns4/example.org/tcp/2/p2p/{SECOND}/ws");
    let context = context(false, vec![address(&one), address(&two)]);
    let key = context.keypair.public();
    let plan = start(context);
    assert_eq!(plan.storage, 7);
    assert_eq!(plan.keypair.public(), key);
    assert_eq!(
        described(&plan.commands),
        vec![
            "listen /ip4/127.0.0.1/tcp/4001".to_owned(),
            format!("dial {FIRST} {one}"),
            format!("relay {one}/p2p-circuit"),
            format!("dial {SECOND} {two}"),
            format!("relay {two}/p2p-circuit"),
            "subscribe blocks/0x534e5f5345504f4c4941".to_owned(),
            "provide core/block-propagate/1".to_owned(),
            "provide core/blocks-sync/1".to_owned(),
        ]
    );
    assert_eq!(plan.outcome, Ok("blocks/0x534e5f5345504f4c4941".to_owned()));
}

#[test]
fn start_gives_up_at_the_first_address_without_a_peer() {
    let one = format!("/ip4/10.0.0.1/tcp/1/p2p/{FIRST}");
    let two = "/ip4/10.0.0.2/tcp/1";
    let plan = start(context(false, vec![address(&one), address(two), address(&one)]));
    assert_eq!(
        described(&plan.commands),
        vec![
            "listen /ip4/127.0.0.1/tcp/4001".to_owned(),
            format!("dial {FIRST} {one}"),
            format!("relay {one}/p2p-circuit"),
        ]
    );
    assert_eq!(plan.outcome, Err(StartError::MissingPeerId));
    assert_eq!(
        StartError::MissingPeerId.message(),
        "Boostrap addresses must inlcude peer ID"
    );
}

#[test]
fn proxied_nodes_do_not_subscribe() {
    let plan = start(context(true, vec![]));
    assert_eq!(
        described(&plan.commands),
        vec![
            "listen /ip4/127.0.0.1/tcp/4001",
            "provide core/block-propagate/1",
            "provide core/blocks-sync/1",
        ]
    );
    assert_eq!(plan.outcome, Ok("blocks/0x534e5f5345504f4c4941".to_owned()));
}

#[test]
fn the_first_peer_of_an_address_is_taken() {
    let relayed = address(&format!("/ip4/10.0.0.1/tcp/1/p2p/{FIRST}/p2p-circuit/p2p/{SECOND}"));
    let resolved = resolve(relayed.clone());
    assert_eq!(resolved.peer_id, Some(peer(FIRST).to_bytes()));
    assert_eq!(resolved.address, relayed);
    assert_eq!(resolved.relay, address(&format!("{relayed}/p2p-circuit")));
    assert_eq!(resolved.relay.to_vec().len(), relayed.to_vec().len() + 2);
    assert!(resolved.relay.to_vec().ends_with(&[0xa2, 0x02]));
}

#[test]
fn pick_peer_skips_other_components() {
    assert_eq!(pick_peer(vec![]), None);
    assert_eq!(pick_peer(vec![None, None]), None);
    assert_eq!(pick_peer(vec![None, Some(vec![1]), Some(vec![2])]), Some(vec![1]));
}

#[test]
fn plan_follows_what_was_read() {
    let bootstrap = BootstrapPeer {
        peer_id: None,
        address: address("/ip4/10.0.0.1"),
        relay: address("/ip4/10.0.0.2"),
    };
    let (commands, outcome) =
        plan(address("/ip4/10.0.0.3"), vec![bootstrap], false, "0x1".to_owned());
    assert_eq!(described(&commands), vec!["listen /ip4/10.0.0.3"]);
    assert_eq!(outcome, Err(StartError::MissingPeerId));
}

#[test]
fn failures_have_a_context() {
    let relay = P2PCommand::StartRelayListening(address("/ip4/10.0.0.1"));
    assert_eq!(relay.failure_context(), Some("Starting relay listener".to_owned()));
    let listen = P2PCommand::StartListening(address("/ip4/10.0.0.1"));
    assert_eq!(listen.failure_context(), Some("Starting P2P listener".to_owned()));
    let dial = P2PCommand::Dial { peer_id: vec![], address: address("/ip4/10.0.0.1") };
    assert_eq!(dial.failure_context(), None);
    assert_eq!(P2PCommand::SubscribeTopic("x".to_owned()).failure_context(), None);
    assert_eq!(P2PCommand::ProvideCapability("x".to_owned()).failure_context(), None);
}

/// Carries out a plan with a client whose command at `failing` fails, and gives the commands that it
/// was given, and the end.
fn join(
    context: P2PContext<u8>,
    failing: Option<usize>,
) -> (Vec<String>, Result<String, JoinError<u32>>) {
    let plan = start(context);
    let mut performed = vec![];
    let (mut joining, mut action) = Joining::new(plan.commands, plan.outcome);
    loop {
        match action {
            JoinAction::Perform(command) => {
                let reply = if failing == Some(performed.len()) { Err(7) } else { Ok(()) };
                performed.push(describe(&command));
                (joining, action) = joining.step(reply);
            }
            JoinAction::Joined(topic) => return (performed, Ok(topic)),
            JoinAction::Fail(error) => return (performed, Err(error)),
        }
    }
}

#[test]
fn first_failure_ends_the_start() {
    let good = address(&format!("/ip4/10.0.0.1/tcp/1/p2p/{FIRST}"));
    let all = described(&start(context(false, vec![good.clone()])).commands);
    assert_eq!(all.len(), 6);
    let contexts = [
        Some("Starting P2P listener"),
        None,
        Some("Starting relay listener"),
        None,
        None,
        None,
    ];
    for (failing, failure_context) in contexts.into_iter().enumerate() {
        let (performed, end) = join(context(false, vec![good.clone()]), Some(failing));
        assert_eq!(performed, all[..=failing]);
        let failure_context = failure_context.map(str::to_owned);
        assert_eq!(end, Err(JoinError::Client { error: 7, context: failure_context }));
    }
    let (performed, end) = join(context(false, vec![good]), None);
    assert_eq!(performed, all);
    assert_eq!(end, Ok("blocks/0x534e5f5345504f4c4941".to_owned()));
}

#[test]
fn missing_peer_ends_the_start_after_the_earlier_ones() {
    let good = address(&format!("/ip4/10.0.0.1/tcp/1/p2p/{FIRST}"));
    let bad = address("/ip4/10.0.0.2/tcp/1");
    let (performed, end) = join(context(false, vec![good.clone(), bad.clone()]), None);
    assert_eq!(performed.len(), 3);
    assert_eq!(end, Err(JoinError::Start(StartError::MissingPeerId)));
    let (performed, end) = join(context(false, vec![good, bad]), Some(1));
    assert_eq!(performed.len(), 2);
    assert_eq!(end, Err(JoinError::Client { error: 7, context: None }));
}

fn header(number: u64, hash: u128) -> Header {
    Header { number, block_hash: Felt { high: 0, low: hash } }
}

fn announce(parts: Vec<HeaderPart>) -> P2PEvent {
    P2PEvent::BlockPropagation(NewBlock::Header(parts))
}

#[test]
fn head_follows_higher_headers() {
    let mut head = None;
    assert!(handle_p2p_event(announce(vec![HeaderPart::Header(header(5, 1))]), &mut head));
    assert_eq!(head, Some(header(5, 1)));
    assert!(!handle_p2p_event(announce(vec![HeaderPart::Header(header(5, 2))]), &mut head));
    assert!(!handle_p2p_event(announce(vec![HeaderPart::Header(header(4, 3))]), &mut head));
    assert_eq!(head, Some(header(5, 1)));
    assert!(handle_p2p_event(announce(vec![HeaderPart::Header(header(6, 4))]), &mut head));
    assert_eq!(head, Some(header(6, 4)));
}

#[test]
fn genesis_header_is_no_news() {
    let mut head = None;
    assert!(!handle_p2p_event(announce(vec![HeaderPart::Header(header(0, 1))]), &mut head));
    assert_eq!(head, None);
}

#[test]
fn only_the_last_part_counts() {
    let mut head = None;
    let parts = vec![HeaderPart::Header(header(9, 1)), HeaderPart::Other];
    assert!(!handle_p2p_event(announce(parts), &mut head));
    let parts = vec![HeaderPart::Other, HeaderPart::Header(header(3, 2))];
    assert!(handle_p2p_event(announce(parts), &mut head));
    assert_eq!(head, Some(header(3, 2)));
}

#[test]
fn other_events_leave_the_head() {
    let mut head = Some(header(1, 1));
    for event in [
        announce(vec![]),
        P2PEvent::BlockPropagation(NewBlock::Other),
        P2PEvent::SyncPeerConnected,
        P2PEvent::Test,
    ] {
        assert!(!handle_p2p_event(event, &mut head));
        assert_eq!(head, Some(header(1, 1)));
    }
}

#[test]
fn head_is_the_highest_of_a_series() {
    let mut head = Some(header(2, 0));
    for (number, hash) in [(1, 1), (7, 2), (3, 3), (7, 4), (6, 5)] {
        let before = head;
        handle_p2p_event(announce(vec![HeaderPart::Header(header(number, hash))]), &mut head);
        assert!(head.unwrap().number >= before.unwrap().number);
    }
    assert_eq!(head, Some(header(7, 2)));
}
