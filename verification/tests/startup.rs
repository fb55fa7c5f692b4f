//! Starting a node, with every check passed and failed.

use pathfinder::chain::{Chain, EthereumChain, GenesisHashes};
use pathfinder::felt::Felt;
use pathfinder::startup::{
    derive_chain, pending_interval, verify_database_chain, Configuration, Gateway, JournalMode,
    Startup, StartupAction, StartupError, StartupEvent,
};

fn felt(low: u128) -> Felt {
    Felt { high: 9, low }
}

fn hashes() -> GenesisHashes {
    GenesisHashes { testnet: felt(1), testnet2: felt(2), mainnet: felt(3), integration: felt(4) }
}

fn config(network: Option<&str>) -> Configuration {
    Configuration {
        network: network.map(str::to_owned),
        integration: false,
        testnet2: false,
        sequencer_url: None,
        gateway: None,
        sqlite_wal: true,
    }
}

/// Feeds events to a starting node, and gives its actions.
fn run(config: Configuration, events: &[StartupEvent]) -> Vec<StartupAction> {
    let (mut startup, action) = Startup::new(config);
    let mut actions = vec![action];
    for event in events {
        let (next, action) = startup.step(*event, &hashes());
        startup = next;
        actions.push(action);
    }
    actions
}

fn failure(actions: Vec<StartupAction>) -> StartupError {
    match actions.into_iter().last() {
        Some(StartupAction::Fail(error)) => error,
        other => panic!("no failure: {other:?}"),
    }
}

#[test]
fn selected_network_gets_ready() {
    let cases = [
        ("mainnet", Chain::Mainnet, EthereumChain::Mainnet, "mainnet.sqlite", 3),
        ("testnet", Chain::Testnet, EthereumChain::Goerli, "goerli.sqlite", 1),
        ("testnet2", Chain::Testnet2, EthereumChain::Goerli, "testnet2.sqlite", 2),
        ("integration", Chain::Integration, EthereumChain::Goerli, "integration.sqlite", 4),
    ];
    for (network, chain, ethereum, database, genesis) in cases {
        for hash in [None, Some(felt(genesis))] {
            let actions = run(
                config(Some(network)),
                &[
                    StartupEvent::Connected,
                    StartupEvent::Genesis(hash),
                    StartupEvent::Ethereum(ethereum),
                ],
            );
            assert_eq!(
                actions,
                vec![
                    StartupAction::Connect(Gateway::Public(chain)),
                    StartupAction::ReadGenesis {
                        database: database.to_owned(),
                        journal_mode: JournalMode::WAL,
                    },
                    StartupAction::QueryEthereum,
                    StartupAction::Ready(chain),
                ]
            );
        }
    }
}

#[test]
fn unknown_network_is_refused() {
    let error = failure(run(config(Some("Mainnet")), &[]));
    assert_eq!(error, StartupError::UnknownNetwork("Mainnet".to_owned()));
    assert_eq!(
        error.message(),
        "Mainnet is not a valid network selection. Please specify one of: mainnet, testnet, testnet2, integration or custom."
    );
}

#[test]
fn custom_network_needs_a_gateway() {
    let error = failure(run(config(Some("custom")), &[]));
    assert_eq!(error, StartupError::GatewayRequired);
    assert_eq!(error.message(), "Custom network requires that gateway URL is specified");
}

#[test]
fn custom_network_never_gets_ready() {
    for ethereum in [EthereumChain::Mainnet, EthereumChain::Goerli] {
        let mut custom = config(Some("custom"));
        custom.gateway = Some("http://gateway".to_owned());
        custom.sqlite_wal = false;
        let actions = run(
            custom,
            &[
                StartupEvent::Connected,
                StartupEvent::Genesis(None),
                StartupEvent::Ethereum(ethereum),
            ],
        );
        assert_eq!(
            actions[0],
            StartupAction::Connect(Gateway::Url("http://gateway".to_owned()))
        );
        assert_eq!(
            actions[1],
            StartupAction::ReadGenesis {
                database: "custom.sqlite".to_owned(),
                journal_mode: JournalMode::Rollback,
            }
        );
        assert_eq!(
            failure(actions),
            StartupError::WrongEthereum { selected: Chain::Custom, ethereum }
        );
    }
}

#[test]
fn sequencer_url_comes_first() {
    let mut both = config(Some("mainnet"));
    both.sequencer_url = Some("http://sequencer".to_owned());
    both.gateway = Some("http://gateway".to_owned());
    assert_eq!(
        run(both, &[]),
        vec![StartupAction::Connect(Gateway::Url("http://sequencer".to_owned()))]
    );
}

#[test]
fn database_of_another_network_is_refused() {
    let error = failure(run(
        config(Some("mainnet")),
        &[StartupEvent::Connected, StartupEvent::Genesis(Some(felt(2)))],
    ));
    assert_eq!(
        error,
        StartupError::WrongGenesis { database: Chain::Testnet2, selected: Chain::Mainnet }
    );
    assert_eq!(
        error.message(),
        "Database genesis hash does not match selected network. Database hash is from Testnet2 network but you selected Mainnet"
    );
}

#[test]
fn wrong_ethereum_chain_is_refused() {
    let error = failure(run(
        config(Some("integration")),
        &[
            StartupEvent::Connected,
            StartupEvent::Genesis(None),
            StartupEvent::Ethereum(EthereumChain::Mainnet),
        ],
    ));
    assert_eq!(
        error.message(),
        "StarkNet's Integration chain does not run on the provided Ethereum URL which is Mainnet"
    );
    assert!(!Chain::Mainnet.runs_on(EthereumChain::Goerli));
    assert!(Chain::Testnet.runs_on(EthereumChain::Goerli));
}

#[test]
fn flags_decide_without_a_network() {
    let cases = [
        (EthereumChain::Mainnet, false, false, Ok(Chain::Mainnet)),
        (EthereumChain::Mainnet, true, false, Err(StartupError::FlagOnMainnet)),
        (EthereumChain::Mainnet, false, true, Err(StartupError::FlagOnMainnet)),
        (EthereumChain::Mainnet, true, true, Err(StartupError::FlagOnMainnet)),
        (EthereumChain::Goerli, false, false, Ok(Chain::Testnet)),
        (EthereumChain::Goerli, false, true, Ok(Chain::Testnet2)),
        (EthereumChain::Goerli, true, false, Ok(Chain::Integration)),
        (EthereumChain::Goerli, true, true, Err(StartupError::ConflictingFlags)),
    ];
    for (ethereum, integration, testnet2, expected) in cases {
        assert_eq!(derive_chain(ethereum, integration, testnet2), expected);
    }
    assert_eq!(
        StartupError::FlagOnMainnet.message(),
        "'--integration' and '--testnet2' flags are invalid on Ethereum mainnet"
    );
    assert_eq!(
        StartupError::ConflictingFlags.message(),
        "'--integration' and '--testnet2' flags cannot be used together"
    );
}

#[test]
fn flags_get_ready_with_the_public_gateway() {
    let mut flags = config(None);
    flags.testnet2 = true;
    let actions = run(
        flags,
        &[
            StartupEvent::Ethereum(EthereumChain::Goerli),
            StartupEvent::DatabaseChain(Some(Chain::Testnet2)),
            StartupEvent::Connected,
        ],
    );
    assert_eq!(
        actions,
        vec![
            StartupAction::QueryEthereum,
            StartupAction::ReadChain {
                database: "testnet2.sqlite".to_owned(),
                journal_mode: JournalMode::WAL,
            },
            StartupAction::Connect(Gateway::Public(Chain::Testnet2)),
            StartupAction::Ready(Chain::Testnet2),
        ]
    );
}

#[test]
fn flags_check_a_given_gateway() {
    let given = || {
        let mut flags = config(None);
        flags.gateway = Some("http://gateway".to_owned());
        flags
    };
    let events = |sequencer| {
        [
            StartupEvent::Ethereum(EthereumChain::Mainnet),
            StartupEvent::DatabaseChain(None),
            StartupEvent::Connected,
            StartupEvent::Sequencer(sequencer),
        ]
    };
    let actions = run(given(), &events(Chain::Mainnet));
    assert_eq!(
        actions[2..],
        [
            StartupAction::Connect(Gateway::Url("http://gateway".to_owned())),
            StartupAction::QuerySequencer,
            StartupAction::Ready(Chain::Mainnet),
        ]
    );
    let error = failure(run(given(), &events(Chain::Custom)));
    assert_eq!(
        error.message(),
        "Sequencer and Ethereum network mismatch. Sequencer is on Custom but Ethereum is on Mainnet"
    );
}

#[test]
fn flags_check_the_database() {
    let error = failure(run(
        config(None),
        &[
            StartupEvent::Ethereum(EthereumChain::Goerli),
            StartupEvent::DatabaseChain(Some(Chain::Integration)),
        ],
    ));
    assert_eq!(
        error.message(),
        "Database (Integration) does not match the expected network (Testnet)"
    );
    assert_eq!(error.context(), Some("Verifying database".to_owned()));
    assert_eq!(StartupError::GatewayRequired.context(), None);
    assert_eq!(verify_database_chain(None, Chain::Testnet), Ok(()));
    assert_eq!(verify_database_chain(Some(Chain::Testnet), Chain::Testnet), Ok(()));
    assert_eq!(
        verify_database_chain(Some(Chain::Mainnet), Chain::Testnet),
        Err(StartupError::WrongDatabase { database: Chain::Mainnet, expected: Chain::Testnet })
    );
}

#[test]
fn unknown_genesis_belongs_to_no_chain() {
    assert_eq!(hashes().chain_of(felt(5)), None);
    assert_eq!(hashes().chain_of(felt(3)), Some(Chain::Mainnet));
}

#[test]
fn pending_data_is_polled_every_five_seconds() {
    assert_eq!(pending_interval(true), Some(5));
    assert_eq!(pending_interval(false), None);
}
