//! Which chain a node follows, and whether everything it relies on belongs to that chain.
//!
//! The checks alternate with work that only the node's surroundings can do, such as opening the
//! database or asking an Ethereum client for its chain. Each `step` takes what came of the last
//! action and says what to do next.

use vstd::pervasive::unreached;
use vstd::prelude::*;
use vstd::string::StringExecFns;

use crate::chain::{Chain, EthereumChain, GenesisHashes};
use crate::felt::Felt;

verus! {

/// What the operator of the node asks for.
#[derive(Debug, PartialEq, Eq)]
pub struct Configuration {
    /// The selected network. Without one, the chain follows from the Ethereum chain and the flags
    /// below.
    pub network: Option<String>,
    pub integration: bool,
    pub testnet2: bool,
    /// The address of the gateway, in the order of precedence.
    pub sequencer_url: Option<String>,
    pub gateway: Option<String>,
    /// Whether the database keeps a write-ahead log.
    pub sqlite_wal: bool,
}

impl Configuration {
    /// The address of the gateway, where one is given.
    pub open spec fn gateway_url(self) -> Option<String> {
        match self.sequencer_url {
            Some(url) => Some(url),
            None => self.gateway,
        }
    }

    pub open spec fn journal_mode(self) -> JournalMode {
        if self.sqlite_wal {
            JournalMode::WAL
        } else {
            JournalMode::Rollback
        }
    }
}

/// How the database keeps its journal.
#[derive(Clone, Copy, Debug, PartialEq, Eq, Structural)]
pub enum JournalMode {
    Rollback,
    WAL,
}

/// The gateway that the node talks to.
#[derive(Debug, PartialEq, Eq)]
pub enum Gateway {
    /// The one at this address.
    Url(String),
    /// The public one of a chain.
    Public(Chain),
}

/// Why the node cannot start.
#[derive(Debug, PartialEq, Eq)]
pub enum StartupError {
    /// The selected network is none.
    UnknownNetwork(String),
    /// A custom network has no public gateway.
    GatewayRequired,
    /// The database belongs to another chain than the selected one, by its first block.
    WrongGenesis { database: Chain, selected: Chain },
    /// The chain does not settle on the Ethereum chain.
    WrongEthereum { selected: Chain, ethereum: EthereumChain },
    /// A flag that Ethereum mainnet rules out.
    FlagOnMainnet,
    /// Two flags that rule each other out.
    ConflictingFlags,
    /// The database belongs to another chain than the one that follows from the flags.
    WrongDatabase { database: Chain, expected: Chain },
    /// The gateway serves another chain than the one that follows from the flags.
    WrongSequencer { sequencer: Chain, expected: Chain },
}

impl StartupError {
    /// What the operator is told.
    pub open spec fn text(self) -> Seq<char> {
        match self {
            StartupError::UnknownNetwork(name) => name@
                + " is not a valid network selection. Please specify one of: mainnet, testnet, testnet2, integration or custom."@,
            StartupError::GatewayRequired =>
                "Custom network requires that gateway URL is specified"@,
            StartupError::WrongGenesis { database, selected } =>
                "Database genesis hash does not match selected network. Database hash is from "@
                + database.name() + " network but you selected "@ + selected.name(),
            StartupError::WrongEthereum { selected, ethereum } => "StarkNet's "@ + selected.name()
                + " chain does not run on the provided Ethereum URL which is "@ + ethereum.name(),
            StartupError::FlagOnMainnet =>
                "'--integration' and '--testnet2' flags are invalid on Ethereum mainnet"@,
            StartupError::ConflictingFlags =>
                "'--integration' and '--testnet2' flags cannot be used together"@,
            StartupError::WrongDatabase { database, expected } => "Database ("@ + database.name()
                + ") does not match the expected network ("@ + expected.name() + ")"@,
            StartupError::WrongSequencer { sequencer, expected } =>
                "Sequencer and Ethereum network mismatch. Sequencer is on "@ + sequencer.name()
                + " but Ethereum is on "@ + expected.name(),
        }
    }

    pub fn message(&self) -> (message: String)
        ensures
            message@ == self.text(),
    {
        match self {
            StartupError::UnknownNetwork(name) => name.clone().concat(
                " is not a valid network selection. Please specify one of: mainnet, testnet, testnet2, integration or custom.",
            ),
            StartupError::GatewayRequired =>
                "Custom network requires that gateway URL is specified".to_owned(),
            StartupError::WrongGenesis { database, selected } =>
                "Database genesis hash does not match selected network. Database hash is from ".to_owned()
                .concat(database.to_text().as_str())
                .concat(" network but you selected ")
                .concat(selected.to_text().as_str()),
            StartupError::WrongEthereum { selected, ethereum } => "StarkNet's ".to_owned()
                .concat(selected.to_text().as_str())
                .concat(" chain does not run on the provided Ethereum URL which is ")
                .concat(ethereum.to_text().as_str()),
            StartupError::FlagOnMainnet =>
                "'--integration' and '--testnet2' flags are invalid on Ethereum mainnet".to_owned(),
            StartupError::ConflictingFlags =>
                "'--integration' and '--testnet2' flags cannot be used together".to_owned(),
            StartupError::WrongDatabase { database, expected } => "Database (".to_owned()
                .concat(database.to_text().as_str())
                .concat(") does not match the expected network (")
                .concat(expected.to_text().as_str())
                .concat(")"),
            StartupError::WrongSequencer { sequencer, expected } =>
                "Sequencer and Ethereum network mismatch. Sequencer is on ".to_owned()
                .concat(sequencer.to_text().as_str())
                .concat(" but Ethereum is on ")
                .concat(expected.to_text().as_str()),
        }
    }
}

impl StartupError {
    /// What the operator is told the node was doing, besides the message itself.
    pub open spec fn during(self) -> Option<Seq<char>> {
        match self {
            StartupError::WrongDatabase { .. } => Some("Verifying database"@),
            _ => None,
        }
    }

    pub fn context(&self) -> (context: Option<String>)
        ensures
            match context {
                Some(text) => self.during() == Some(text@),
                None => self.during() is None,
            },
    {
        match self {
            StartupError::WrongDatabase { .. } => Some("Verifying database".to_owned()),
            _ => None,
        }
    }
}

/// What came of the last action of a starting node.
#[derive(Clone, Copy, Debug, PartialEq, Eq, Structural)]
pub enum StartupEvent {
    /// The gateway client is ready.
    Connected,
    /// The hash of the first block in the database, if there is one.
    Genesis(Option<Felt>),
    /// The chain of the first block in the database, if there is one.
    DatabaseChain(Option<Chain>),
    /// The chain that the Ethereum client follows.
    Ethereum(EthereumChain),
    /// The chain that the gateway serves.
    Sequencer(Chain),
}

/// What a starting node does next.
#[derive(Debug, PartialEq, Eq)]
pub enum StartupAction {
    /// Makes a client of the gateway.
    Connect(Gateway),
    /// Opens the database with this file name, and reads the hash of its first block.
    ReadGenesis { database: String, journal_mode: JournalMode },
    /// Opens the database with this file name, and finds out the chain of its first block.
    ReadChain { database: String, journal_mode: JournalMode },
    QueryEthereum,
    QuerySequencer,
    /// All checks have passed; the node follows this chain.
    Ready(Chain),
    Fail(StartupError),
}

/// What a [`StartupAction`] says.
pub enum StartupActionView {
    Connect(Gateway),
    ReadGenesis { database: Seq<char>, journal_mode: JournalMode },
    ReadChain { database: Seq<char>, journal_mode: JournalMode },
    QueryEthereum,
    QuerySequencer,
    Ready(Chain),
    Fail(StartupError),
}

impl View for StartupAction {
    type V = StartupActionView;

    open spec fn view(&self) -> StartupActionView {
        match *self {
            StartupAction::Connect(gateway) => StartupActionView::Connect(gateway),
            StartupAction::ReadGenesis { database, journal_mode } => {
                StartupActionView::ReadGenesis { database: database@, journal_mode }
            },
            StartupAction::ReadChain { database, journal_mode } => StartupActionView::ReadChain {
                database: database@,
                journal_mode,
            },
            StartupAction::QueryEthereum => StartupActionView::QueryEthereum,
            StartupAction::QuerySequencer => StartupActionView::QuerySequencer,
            StartupAction::Ready(chain) => StartupActionView::Ready(chain),
            StartupAction::Fail(error) => StartupActionView::Fail(error),
        }
    }
}

/// What a starting node waits for.
#[derive(Debug, PartialEq, Eq)]
pub enum Startup {
    /// With a network selected: the gateway client.
    Connecting { chain: Chain, journal_mode: JournalMode },
    /// With a network selected: the first block of the database.
    CheckingGenesis { chain: Chain },
    /// With a network selected: the Ethereum chain.
    CheckingEthereum { chain: Chain },
    /// Without a network selected: the Ethereum chain.
    FindingChain {
        integration: bool,
        testnet2: bool,
        url: Option<String>,
        journal_mode: JournalMode,
    },
    /// Without a network selected: the chain of the database.
    CheckingDatabase { chain: Chain, url: Option<String> },
    /// Without a network selected: the gateway client, which is asked for its chain if it is at an
    /// address that was given.
    ConnectingTo { chain: Chain, given: bool },
    /// Without a network selected: the chain of the gateway.
    CheckingSequencer { chain: Chain },
    /// Nothing: all is decided.
    Decided,
}

/// The gateway that the node talks to: the one at the address that is given, or else the public one
/// of the chain, where it has one.
pub open spec fn gateway_of(chain: Chain, url: Option<String>) -> Option<Gateway> {
    match url {
        Some(url) => Some(Gateway::Url(url)),
        None => if chain == Chain::Custom {
            None
        } else {
            Some(Gateway::Public(chain))
        },
    }
}

/// The chain that follows from the Ethereum chain and the flags.
pub open spec fn chain_from_flags(
    ethereum: EthereumChain,
    integration: bool,
    testnet2: bool,
) -> Result<Chain, StartupError> {
    match ethereum {
        EthereumChain::Mainnet => if integration || testnet2 {
            Err(StartupError::FlagOnMainnet)
        } else {
            Ok(Chain::Mainnet)
        },
        EthereumChain::Goerli => if integration && testnet2 {
            Err(StartupError::ConflictingFlags)
        } else if integration {
            Ok(Chain::Integration)
        } else if testnet2 {
            Ok(Chain::Testnet2)
        } else {
            Ok(Chain::Testnet)
        },
    }
}

pub open spec fn fail(error: StartupError) -> (Startup, StartupActionView) {
    (Startup::Decided, StartupActionView::Fail(error))
}

pub open spec fn ready(chain: Chain) -> (Startup, StartupActionView) {
    (Startup::Decided, StartupActionView::Ready(chain))
}

impl Startup {
    /// What a node with this configuration first waits for, and does.
    pub open spec fn initial(config: Configuration) -> (Startup, StartupActionView) {
        match config.network {
            Some(network) => match Chain::selected(network@) {
                Some(chain) => match gateway_of(chain, config.gateway_url()) {
                    Some(gateway) => (
                        Startup::Connecting { chain, journal_mode: config.journal_mode() },
                        StartupActionView::Connect(gateway),
                    ),
                    None => fail(StartupError::GatewayRequired),
                },
                None => fail(StartupError::UnknownNetwork(network)),
            },
            None => (
                Startup::FindingChain {
                    integration: config.integration,
                    testnet2: config.testnet2,
                    url: config.gateway_url(),
                    journal_mode: config.journal_mode(),
                },
                StartupActionView::QueryEthereum,
            ),
        }
    }

    /// The chain that was derived from the flags is a public one.
    pub open spec fn wf(self) -> bool {
        match self {
            Startup::CheckingDatabase { chain, .. } => chain != Chain::Custom,
            Startup::ConnectingTo { chain, .. } => chain != Chain::Custom,
            Startup::CheckingSequencer { chain } => chain != Chain::Custom,
            _ => true,
        }
    }

    /// Whether an event is one that the node waits for, and a first block is that of a public
    /// chain.
    pub open spec fn accepts(self, event: StartupEvent, hashes: GenesisHashes) -> bool {
        match self {
            Startup::Connecting { .. } => event is Connected,
            Startup::CheckingGenesis { .. } => event matches StartupEvent::Genesis(genesis) && (
            genesis matches Some(hash) ==> hashes.started_by(hash) is Some),
            Startup::CheckingEthereum { .. } => event is Ethereum,
            Startup::FindingChain { .. } => event is Ethereum,
            Startup::CheckingDatabase { .. } => event is DatabaseChain,
            Startup::ConnectingTo { .. } => event is Connected,
            Startup::CheckingSequencer { .. } => event is Sequencer,
            Startup::Decided => false,
        }
    }

    /// What the node waits for, and does, after `event`.
    pub open spec fn next(self, event: StartupEvent, hashes: GenesisHashes) -> (
        Startup,
        StartupActionView,
    ) {
        match (self, event) {
            (Startup::Connecting { chain, journal_mode }, StartupEvent::Connected) => (
                Startup::CheckingGenesis { chain },
                StartupActionView::ReadGenesis { database: chain.database(), journal_mode },
            ),
            (Startup::CheckingGenesis { chain }, StartupEvent::Genesis(genesis)) => {
                match genesis {
                    Some(hash) if hashes.started_by(hash) != Some(chain) => fail(
                        StartupError::WrongGenesis {
                            database: hashes.started_by(hash)->0,
                            selected: chain,
                        },
                    ),
                    _ => (Startup::CheckingEthereum { chain }, StartupActionView::QueryEthereum),
                }
            },
            (Startup::CheckingEthereum { chain }, StartupEvent::Ethereum(ethereum)) => {
                if chain.settles_on(ethereum) {
                    ready(chain)
                } else {
                    fail(StartupError::WrongEthereum { selected: chain, ethereum })
                }
            },
            (
                Startup::FindingChain { integration, testnet2, url, journal_mode },
                StartupEvent::Ethereum(ethereum),
            ) => match chain_from_flags(ethereum, integration, testnet2) {
                Ok(chain) => (
                    Startup::CheckingDatabase { chain, url },
                    StartupActionView::ReadChain { database: chain.database(), journal_mode },
                ),
                Err(error) => fail(error),
            },
            (
                Startup::CheckingDatabase { chain, url },
                StartupEvent::DatabaseChain(database),
            ) => match database {
                Some(database) if database != chain => fail(
                    StartupError::WrongDatabase { database, expected: chain },
                ),
                _ => (
                    Startup::ConnectingTo { chain, given: url is Some },
                    StartupActionView::Connect(gateway_of(chain, url)->0),
                ),
            },
            (Startup::ConnectingTo { chain, given }, StartupEvent::Connected) => if given {
                (Startup::CheckingSequencer { chain }, StartupActionView::QuerySequencer)
            } else {
                ready(chain)
            },
            (Startup::CheckingSequencer { chain }, StartupEvent::Sequencer(sequencer)) => {
                if sequencer == chain {
                    ready(chain)
                } else {
                    fail(StartupError::WrongSequencer { sequencer, expected: chain })
                }
            },
            _ => arbitrary(),
        }
    }
}

fn connect(chain: Chain, url: Option<String>) -> (gateway: Option<Gateway>)
    ensures
        gateway == gateway_of(chain, url),
{
    match url {
        Some(url) => Some(Gateway::Url(url)),
        None => match chain {
            Chain::Custom => None,
            _ => Some(Gateway::Public(chain)),
        },
    }
}

/// The chain that follows from the Ethereum chain and the flags.
pub fn derive_chain(ethereum: EthereumChain, integration: bool, testnet2: bool) -> (chain: Result<
    Chain,
    StartupError,
>)
    ensures
        chain == chain_from_flags(ethereum, integration, testnet2),
{
    match (ethereum, integration, testnet2) {
        (EthereumChain::Mainnet, false, false) => Ok(Chain::Mainnet),
        (EthereumChain::Mainnet, _, _) => Err(StartupError::FlagOnMainnet),
        (EthereumChain::Goerli, false, false) => Ok(Chain::Testnet),
        (EthereumChain::Goerli, false, true) => Ok(Chain::Testnet2),
        (EthereumChain::Goerli, true, true) => Err(StartupError::ConflictingFlags),
        (EthereumChain::Goerli, true, false) => Ok(Chain::Integration),
    }
}

/// How often the node asks for pending data, in seconds, if it does.
pub fn pending_interval(poll_pending: bool) -> (seconds: Option<u64>)
    ensures
        seconds == if poll_pending {
            Some(5u64)
        } else {
            None
        },
{
    if poll_pending {
        Some(5)
    } else {
        None
    }
}

/// Whether the database belongs to the chain, or is still empty.
pub fn verify_database_chain(database: Option<Chain>, expected: Chain) -> (verified: Result<
    (),
    StartupError,
>)
    ensures
        verified == match database {
            Some(database) if database != expected => Err::<(), StartupError>(
                StartupError::WrongDatabase { database, expected },
            ),
            _ => Ok(()),
        },
{
    match database {
        Some(database) => if database == expected {
            Ok(())
        } else {
            Err(StartupError::WrongDatabase { database, expected })
        },
        None => Ok(()),
    }
}

impl Startup {
    /// Starts a node with this configuration.
    pub fn new(config: Configuration) -> (started: (Startup, StartupAction))
        ensures
            started.0.wf(),
            (started.0, started.1@) == Startup::initial(config),
    {
        let journal_mode = if config.sqlite_wal {
            JournalMode::WAL
        } else {
            JournalMode::Rollback
        };
        let url = match config.sequencer_url {
            Some(url) => Some(url),
            None => config.gateway,
        };
        match config.network {
            Some(network) => match Chain::from_network(&network) {
                Some(chain) => match connect(chain, url) {
                    Some(gateway) => (
                        Startup::Connecting { chain, journal_mode },
                        StartupAction::Connect(gateway),
                    ),
                    None => (
                        Startup::Decided,
                        StartupAction::Fail(StartupError::GatewayRequired),
                    ),
                },
                None => (
                    Startup::Decided,
                    StartupAction::Fail(StartupError::UnknownNetwork(network)),
                ),
            },
            None => (
                Startup::FindingChain {
                    integration: config.integration,
                    testnet2: config.testnet2,
                    url,
                    journal_mode,
                },
                StartupAction::QueryEthereum,
            ),
        }
    }

    /// A step of a starting node.
    pub fn step(self, event: StartupEvent, hashes: &GenesisHashes) -> (stepped: (
        Startup,
        StartupAction,
    ))
        requires
            self.wf(),
            self.accepts(event, *hashes),
        ensures
            stepped.0.wf(),
            (stepped.0, stepped.1@) == self.next(event, *hashes),
    {
        match (self, event) {
            (Startup::Connecting { chain, journal_mode }, StartupEvent::Connected) => (
                Startup::CheckingGenesis { chain },
                StartupAction::ReadGenesis { database: chain.database_file(), journal_mode },
            ),
            (Startup::CheckingGenesis { chain }, StartupEvent::Genesis(Some(hash))) => {
                match hashes.chain_of(hash) {
                    Some(database) if database != chain => (
                        Startup::Decided,
                        StartupAction::Fail(
                            StartupError::WrongGenesis { database, selected: chain },
                        ),
                    ),
                    _ => (Startup::CheckingEthereum { chain }, StartupAction::QueryEthereum),
                }
            },
            (Startup::CheckingGenesis { chain }, StartupEvent::Genesis(None)) => (
                Startup::CheckingEthereum { chain },
                StartupAction::QueryEthereum,
            ),
            (Startup::CheckingEthereum { chain }, StartupEvent::Ethereum(ethereum)) => {
                if chain.runs_on(ethereum) {
                    (Startup::Decided, StartupAction::Ready(chain))
                } else {
                    (
                        Startup::Decided,
                        StartupAction::Fail(
                            StartupError::WrongEthereum { selected: chain, ethereum },
                        ),
                    )
                }
            },
            (
                Startup::FindingChain { integration, testnet2, url, journal_mode },
                StartupEvent::Ethereum(ethereum),
            ) => match derive_chain(ethereum, integration, testnet2) {
                Ok(chain) => (
                    Startup::CheckingDatabase { chain, url },
                    StartupAction::ReadChain { database: chain.database_file(), journal_mode },
                ),
                Err(error) => (Startup::Decided, StartupAction::Fail(error)),
            },
            (
                Startup::CheckingDatabase { chain, url },
                StartupEvent::DatabaseChain(database),
            ) => match verify_database_chain(database, chain) {
                Ok(()) => {
                    let given: bool = url.is_some();
                    match connect(chain, url) {
                        Some(gateway) => (
                            Startup::ConnectingTo { chain, given },
                            StartupAction::Connect(gateway),
                        ),
                        None => unreached(),
                    }
                },
                Err(error) => (Startup::Decided, StartupAction::Fail(error)),
            },
            (Startup::ConnectingTo { chain, given }, StartupEvent::Connected) => if given {
                (Startup::CheckingSequencer { chain }, StartupAction::QuerySequencer)
            } else {
                (Startup::Decided, StartupAction::Ready(chain))
            },
            (Startup::CheckingSequencer { chain }, StartupEvent::Sequencer(sequencer)) => {
                if sequencer == chain {
                    (Startup::Decided, StartupAction::Ready(chain))
                } else {
                    (
                        Startup::Decided,
                        StartupAction::Fail(
                            StartupError::WrongSequencer { sequencer, expected: chain },
                        ),
                    )
                }
            },
            _ => unreached(),
        }
    }
}

/// What a node waits for, and does, after a series of events.
pub open spec fn after(
    config: Configuration,
    events: Seq<StartupEvent>,
    hashes: GenesisHashes,
) -> (Startup, StartupActionView)
    decreases events.len(),
{
    if events.len() == 0 {
        Startup::initial(config)
    } else {
        after(config, events.drop_last(), hashes).0.next(events.last(), hashes)
    }
}

/// Whether each event of a series is one that the node waits for when it comes.
pub open spec fn accepted(
    config: Configuration,
    events: Seq<StartupEvent>,
    hashes: GenesisHashes,
) -> bool
    decreases events.len(),
{
    events.len() > 0 ==> {
        &&& accepted(config, events.drop_last(), hashes)
        &&& after(config, events.drop_last(), hashes).0.accepts(events.last(), hashes)
    }
}

/// Whether what an event tells belongs to a chain.
pub open spec fn belongs(event: StartupEvent, chain: Chain, hashes: GenesisHashes) -> bool {
    match event {
        StartupEvent::Connected => true,
        StartupEvent::Genesis(genesis) => genesis matches Some(hash) ==> hashes.started_by(hash)
            == Some(chain),
        StartupEvent::DatabaseChain(database) => database matches Some(database) ==> database
            == chain,
        StartupEvent::Ethereum(ethereum) => chain.settles_on(ethereum),
        StartupEvent::Sequencer(sequencer) => sequencer == chain,
    }
}

/// Whether what all events tell belongs to a chain.
pub open spec fn all_belong(
    events: Seq<StartupEvent>,
    chain: Chain,
    hashes: GenesisHashes,
) -> bool {
    forall|i: int| 0 <= i < events.len() ==> belongs(#[trigger] events[i], chain, hashes)
}

/// The chain that the node follows, as far as it is known.
pub open spec fn followed(startup: Startup, action: StartupActionView) -> Option<Chain> {
    match startup {
        Startup::Connecting { chain, .. } => Some(chain),
        Startup::CheckingGenesis { chain } => Some(chain),
        Startup::CheckingEthereum { chain } => Some(chain),
        Startup::FindingChain { .. } => None,
        Startup::CheckingDatabase { chain, .. } => Some(chain),
        Startup::ConnectingTo { chain, .. } => Some(chain),
        Startup::CheckingSequencer { chain } => Some(chain),
        Startup::Decided => match action {
            StartupActionView::Ready(chain) => Some(chain),
            _ => None,
        },
    }
}

/// Whether the node has been told the Ethereum chain.
pub open spec fn told_ethereum(events: Seq<StartupEvent>) -> bool {
    exists|i: int| 0 <= i < events.len() && #[trigger] events[i] is Ethereum
}

/// Whether the node has been told what the database holds.
pub open spec fn told_database(events: Seq<StartupEvent>) -> bool {
    exists|i: int|
        0 <= i < events.len() && (#[trigger] events[i] is Genesis || events[i] is DatabaseChain)
}

/// Whether the node has been told the chain of the gateway.
pub open spec fn told_sequencer(events: Seq<StartupEvent>) -> bool {
    exists|i: int| 0 <= i < events.len() && #[trigger] events[i] is Sequencer
}

/// How many events a node has still to wait for, at most.
pub open spec fn remaining(startup: Startup) -> nat {
    match startup {
        Startup::Connecting { .. } => 3,
        Startup::CheckingGenesis { .. } => 2,
        Startup::CheckingEthereum { .. } => 1,
        Startup::FindingChain { .. } => 4,
        Startup::CheckingDatabase { .. } => 3,
        Startup::ConnectingTo { .. } => 2,
        Startup::CheckingSequencer { .. } => 1,
        Startup::Decided => 0,
    }
}

/// What is true of a node after any series of events.
proof fn lemma_followed_chain(
    config: Configuration,
    events: Seq<StartupEvent>,
    hashes: GenesisHashes,
)
    requires
        accepted(config, events, hashes),
    ensures
        ({
            let (startup, action) = after(config, events, hashes);
            &&& startup.wf()
            &&& remaining(startup) + events.len() <= 4
            &&& startup is Decided <==> (action is Ready || action is Fail)
            &&& startup is FindingChain ==> config.network is None
            &&& config.network is None && !(startup is FindingChain || startup is Decided)
                ==> startup is CheckingDatabase || startup is ConnectingTo
                || startup is CheckingSequencer
            &&& config.network is Some && !(startup is Decided) ==> startup is Connecting
                || startup is CheckingGenesis || startup is CheckingEthereum
            &&& followed(startup, action) matches Some(chain) ==> {
                &&& all_belong(events, chain, hashes)
                &&& config.network matches Some(network) ==> Chain::selected(network@) == Some(
                    chain,
                )
                &&& config.network is None ==> chain != Chain::Custom
                &&& (startup is Decided || config.network is None) ==> told_ethereum(events)
                &&& (startup is Decided || startup is CheckingEthereum || startup is ConnectingTo
                    || startup is CheckingSequencer) ==> told_database(events)
                &&& startup is Decided && config.network is None && config.gateway_url() is Some
                    ==> told_sequencer(events)
            }
            &&& startup matches Startup::FindingChain { url, .. } ==> url == config.gateway_url()
            &&& startup matches Startup::CheckingDatabase { url, .. } ==> url
                == config.gateway_url()
            &&& startup matches Startup::ConnectingTo { given, .. } ==> given
                == config.gateway_url() is Some
        }),
    decreases events.len(),
{
    if events.len() > 0 {
        let earlier = events.drop_last();
        lemma_followed_chain(config, earlier, hashes);
        let (before, _) = after(config, earlier, hashes);
        let (startup, action) = after(config, events, hashes);
        let event = events.last();
        assert(events[events.len() - 1] == event);
        if followed(startup, action) is Some {
            let chain = followed(startup, action)->0;
            assert forall|i: int| 0 <= i < events.len() implies belongs(
                #[trigger] events[i],
                chain,
                hashes,
            ) by {
                if i < earlier.len() {
                    assert(earlier[i] == events[i]);
                }
            }
            if told_ethereum(earlier) {
                let i = choose|i: int| 0 <= i < earlier.len() && #[trigger] earlier[i] is Ethereum;
                assert(events[i] is Ethereum);
            }
            if told_database(earlier) {
                let i = choose|i: int|
                    0 <= i < earlier.len() && (#[trigger] earlier[i] is Genesis
                        || earlier[i] is DatabaseChain);
                assert(events[i] is Genesis || events[i] is DatabaseChain);
            }
        }
    }
}

/// A node gets ready only if everything it relies on belongs to one chain: the database and the
/// Ethereum chain, which are always asked for, and, where no network is selected, a gateway whose
/// address was given. Where a network is selected, it is that chain.
pub proof fn law_ready_is_consistent(
    config: Configuration,
    events: Seq<StartupEvent>,
    hashes: GenesisHashes,
    chain: Chain,
)
    requires
        accepted(config, events, hashes),
        after(config, events, hashes).1 == StartupActionView::Ready(chain),
    ensures
        all_belong(events, chain, hashes),
        told_ethereum(events),
        told_database(events),
        config.network is None && (config.sequencer_url is Some || config.gateway is Some)
            ==> told_sequencer(events),
        config.network matches Some(network) ==> Chain::selected(network@) == Some(chain),
{
    lemma_followed_chain(config, events, hashes);
}

/// A custom network does not get ready: no Ethereum chain is known to carry it.
pub proof fn law_custom_network_is_never_ready(
    config: Configuration,
    events: Seq<StartupEvent>,
    hashes: GenesisHashes,
)
    requires
        accepted(config, events, hashes),
    ensures
        after(config, events, hashes).1 != StartupActionView::Ready(Chain::Custom),
{
    lemma_followed_chain(config, events, hashes);
    if after(config, events, hashes).1 == StartupActionView::Ready(Chain::Custom) {
        let i = choose|i: int| 0 <= i < events.len() && #[trigger] events[i] is Ethereum;
        assert(belongs(events[i], Chain::Custom, hashes));
    }
}

/// A node waits for at most four events, and has decided once it waits for none.
pub proof fn law_startup_decides(
    config: Configuration,
    events: Seq<StartupEvent>,
    hashes: GenesisHashes,
)
    requires
        accepted(config, events, hashes),
    ensures
        events.len() <= 4,
        events.len() == 4 ==> after(config, events, hashes).0 is Decided,
        after(config, events, hashes).0 is Decided <==> (after(config, events, hashes).1 is Ready
            || after(config, events, hashes).1 is Fail),
{
    lemma_followed_chain(config, events, hashes);
}

/// A node with a network selected gets ready if everything it relies on belongs to that network.
pub proof fn law_consistent_network_gets_ready(
    config: Configuration,
    network: String,
    chain: Chain,
    genesis: Option<Felt>,
    ethereum: EthereumChain,
    hashes: GenesisHashes,
)
    requires
        config.network == Some(network),
        Chain::selected(network@) == Some(chain),
        belongs(StartupEvent::Genesis(genesis), chain, hashes),
        chain.settles_on(ethereum),
    ensures
        ({
            let events = seq![
                StartupEvent::Connected,
                StartupEvent::Genesis(genesis),
                StartupEvent::Ethereum(ethereum),
            ];
            &&& accepted(config, events, hashes)
            &&& after(config, events, hashes).1 == StartupActionView::Ready(chain)
        }),
{
    let events = seq![
        StartupEvent::Connected,
        StartupEvent::Genesis(genesis),
        StartupEvent::Ethereum(ethereum),
    ];
    assert(events.drop_last().drop_last().drop_last() =~= Seq::empty());
    reveal_with_fuel(after, 4);
    reveal_with_fuel(accepted, 4);
}

/// A node without a network selected gets ready if the flags fit the Ethereum chain, and everything
/// it relies on belongs to the chain that follows from them.
pub proof fn law_consistent_flags_get_ready(
    config: Configuration,
    chain: Chain,
    ethereum: EthereumChain,
    database: Option<Chain>,
    hashes: GenesisHashes,
)
    requires
        config.network is None,
        chain_from_flags(ethereum, config.integration, config.testnet2) == Ok::<Chain, StartupError>(
            chain,
        ),
        belongs(StartupEvent::DatabaseChain(database), chain, hashes),
    ensures
        ({
            let events = seq![
                StartupEvent::Ethereum(ethereum),
                StartupEvent::DatabaseChain(database),
                StartupEvent::Connected,
            ];
            let checked = events.push(StartupEvent::Sequencer(chain));
            &&& accepted(config, events, hashes)
            &&& config.sequencer_url is None && config.gateway is None ==> after(
                config,
                events,
                hashes,
            ).1 == StartupActionView::Ready(chain)
            &&& config.sequencer_url is Some || config.gateway is Some ==> accepted(config, checked, hashes) && after(
                config,
                checked,
                hashes,
            ).1 == StartupActionView::Ready(chain)
        }),
{
    let events = seq![
        StartupEvent::Ethereum(ethereum),
        StartupEvent::DatabaseChain(database),
        StartupEvent::Connected,
    ];
    assert(events.drop_last().drop_last().drop_last() =~= Seq::empty());
    assert(events.push(StartupEvent::Sequencer(chain)).drop_last() =~= events);
    reveal_with_fuel(after, 5);
    reveal_with_fuel(accepted, 5);
}

/// Whether `chain` follows from the flags and an Ethereum chain that the node has been told.
pub open spec fn derived(config: Configuration, events: Seq<StartupEvent>, chain: Chain) -> bool {
    exists|ethereum: EthereumChain| #[trigger]
        events.contains(StartupEvent::Ethereum(ethereum)) && chain_from_flags(
            ethereum,
            config.integration,
            config.testnet2,
        ) == Ok::<Chain, StartupError>(chain)
}

/// Whether `chain` is that of the selected network.
pub open spec fn is_selected(config: Configuration, chain: Chain) -> bool {
    config.network matches Some(network) && Chain::selected(network@) == Some(chain)
}

proof fn lemma_told_earlier(config: Configuration, events: Seq<StartupEvent>)
    requires
        events.len() > 0,
    ensures
        events.contains(events.last()),
        forall|event: StartupEvent|
            events.drop_last().contains(event) ==> #[trigger] events.contains(event),
        forall|chain: Chain|
            derived(config, events.drop_last(), chain) ==> #[trigger] derived(
                config,
                events,
                chain,
            ),
{
    let earlier = events.drop_last();
    assert(events[events.len() - 1] == events.last());
    assert forall|event: StartupEvent| earlier.contains(event) implies #[trigger] events.contains(
        event,
    ) by {
        let i = choose|i: int| 0 <= i < earlier.len() && earlier[i] == event;
        assert(events[i] == event);
    }
    assert forall|chain: Chain| derived(config, earlier, chain) implies #[trigger] derived(
        config,
        events,
        chain,
    ) by {
        let ethereum = choose|ethereum: EthereumChain| #[trigger]
            earlier.contains(StartupEvent::Ethereum(ethereum)) && chain_from_flags(
                ethereum,
                config.integration,
                config.testnet2,
            ) == Ok::<Chain, StartupError>(chain);
        assert(events.contains(StartupEvent::Ethereum(ethereum)));
    }
}

/// Where what a node holds comes from.
proof fn lemma_origin(config: Configuration, events: Seq<StartupEvent>, hashes: GenesisHashes)
    requires
        accepted(config, events, hashes),
    ensures
        match after(config, events, hashes).0 {
            Startup::Connecting { chain, journal_mode } => is_selected(config, chain) && (
            journal_mode == JournalMode::WAL <==> config.sqlite_wal),
            Startup::CheckingGenesis { chain } => is_selected(config, chain),
            Startup::CheckingEthereum { chain } => is_selected(config, chain),
            Startup::FindingChain { integration, testnet2, url, journal_mode } => {
                &&& config.network is None
                &&& integration == config.integration
                &&& testnet2 == config.testnet2
                &&& config.sequencer_url is Some ==> url == config.sequencer_url
                &&& config.sequencer_url is None ==> url == config.gateway
                &&& journal_mode == JournalMode::WAL <==> config.sqlite_wal
            },
            Startup::CheckingDatabase { chain, url } => {
                &&& config.network is None
                &&& chain != Chain::Custom
                &&& derived(config, events, chain)
                &&& config.sequencer_url is Some ==> url == config.sequencer_url
                &&& config.sequencer_url is None ==> url == config.gateway
            },
            Startup::ConnectingTo { chain, given } => {
                &&& config.network is None
                &&& chain != Chain::Custom
                &&& derived(config, events, chain)
                &&& given <==> config.sequencer_url is Some || config.gateway is Some
            },
            Startup::CheckingSequencer { chain } => {
                &&& config.network is None
                &&& derived(config, events, chain)
                &&& config.sequencer_url is Some || config.gateway is Some
            },
            Startup::Decided => true,
        },
    decreases events.len(),
{
    if events.len() > 0 {
        lemma_origin(config, events.drop_last(), hashes);
        lemma_told_earlier(config, events);
    }
}

/// A node talks to the gateway at the address that is given for the sequencer, else at the one that is
/// given for the gateway, and only without either to the public gateway of its chain.
pub proof fn law_given_gateway_is_used(
    config: Configuration,
    events: Seq<StartupEvent>,
    hashes: GenesisHashes,
    gateway: Gateway,
)
    requires
        accepted(config, events, hashes),
        after(config, events, hashes).1 == StartupActionView::Connect(gateway),
    ensures
        config.sequencer_url matches Some(url) ==> gateway == Gateway::Url(url),
        config.sequencer_url is None ==> (config.gateway matches Some(url) ==> gateway
            == Gateway::Url(url)),
        config.sequencer_url is None && config.gateway is None ==> (
        gateway matches Gateway::Public(chain) && chain != Chain::Custom && if config.network is Some {
            is_selected(config, chain)
        } else {
            derived(config, events, chain)
        }),
{
    if events.len() > 0 {
        lemma_origin(config, events.drop_last(), hashes);
        lemma_told_earlier(config, events);
    }
}

/// What a node does first: with a network selected it connects to the gateway, if it has one, and
/// without it asks for the Ethereum chain.
pub proof fn law_first_action(config: Configuration)
    ensures
        ({
            let action = Startup::initial(config).1;
            match config.network {
                None => action is QueryEthereum,
                Some(network) => match Chain::selected(network@) {
                    None => action == StartupActionView::Fail(
                        StartupError::UnknownNetwork(network),
                    ),
                    Some(chain) => if config.sequencer_url is Some || config.gateway is Some {
                        action matches StartupActionView::Connect(Gateway::Url(url)) && (Some(url)
                            == config.sequencer_url || (config.sequencer_url is None && Some(url)
                            == config.gateway))
                    } else if chain == Chain::Custom {
                        action == StartupActionView::Fail(StartupError::GatewayRequired)
                    } else {
                        action == StartupActionView::Connect(Gateway::Public(chain))
                    },
                },
            }
        }),
{
}

/// The gateway is asked for its chain exactly where no network is selected and its address is given;
/// where it is not given, the node is ready once the client is.
pub proof fn law_given_gateway_is_asked_for_its_chain(
    config: Configuration,
    events: Seq<StartupEvent>,
    hashes: GenesisHashes,
)
    requires
        accepted(config, events, hashes),
    ensures
        ({
            let (startup, action) = after(config, events, hashes);
            let (_, reaction) = startup.next(StartupEvent::Connected, hashes);
            &&& action is QuerySequencer ==> config.network is None && (
            config.sequencer_url is Some || config.gateway is Some)
            &&& startup is ConnectingTo ==> if config.sequencer_url is Some || config.gateway is Some {
                reaction is QuerySequencer
            } else {
                reaction matches StartupActionView::Ready(chain) && derived(config, events, chain)
            }
        }),
{
    lemma_origin(config, events, hashes);
    if events.len() > 0 {
        lemma_origin(config, events.drop_last(), hashes);
    }
}

/// A node opens the database of the chain it follows, with a write-ahead log exactly if that is asked
/// for.
pub proof fn law_database_of_the_chain_is_opened(
    config: Configuration,
    events: Seq<StartupEvent>,
    hashes: GenesisHashes,
)
    requires
        accepted(config, events, hashes),
    ensures
        match after(config, events, hashes).1 {
            StartupActionView::ReadGenesis { database, journal_mode } => {
                &&& exists|chain: Chain| #[trigger]
                    is_selected(config, chain) && database == chain.database()
                &&& journal_mode == JournalMode::WAL <==> config.sqlite_wal
            },
            StartupActionView::ReadChain { database, journal_mode } => {
                &&& config.network is None
                &&& exists|chain: Chain| #[trigger]
                    derived(config, events, chain) && database == chain.database()
                &&& journal_mode == JournalMode::WAL <==> config.sqlite_wal
            },
            _ => true,
        },
{
    if events.len() > 0 {
        let earlier = events.drop_last();
        lemma_origin(config, earlier, hashes);
        lemma_origin(config, events, hashes);
        match after(config, events, hashes).0 {
            Startup::CheckingGenesis { chain } => {
                assert(is_selected(config, chain));
            },
            Startup::CheckingDatabase { chain, .. } => {
                assert(derived(config, events, chain));
            },
            _ => {},
        }
    }
}

/// Each flag selects its chain, and without a flag the chain is the one that Ethereum suggests. On
/// Ethereum mainnet no flag is allowed, and elsewhere not both.
pub proof fn law_flags_tell_the_chain(ethereum: EthereumChain, integration: bool, testnet2: bool)
    ensures
        match chain_from_flags(ethereum, integration, testnet2) {
            Ok(chain) => {
                &&& chain.settles_on(ethereum)
                &&& chain == Chain::Integration <==> integration
                &&& chain == Chain::Testnet2 <==> testnet2
                &&& chain == Chain::Mainnet <==> ethereum == EthereumChain::Mainnet
            },
            Err(error) => if ethereum == EthereumChain::Mainnet {
                error == StartupError::FlagOnMainnet && (integration || testnet2)
            } else {
                error == StartupError::ConflictingFlags && integration && testnet2
            },
        },
{
}

/// A node gives up only for a reason that the configuration and what it was told bear out.
pub proof fn law_failure_has_its_cause(
    config: Configuration,
    events: Seq<StartupEvent>,
    hashes: GenesisHashes,
    error: StartupError,
)
    requires
        accepted(config, events, hashes),
        after(config, events, hashes).1 == StartupActionView::Fail(error),
    ensures
        match error {
            StartupError::UnknownNetwork(name) => config.network == Some(name) && Chain::selected(
                name@,
            ) is None,
            StartupError::GatewayRequired => is_selected(config, Chain::Custom)
                && config.sequencer_url is None && config.gateway is None,
            StartupError::WrongGenesis { database, selected } => {
                &&& is_selected(config, selected)
                &&& database != selected
                &&& exists|hash: Felt| #[trigger]
                    events.contains(StartupEvent::Genesis(Some(hash))) && hashes.started_by(hash)
                        == Some(database)
            },
            StartupError::WrongEthereum { selected, ethereum } => {
                &&& is_selected(config, selected)
                &&& events.contains(StartupEvent::Ethereum(ethereum))
                &&& !selected.settles_on(ethereum)
            },
            StartupError::FlagOnMainnet => {
                &&& config.network is None
                &&& events.contains(StartupEvent::Ethereum(EthereumChain::Mainnet))
                &&& config.integration || config.testnet2
            },
            StartupError::ConflictingFlags => {
                &&& config.network is None
                &&& events.contains(StartupEvent::Ethereum(EthereumChain::Goerli))
                &&& config.integration && config.testnet2
            },
            StartupError::WrongDatabase { database, expected } => {
                &&& config.network is None
                &&& derived(config, events, expected)
                &&& events.contains(StartupEvent::DatabaseChain(Some(database)))
                &&& database != expected
            },
            StartupError::WrongSequencer { sequencer, expected } => {
                &&& config.network is None
                &&& derived(config, events, expected)
                &&& events.contains(StartupEvent::Sequencer(sequencer))
                &&& sequencer != expected
                &&& config.sequencer_url is Some || config.gateway is Some
            },
        },
{
    if events.len() > 0 {
        let earlier = events.drop_last();
        lemma_origin(config, earlier, hashes);
        lemma_told_earlier(config, events);
        if let StartupEvent::Genesis(Some(hash)) = events.last() {
            assert(events.contains(StartupEvent::Genesis(Some(hash))));
        }
    }
}

/// A message about an unknown network starts with the whole name that was given, and goes on the same
/// way whatever the name.
pub proof fn law_unknown_network_is_named(name: String, other: String)
    ensures
        StartupError::UnknownNetwork(name).text().take(name@.len() as int) == name@,
        StartupError::UnknownNetwork(name).text().skip(name@.len() as int)
            == StartupError::UnknownNetwork(other).text().skip(other@.len() as int),
{
    let rest =
        " is not a valid network selection. Please specify one of: mainnet, testnet, testnet2, integration or custom."@;
    assert((name@ + rest).take(name@.len() as int) =~= name@);
    assert((name@ + rest).skip(name@.len() as int) =~= rest);
    assert((other@ + rest).skip(other@.len() as int) =~= rest);
}

/// A message about a mismatch names both sides in full, each in its place.
pub proof fn law_mismatch_names_both_sides(left: Chain, right: Chain, ethereum: EthereumChain)
    ensures
        (StartupError::WrongGenesis { database: left, selected: right }).text()
            == "Database genesis hash does not match selected network. Database hash is from "@
            + left.name() + " network but you selected "@ + right.name(),
        (StartupError::WrongEthereum { selected: left, ethereum }).text() == "StarkNet's "@
            + left.name() + " chain does not run on the provided Ethereum URL which is "@
            + ethereum.name(),
        (StartupError::WrongDatabase { database: left, expected: right }).text() == "Database ("@
            + left.name() + ") does not match the expected network ("@ + right.name() + ")"@,
        (StartupError::WrongSequencer { sequencer: left, expected: right }).text()
            == "Sequencer and Ethereum network mismatch. Sequencer is on "@ + left.name()
            + " but Ethereum is on "@ + right.name(),
{
}

/// Only a database of the wrong chain is found while the database is verified.
pub proof fn law_only_a_wrong_database_has_a_context(error: StartupError)
    ensures
        error.during() is Some <==> error is WrongDatabase,
        error is WrongDatabase ==> error.during() == Some("Verifying database"@),
{
}

/// A node takes every answer to what it does: any chain, and any first block but one that no public
/// chain starts with.
pub proof fn law_every_answer_is_taken(
    startup: Startup,
    hashes: GenesisHashes,
    hash: Felt,
    database: Option<Chain>,
    ethereum: EthereumChain,
    sequencer: Chain,
)
    ensures
        startup is Connecting || startup is ConnectingTo <==> startup.accepts(
            StartupEvent::Connected,
            hashes,
        ),
        startup is CheckingGenesis <==> startup.accepts(StartupEvent::Genesis(None), hashes),
        startup is CheckingGenesis && (hash == hashes.mainnet || hash == hashes.testnet || hash
            == hashes.testnet2 || hash == hashes.integration) <==> startup.accepts(
            StartupEvent::Genesis(Some(hash)),
            hashes,
        ),
        startup is CheckingDatabase <==> startup.accepts(
            StartupEvent::DatabaseChain(database),
            hashes,
        ),
        startup is CheckingEthereum || startup is FindingChain <==> startup.accepts(
            StartupEvent::Ethereum(ethereum),
            hashes,
        ),
        startup is CheckingSequencer <==> startup.accepts(
            StartupEvent::Sequencer(sequencer),
            hashes,
        ),
{
}

/// What is said of an action is all that it holds.
pub proof fn law_action_view_leaves_nothing_out(action: StartupAction)
    ensures
        match (action, action@) {
            (StartupAction::Connect(gateway), StartupActionView::Connect(viewed)) => viewed
                == gateway,
            (
                StartupAction::ReadGenesis { database, journal_mode },
                StartupActionView::ReadGenesis { database: name, journal_mode: mode },
            ) => name == database@ && mode == journal_mode,
            (
                StartupAction::ReadChain { database, journal_mode },
                StartupActionView::ReadChain { database: name, journal_mode: mode },
            ) => name == database@ && mode == journal_mode,
            (StartupAction::QueryEthereum, StartupActionView::QueryEthereum) => true,
            (StartupAction::QuerySequencer, StartupActionView::QuerySequencer) => true,
            (StartupAction::Ready(chain), StartupActionView::Ready(viewed)) => viewed == chain,
            (StartupAction::Fail(error), StartupActionView::Fail(viewed)) => viewed == error,
            _ => false,
        },
{
}

} // verus!
