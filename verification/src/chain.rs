//! The chains that a node can follow.

use vstd::prelude::*;

use crate::felt::Felt;

verus! {

/// A StarkNet chain.
#[derive(Clone, Copy, Debug, PartialEq, Eq, Structural)]
pub enum Chain {
    Mainnet,
    Testnet,
    Testnet2,
    Integration,
    Custom,
}

/// An Ethereum chain, on which StarkNet chains settle.
#[derive(Clone, Copy, Debug, PartialEq, Eq, Structural)]
pub enum EthereumChain {
    Mainnet,
    Goerli,
}

impl Chain {
    /// The chain that a network selection names.
    pub open spec fn selected(network: Seq<char>) -> Option<Chain> {
        if network == "mainnet"@ {
            Some(Chain::Mainnet)
        } else if network == "testnet"@ {
            Some(Chain::Testnet)
        } else if network == "testnet2"@ {
            Some(Chain::Testnet2)
        } else if network == "integration"@ {
            Some(Chain::Integration)
        } else if network == "custom"@ {
            Some(Chain::Custom)
        } else {
            None
        }
    }

    pub fn from_network(network: &String) -> (chain: Option<Chain>)
        ensures
            chain == Chain::selected(network@),
    {
        if *network == "mainnet".to_owned() {
            Some(Chain::Mainnet)
        } else if *network == "testnet".to_owned() {
            Some(Chain::Testnet)
        } else if *network == "testnet2".to_owned() {
            Some(Chain::Testnet2)
        } else if *network == "integration".to_owned() {
            Some(Chain::Integration)
        } else if *network == "custom".to_owned() {
            Some(Chain::Custom)
        } else {
            None
        }
    }

    /// The name of the file that holds the database of the chain.
    pub open spec fn database(self) -> Seq<char> {
        match self {
            Chain::Mainnet => "mainnet.sqlite"@,
            Chain::Testnet => "goerli.sqlite"@,
            Chain::Testnet2 => "testnet2.sqlite"@,
            Chain::Integration => "integration.sqlite"@,
            Chain::Custom => "custom.sqlite"@,
        }
    }

    pub fn database_file(self) -> (name: String)
        ensures
            name@ == self.database(),
    {
        match self {
            Chain::Mainnet => "mainnet.sqlite".to_owned(),
            Chain::Testnet => "goerli.sqlite".to_owned(),
            Chain::Testnet2 => "testnet2.sqlite".to_owned(),
            Chain::Integration => "integration.sqlite".to_owned(),
            Chain::Custom => "custom.sqlite".to_owned(),
        }
    }

    /// Whether the chain settles on an Ethereum chain.
    pub open spec fn settles_on(self, ethereum: EthereumChain) -> bool {
        match self {
            Chain::Mainnet => ethereum == EthereumChain::Mainnet,
            Chain::Testnet => ethereum == EthereumChain::Goerli,
            Chain::Testnet2 => ethereum == EthereumChain::Goerli,
            Chain::Integration => ethereum == EthereumChain::Goerli,
            Chain::Custom => false,
        }
    }

    pub fn runs_on(self, ethereum: EthereumChain) -> (runs: bool)
        ensures
            runs == self.settles_on(ethereum),
    {
        match (self, ethereum) {
            (Chain::Mainnet, EthereumChain::Mainnet) => true,
            (
                Chain::Testnet | Chain::Testnet2 | Chain::Integration,
                EthereumChain::Goerli,
            ) => true,
            _ => false,
        }
    }

    /// The name under which the chain appears in messages.
    pub open spec fn name(self) -> Seq<char> {
        match self {
            Chain::Mainnet => "Mainnet"@,
            Chain::Testnet => "Testnet"@,
            Chain::Testnet2 => "Testnet2"@,
            Chain::Integration => "Integration"@,
            Chain::Custom => "Custom"@,
        }
    }

    pub fn to_text(self) -> (text: String)
        ensures
            text@ == self.name(),
    {
        match self {
            Chain::Mainnet => "Mainnet".to_owned(),
            Chain::Testnet => "Testnet".to_owned(),
            Chain::Testnet2 => "Testnet2".to_owned(),
            Chain::Integration => "Integration".to_owned(),
            Chain::Custom => "Custom".to_owned(),
        }
    }
}

impl EthereumChain {
    /// The name under which the chain appears in messages.
    pub open spec fn name(self) -> Seq<char> {
        match self {
            EthereumChain::Mainnet => "Mainnet"@,
            EthereumChain::Goerli => "Goerli"@,
        }
    }

    pub fn to_text(self) -> (text: String)
        ensures
            text@ == self.name(),
    {
        match self {
            EthereumChain::Mainnet => "Mainnet".to_owned(),
            EthereumChain::Goerli => "Goerli".to_owned(),
        }
    }
}

/// The hash of the first block of each public chain.
#[derive(Clone, Copy, Debug, PartialEq, Eq, Structural)]
pub struct GenesisHashes {
    pub testnet: Felt,
    pub testnet2: Felt,
    pub mainnet: Felt,
    pub integration: Felt,
}

impl GenesisHashes {
    /// The public chain that starts with the block of this hash.
    pub open spec fn started_by(self, hash: Felt) -> Option<Chain> {
        if hash == self.testnet {
            Some(Chain::Testnet)
        } else if hash == self.testnet2 {
            Some(Chain::Testnet2)
        } else if hash == self.mainnet {
            Some(Chain::Mainnet)
        } else if hash == self.integration {
            Some(Chain::Integration)
        } else {
            None
        }
    }

    pub fn chain_of(&self, hash: Felt) -> (chain: Option<Chain>)
        ensures
            chain == self.started_by(hash),
    {
        if hash == self.testnet {
            Some(Chain::Testnet)
        } else if hash == self.testnet2 {
            Some(Chain::Testnet2)
        } else if hash == self.mainnet {
            Some(Chain::Mainnet)
        } else if hash == self.integration {
            Some(Chain::Integration)
        } else {
            None
        }
    }
}

/// No two chains share a database.
pub proof fn law_databases_are_distinct(left: Chain, right: Chain)
    requires
        left != right,
    ensures
        left.database() != right.database(),
{
    reveal_strlit("mainnet.sqlite");
    reveal_strlit("goerli.sqlite");
    reveal_strlit("testnet2.sqlite");
    reveal_strlit("integration.sqlite");
    reveal_strlit("custom.sqlite");
    assert(left.database()[0] != right.database()[0] || left.database().len()
        != right.database().len());
}

/// Each network has one name by which it is selected, and no other text selects anything.
pub proof fn law_networks_are_selected_by_name(network: Seq<char>)
    ensures
        Chain::selected(network) == Some(Chain::Mainnet) <==> network == "mainnet"@,
        Chain::selected(network) == Some(Chain::Testnet) <==> network == "testnet"@,
        Chain::selected(network) == Some(Chain::Testnet2) <==> network == "testnet2"@,
        Chain::selected(network) == Some(Chain::Integration) <==> network == "integration"@,
        Chain::selected(network) == Some(Chain::Custom) <==> network == "custom"@,
{
    reveal_strlit("mainnet");
    reveal_strlit("testnet");
    reveal_strlit("testnet2");
    reveal_strlit("integration");
    reveal_strlit("custom");
    assert("mainnet"@[0] == 'm');
    assert("testnet"@[0] == 't');
    assert("testnet2"@.len() == 8);
    assert("integration"@[0] == 'i');
    assert("custom"@[0] == 'c');
}

/// The database of a selected network is named after it; that of the test network bears the name of
/// the Ethereum chain.
pub proof fn law_database_is_named_after_the_network(network: Seq<char>, chain: Chain)
    requires
        Chain::selected(network) == Some(chain),
    ensures
        network != "testnet"@ ==> chain.database() == network + ".sqlite"@,
        network == "testnet"@ ==> chain.database() == "goerli"@ + ".sqlite"@,
{
    law_networks_are_selected_by_name(network);
    reveal_strlit("mainnet");
    reveal_strlit("testnet2");
    reveal_strlit("integration");
    reveal_strlit("custom");
    reveal_strlit("goerli");
    reveal_strlit(".sqlite");
    reveal_strlit("mainnet.sqlite");
    reveal_strlit("goerli.sqlite");
    reveal_strlit("testnet2.sqlite");
    reveal_strlit("integration.sqlite");
    reveal_strlit("custom.sqlite");
    assert("mainnet.sqlite"@ =~= "mainnet"@ + ".sqlite"@);
    assert("goerli.sqlite"@ =~= "goerli"@ + ".sqlite"@);
    assert("testnet2.sqlite"@ =~= "testnet2"@ + ".sqlite"@);
    assert("integration.sqlite"@ =~= "integration"@ + ".sqlite"@);
    assert("custom.sqlite"@ =~= "custom"@ + ".sqlite"@);
}

/// Messages name a network as it is selected, with a capital.
pub proof fn law_name_is_that_of_the_network(network: Seq<char>, chain: Chain)
    requires
        Chain::selected(network) == Some(chain),
    ensures
        chain.name().len() == network.len(),
        chain.name().skip(1) == network.skip(1),
        chain.name()[0] as int + 32 == network[0] as int,
{
    law_networks_are_selected_by_name(network);
    reveal_strlit("mainnet");
    reveal_strlit("testnet");
    reveal_strlit("testnet2");
    reveal_strlit("integration");
    reveal_strlit("custom");
    reveal_strlit("Mainnet");
    reveal_strlit("Testnet");
    reveal_strlit("Testnet2");
    reveal_strlit("Integration");
    reveal_strlit("Custom");
    assert(chain.name().skip(1) =~= network.skip(1));
}

/// StarkNet's main chain settles on Ethereum's, and the public test chains settle on Goerli; a custom
/// chain settles on neither.
pub proof fn law_main_chain_settles_on_main_chain(chain: Chain, ethereum: EthereumChain)
    ensures
        chain == Chain::Custom ==> !chain.settles_on(ethereum),
        chain != Chain::Custom ==> (chain.settles_on(ethereum) <==> (chain == Chain::Mainnet <==>
            ethereum == EthereumChain::Mainnet)),
{
}

/// A first block belongs to the chain whose hash it has, and to none if it has that of no public
/// chain.
pub proof fn law_first_block_tells_the_chain(hashes: GenesisHashes, hash: Felt)
    ensures
        match hashes.started_by(hash) {
            Some(Chain::Mainnet) => hash == hashes.mainnet,
            Some(Chain::Testnet) => hash == hashes.testnet,
            Some(Chain::Testnet2) => hash == hashes.testnet2,
            Some(Chain::Integration) => hash == hashes.integration,
            Some(Chain::Custom) => false,
            None => hash != hashes.mainnet && hash != hashes.testnet && hash != hashes.testnet2
                && hash != hashes.integration,
        },
{
}

/// Messages name the Ethereum chains by two different names.
pub proof fn law_ethereum_chains_are_named(ethereum: EthereumChain)
    ensures
        ethereum.name() == "Mainnet"@ <==> ethereum == EthereumChain::Mainnet,
        ethereum.name() == "Goerli"@ <==> ethereum == EthereumChain::Goerli,
{
    reveal_strlit("Mainnet");
    reveal_strlit("Goerli");
    assert("Mainnet"@.len() != "Goerli"@.len());
}

} // verus!
