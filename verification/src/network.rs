//! The network where the node resides.
use vstd::prelude::*;
use crate::text::str_eq;

verus! {

/// Numeric identifier of the L1 network.
#[derive(Clone, Copy, Debug, PartialEq, Eq, Structural)]
pub struct L1ChainId(pub u64);

/// Network to be used for a client.
#[derive(Clone, Copy, Debug, PartialEq, Eq, Structural)]
pub enum Network {
    /// Filecoin Mainnet.
    Mainnet,
    /// Filecoin Calibration testnet.
    Calibration,
    /// Self-hosted Filecoin network.
    Localhost,
    /// Unknown network type.
    Unknown,
    /// Test network for testkit purposes
    Test,
}

/// The network that a chain id designates.
pub open spec fn network_of_chain_id(id: u64) -> Network {
    if id == 314 {
        Network::Mainnet
    } else if id == 314159 {
        Network::Calibration
    } else if id == 31415926 {
        Network::Localhost
    } else {
        Network::Unknown
    }
}

/// The chain id of a network that has one (`Mainnet`, `Calibration`, `Localhost`).
pub open spec fn chain_id_of(n: Network) -> u64 {
    match n {
        Network::Mainnet => 314,
        Network::Calibration => 314159,
        _ => 31415926,
    }
}

/// The name a network is written with.
pub open spec fn network_name(n: Network) -> Seq<char> {
    match n {
        Network::Mainnet => "mainnet"@,
        Network::Calibration => "calibration"@,
        Network::Localhost => "localhost"@,
        Network::Unknown => "unknown"@,
        Network::Test => "test"@,
    }
}

/// The network a name parses to; `Unknown` has no name that parses.
pub open spec fn network_from_name(s: Seq<char>) -> Option<Network> {
    if s == "mainnet"@ {
        Some(Network::Mainnet)
    } else if s == "calibration"@ {
        Some(Network::Calibration)
    } else if s == "localhost"@ {
        Some(Network::Localhost)
    } else if s == "test"@ {
        Some(Network::Test)
    } else {
        None
    }
}

impl Network {
    /// Returns the network of the given chain ID on the Ethereum side.
    pub fn from_chain_id(chain_id: L1ChainId) -> (n: Self)
        ensures
            n == network_of_chain_id(chain_id.0),
    {
        match chain_id.0 {
            314 => Network::Mainnet,
            314159 => Network::Calibration,
            31415926 => Network::Localhost,
            _ => Network::Unknown,
        }
    }

    /// Returns the network chain ID on the Ethereum side.
    /// `Unknown` and `Test` have none.
    pub fn chain_id(self) -> (id: L1ChainId)
        requires
            self != Network::Unknown,
            self != Network::Test,
        ensures
            id.0 == chain_id_of(self),
    {
        match self {
            Network::Mainnet => L1ChainId(314),
            Network::Calibration => L1ChainId(314159),
            _ => L1ChainId(31415926),
        }
    }

    /// Parses a network name; the error holds the unrecognised input.
    pub fn from_str(s: &str) -> (r: Result<Network, String>)
        ensures
            match r {
                Ok(n) => network_from_name(s@) == Some(n),
                Err(e) => network_from_name(s@).is_none() && e@ == s@,
            },
    {
        proof {
            reveal_strlit("mainnet");
            reveal_strlit("calibration");
            reveal_strlit("localhost");
            reveal_strlit("test");
        }
        if str_eq(s, "mainnet") {
            Ok(Network::Mainnet)
        } else if str_eq(s, "calibration") {
            Ok(Network::Calibration)
        } else if str_eq(s, "localhost") {
            Ok(Network::Localhost)
        } else if str_eq(s, "test") {
            Ok(Network::Test)
        } else {
            Err(s.to_owned())
        }
    }

    /// The name the network is written with (its display form).
    pub fn as_str(&self) -> (s: &'static str)
        ensures
            s@ == network_name(*self),
    {
        match self {
            Network::Mainnet => "mainnet",
            Network::Calibration => "calibration",
            Network::Localhost => "localhost",
            Network::Unknown => "unknown",
            Network::Test => "test",
        }
    }

    /// The display form as an owned string.
    pub fn to_string(&self) -> (s: String)
        ensures
            s@ == network_name(*self),
    {
        self.as_str().to_owned()
    }
}

/// Every network with a chain id is found again from that chain id.
pub proof fn law_chain_id_round_trip(n: Network)
    requires
        n != Network::Unknown,
        n != Network::Test,
    ensures
        network_of_chain_id(chain_id_of(n)) == n,
{
}

/// Every network's name parses back to it, except `Unknown`, whose name is not accepted.
pub proof fn law_name_round_trip(n: Network)
    ensures
        n != Network::Unknown ==> network_from_name(network_name(n)) == Some(n),
        n == Network::Unknown ==> network_from_name(network_name(n)).is_none(),
{
    reveal_strlit("mainnet");
    reveal_strlit("calibration");
    reveal_strlit("localhost");
    reveal_strlit("unknown");
    reveal_strlit("test");
    // the names differ in their first character
    assert("mainnet"@[0] == 'm');
    assert("calibration"@[0] == 'c');
    assert("localhost"@[0] == 'l');
    assert("unknown"@[0] == 'u');
    assert("test"@[0] == 't');
}

} // verus!
