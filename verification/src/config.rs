use vstd::prelude::*;

verus! {

/// The settings of a faucet.
#[derive(Debug, Clone)]
pub struct Config {
    /// Address of the node, as host and port.
    pub kaspad_url: String,
    /// Port on which the faucet listens.
    pub port: u16,
    /// Key of the wallet that pays the claims.
    pub faucet_private_key: String,
    /// What one claim pays, in sompi.
    pub amount_per_claim: u64,
    /// How long a claimant waits between two claims, in seconds.
    pub claim_interval_seconds: u64,
}

impl Default for Config {
    /// A local node, port 3010, no key, 100 000 000 sompi a claim, one claim an hour.
    fn default() -> (config: Config)
        ensures
            config.kaspad_url@ == "127.0.0.1:16210"@,
            config.port == 3010,
            config.faucet_private_key@ == Seq::<char>::empty(),
            config.amount_per_claim == 100_000_000,
            config.claim_interval_seconds == 3600,
    {
        Config {
            kaspad_url: "127.0.0.1:16210".to_owned(),
            port: 3010,
            faucet_private_key: String::new(),
            amount_per_claim: 100_000_000,
            claim_interval_seconds: 3600,
        }
    }
}

} // verus!
