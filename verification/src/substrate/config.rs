use crate::text::{parse_u32, parse_u64, spec_parse_u32, spec_parse_u64, str_eq};
use vstd::prelude::*;
use vstd::string::*;

verus! {

/// The endpoint that is used where none is named.
pub const DEFAULT_ASSET_HUB_RPC_URL: &'static str = "https://rpc.api.moonbase.moonbeam.network";

/// How long a submission may take where nothing else is set, in seconds.
pub const DEFAULT_SUBMISSION_TIMEOUT_SECS: u64 = 120;

/// How many tries a submission gets where nothing else is set.
pub const DEFAULT_RETRY_COUNT: u32 = 5;

/// The gas limit of a call where nothing else is set.
pub const DEFAULT_GAS_LIMIT: u64 = 500_000;

/// How the server reaches the ledger.
#[derive(Debug, Clone, PartialEq, Eq)]
pub struct AssetHubConfig {
    pub enabled: bool,
    pub rpc_url: String,
    pub private_key: String,
    pub contract_address: String,
    pub submission_timeout_secs: u64,
    pub retry_count: u32,
    pub gas_limit: u64,
}

/// The text in lower case, as `str::to_lowercase` of std gives it.
pub uninterp spec fn lowercase_text(s: Seq<char>) -> Seq<char>;

/// `str::to_lowercase` of std. The claim is only that the same text gives the same result.
#[verifier::external_body]
fn lowercase(s: &str) -> (r: String)
    ensures
        r@ == lowercase_text(s@),
{
    s.to_lowercase()
}

/// Whether a text is present and not empty.
pub open spec fn is_set(o: Option<String>) -> bool {
    o matches Some(s) && s@.len() > 0
}

impl AssetHubConfig {
    /// Whether the configuration holds the given settings, and the defaults where a setting
    /// is absent or, for a number, does not parse.
    pub open spec fn follows(
        self,
        private_key: Option<String>,
        contract_address: Option<String>,
        rpc_url: Option<String>,
        submission_timeout_secs: Option<String>,
        retry_count: Option<String>,
        gas_limit: Option<String>,
    ) -> bool {
        &&& self.enabled
        &&& private_key is Some
        &&& contract_address is Some
        &&& self.private_key@ == private_key->0@
        &&& self.contract_address@ == contract_address->0@
        &&& self.rpc_url@ == (match rpc_url {
            Some(u) => u@,
            None => DEFAULT_ASSET_HUB_RPC_URL@,
        })
        &&& self.submission_timeout_secs == (match submission_timeout_secs {
            Some(t) => match spec_parse_u64(t@) {
                Some(v) => v,
                None => DEFAULT_SUBMISSION_TIMEOUT_SECS,
            },
            None => DEFAULT_SUBMISSION_TIMEOUT_SECS,
        })
        &&& self.retry_count == (match retry_count {
            Some(t) => match spec_parse_u32(t@) {
                Some(v) => v,
                None => DEFAULT_RETRY_COUNT,
            },
            None => DEFAULT_RETRY_COUNT,
        })
        &&& self.gas_limit == (match gas_limit {
            Some(t) => match spec_parse_u64(t@) {
                Some(v) => v,
                None => DEFAULT_GAS_LIMIT,
            },
            None => DEFAULT_GAS_LIMIT,
        })
    }

    /// The configuration for the given settings, `enabled` being what the switch says. There
    /// is none if the ledger is switched off, or if the private key or the contract's address
    /// is absent or empty. The other settings have defaults, which also hold where a number
    /// does not parse.
    pub fn from_settings(
        enabled: bool,
        private_key: Option<String>,
        contract_address: Option<String>,
        rpc_url: Option<String>,
        submission_timeout_secs: Option<String>,
        retry_count: Option<String>,
        gas_limit: Option<String>,
    ) -> (config: Option<AssetHubConfig>)
        ensures
            config is Some <==> enabled && is_set(private_key) && is_set(contract_address),
            config matches Some(c) ==> c.follows(
                private_key,
                contract_address,
                rpc_url,
                submission_timeout_secs,
                retry_count,
                gas_limit,
            ),
    {
        if !enabled {
            return None;
        }
        let private_key = match private_key {
            Some(k) => {
                if k.as_str().unicode_len() == 0 {
                    return None;
                }
                k
            },
            None => {
                return None;
            },
        };
        let contract_address = match contract_address {
            Some(a) => {
                if a.as_str().unicode_len() == 0 {
                    return None;
                }
                a
            },
            None => {
                return None;
            },
        };
        let rpc_url = match rpc_url {
            Some(u) => u,
            None => String::from_str(DEFAULT_ASSET_HUB_RPC_URL),
        };
        let submission_timeout_secs = match submission_timeout_secs {
            Some(t) => match parse_u64(t.as_str()) {
                Some(v) => v,
                None => DEFAULT_SUBMISSION_TIMEOUT_SECS,
            },
            None => DEFAULT_SUBMISSION_TIMEOUT_SECS,
        };
        let retry_count = match retry_count {
            Some(t) => match parse_u32(t.as_str()) {
                Some(v) => v,
                None => DEFAULT_RETRY_COUNT,
            },
            None => DEFAULT_RETRY_COUNT,
        };
        let gas_limit = match gas_limit {
            Some(t) => match parse_u64(t.as_str()) {
                Some(v) => v,
                None => DEFAULT_GAS_LIMIT,
            },
            None => DEFAULT_GAS_LIMIT,
        };
        Some(
            AssetHubConfig {
                enabled,
                rpc_url,
                private_key,
                contract_address,
                submission_timeout_secs,
                retry_count,
                gas_limit,
            },
        )
    }

    /// The configuration for the given settings. The ledger is switched on by the word `true`
    /// in any case of letters.
    pub fn from_values(
        enabled: Option<String>,
        private_key: Option<String>,
        contract_address: Option<String>,
        rpc_url: Option<String>,
        submission_timeout_secs: Option<String>,
        retry_count: Option<String>,
        gas_limit: Option<String>,
    ) -> (config: Option<AssetHubConfig>)
        ensures
            config is Some <==> (enabled matches Some(e) && lowercase_text(e@) == "true"@)
                && is_set(private_key) && is_set(contract_address),
            config matches Some(c) ==> c.follows(
                private_key,
                contract_address,
                rpc_url,
                submission_timeout_secs,
                retry_count,
                gas_limit,
            ),
    {
        let on = match enabled {
            Some(e) => {
                let lower = lowercase(e.as_str());
                str_eq(lower.as_str(), "true")
            },
            None => false,
        };
        AssetHubConfig::from_settings(
            on,
            private_key,
            contract_address,
            rpc_url,
            submission_timeout_secs,
            retry_count,
            gas_limit,
        )
    }
}

} // verus!
