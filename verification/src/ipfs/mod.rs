use crate::text::{parse_bool, parse_u64, spec_parse_bool, spec_parse_u64};
use vstd::prelude::*;
use vstd::string::*;

verus! {

/// The address of the object store's API where none is named.
pub const DEFAULT_IPFS_API_URL: &'static str = "http://127.0.0.1:5001";

/// The address of the object store's gateway where none is named.
pub const DEFAULT_IPFS_GATEWAY_URL: &'static str = "http://127.0.0.1:8080/ipfs";

/// How long an upload may take where nothing else is set, in seconds.
pub const DEFAULT_IPFS_UPLOAD_TIMEOUT_SECS: u64 = 300;

/// The name under which a file without a name of its own is uploaded.
pub const DEFAULT_UPLOAD_NAME: &'static str = "recording.webm";

/// How the server reaches the object store.
#[derive(Debug, Clone, PartialEq, Eq)]
pub struct IpfsConfig {
    pub enabled: bool,
    pub api_url: String,
    pub gateway_url: String,
    pub upload_timeout_secs: u64,
}

/// What the object store answers to an upload.
#[derive(Debug, Clone, PartialEq, Eq)]
pub struct IpfsAddResponse {
    pub name: String,
    pub hash: String,
    pub size: String,
}

/// Where an uploaded file is found.
#[derive(Debug, Clone, PartialEq, Eq)]
pub struct IpfsUploadResult {
    pub cid: String,
    pub gateway_url: String,
    pub size: u64,
}

impl IpfsConfig {
    /// The configuration for the given settings. There is none unless the store is switched on
    /// by the word `true`. The other settings have defaults, which also hold where the timeout
    /// does not parse.
    pub fn from_values(
        enabled: Option<String>,
        api_url: Option<String>,
        gateway_url: Option<String>,
        upload_timeout_secs: Option<String>,
    ) -> (config: Option<IpfsConfig>)
        ensures
            config is Some <==> (enabled matches Some(e) && e@ == "true"@),
            config matches Some(c) ==> {
                &&& c.enabled
                &&& c.api_url@ == (match api_url {
                    Some(u) => u@,
                    None => DEFAULT_IPFS_API_URL@,
                })
                &&& c.gateway_url@ == (match gateway_url {
                    Some(u) => u@,
                    None => DEFAULT_IPFS_GATEWAY_URL@,
                })
                &&& c.upload_timeout_secs == (match upload_timeout_secs {
                    Some(t) => match spec_parse_u64(t@) {
                        Some(v) => v,
                        None => DEFAULT_IPFS_UPLOAD_TIMEOUT_SECS,
                    },
                    None => DEFAULT_IPFS_UPLOAD_TIMEOUT_SECS,
                })
            },
    {
        let on = match enabled {
            Some(e) => match parse_bool(e.as_str()) {
                Some(b) => b,
                None => false,
            },
            None => false,
        };
        if !on {
            return None;
        }
        let api_url = match api_url {
            Some(u) => u,
            None => String::from_str(DEFAULT_IPFS_API_URL),
        };
        let gateway_url = match gateway_url {
            Some(u) => u,
            None => String::from_str(DEFAULT_IPFS_GATEWAY_URL),
        };
        let upload_timeout_secs = match upload_timeout_secs {
            Some(t) => match parse_u64(t.as_str()) {
                Some(v) => v,
                None => DEFAULT_IPFS_UPLOAD_TIMEOUT_SECS,
            },
            None => DEFAULT_IPFS_UPLOAD_TIMEOUT_SECS,
        };
        Some(IpfsConfig { enabled: true, api_url, gateway_url, upload_timeout_secs })
    }
}

/// What the server knows of the object store.
#[derive(Debug, Clone, PartialEq, Eq)]
pub struct IpfsClient {
    pub config: IpfsConfig,
}

impl IpfsClient {
    /// A client for a configuration.
    pub fn new(config: IpfsConfig) -> (client: IpfsClient)
        ensures
            client.config == config,
    {
        IpfsClient { config }
    }

    /// The address to which files are uploaded.
    pub fn add_url(&self) -> (url: String)
        ensures
            url@ == self.config.api_url@ + "/api/v0/add"@,
    {
        let mut url = self.config.api_url.clone();
        url.append("/api/v0/add");
        url
    }

    /// The address that tells whether the store is up.
    pub fn version_url(&self) -> (url: String)
        ensures
            url@ == self.config.api_url@ + "/api/v0/version"@,
    {
        let mut url = self.config.api_url.clone();
        url.append("/api/v0/version");
        url
    }

    /// The address of the gateway.
    pub fn gateway_url(&self) -> (url: &str)
        ensures
            url@ == self.config.gateway_url@,
    {
        self.config.gateway_url.as_str()
    }

    /// The name under which a file is uploaded: its own, or the default one if it has none.
    pub fn upload_name(file_name: Option<String>) -> (name: String)
        ensures
            name@ == (match file_name {
                Some(n) => n@,
                None => DEFAULT_UPLOAD_NAME@,
            }),
    {
        match file_name {
            Some(n) => n,
            None => String::from_str(DEFAULT_UPLOAD_NAME),
        }
    }

    /// Where an uploaded file is found, from the store's answer: under its hash, at the
    /// gateway's address with the hash behind a `/`. A size that does not parse counts as 0.
    pub fn upload_file(&self, response: IpfsAddResponse) -> (result: IpfsUploadResult)
        ensures
            result.cid@ == response.hash@,
            result.gateway_url@ == self.config.gateway_url@ + "/"@ + response.hash@,
            result.size == (match spec_parse_u64(response.size@) {
                Some(v) => v,
                None => 0,
            }),
    {
        let mut gateway_url = self.config.gateway_url.clone();
        gateway_url.append("/");
        gateway_url.append(response.hash.as_str());
        let size = match parse_u64(response.size.as_str()) {
            Some(v) => v,
            None => 0,
        };
        IpfsUploadResult { cid: response.hash, gateway_url, size }
    }
}

} // verus!
