//! The gateway's configuration and its validation rules.

use vstd::prelude::*;
use crate::strutil::{spec_starts_with, str_starts_with};

verus! {

/// Why a configuration was rejected.
#[derive(Clone, Copy, Debug, PartialEq, Eq, Structural)]
pub enum ConfigError {
    /// The connection pool must allow at least one connection.
    ZeroPoolMaxConnections,
    /// The store URL must start with `mysql://`.
    BadStoreUrl,
    /// The listen port cannot be 0.
    ZeroPort,
    /// The cache URL must start with `redis://`.
    BadRedisUrl,
    /// The upload directory path cannot be empty.
    EmptyUploadDir,
}

/// Where the gateway keeps its vector store.
pub struct SingleStoreConfig {
    pub url: String,
    pub pool_max_connections: u32,
}

impl SingleStoreConfig {
    /// The store settings are acceptable: a positive connection allowance
    /// and a `mysql://` URL.
    pub open spec fn spec_valid(self) -> bool {
        self.pool_max_connections > 0 && spec_starts_with(self.url@, "mysql://"@)
    }

    /// Checks the store settings, naming the first rule broken: a zero
    /// connection allowance, else a URL of the wrong scheme.
    pub fn validate(&self) -> (r: Result<(), ConfigError>)
        ensures
            r is Ok <==> self.spec_valid(),
            r matches Err(e) ==> (e is ZeroPoolMaxConnections <==> self.pool_max_connections == 0),
            r matches Err(e) ==> (e is BadStoreUrl <==> self.pool_max_connections > 0
                && !spec_starts_with(self.url@, "mysql://"@)),
    {
        if self.pool_max_connections == 0 {
            Err(ConfigError::ZeroPoolMaxConnections)
        } else if !str_starts_with(self.url.as_str(), "mysql://") {
            Err(ConfigError::BadStoreUrl)
        } else {
            Ok(())
        }
    }
}

/// The gateway's whole configuration.
pub struct Config {
    pub port: u16,
    pub redis_url: String,
    pub upload_dir: String,
    pub allowed_origins: Vec<String>,
    pub singlestore: SingleStoreConfig,
}

impl Config {
    /// The configuration is acceptable: a non-zero port, a `redis://` cache
    /// URL, a non-empty upload directory, and valid store settings.
    pub open spec fn spec_valid(self) -> bool {
        &&& self.port != 0
        &&& spec_starts_with(self.redis_url@, "redis://"@)
        &&& self.upload_dir@.len() > 0
        &&& self.singlestore.spec_valid()
    }

    /// Checks the whole configuration, naming the first rule broken, in
    /// order: the port, the cache URL, the upload directory, then the store
    /// settings.
    pub fn validate(&self) -> (r: Result<(), ConfigError>)
        ensures
            r is Ok <==> self.spec_valid(),
            r matches Err(e) ==> (e is ZeroPort <==> self.port == 0),
            r matches Err(e) ==> (e is BadRedisUrl <==> self.port != 0 && !spec_starts_with(
                self.redis_url@,
                "redis://"@,
            )),
            r matches Err(e) ==> (e is EmptyUploadDir <==> self.port != 0 && spec_starts_with(
                self.redis_url@,
                "redis://"@,
            ) && self.upload_dir@.len() == 0),
    {
        if self.port == 0 {
            Err(ConfigError::ZeroPort)
        } else if !str_starts_with(self.redis_url.as_str(), "redis://") {
            Err(ConfigError::BadRedisUrl)
        } else if self.upload_dir.as_str().is_empty() {
            Err(ConfigError::EmptyUploadDir)
        } else {
            self.singlestore.validate()
        }
    }
}

} // verus!
