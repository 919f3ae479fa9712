//! Engine configuration: server bind address, container resource ceilings and
//! cache backend settings.

use vstd::prelude::*;

verus! {

/// Top-level configuration of the sandbox service.
pub struct Config {
    pub server: ServerConfig,
    pub docker: DockerConfig,
    pub redis: RedisConfig,
}

/// Where the HTTP front door binds.
pub struct ServerConfig {
    pub host: String,
    pub port: u16,
}

/// Limits handed to the container runtime and to the executor.
pub struct DockerConfig {
    /// Per-container memory ceiling in bytes; also the memory+swap ceiling.
    pub max_memory: u64,
    /// CPU quota per fixed 100000-microsecond period.
    pub cpu_quota: i64,
    /// Wall-clock budget of one exec attempt, in milliseconds.
    pub execution_timeout_ms: u64,
    /// Most containers kept per language.
    pub max_container_pool_size: usize,
}

/// The result cache backend and the lifetime of its entries.
pub struct RedisConfig {
    pub url: String,
    /// Seconds a cached result stays valid.
    pub cache_ttl_secs: u64,
}

impl Default for Config {
    /// The stock configuration: local bind, 512 MB memory ceiling, half a CPU,
    /// a 10-second execution budget, five containers per language, local
    /// cache backend and a one-hour TTL.
    fn default() -> (r: Config)
        ensures
            r.server.host@ == "127.0.0.1"@,
            r.server.port == 8080,
            r.docker.max_memory == 512 * 1024 * 1024,
            r.docker.cpu_quota == 50000,
            r.docker.execution_timeout_ms == 10_000,
            r.docker.max_container_pool_size == 5,
            r.redis.url@ == "redis://127.0.0.1:6379"@,
            r.redis.cache_ttl_secs == 3600,
    {
        Config {
            server: ServerConfig { host: String::from_str("127.0.0.1"), port: 8080 },
            docker: DockerConfig {
                max_memory: 512 * 1024 * 1024,
                cpu_quota: 50000,
                execution_timeout_ms: 10_000,
                max_container_pool_size: 5,
            },
            redis: RedisConfig {
                url: String::from_str("redis://127.0.0.1:6379"),
                cache_ttl_secs: 3600,
            },
        }
    }
}

} // verus!
