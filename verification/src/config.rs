//! Configuration of the adapter: its own protocol identity, the addresses
//! it calls out to, and the crawl schedule.

use vstd::prelude::*;

verus! {

/// Where the inbound callback listener binds.
pub struct HttpConfig {
    pub address: String,
    pub port: String,
}

/// The local provider-platform identity stamped on outbound contexts.
pub struct Bpp {
    pub id: String,
    pub caller_uri: String,
    pub domain: String,
    pub version: String,
    pub ttl: String,
}

/// The internal provider backend.
pub struct ProviderDb {
    pub db_uri: String,
}

/// The adapter endpoint that originated search requests are posted to.
pub struct Bap {
    pub caller_uri: String,
}

/// One scheduled job's period.
pub struct JobConfig {
    pub seconds: u64,
}

/// The crawl schedule.
pub struct CronConfig {
    pub fetch_profiles: JobConfig,
}

/// Everything the adapter is configured with.
pub struct AppConfig {
    pub debug: bool,
    pub use_mock_bpp_response: bool,
    pub bpp: Bpp,
    pub http: HttpConfig,
    pub provider_db: ProviderDb,
    pub bap: Bap,
    pub cron: CronConfig,
}

impl AppConfig {
    /// Builds a configuration from its parts.
    pub fn new(
        debug: bool,
        use_mock_bpp_response: bool,
        bpp: Bpp,
        http: HttpConfig,
        provider_db: ProviderDb,
        bap: Bap,
        cron: CronConfig,
    ) -> (r: AppConfig)
        ensures
            r.debug == debug,
            r.use_mock_bpp_response == use_mock_bpp_response,
            r.bpp == bpp,
            r.http == http,
            r.provider_db == provider_db,
            r.bap == bap,
            r.cron == cron,
    {
        AppConfig { debug, use_mock_bpp_response, bpp, http, provider_db, bap, cron }
    }

}

} // verus!
