use vstd::prelude::*;

verus! {

/// The subcommands the tool offers.
#[derive(Debug)]
pub enum Commands {
    /// Import video files from a directory.
    Import,
    /// Run maintenance to enforce the disk quota.
    Maintenance,
    /// Start the web viewer server.
    Web,
}

/// The tool's configuration.
#[derive(Debug)]
pub struct Config {
    pub directory: String,
    pub db_path: String,
    pub maintenance: Option<MaintenanceConfig>,
    pub web_viewer: Option<WebViewerConfig>,
}

/// Settings for the quota-enforcement run.
#[derive(Debug)]
pub struct MaintenanceConfig {
    /// A human-readable byte size, such as "10GB".
    pub quota: String,
    /// Report the would-be victims without touching anything.
    pub dry_run: bool,
}

/// Settings for the web viewer.
#[derive(Debug)]
pub struct WebViewerConfig {
    pub host: String,
    pub port: u16,
    pub auth: Option<AuthConfig>,
    pub thumbnails: Option<ThumbnailConfig>,
    pub max_concurrent_streams: u32,
    pub cache_size: String,
    pub features: Option<FeatureConfig>,
}

/// Settings for viewer authentication.
#[derive(Debug)]
pub struct AuthConfig {
    pub enabled: bool,
    pub session_timeout: String,
    pub admin_users: Vec<String>,
}

/// Settings for thumbnail generation.
#[derive(Debug)]
pub struct ThumbnailConfig {
    pub enabled: bool,
    pub cache_dir: String,
    pub quality: String,
}

/// Feature switches of the viewer.
#[derive(Debug)]
pub struct FeatureConfig {
    pub real_time_updates: bool,
    pub bulk_operations: bool,
    pub mobile_optimized: bool,
}

/// The host the viewer binds when none is configured.
pub fn default_host() -> (r: String)
    ensures
        r@ == "0.0.0.0"@,
{
    "0.0.0.0".to_owned()
}

/// The port the viewer binds when none is configured.
pub fn default_port() -> (r: u16)
    ensures
        r == 8080,
{
    8080
}

/// The session timeout used when none is configured.
pub fn default_session_timeout() -> (r: String)
    ensures
        r@ == "24h"@,
{
    "24h".to_owned()
}

/// The thumbnail cache directory used when none is configured.
pub fn default_cache_dir() -> (r: String)
    ensures
        r@ == "./thumbnails"@,
{
    "./thumbnails".to_owned()
}

/// The thumbnail quality used when none is configured.
pub fn default_quality() -> (r: String)
    ensures
        r@ == "medium"@,
{
    "medium".to_owned()
}

impl Default for WebViewerConfig {
    /// The viewer settings used when the configuration names none.
    fn default() -> (r: Self)
        ensures
            r.host@ == "0.0.0.0"@,
            r.port == 8080,
            r.auth is None,
            r.thumbnails is None,
            r.max_concurrent_streams == 10,
            r.cache_size@ == "1GB"@,
            r.features is None,
    {
        WebViewerConfig {
            host: default_host(),
            port: default_port(),
            auth: None,
            thumbnails: None,
            max_concurrent_streams: 10,
            cache_size: "1GB".to_owned(),
            features: None,
        }
    }
}

} // verus!
