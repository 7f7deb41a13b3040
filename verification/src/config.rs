//! Configuration values handed to the transfer server.

use vstd::prelude::*;
use vstd::string::StringExecFns;

verus! {

/// Port the server listens on when the configuration names none.
pub const DEFAULT_PORT: u16 = 8080;

/// Upload chunk size, in megabytes, when the configuration names none.
pub const DEFAULT_UPLOAD_CHUNK_SIZE_MB: u64 = 5;

/// Bytes in one megabyte.
pub const BYTES_PER_MB: u64 = 1048576;

/// Server configuration options.
#[derive(Debug)]
pub struct ServerConfig {
    /// Port for the server to listen on.
    pub port: u16,
    /// Upload chunk size in megabytes.
    pub upload_chunk_size_mb: u64,
    /// Listen on every interface (`true`) or on the loopback interface only.
    pub bind_all_interfaces: bool,
}

/// Display configuration options.
#[derive(Debug)]
pub struct DisplayConfig {
    /// Default theme (light or dark).
    pub theme: String,
}

/// File storage configuration.
#[derive(Debug)]
pub struct StorageConfig {
    /// Directory to store uploaded files.
    pub storage_dir: String,
}

/// Application configuration data.
#[derive(Debug)]
pub struct ConfigData {
    /// Server configuration.
    pub server: ServerConfig,
    /// Display configuration.
    pub display: DisplayConfig,
    /// File storage configuration.
    pub storage: StorageConfig,
}

pub fn default_port() -> (port: u16)
    ensures
        port == DEFAULT_PORT,
{
    DEFAULT_PORT
}

pub fn default_upload_chunk_size_mb() -> (size: u64)
    ensures
        size == DEFAULT_UPLOAD_CHUNK_SIZE_MB,
{
    DEFAULT_UPLOAD_CHUNK_SIZE_MB
}

pub fn default_theme() -> (theme: String)
    ensures
        theme@ == "light"@,
{
    String::from_str("light")
}

pub fn default_storage_dir() -> (dir: String)
    ensures
        dir@ == "uploads"@,
{
    String::from_str("uploads")
}

impl Default for ServerConfig {
    fn default() -> (config: Self)
        ensures
            config.port == DEFAULT_PORT,
            config.upload_chunk_size_mb == DEFAULT_UPLOAD_CHUNK_SIZE_MB,
            config.bind_all_interfaces,
    {
        ServerConfig {
            port: default_port(),
            upload_chunk_size_mb: default_upload_chunk_size_mb(),
            bind_all_interfaces: true,
        }
    }
}

impl Default for DisplayConfig {
    fn default() -> (config: Self)
        ensures
            config.theme@ == "light"@,
    {
        DisplayConfig { theme: default_theme() }
    }
}

impl Default for StorageConfig {
    fn default() -> (config: Self)
        ensures
            config.storage_dir@ == "uploads"@,
    {
        StorageConfig { storage_dir: default_storage_dir() }
    }
}

impl Default for ConfigData {
    fn default() -> (config: Self)
        ensures
            config.server.port == DEFAULT_PORT,
            config.server.upload_chunk_size_mb == DEFAULT_UPLOAD_CHUNK_SIZE_MB,
            config.server.bind_all_interfaces,
            config.display.theme@ == "light"@,
            config.storage.storage_dir@ == "uploads"@,
    {
        ConfigData {
            server: ServerConfig::default(),
            display: DisplayConfig::default(),
            storage: StorageConfig::default(),
        }
    }
}

/// What a [`ConfigData`] holds, as plain mathematical values.
pub struct ConfigView {
    pub port: u16,
    pub upload_chunk_size_mb: u64,
    pub bind_all_interfaces: bool,
    pub theme: Seq<char>,
    pub storage_dir: Seq<char>,
}

impl View for ConfigData {
    type V = ConfigView;

    open spec fn view(&self) -> ConfigView {
        ConfigView {
            port: self.server.port,
            upload_chunk_size_mb: self.server.upload_chunk_size_mb,
            bind_all_interfaces: self.server.bind_all_interfaces,
            theme: self.display.theme@,
            storage_dir: self.storage.storage_dir@,
        }
    }
}

impl Clone for ConfigData {
    fn clone(&self) -> (copy: Self)
        ensures
            copy@ == self@,
    {
        ConfigData {
            server: ServerConfig {
                port: self.server.port,
                upload_chunk_size_mb: self.server.upload_chunk_size_mb,
                bind_all_interfaces: self.server.bind_all_interfaces,
            },
            display: DisplayConfig { theme: self.display.theme.clone() },
            storage: StorageConfig { storage_dir: self.storage.storage_dir.clone() },
        }
    }
}

/// The address to listen on: every interface, or the loopback interface only.
pub open spec fn bind_address(all_interfaces: bool) -> Seq<char> {
    if all_interfaces {
        "0.0.0.0"@
    } else {
        "127.0.0.1"@
    }
}

/// The largest request body that the upload route accepts: one megabyte more
/// than the chunk size, and no more than the machine can address.
pub open spec fn body_limit(upload_chunk_size_mb: u64) -> usize {
    if (upload_chunk_size_mb + 1) * BYTES_PER_MB <= usize::MAX {
        ((upload_chunk_size_mb + 1) * BYTES_PER_MB) as usize
    } else {
        usize::MAX
    }
}

/// The address to listen on: every interface, or the loopback interface only.
pub fn bind_address_of(all_interfaces: bool) -> (address: String)
    ensures
        address@ == bind_address(all_interfaces),
{
    if all_interfaces {
        String::from_str("0.0.0.0")
    } else {
        String::from_str("127.0.0.1")
    }
}

/// The largest request body that the upload route accepts.
pub fn body_limit_of(upload_chunk_size_mb: u64) -> (limit: usize)
    ensures
        limit == body_limit(upload_chunk_size_mb),
{
    assert((upload_chunk_size_mb + 1) * BYTES_PER_MB <= 0x1_0000_0000_0000_0000 * 0x10_0000) by (nonlinear_arith)
        requires
            upload_chunk_size_mb + 1 <= 0x1_0000_0000_0000_0000,
            BYTES_PER_MB == 0x10_0000,
    ;
    let wanted: u128 = (upload_chunk_size_mb as u128 + 1) * (BYTES_PER_MB as u128);
    if wanted <= usize::MAX as u128 {
        wanted as usize
    } else {
        usize::MAX
    }
}

/// What the configuration route tells a client.
#[derive(Clone, Copy, Debug, PartialEq, Eq, Structural)]
pub struct ConfigResponse {
    pub upload_chunk_size_mb: u64,
}

impl ConfigData {
    /// What the configuration route tells a client: the upload chunk size.
    pub fn response(&self) -> (response: ConfigResponse)
        ensures
            response.upload_chunk_size_mb == self@.upload_chunk_size_mb,
    {
        ConfigResponse { upload_chunk_size_mb: self.server.upload_chunk_size_mb }
    }
}

} // verus!
