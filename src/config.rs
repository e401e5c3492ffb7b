//! Configuration values the library reads, with their defaults.
use crate::addr::{IpAddress, PeerAddr};
use vstd::prelude::*;
use vstd::string::StringExecFns;

verus! {

fn text(s: &str) -> (r: String)
    ensures
        r@ == s@,
{
    <String as StringExecFns>::from_str(s)
}

fn joined(base: &str, leaf: &str) -> (r: String)
    ensures
        r@ == base@ + "/"@ + leaf@,
{
    let mut s = text(base);
    s.append("/");
    s.append(leaf);
    s
}

/// Listener settings.
#[derive(Debug, Clone)]
pub struct ListenConfig {
    pub bind_addr: PeerAddr,
    pub password: Option<String>,
}

impl ListenConfig {
    /// Binds `0.0.0.0:5000` with no password.
    pub fn default() -> (r: ListenConfig)
        ensures
            r.bind_addr == (PeerAddr { ip: IpAddress::V4(0), port: 5000 }),
            r.password is None,
    {
        ListenConfig { bind_addr: PeerAddr { ip: IpAddress::V4(0), port: 5000 }, password: None }
    }
}

/// The peer dialled by default.
#[derive(Debug, Clone, Copy)]
pub struct PeerConfig {
    pub default_peer: Option<PeerAddr>,
}

/// Local identity.
#[derive(Debug, Clone)]
pub struct IdentityConfig {
    pub username: String,
}

impl IdentityConfig {
    pub fn default() -> (r: IdentityConfig)
        ensures
            r.username@ == "dezapster"@,
    {
        IdentityConfig { username: text("dezapster") }
    }
}

/// Filesystem locations.
#[derive(Debug, Clone)]
pub struct PathsConfig {
    pub download_dir: String,
    pub chat_log: Option<String>,
    pub history_dir: String,
    pub peers_file: String,
}

impl PathsConfig {
    /// The locations under the application's data and configuration
    /// directories, or under the working directory when there are none.
    pub fn under(data_dir: Option<&str>, config_dir: Option<&str>) -> (r: PathsConfig)
        ensures
            match data_dir {
                Some(d) => r.download_dir@ == d@ + "/"@ + "downloads"@ && (r.chat_log matches Some(c) && c@
                    == d@ + "/"@ + "chat.log"@) && r.history_dir@ == d@ + "/"@ + "history"@,
                None => r.download_dir@ == "./downloads"@ && r.chat_log is None && r.history_dir@
                    == "./history"@,
            },
            match config_dir {
                Some(c) => r.peers_file@ == c@ + "/"@ + "peers.json"@,
                None => r.peers_file@ == "./peers.json"@,
            },
    {
        let (download_dir, chat_log, history_dir) = match data_dir {
            Some(d) => (joined(d, "downloads"), Some(joined(d, "chat.log")), joined(d, "history")),
            None => (text("./downloads"), None, text("./history")),
        };
        let peers_file = match config_dir {
            Some(c) => joined(c, "peers.json"),
            None => text("./peers.json"),
        };
        PathsConfig { download_dir, chat_log, history_dir, peers_file }
    }
}

/// Limits that protect resources.
#[derive(Debug, Clone, Copy, PartialEq, Eq, Structural)]
pub struct LimitsConfig {
    pub max_message_bytes: usize,
    pub max_file_bytes: u64,
    pub chunk_size_bytes: usize,
}

impl LimitsConfig {
    /// 16 KiB messages, 1 GiB files, 64 KiB chunks.
    pub fn default() -> (r: LimitsConfig)
        ensures
            r.max_message_bytes == 16384 && r.max_file_bytes == 1073741824 && r.chunk_size_bytes
                == 65536,
    {
        LimitsConfig { max_message_bytes: 16384, max_file_bytes: 1073741824, chunk_size_bytes: 65536 }
    }
}

/// TLS settings for QUIC.
#[derive(Debug, Clone)]
pub struct TlsConfig {
    pub cert_path: Option<String>,
    pub key_path: Option<String>,
    pub insecure_local: bool,
    pub server_name: String,
}

impl TlsConfig {
    /// No files, any server certificate accepted on the LAN, name `dezap.local`.
    pub fn default() -> (r: TlsConfig)
        ensures
            r.cert_path is None && r.key_path is None && r.insecure_local && r.server_name@
                == "dezap.local"@,
    {
        TlsConfig { cert_path: None, key_path: None, insecure_local: true, server_name: text("dezap.local") }
    }

    pub fn server_name(&self) -> (r: &str)
        ensures
            r@ == self.server_name@,
    {
        self.server_name.as_str()
    }
}

/// UI preferences.
#[derive(Debug, Clone)]
pub struct UiConfig {
    pub show_timestamps: bool,
    pub accent: String,
}

impl UiConfig {
    pub fn default() -> (r: UiConfig)
        ensures
            r.show_timestamps && r.accent@ == "crimson"@,
    {
        UiConfig { show_timestamps: true, accent: text("crimson") }
    }
}

/// Logging settings.
#[derive(Debug, Clone)]
pub struct LoggingConfig {
    pub level: String,
}

impl LoggingConfig {
    pub fn default() -> (r: LoggingConfig)
        ensures
            r.level@ == "info"@,
    {
        LoggingConfig { level: text("info") }
    }

    pub fn level(&self) -> (r: &str)
        ensures
            r@ == self.level@,
    {
        self.level.as_str()
    }
}

/// Discovery settings; `broadcast` is an IPv4 address as its 32-bit value.
#[derive(Debug, Clone)]
pub struct DiscoveryConfig {
    pub enabled: bool,
    pub port: u16,
    pub response_ttl_ms: u64,
    pub magic: String,
    pub broadcast: Option<u32>,
}

impl DiscoveryConfig {
    /// Enabled on port 54095, two seconds for replies, magic `dezap-discovery`.
    pub fn default() -> (r: DiscoveryConfig)
        ensures
            r.enabled && r.port == 54095 && r.response_ttl_ms == 2000 && r.magic@
                == "dezap-discovery"@ && r.broadcast is None,
    {
        DiscoveryConfig {
            enabled: true,
            port: 54095,
            response_ttl_ms: 2000,
            magic: text("dezap-discovery"),
            broadcast: None,
        }
    }
}

} // verus!
