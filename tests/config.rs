use dezap::addr::{IpAddress, PeerAddr};
use dezap::config::{DiscoveryConfig, IdentityConfig, LimitsConfig, ListenConfig, LoggingConfig, PathsConfig, TlsConfig, UiConfig};
use dezap::ui::{longest_common_prefix, MessageDirection, Mode, PanelFocus};

#[test]
fn defaults() {
    assert_eq!(ListenConfig::default().bind_addr, PeerAddr { ip: IpAddress::V4(0), port: 5000 });
    assert_eq!(IdentityConfig::default().username, "dezapster");
    let l = LimitsConfig::default();
    assert_eq!((l.max_message_bytes, l.max_file_bytes, l.chunk_size_bytes), (16 * 1024, 1 << 30, 64 * 1024));
    let t = TlsConfig::default();
    assert_eq!(t.server_name(), "dezap.local");
    assert!(t.insecure_local);
    assert_eq!(LoggingConfig::default().level(), "info");
    assert_eq!(UiConfig::default().accent, "crimson");
    let d = DiscoveryConfig::default();
    assert_eq!((d.port, d.response_ttl_ms, d.magic.as_str()), (54095, 2000, "dezap-discovery"));
}

#[test]
fn paths_under_directories() {
    let p = PathsConfig::under(Some("/data"), Some("/cfg"));
    assert_eq!(p.download_dir, "/data/downloads");
    assert_eq!(p.chat_log.as_deref(), Some("/data/chat.log"));
    assert_eq!(p.history_dir, "/data/history");
    assert_eq!(p.peers_file, "/cfg/peers.json");
    let q = PathsConfig::under(None, None);
    assert_eq!(q.download_dir, "./downloads");
    assert!(q.chat_log.is_none());
    assert_eq!(q.peers_file, "./peers.json");
}

#[test]
fn entry_sources() {
    assert_eq!(MessageDirection::Incoming("bob".into()).source(), "bob");
    assert_eq!(MessageDirection::Warning.source(), "warning");
    assert_ne!(Mode::Chat, Mode::IncomingFile(1));
    assert_eq!(PanelFocus::NoPanel, PanelFocus::NoPanel);
}

#[test]
fn common_prefix_of_names() {
    let v = |xs: &[&str]| xs.iter().map(|s| s.to_string()).collect::<Vec<_>>();
    assert_eq!(longest_common_prefix(&v(&[])), "");
    assert_eq!(longest_common_prefix(&v(&["docs"])), "docs");
    assert_eq!(longest_common_prefix(&v(&["report.txt", "reports", "repo"])), "repo");
    assert_eq!(longest_common_prefix(&v(&["ação", "açúcar"])), "a\u{e7}");
    assert_eq!(longest_common_prefix(&v(&["abc", "xyz"])), "");
}
