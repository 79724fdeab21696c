use obelisk::net::IpAddress;
use obelisk::settings::{
    default_config_search_paths, default_max_video_bitrate, default_monitoring_addr,
    default_monitoring_port, default_nat_ping_delta, discover_config_file,
    supported_config_paths, ConfigChoice, ConfigSearchPath, DisplayNameSource, Language,
    RtpPortRange, SipTransport,
};

#[test]
fn settings_defaults() {
    assert_eq!(default_monitoring_port(), 11411);
    assert_eq!(default_monitoring_addr(), IpAddress::V4(0));
    assert_eq!(default_max_video_bitrate(), 6_000_000);
    assert_eq!(default_nat_ping_delta(), 30);
    assert_eq!(Language::default(), Language::DE);
    assert_eq!(SipTransport::default(), SipTransport::UdpTcp);
    assert_eq!(DisplayNameSource::default(), DisplayNameSource::Contact);
    assert_eq!(RtpPortRange::default(), RtpPortRange { start: 40000, end: 49999 });
}

#[test]
fn sip_transport_listeners() {
    assert!(SipTransport::Udp.listen_udp());
    assert!(!SipTransport::Udp.listen_tcp());
    assert!(!SipTransport::Tcp.listen_udp());
    assert!(SipTransport::Tcp.listen_tcp());
    assert!(SipTransport::UdpTcp.listen_udp());
    assert!(SipTransport::UdpTcp.listen_tcp());
}

#[test]
fn config_search_path_display() {
    let p = ConfigSearchPath { path: "obelisk.toml".to_string(), deprecated: false };
    assert_eq!(p.display_non_deprecated(), Some("\"obelisk.toml\"".to_string()));
    let d = ConfigSearchPath { path: "config.toml".to_string(), deprecated: true };
    assert_eq!(d.display_non_deprecated(), None);
}

#[test]
fn config_search_paths_in_order() {
    let paths = default_config_search_paths(Some("/home/u/.config/opentalk/obelisk.toml".to_string()));
    let names: Vec<&str> = paths.iter().map(|p| p.path.as_str()).collect();
    assert_eq!(
        names,
        vec!["config.toml", "obelisk.toml", "/home/u/.config/opentalk/obelisk.toml", "/etc/opentalk/obelisk.toml"]
    );
    assert!(paths[0].deprecated);
    assert!(!paths[3].deprecated);
    assert_eq!(default_config_search_paths(None).len(), 3);
}

#[test]
fn deprecation_warning_lists_supported_paths() {
    let paths = default_config_search_paths(Some("/cfg/opentalk/obelisk.toml".to_string()));
    assert_eq!(
        supported_config_paths(&paths),
        "\"obelisk.toml\", \"/cfg/opentalk/obelisk.toml\", \"/etc/opentalk/obelisk.toml\""
    );
}

#[test]
fn config_file_choice() {
    assert_eq!(discover_config_file(true, &vec![true, true]), ConfigChoice::Argument);
    assert_eq!(discover_config_file(false, &vec![false, true, true]), ConfigChoice::Found(1));
    assert_eq!(discover_config_file(false, &vec![true, false]), ConfigChoice::Found(0));
    assert_eq!(discover_config_file(false, &vec![false, false, false]), ConfigChoice::NotFound);
}
