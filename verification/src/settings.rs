//! The bridge's configuration as plain values, with the defaults that apply
//! where the configuration file leaves a field out.
use crate::net::{IpAddress, SocketAddress};
use vstd::prelude::*;

verus! {

/// Language of the announcements played to the caller.
#[derive(Debug, Clone, Copy, PartialEq, Eq, Structural)]
pub enum Language {
    EN,
    DE,
}

impl Default for Language {
    /// German.
    fn default() -> (r: Self)
        ensures
            r == Language::DE,
    {
        Language::DE
    }
}

/// Credentials of the bridge's OIDC client.
#[derive(Debug)]
pub struct AuthSettings {
    pub issuer: String,
    pub client_id: String,
    pub client_secret: String,
}

/// Where the conference controller is reached.
#[derive(Debug)]
pub struct ControllerSettings {
    pub domain: String,
    /// Use plain `http`/`ws` instead of `https`/`wss`
    pub insecure: bool,
}

/// Where the monitoring endpoint listens.
#[derive(Debug, Clone, Copy, PartialEq, Eq, Structural)]
pub struct MonitoringSettings {
    pub port: u16,
    pub addr: IpAddress,
}

/// Port of the monitoring endpoint where the configuration names none: 11411.
pub fn default_monitoring_port() -> (r: u16)
    ensures
        r == 11411,
{
    11411
}

/// Address of the monitoring endpoint where the configuration names none:
/// `0.0.0.0`.
pub fn default_monitoring_addr() -> (r: IpAddress)
    ensures
        r == IpAddress::V4(0),
{
    IpAddress::V4(0)
}

/// Which transports the SIP endpoint listens on.
#[derive(Debug, Clone, Copy, PartialEq, Eq, Structural)]
pub enum SipTransport {
    Udp,
    Tcp,
    UdpTcp,
}

impl Default for SipTransport {
    /// Both UDP and TCP.
    fn default() -> (r: Self)
        ensures
            r == SipTransport::UdpTcp,
    {
        SipTransport::UdpTcp
    }
}

impl SipTransport {
    /// Whether a UDP socket is bound: for `Udp` and `UdpTcp`.
    pub fn listen_udp(&self) -> (r: bool)
        ensures
            r == (*self == SipTransport::Udp || *self == SipTransport::UdpTcp),
    {
        match self {
            SipTransport::Udp | SipTransport::UdpTcp => true,
            SipTransport::Tcp => false,
        }
    }

    /// Whether a TCP listener is bound: for `Tcp` and `UdpTcp`.
    pub fn listen_tcp(&self) -> (r: bool)
        ensures
            r == (*self == SipTransport::Tcp || *self == SipTransport::UdpTcp),
    {
        match self {
            SipTransport::Tcp | SipTransport::UdpTcp => true,
            SipTransport::Udp => false,
        }
    }
}

/// Which header of an incoming INVITE names the caller.
#[derive(Debug, Clone, Copy, PartialEq, Eq, Structural)]
pub enum DisplayNameSource {
    Contact,
    From,
}

impl Default for DisplayNameSource {
    /// The Contact header.
    fn default() -> (r: Self)
        ensures
            r == DisplayNameSource::Contact,
    {
        DisplayNameSource::Contact
    }
}

/// Maximum video bitrate sent to a caller where the configuration names none:
/// 6 Mbit/s.
pub fn default_max_video_bitrate() -> (r: u32)
    ensures
        r == 6_000_000,
{
    6_000_000
}

/// Registration with a SIP registrar.
#[derive(Debug)]
pub struct SipRegistrarSettings {
    pub password: Option<String>,
    pub realm: Option<String>,
    pub registrar: String,
    pub outbound_proxy: Option<String>,
    pub enforce_qop: bool,
    /// Seconds between keep-alive pings that hold the NAT binding open
    pub nat_ping_delta_secs: u64,
}

/// Seconds between NAT keep-alive pings where the configuration names none: 30.
pub fn default_nat_ping_delta() -> (r: u64)
    ensures
        r == 30,
{
    30
}

/// The UDP port range that RTP and RTCP sockets are bound in.
#[derive(Debug, Clone, Copy, PartialEq, Eq, Structural)]
pub struct RtpPortRange {
    pub start: u16,
    pub end: u16,
}

impl Default for RtpPortRange {
    /// Ports 40000 to 49999.
    fn default() -> (r: Self)
        ensures
            r == (RtpPortRange { start: 40000, end: 49999 }),
    {
        RtpPortRange { start: 40000, end: 49999 }
    }
}

/// The SIP endpoint.
#[derive(Debug)]
pub struct SipSettings {
    pub addr: String,
    pub port: u16,
    pub transport: SipTransport,
    pub inbound_addr: Option<SocketAddress>,
    pub inbound_media_ip: Option<IpAddress>,
    pub id: Option<String>,
    pub contact: Option<String>,
    pub username: Option<String>,
    pub registrar: Option<SipRegistrarSettings>,
    pub stun_server: Option<String>,
    pub rtp_port_range: RtpPortRange,
    pub offer_srtp: bool,
    /// Maximum video bitrate in bits/s
    pub max_video_bitrate: u32,
    pub encode_video_at_half_bitrate: bool,
    pub display_name_source: DisplayNameSource,
}

/// The whole configuration.
#[derive(Debug)]
pub struct Settings {
    pub language: Language,
    pub auth: AuthSettings,
    pub monitoring: Option<MonitoringSettings>,
    pub controller: ControllerSettings,
    pub sip: SipSettings,
}

/// A place where a configuration file is looked for.
#[derive(Debug)]
pub struct ConfigSearchPath {
    pub path: String,
    pub deprecated: bool,
}

impl ConfigSearchPath {
    /// The path in double quotes, or `None` for a deprecated place.
    pub fn display_non_deprecated(&self) -> (r: Option<String>)
        ensures
            match r {
                Some(s) => !self.deprecated && s@ == seq!['"'] + self.path@ + seq!['"'],
                None => self.deprecated,
            },
    {
        if self.deprecated {
            return None;
        }
        let mut s = String::new();
        proof {
            reveal_strlit("\"");
        }
        s.append("\"");
        s.append(self.path.as_str());
        s.append("\"");
        Some(s)
    }
}

/// The places a configuration file is looked for, in order: `config.toml`
/// (deprecated), `obelisk.toml`, `opentalk/obelisk.toml` in the user's
/// configuration directory where there is one (`user_config`), and
/// `/etc/opentalk/obelisk.toml`.
pub fn default_config_search_paths(user_config: Option<String>) -> (r: Vec<ConfigSearchPath>)
    ensures
        r@.len() == if user_config is Some { 4int } else { 3int },
        r@[0].path@ == "config.toml"@ && r@[0].deprecated,
        r@[1].path@ == "obelisk.toml"@ && !r@[1].deprecated,
        user_config matches Some(u) ==> r@[2].path@ == u@ && !r@[2].deprecated,
        r@[r@.len() - 1].path@ == "/etc/opentalk/obelisk.toml"@ && !r@[r@.len() - 1].deprecated,
{
    let mut paths: Vec<ConfigSearchPath> = Vec::new();
    paths.push(ConfigSearchPath { path: own_str("config.toml"), deprecated: true });
    paths.push(ConfigSearchPath { path: own_str("obelisk.toml"), deprecated: false });
    match user_config {
        Some(u) => {
            paths.push(ConfigSearchPath { path: u, deprecated: false });
        },
        None => {},
    }
    paths.push(ConfigSearchPath { path: own_str("/etc/opentalk/obelisk.toml"), deprecated: false });
    paths
}

fn own_str(s: &str) -> (r: String)
    ensures
        r@ == s@,
{
    let mut out = String::new();
    out.append(s);
    assert(Seq::<char>::empty() + s@ =~= s@);
    out
}

/// The non-deprecated places, each in double quotes, joined by `, `.
pub open spec fn supported_paths_text(paths: Seq<ConfigSearchPath>) -> Seq<char>
    decreases paths.len(),
{
    if paths.len() == 0 {
        Seq::empty()
    } else {
        let prev = supported_paths_text(paths.drop_last());
        let last = paths.last();
        if last.deprecated {
            prev
        } else {
            let quoted = seq!['"'] + last.path@ + seq!['"'];
            if prev.len() == 0 {
                quoted
            } else {
                prev + seq![',', ' '] + quoted
            }
        }
    }
}

/// The list of supported places that a deprecation warning suggests.
pub fn supported_config_paths(paths: &Vec<ConfigSearchPath>) -> (r: String)
    ensures
        r@ == supported_paths_text(paths@),
{
    let mut out = String::new();
    let mut i: usize = 0;
    proof {
        reveal_strlit(", ");
        assert(paths@.take(0) =~= Seq::<ConfigSearchPath>::empty());
    }
    while i < paths.len()
        invariant
            i <= paths@.len(),
            out@ == supported_paths_text(paths@.take(i as int)),
        decreases paths@.len() - i,
    {
        proof {
            assert(paths@.take(i + 1).drop_last() =~= paths@.take(i as int));
            assert(paths@.take(i + 1).last() == paths@[i as int]);
            reveal_strlit(", ");
            assert(", "@ =~= seq![',', ' ']);
        }
        match paths[i].display_non_deprecated() {
            Some(text) => {
                if out.unicode_len() > 0 {
                    out.append(", ");
                }
                out.append(text.as_str());
            },
            None => {},
        }
        i = i + 1;
    }
    proof {
        assert(paths@.take(paths@.len() as int) =~= paths@);
    }
    out
}

/// Which configuration file is read.
#[derive(Debug, Clone, Copy, PartialEq, Eq, Structural)]
pub enum ConfigChoice {
    /// The file given on the command line
    Argument,
    /// The first of the search places where a file exists, by index; a
    /// deprecated place is warned about
    Found(usize),
    /// None of the places holds a file
    NotFound,
}

pub open spec fn first_existing(exists: Seq<bool>, i: int) -> Option<int>
    decreases exists.len() - i,
{
    if i < 0 || i >= exists.len() {
        None
    } else if exists[i] {
        Some(i)
    } else {
        first_existing(exists, i + 1)
    }
}

/// A file given on the command line wins; otherwise the first search
/// place (of those in `exists`, one flag per place) where a file exists.
pub fn discover_config_file(has_argument: bool, exists: &Vec<bool>) -> (r: ConfigChoice)
    ensures
        has_argument ==> r == ConfigChoice::Argument,
        !has_argument ==> match first_existing(exists@, 0) {
            Some(i) => r == ConfigChoice::Found(i as usize),
            None => r == ConfigChoice::NotFound,
        },
{
    if has_argument {
        return ConfigChoice::Argument;
    }
    let mut i: usize = 0;
    while i < exists.len()
        invariant
            !has_argument,
            i <= exists@.len(),
            first_existing(exists@, 0) == first_existing(exists@, i as int),
        decreases exists@.len() - i,
    {
        if exists[i] {
            return ConfigChoice::Found(i);
        }
        i = i + 1;
    }
    ConfigChoice::NotFound
}

} // verus!
