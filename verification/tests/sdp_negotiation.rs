use obelisk::codec::{Codec, MediaType};
use obelisk::net::{IpAddress, SocketAddress};
use obelisk::sdp::{
    flip_direction, is_receiving, is_sending, offer_srtp, populate_crypto_attributes,
    remote_peer_addresses, setup_srtp, SrtpInfo,
    AllocatedPair, MediaChange, MediaSessionId, SdpError, SessionState,
};
use obelisk::sdp_model::{
    Direction, MediaDescription, Origin, RtpMap, SdpMediaType, SessionDescription, SrtpCrypto,
    SrtpSuite, TaggedAddress, TransportProtocol,
};
use obelisk::settings::{
    AuthSettings, ControllerSettings, DisplayNameSource, Language, RtpPortRange, Settings,
    SipSettings, SipTransport,
};
use obelisk::sip_codec::DecoderCapability;
use std::sync::Arc;

fn settings(offer_srtp: bool) -> Arc<Settings> {
    Arc::new(Settings {
        language: Language::EN,
        auth: AuthSettings {
            issuer: "https://auth.example".to_string(),
            client_id: "obelisk".to_string(),
            client_secret: "SECRET-REDACTED".to_string(),
        },
        monitoring: None,
        controller: ControllerSettings { domain: "controller.example".to_string(), insecure: false },
        sip: SipSettings {
            addr: "0.0.0.0".to_string(),
            port: 5060,
            transport: SipTransport::UdpTcp,
            inbound_addr: None,
            inbound_media_ip: None,
            id: None,
            contact: None,
            username: None,
            registrar: None,
            stun_server: None,
            rtp_port_range: RtpPortRange { start: 40000, end: 49999 },
            offer_srtp,
            max_video_bitrate: 6_000_000,
            encode_video_at_half_bitrate: false,
            display_name_source: DisplayNameSource::Contact,
        },
    })
}

fn cap() -> DecoderCapability {
    DecoderCapability {
        profile_idc: 66,
        profile_iop: 0xe0,
        level_idc: 31,
        max_mbps: 108000,
        max_fs: 3600,
        max_cpb: 0,
        max_dpb: 0,
        max_br: 0,
    }
}

fn rtpmap(payload: u8, encoding: &str, clock_rate: u32) -> RtpMap {
    RtpMap { payload, encoding: encoding.to_string(), clock_rate, params: None }
}

fn audio_answer(fmts: Vec<u8>, connection: Option<TaggedAddress>, direction: Direction) -> MediaDescription {
    MediaDescription {
        media_type: SdpMediaType::Audio,
        port: 50000,
        proto: TransportProtocol::RtpAvp,
        fmts,
        connection,
        bandwidth: vec![],
        direction,
        rtcp_port: None,
        rtpmap: vec![rtpmap(8, "PCMA", 8000), rtpmap(101, "telephone-event", 8000)],
        fmtp: vec![],
        crypto: vec![],
        imageattr: vec![],
    }
}

fn session(media: Vec<MediaDescription>, connection: Option<TaggedAddress>) -> SessionDescription {
    SessionDescription { origin: None, name: "-".to_string(), connection, media_descriptions: media }
}

fn offered_state() -> SessionState<u8> {
    let mut state: SessionState<u8> = SessionState::empty(settings(false), IpAddress::V4(0x0a000001), 1000, cap());
    assert_eq!(state.missing_offer_media(), (true, true));
    state.add_offered_session(MediaType::Audio, AllocatedPair { public_rtp_port: 40000, public_rtcp_port: 40001, pair: 7 });
    assert_eq!(state.missing_offer_media(), (false, true));
    state
}

#[test]
fn directions_mirror_the_peer() {
    assert_eq!(flip_direction(Direction::SendRecv, false), Direction::SendRecv);
    assert_eq!(flip_direction(Direction::SendRecv, true), Direction::RecvOnly);
    assert_eq!(flip_direction(Direction::RecvOnly, false), Direction::SendOnly);
    assert_eq!(flip_direction(Direction::RecvOnly, true), Direction::Inactive);
    assert_eq!(flip_direction(Direction::SendOnly, false), Direction::RecvOnly);
    assert_eq!(flip_direction(Direction::Inactive, false), Direction::Inactive);
    for d in [Direction::SendRecv, Direction::RecvOnly, Direction::SendOnly, Direction::Inactive] {
        for unspecified in [false, true] {
            let f = flip_direction(d, unspecified);
            assert_eq!(is_receiving(f), is_sending(d));
            assert_eq!(is_sending(f), is_receiving(d) && !unspecified);
        }
    }
}

#[test]
fn peer_addresses() {
    let ip = IpAddress::V4(0xc0a80001);
    let m = audio_answer(vec![8], Some(TaggedAddress::Ip(ip)), Direction::SendRecv);
    assert_eq!(
        remote_peer_addresses(&None, &m),
        Ok((SocketAddress { ip, port: 50000 }, SocketAddress { ip, port: 50001 }))
    );
    let mut with_rtcp = audio_answer(vec![8], None, Direction::SendRecv);
    with_rtcp.rtcp_port = Some(60000);
    assert_eq!(
        remote_peer_addresses(&Some(TaggedAddress::Ip(ip)), &with_rtcp),
        Ok((SocketAddress { ip, port: 50000 }, SocketAddress { ip, port: 60000 }))
    );
    let mut top = audio_answer(vec![8], Some(TaggedAddress::Ip(ip)), Direction::SendRecv);
    top.port = 65535;
    assert_eq!(remote_peer_addresses(&None, &top).unwrap().1.port, 0);
    let none = audio_answer(vec![8], None, Direction::SendRecv);
    assert_eq!(remote_peer_addresses(&None, &none), Err(SdpError::MissingConnection));
    let unresolved = audio_answer(
        vec![8],
        Some(TaggedAddress::Fqdn { name: "pbx.invalid".to_string(), resolved: None }),
        Direction::SendRecv,
    );
    assert_eq!(remote_peer_addresses(&None, &unresolved), Err(SdpError::UnresolvableAddress));
}

#[test]
fn own_offer_lists_all_audio_codecs() {
    let state = offered_state();
    let sdp = state.build_sdp();
    assert_eq!(sdp.origin, Some(Origin { session_id: 1000, session_version: 1001, address: IpAddress::V4(0x0a000001) }));
    assert_eq!(sdp.name, "opentalk-obelisk");
    assert_eq!(sdp.media_descriptions.len(), 1);
    let m = &sdp.media_descriptions[0];
    assert_eq!(m.media_type, SdpMediaType::Audio);
    assert_eq!(m.port, 40000);
    assert_eq!(m.rtcp_port, Some(40001));
    assert_eq!(m.fmts, vec![9, 8, 0, 101]);
    assert_eq!(m.proto, TransportProtocol::RtpAvp);
    assert_eq!(m.direction, Direction::SendRecv);
    let maps: Vec<(u8, &str, u32)> = m.rtpmap.iter().map(|r| (r.payload, r.encoding.as_str(), r.clock_rate)).collect();
    assert_eq!(maps, vec![(9, "G722", 8000), (8, "PCMA", 8000), (0, "PCMU", 8000), (101, "telephone-event", 8000)]);
    assert!(m.crypto.is_empty());
}

#[test]
fn answer_establishes_the_offered_session() {
    let mut state = offered_state();
    let ip = IpAddress::V4(0xc0a80001);
    let answer = session(vec![audio_answer(vec![8, 101], None, Direction::SendRecv)], Some(TaggedAddress::Ip(ip)));
    let changes = state.receive_answer(&answer).unwrap();
    assert_eq!(changes, vec![MediaChange::AddSender(MediaSessionId(0)), MediaChange::AddReceiver(MediaSessionId(0))]);
    let s = state.media_by_id(MediaSessionId(0));
    assert!(s.state.is_established());
    assert_eq!(s.dtmf_events.as_ref().map(|d| d.pt), Some(101));
    let sdp = state.build_sdp();
    let m = &sdp.media_descriptions[0];
    assert_eq!(m.fmts, vec![8, 101]);
}

#[test]
fn answer_errors() {
    let ip = IpAddress::V4(0xc0a80001);
    let mut state = offered_state();
    let no_conn = session(vec![audio_answer(vec![8], None, Direction::SendRecv)], None);
    assert_eq!(state.receive_answer(&no_conn), Err(SdpError::MissingConnection));

    let mut state = offered_state();
    let mut video = audio_answer(vec![96], Some(TaggedAddress::Ip(ip)), Direction::SendRecv);
    video.media_type = SdpMediaType::Video;
    assert_eq!(state.receive_answer(&session(vec![video], None)), Err(SdpError::NotOffered));

    let mut state = offered_state();
    let unknown = audio_answer(vec![18], Some(TaggedAddress::Ip(ip)), Direction::SendRecv);
    assert_eq!(state.receive_answer(&session(vec![unknown], None)), Err(SdpError::NoAudioCodec));

    // an inactive answer establishes nothing, and the offer is dropped
    let mut state = offered_state();
    let inactive = audio_answer(vec![8], Some(TaggedAddress::Ip(ip)), Direction::Inactive);
    assert_eq!(state.receive_answer(&session(vec![inactive], None)), Ok(vec![]));
    assert!(state.media_sessions.is_empty());
}

#[test]
fn srtp_offer_and_setup() {
    let offered = offer_srtp();
    assert!(!offered.is_empty());
    for o in &offered {
        assert!(!o.send_key.is_empty());
        assert!(o.recv_key.is_empty());
    }
    let mut m = audio_answer(vec![8], None, Direction::SendRecv);
    assert_eq!(setup_srtp(&m).err(), Some(SdpError::NoCompatibleCrypto));
    m.crypto = vec![SrtpCrypto {
        tag: 1,
        suite: SrtpSuite::AES_CM_128_HMAC_SHA1_80,
        keys: vec!["not base64!".to_string()],
    }];
    assert_eq!(setup_srtp(&m).err(), Some(SdpError::InvalidKey));
    m.crypto = vec![SrtpCrypto {
        tag: 3,
        suite: SrtpSuite::AES_CM_128_HMAC_SHA1_80,
        keys: vec!["AAECAwQFBgcICQoLDA0ODxAREhMUFRYXGBkaGxwd".to_string()],
    }];
    let info = setup_srtp(&m).unwrap();
    assert_eq!(info.tag, 3);
    assert_eq!(info.suite, SrtpSuite::AES_CM_128_HMAC_SHA1_80);
    assert_eq!(info.recv_key, (0u8..30).collect::<Vec<u8>>());
    assert_eq!(info.send_key.len(), 30);
}

#[test]
fn crypto_attribute_carries_the_send_key_in_base64() {
    let info = SrtpInfo {
        tag: 2,
        suite: SrtpSuite::AES_CM_128_HMAC_SHA1_80,
        send_key: (0u8..30).collect(),
        recv_key: vec![],
    };
    let mut crypto = vec![];
    populate_crypto_attributes(&info, &mut crypto);
    assert_eq!(crypto.len(), 1);
    assert_eq!(crypto[0].tag, 2);
    assert_eq!(crypto[0].suite, SrtpSuite::AES_CM_128_HMAC_SHA1_80);
    assert_eq!(crypto[0].keys, vec!["AAECAwQFBgcICQoLDA0ODxAREhMUFRYXGBkaGxwd".to_string()]);
}

#[test]
fn codec_of_established_session_is_announced() {
    let state = offered_state();
    let s = state.media_by_id(MediaSessionId(0));
    assert!(s.state.is_offered());
    assert_eq!(s.media_type, MediaType::Audio);
    assert_eq!(Codec::G722.encoding_name(), "G722");
}
