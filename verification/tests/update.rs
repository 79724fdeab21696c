use obelisk::codec::{Codec, MediaType};
use obelisk::net::{IpAddress, SocketAddress};
use obelisk::sdp::{
    Established, MediaChange, MediaSession, MediaSessionId, MediaSessionState, SessionState,
};
use obelisk::sdp_model::Direction;
use obelisk::settings::{
    AuthSettings, ControllerSettings, DisplayNameSource, Language, RtpPortRange, Settings,
    SipSettings, SipTransport,
};
use obelisk::sip_codec::{
    DecoderCapability, EncoderProfile, H264Level, H264PacketizationMode, SdpRecvCodec,
    SdpSendCodec, SdpSendCodecParams,
};
use std::sync::Arc;

fn settings() -> Arc<Settings> {
    Arc::new(Settings {
        language: Language::DE,
        auth: AuthSettings {
            issuer: "https://auth.example".to_string(),
            client_id: "obelisk".to_string(),
            client_secret: "SECRET-REDACTED".to_string(),
        },
        monitoring: None,
        controller: ControllerSettings { domain: "controller.example".to_string(), insecure: true },
        sip: SipSettings {
            addr: "0.0.0.0".to_string(),
            port: 5060,
            transport: SipTransport::Udp,
            inbound_addr: None,
            inbound_media_ip: None,
            id: None,
            contact: None,
            username: None,
            registrar: None,
            stun_server: None,
            rtp_port_range: RtpPortRange { start: 40000, end: 49999 },
            offer_srtp: false,
            max_video_bitrate: 6_000_000,
            encode_video_at_half_bitrate: false,
            display_name_source: DisplayNameSource::Contact,
        },
    })
}

fn video_session(id: u32, fps: u32) -> MediaSession<()> {
    let addr = SocketAddress { ip: IpAddress::V4(1), port: 4000 };
    MediaSession {
        id: MediaSessionId(id),
        media_type: MediaType::Video,
        state: MediaSessionState::Established(Established {
            remote_rtp_addr: addr,
            remote_rtcp_addr: addr,
            send_codec: SdpSendCodec {
                payload: 96,
                codec: Codec::H264,
                codec_params: SdpSendCodecParams::H264 {
                    width: 1280,
                    height: 720,
                    fps,
                    level: H264Level::Level31,
                    profile: EncoderProfile::Baseline,
                    packetization_mode: H264PacketizationMode::SingleNal,
                },
                bitrate: None,
            },
            recv_codec: SdpRecvCodec { payload: 96, codec: Codec::H264, fmtp: None },
            srtp: None,
        }),
        local_rtp_addr: addr,
        local_rtcp_addr: addr,
        direction: Direction::SendRecv,
        dtmf_events: None,
        socket_pair: (),
    }
}

#[test]
fn compositor_runs_at_the_lowest_sender_rate() {
    let cap = DecoderCapability { profile_idc: 66, profile_iop: 0, level_idc: 31, max_mbps: 0, max_fs: 0, max_cpb: 0, max_dpb: 0, max_br: 0 };
    let mut state: SessionState<()> = SessionState::empty(settings(), IpAddress::V4(1), 5, cap);
    state.media_sessions.push(video_session(0, 30));
    state.media_sessions.push(video_session(1, 12));
    state.media_sessions.push(video_session(2, 25));
    assert_eq!(state.target_fps(&vec![]), None);
    assert_eq!(state.target_fps(&vec![MediaChange::AddReceiver(MediaSessionId(1))]), None);
    assert_eq!(state.target_fps(&vec![MediaChange::AddSender(MediaSessionId(0))]), Some(30));
    assert_eq!(
        state.target_fps(&vec![
            MediaChange::AddSender(MediaSessionId(0)),
            MediaChange::RemoveSender(MediaSessionId(2)),
            MediaChange::AddSender(MediaSessionId(1)),
            MediaChange::AddSender(MediaSessionId(2)),
        ]),
        Some(12)
    );
}
