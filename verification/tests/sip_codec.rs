use obelisk::codec::Codec;
use obelisk::sdp_model::{
    Direction, Fmtp, ImageAttr, MediaDescription, RtpMap, SdpMediaType, TransportProtocol, XyRange,
};
use obelisk::sip_codec::{
    available_video_codec, calculate_best_resolution_and_fps, choose_audio_codec, clamp_by_range,
    encoder_bitrate,
    clamp_resolution_by_imageattr, decoder_fmtp, h264_params, level_of_code, EncoderProfile, offer_all_audio_codecs,
    offer_all_video_codecs, parse_h264_fmtp, profile_of_code, DecoderCapability,
    H264Level, H264PacketizationMode, H264Profile, ProfileLevelCodes, SdpSendCodecParams,
};

fn media(fmts: Vec<u8>) -> MediaDescription {
    MediaDescription {
        media_type: SdpMediaType::Audio,
        port: 4000,
        proto: TransportProtocol::RtpAvp,
        fmts,
        connection: None,
        bandwidth: vec![],
        direction: Direction::SendRecv,
        rtcp_port: None,
        rtpmap: vec![],
        fmtp: vec![],
        crypto: vec![],
        imageattr: vec![],
    }
}

fn cap() -> DecoderCapability {
    DecoderCapability {
        profile_idc: 66,
        profile_iop: 0xe0,
        level_idc: 31,
        max_mbps: 108000,
        max_fs: 3600,
        max_cpb: 0,
        max_dpb: 0,
        max_br: 0,
    }
}

#[test]
fn audio_codec_preference() {
    let g722 = choose_audio_codec(&media(vec![0, 8, 9, 101])).unwrap();
    assert_eq!((g722.payload, g722.codec), (9, Codec::G722));
    assert_eq!(g722.codec_params, SdpSendCodecParams::NoParams);
    let pcma = choose_audio_codec(&media(vec![0, 8])).unwrap();
    assert_eq!((pcma.payload, pcma.codec), (8, Codec::G711PCMA));
    let pcmu = choose_audio_codec(&media(vec![101, 0])).unwrap();
    assert_eq!((pcmu.payload, pcmu.codec), (0, Codec::G711PCMU));
    assert!(choose_audio_codec(&media(vec![18, 101])).is_none());
}

#[test]
fn offered_codecs() {
    let audio: Vec<(u8, Codec)> = offer_all_audio_codecs().iter().map(|c| (c.payload, c.codec)).collect();
    assert_eq!(audio, vec![(9, Codec::G722), (8, Codec::G711PCMA), (0, Codec::G711PCMU)]);
    let video = offer_all_video_codecs(&cap());
    assert_eq!(video.len(), 2);
    assert_eq!((video[0].payload, video[0].codec), (96, Codec::H264));
    assert_eq!((video[1].payload, video[1].codec), (97, Codec::H264));
    assert!(video[0].fmtp.as_ref().unwrap().contains("packetization-mode=0"));
    assert!(video[1].fmtp.as_ref().unwrap().contains("packetization-mode=1"));
    assert_eq!(available_video_codec(), "H264");
}

#[test]
fn decoder_fmtp_text() {
    assert_eq!(
        decoder_fmtp(&cap(), H264PacketizationMode::NonInterleavedMode),
        "profile-level-id=42E01F;level-asymmetry-allowed=1;packetization-mode=1;max-mbps=108000;max-fs=3600;max-cpb=0;max-dpb=0;max-br=0"
    );
    let neg = DecoderCapability { profile_idc: -1, profile_iop: 0, level_idc: 5, max_mbps: -7, ..cap() };
    assert_eq!(
        decoder_fmtp(&neg, H264PacketizationMode::SingleNal),
        "profile-level-id=FFFFFFFF0005;level-asymmetry-allowed=1;packetization-mode=0;max-mbps=-7;max-fs=3600;max-cpb=0;max-dpb=0;max-br=0"
    );
}

#[test]
fn profile_and_level_codes() {
    assert_eq!(profile_of_code(1), Some(H264Profile::ConstrainedBaseline));
    assert_eq!(profile_of_code(5), Some(H264Profile::High));
    assert_eq!(profile_of_code(7), None);
    assert_eq!(level_of_code(0), Some(H264Level::Level1b));
    assert_eq!(level_of_code(31), Some(H264Level::Level31));
    assert_eq!(level_of_code(52), Some(H264Level::Level52));
    assert_eq!(level_of_code(33), None);
}

#[test]
fn best_resolution_per_level() {
    assert_eq!(calculate_best_resolution_and_fps(H264Level::Level31, None, None), ((1280, 720), 30));
    assert_eq!(calculate_best_resolution_and_fps(H264Level::Level4, None, None), ((1920, 1080), 30));
    assert_eq!(calculate_best_resolution_and_fps(H264Level::Level1, None, None), ((128, 72), 30));
    assert_eq!(calculate_best_resolution_and_fps(H264Level::Level1, Some(108000), Some(3600)), ((1280, 720), 30));
    assert_eq!(calculate_best_resolution_and_fps(H264Level::Level3, None, Some(8160)), ((1920, 1080), 4));
    assert_eq!(calculate_best_resolution_and_fps(H264Level::Level3, Some(10), Some(8160)), ((64, 36), 1));
}

#[test]
fn ranges_clamp_values() {
    let mut v = 1920;
    clamp_by_range(&mut v, &XyRange::Range { lower: 320, upper: 1280, step: Some(16) });
    assert_eq!(v, 1280);
    let mut v = 100;
    clamp_by_range(&mut v, &XyRange::Range { lower: 320, upper: 1280, step: None });
    assert_eq!(v, 320);
    let mut v = 1920;
    clamp_by_range(&mut v, &XyRange::List(vec![640, 1280]));
    assert_eq!(v, 640);
    let mut v = 1920;
    clamp_by_range(&mut v, &XyRange::Value(800));
    assert_eq!(v, 800);
    let mut v = 600;
    clamp_by_range(&mut v, &XyRange::Value(800));
    assert_eq!(v, 600);

    let attr = ImageAttr { pt: Some(97), recv_best: Some((XyRange::Value(640), XyRange::Value(480))) };
    let (mut w, mut h) = (1280, 720);
    clamp_resolution_by_imageattr(&attr, &mut w, &mut h);
    assert_eq!((w, h), (640, 480));
    let none = ImageAttr { pt: None, recv_best: None };
    clamp_resolution_by_imageattr(&none, &mut w, &mut h);
    assert_eq!((w, h), (640, 480));
}

#[test]
fn h264_fmtp_parameters() {
    let p = parse_h264_fmtp(
        &"profile-level-id=42e01f;level-asymmetry-allowed=1;packetization-mode=1;max-br=2000".to_string(),
        6_000_000,
    );
    assert!(!p.failed);
    assert_eq!(p.level, Some(ProfileLevelCodes { profile: 1, level: 31 }));
    assert_eq!(p.packetization_mode, H264PacketizationMode::NonInterleavedMode);
    assert_eq!(p.bitrate, Some(2_000_000));

    let capped = parse_h264_fmtp(&"max-br=10000;max-mbps=40500;max-fs=1620".to_string(), 6_000_000);
    assert_eq!(capped.bitrate, Some(6_000_000));
    assert_eq!(capped.max_mbps, Some(40500));
    assert_eq!(capped.max_fs, Some(1620));
    assert_eq!(capped.packetization_mode, H264PacketizationMode::SingleNal);

    assert!(parse_h264_fmtp(&"packetization-mode=2".to_string(), 1).failed);
    assert!(parse_h264_fmtp(&"max-fs=big".to_string(), 1).failed);
    assert!(parse_h264_fmtp(&"profile-level-id=zz".to_string(), 1).failed);
    let unknown_text = parse_h264_fmtp(&"sprop-parameter-sets;foo=bar".to_string(), 1);
    assert!(unknown_text.failed);
}

#[test]
fn rtpmap_of_receive_codec() {
    let audio = offer_all_audio_codecs();
    let m: RtpMap = audio[1].make_rtpmap();
    assert_eq!((m.payload, m.encoding.as_str(), m.clock_rate, m.params), (8, "PCMA", 8000, None));
    let f = Fmtp { format: 96, params: "a=b".to_string() };
    let g = f.copy();
    assert_eq!((g.format, g.params.as_str()), (96, "a=b"));
}

#[test]
fn encoder_bitrate_is_capped_and_halved() {
    assert_eq!(encoder_bitrate(None, 6_000_000, false), 6_000_000);
    assert_eq!(encoder_bitrate(Some(2_000_000), 6_000_000, false), 2_000_000);
    assert_eq!(encoder_bitrate(Some(8_000_000), 6_000_000, false), 6_000_000);
    assert_eq!(encoder_bitrate(Some(2_000_001), 6_000_000, true), 1_000_000);
    assert_eq!(encoder_bitrate(None, 6_000_000, true), 3_000_000);
}

#[test]
fn nothing_fitting_falls_back_to_1080p() {
    assert_eq!(calculate_best_resolution_and_fps(H264Level::Level31, Some(0), None), ((1920, 1080), 30));
}

#[test]
fn the_largest_fitting_size_stays_within_the_budget() {
    assert_eq!(calculate_best_resolution_and_fps(H264Level::Level31, Some(240000), None), ((1856, 1044), 30));
    assert_eq!(calculate_best_resolution_and_fps(H264Level::Level31, Some(243000), None), ((1920, 1080), 30));
}

#[test]
fn a_large_max_mbps_does_not_shrink_the_budget() {
    assert_eq!(calculate_best_resolution_and_fps(H264Level::Level31, Some(u32::MAX), None), ((1920, 1080), 30));
}

#[test]
fn a_large_max_br_is_capped_not_wrapped() {
    let p = parse_h264_fmtp(&"profile-level-id=42e01f;packetization-mode=1;max-br=4295000".to_string(), 6_000_000);
    assert_eq!(p.bitrate, Some(6_000_000));
}

#[test]
fn send_parameters_of_a_constrained_baseline_offer() {
    let p = parse_h264_fmtp(&"profile-level-id=42e01f;packetization-mode=1".to_string(), 6_000_000);
    assert_eq!(
        h264_params(&p, None),
        Some(SdpSendCodecParams::H264 {
            width: 1280,
            height: 720,
            fps: 30,
            level: H264Level::Level31,
            profile: EncoderProfile::Baseline,
            packetization_mode: H264PacketizationMode::NonInterleavedMode,
        })
    );
    let none = parse_h264_fmtp(&"packetization-mode=1".to_string(), 6_000_000);
    assert_eq!(h264_params(&none, None), Some(SdpSendCodecParams::NoParams));
}
