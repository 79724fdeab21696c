//! Codec negotiation: which codecs the bridge offers, which codec it picks
//! from a peer's media description, and how it sizes the H.264 stream it
//! sends.
use crate::codec::{spec_clock_rate, spec_encoding_name, Codec};
use crate::outside::{parse_profile_level_id, spec_profile_level_id};
use crate::sdp_model::{
    BandwidthV, FmtpV, ImageAttr, ImageAttrV, MediaDescription, MediaDescriptionV, RtpMap, RtpMapV,
    XyRange, XyRangeV, xy_range_wf,
};
use crate::settings::Settings;
use crate::text::{
    chars_equal_str, chars_of, decimal_signed, hex2_i32, parse_u32, push_decimal_signed,
    push_hex2_i32, push_str, spec_parse_u32, spec_split, spec_split_once, split_chars,
    split_once_chars, str_equals, views_of,
};
use vstd::prelude::*;

verus! {

/// Describes the codec used to receive audio/video
#[derive(Debug)]
pub struct SdpRecvCodec {
    pub payload: u8,
    pub codec: Codec,
    pub fmtp: Option<String>,
}

pub struct SdpRecvCodecV {
    pub payload: u8,
    pub codec: Codec,
    pub fmtp: Option<Seq<char>>,
}

impl View for SdpRecvCodec {
    type V = SdpRecvCodecV;

    open spec fn view(&self) -> SdpRecvCodecV {
        SdpRecvCodecV { payload: self.payload, codec: self.codec, fmtp: self.fmtp.deep_view() }
    }
}

impl DeepView for SdpRecvCodec {
    type V = SdpRecvCodecV;

    open spec fn deep_view(&self) -> SdpRecvCodecV {
        self@
    }
}

/// The `rtpmap` attribute that announces a receive codec.
pub open spec fn spec_make_rtpmap(c: SdpRecvCodecV) -> RtpMapV {
    RtpMapV {
        payload: c.payload,
        encoding: spec_encoding_name(c.codec),
        clock_rate: spec_clock_rate(c.codec),
        params: None,
    }
}

pub fn copy_opt_string(s: &Option<String>) -> (r: Option<String>)
    ensures
        r.deep_view() == s.deep_view(),
{
    match s {
        Some(t) => Some(t.clone()),
        None => None,
    }
}

impl SdpRecvCodec {
    /// The `rtpmap` attribute for this codec: its payload number, encoding
    /// name and clock rate.
    pub fn make_rtpmap(&self) -> (r: RtpMap)
        ensures
            r@ == spec_make_rtpmap(self@),
    {
        RtpMap {
            payload: self.payload,
            encoding: String::from_str(self.codec.encoding_name()),
            clock_rate: self.codec.clock_rate(),
            params: None,
        }
    }

    /// A copy with the same contents.
    pub fn copy(&self) -> (r: SdpRecvCodec)
        ensures
            r@ == self@,
    {
        SdpRecvCodec { payload: self.payload, codec: self.codec, fmtp: copy_opt_string(&self.fmtp) }
    }
}

/// RTP packetization modes of H.264 (RFC 6184 sections 6.2 and 6.3).
#[derive(Debug, Clone, Copy, PartialEq, Eq, Structural)]
pub enum H264PacketizationMode {
    SingleNal,
    NonInterleavedMode,
}

/// H.264 profiles that a `profile-level-id` can name.
#[derive(Debug, Clone, Copy, PartialEq, Eq, Structural)]
pub enum H264Profile {
    ConstrainedBaseline,
    Baseline,
    Main,
    ConstrainedHigh,
    High,
    PredictiveHigh444,
}

/// H.264 levels that a `profile-level-id` can name.
#[derive(Debug, Clone, Copy, PartialEq, Eq, Structural)]
pub enum H264Level {
    Level1b,
    Level1,
    Level11,
    Level12,
    Level13,
    Level2,
    Level21,
    Level22,
    Level3,
    Level31,
    Level32,
    Level4,
    Level41,
    Level42,
    Level5,
    Level51,
    Level52,
}

/// The encoder profiles the bridge uses when sending H.264.
#[derive(Debug, Clone, Copy, PartialEq, Eq, Structural)]
pub enum EncoderProfile {
    Baseline,
    Main,
    High,
}

/// How the bridge encodes what it sends.
#[derive(Debug, Clone, Copy, PartialEq, Eq, Structural)]
pub enum SdpSendCodecParams {
    /// Nothing beyond the codec itself
    NoParams,
    H264 {
        width: u32,
        height: u32,
        fps: u32,
        level: H264Level,
        profile: EncoderProfile,
        packetization_mode: H264PacketizationMode,
    },
}

/// Describes the codec used to send audio/video and how to packetize it
#[derive(Debug, Clone, Copy, PartialEq, Eq, Structural)]
pub struct SdpSendCodec {
    /// RTP payload number to recognize the codec by
    pub payload: u8,
    pub codec: Codec,
    pub codec_params: SdpSendCodecParams,
    /// bits/s
    pub bitrate: Option<u32>,
}

/// The capabilities that openh264's decoder reports.
#[derive(Debug, Clone, Copy, PartialEq, Eq, Structural)]
pub struct DecoderCapability {
    pub profile_idc: i32,
    pub profile_iop: i32,
    pub level_idc: i32,
    pub max_mbps: i32,
    pub max_fs: i32,
    pub max_cpb: i32,
    pub max_dpb: i32,
    pub max_br: i32,
}

pub open spec fn packetization_mode_number(m: H264PacketizationMode) -> int {
    match m {
        H264PacketizationMode::SingleNal => 0,
        H264PacketizationMode::NonInterleavedMode => 1,
    }
}

/// The fmtp parameters with which the bridge announces its H.264 decoder.
pub open spec fn spec_decoder_fmtp(cap: DecoderCapability, mode: H264PacketizationMode) -> Seq<
    char,
> {
    "profile-level-id="@ + hex2_i32(cap.profile_idc as int) + hex2_i32(cap.profile_iop as int)
        + hex2_i32(cap.level_idc as int) + ";level-asymmetry-allowed=1;packetization-mode="@
        + decimal_signed(packetization_mode_number(mode)) + ";max-mbps="@ + decimal_signed(
        cap.max_mbps as int,
    ) + ";max-fs="@ + decimal_signed(cap.max_fs as int) + ";max-cpb="@ + decimal_signed(
        cap.max_cpb as int,
    ) + ";max-dpb="@ + decimal_signed(cap.max_dpb as int) + ";max-br="@ + decimal_signed(
        cap.max_br as int,
    )
}

/// The fmtp parameters for the H.264 decoder with the given capabilities and
/// packetization mode.
pub fn decoder_fmtp(cap: &DecoderCapability, mode: H264PacketizationMode) -> (r: String)
    ensures
        r@ == spec_decoder_fmtp(*cap, mode),
{
    let mut s = String::new();
    push_str(&mut s, "profile-level-id=");
    push_hex2_i32(&mut s, cap.profile_idc);
    push_hex2_i32(&mut s, cap.profile_iop);
    push_hex2_i32(&mut s, cap.level_idc);
    push_str(&mut s, ";level-asymmetry-allowed=1;packetization-mode=");
    let m: i64 = match mode {
        H264PacketizationMode::SingleNal => 0,
        H264PacketizationMode::NonInterleavedMode => 1,
    };
    push_decimal_signed(&mut s, m);
    push_str(&mut s, ";max-mbps=");
    push_decimal_signed(&mut s, cap.max_mbps as i64);
    push_str(&mut s, ";max-fs=");
    push_decimal_signed(&mut s, cap.max_fs as i64);
    push_str(&mut s, ";max-cpb=");
    push_decimal_signed(&mut s, cap.max_cpb as i64);
    push_str(&mut s, ";max-dpb=");
    push_decimal_signed(&mut s, cap.max_dpb as i64);
    push_str(&mut s, ";max-br=");
    push_decimal_signed(&mut s, cap.max_br as i64);
    assert(s@ =~= spec_decoder_fmtp(*cap, mode));
    s
}

// ---------------------------------------------------------------------------
// Audio
// ---------------------------------------------------------------------------

pub open spec fn audio_send(pt: u8, codec: Codec) -> SdpSendCodec {
    SdpSendCodec { payload: pt, codec, codec_params: SdpSendCodecParams::NoParams, bitrate: None }
}

/// The audio codec the bridge sends with: G.722 (payload 9) where the offer
/// lists it, else PCMA (8), else PCMU (0).
pub open spec fn spec_choose_audio_codec(fmts: Seq<u8>) -> Option<SdpSendCodec> {
    if fmts.contains(9) {
        Some(audio_send(9, Codec::G722))
    } else if fmts.contains(8) {
        Some(audio_send(8, Codec::G711PCMA))
    } else if fmts.contains(0) {
        Some(audio_send(0, Codec::G711PCMU))
    } else {
        None
    }
}

fn contains_u8(v: &Vec<u8>, x: u8) -> (r: bool)
    ensures
        r == v@.contains(x),
{
    let mut i: usize = 0;
    while i < v.len()
        invariant
            i <= v.len(),
            forall|j: int| 0 <= j < i ==> v@[j] != x,
        decreases v.len() - i,
    {
        if v[i] == x {
            return true;
        }
        i = i + 1;
    }
    false
}

/// Picks the audio codec to send with from the payload numbers of an `m=`
/// line, in the order of preference G.722, PCMA, PCMU.
pub fn choose_audio_codec(offer: &MediaDescription) -> (r: Option<SdpSendCodec>)
    ensures
        r == spec_choose_audio_codec(offer@.fmts),
{
    if contains_u8(&offer.fmts, 9) {
        Some(SdpSendCodec { payload: 9, codec: Codec::G722, codec_params: SdpSendCodecParams::NoParams, bitrate: None })
    } else if contains_u8(&offer.fmts, 8) {
        Some(SdpSendCodec { payload: 8, codec: Codec::G711PCMA, codec_params: SdpSendCodecParams::NoParams, bitrate: None })
    } else if contains_u8(&offer.fmts, 0) {
        Some(SdpSendCodec { payload: 0, codec: Codec::G711PCMU, codec_params: SdpSendCodecParams::NoParams, bitrate: None })
    } else {
        None
    }
}

pub open spec fn recv_codec_v(payload: u8, codec: Codec, fmtp: Option<Seq<char>>) -> SdpRecvCodecV {
    SdpRecvCodecV { payload, codec, fmtp }
}

/// The audio codecs the bridge offers to receive: G.722 (9), PCMA (8), PCMU (0).
pub open spec fn spec_all_audio_codecs() -> Seq<SdpRecvCodecV> {
    seq![
        recv_codec_v(9, Codec::G722, None),
        recv_codec_v(8, Codec::G711PCMA, None),
        recv_codec_v(0, Codec::G711PCMU, None),
    ]
}

/// The audio codecs the bridge offers to receive.
pub fn offer_all_audio_codecs() -> (r: Vec<SdpRecvCodec>)
    ensures
        r.deep_view() == spec_all_audio_codecs(),
{
    let mut v: Vec<SdpRecvCodec> = Vec::new();
    v.push(SdpRecvCodec { payload: 9, codec: Codec::G722, fmtp: None });
    v.push(SdpRecvCodec { payload: 8, codec: Codec::G711PCMA, fmtp: None });
    v.push(SdpRecvCodec { payload: 0, codec: Codec::G711PCMU, fmtp: None });
    assert(v.deep_view() =~= spec_all_audio_codecs());
    v
}

/// The video codecs the bridge offers to receive: H.264 in single-NAL mode
/// (96) and in non-interleaved mode (97), each with its decoder's fmtp.
pub open spec fn spec_all_video_codecs(cap: DecoderCapability) -> Seq<SdpRecvCodecV> {
    seq![
        recv_codec_v(96, Codec::H264, Some(spec_decoder_fmtp(cap, H264PacketizationMode::SingleNal))),
        recv_codec_v(97, Codec::H264, Some(spec_decoder_fmtp(cap, H264PacketizationMode::NonInterleavedMode))),
    ]
}

/// The video codecs the bridge offers to receive, for a decoder with the given
/// capabilities.
pub fn offer_all_video_codecs(cap: &DecoderCapability) -> (r: Vec<SdpRecvCodec>)
    ensures
        r.deep_view() == spec_all_video_codecs(*cap),
{
    let mut v: Vec<SdpRecvCodec> = Vec::new();
    v.push(SdpRecvCodec { payload: 96, codec: Codec::H264, fmtp: Some(decoder_fmtp(cap, H264PacketizationMode::SingleNal)) });
    v.push(SdpRecvCodec { payload: 97, codec: Codec::H264, fmtp: Some(decoder_fmtp(cap, H264PacketizationMode::NonInterleavedMode)) });
    assert(v.deep_view() =~= spec_all_video_codecs(*cap));
    v
}

/// The name of the one video codec the bridge supports.
pub fn available_video_codec() -> (r: &'static str)
    ensures
        r@ == spec_encoding_name(Codec::H264),
{
    proof {
        reveal_strlit("H264");
    }
    "H264"
}

// ---------------------------------------------------------------------------
// Video
// ---------------------------------------------------------------------------

/// Frame rate of the composited video where the peer names none.
pub const DEFAULT_FPS: u32 = 30;

pub open spec fn spec_profile_of_code(p: u8) -> Option<H264Profile> {
    if p == 1 {
        Some(H264Profile::ConstrainedBaseline)
    } else if p == 2 {
        Some(H264Profile::Baseline)
    } else if p == 3 {
        Some(H264Profile::Main)
    } else if p == 4 {
        Some(H264Profile::ConstrainedHigh)
    } else if p == 5 {
        Some(H264Profile::High)
    } else if p == 6 {
        Some(H264Profile::PredictiveHigh444)
    } else {
        None
    }
}

/// The profile a `profile-level-id` discriminant stands for.
pub fn profile_of_code(p: u8) -> (r: Option<H264Profile>)
    ensures
        r == spec_profile_of_code(p),
{
    if p == 1 {
        Some(H264Profile::ConstrainedBaseline)
    } else if p == 2 {
        Some(H264Profile::Baseline)
    } else if p == 3 {
        Some(H264Profile::Main)
    } else if p == 4 {
        Some(H264Profile::ConstrainedHigh)
    } else if p == 5 {
        Some(H264Profile::High)
    } else if p == 6 {
        Some(H264Profile::PredictiveHigh444)
    } else {
        None
    }
}

/// Levels are coded as ten times the level number; level 1b is 0.
pub open spec fn spec_level_of_code(l: u8) -> Option<H264Level> {
    if l == 0 {
        Some(H264Level::Level1b)
    } else if l == 10 {
        Some(H264Level::Level1)
    } else if l == 11 {
        Some(H264Level::Level11)
    } else if l == 12 {
        Some(H264Level::Level12)
    } else if l == 13 {
        Some(H264Level::Level13)
    } else if l == 20 {
        Some(H264Level::Level2)
    } else if l == 21 {
        Some(H264Level::Level21)
    } else if l == 22 {
        Some(H264Level::Level22)
    } else if l == 30 {
        Some(H264Level::Level3)
    } else if l == 31 {
        Some(H264Level::Level31)
    } else if l == 32 {
        Some(H264Level::Level32)
    } else if l == 40 {
        Some(H264Level::Level4)
    } else if l == 41 {
        Some(H264Level::Level41)
    } else if l == 42 {
        Some(H264Level::Level42)
    } else if l == 50 {
        Some(H264Level::Level5)
    } else if l == 51 {
        Some(H264Level::Level51)
    } else if l == 52 {
        Some(H264Level::Level52)
    } else {
        None
    }
}

/// The level a `profile-level-id` discriminant stands for.
pub fn level_of_code(l: u8) -> (r: Option<H264Level>)
    ensures
        r == spec_level_of_code(l),
{
    if l == 0 {
        Some(H264Level::Level1b)
    } else if l == 10 {
        Some(H264Level::Level1)
    } else if l == 11 {
        Some(H264Level::Level11)
    } else if l == 12 {
        Some(H264Level::Level12)
    } else if l == 13 {
        Some(H264Level::Level13)
    } else if l == 20 {
        Some(H264Level::Level2)
    } else if l == 21 {
        Some(H264Level::Level21)
    } else if l == 22 {
        Some(H264Level::Level22)
    } else if l == 30 {
        Some(H264Level::Level3)
    } else if l == 31 {
        Some(H264Level::Level31)
    } else if l == 32 {
        Some(H264Level::Level32)
    } else if l == 40 {
        Some(H264Level::Level4)
    } else if l == 41 {
        Some(H264Level::Level41)
    } else if l == 42 {
        Some(H264Level::Level42)
    } else if l == 50 {
        Some(H264Level::Level5)
    } else if l == 51 {
        Some(H264Level::Level51)
    } else if l == 52 {
        Some(H264Level::Level52)
    } else {
        None
    }
}

/// Maximum macroblock processing rate (macroblocks per second) of a level,
/// from ITU-T H.264 (08/2021) Annex A.3.1, Table A-1.
pub open spec fn spec_level_max_mbps(level: H264Level) -> u32 {
    match level {
        H264Level::Level1 | H264Level::Level1b => 1485,
        H264Level::Level11 => 3000,
        H264Level::Level12 => 6000,
        H264Level::Level13 | H264Level::Level2 => 11_880,
        H264Level::Level21 => 19_800,
        H264Level::Level22 => 20_250,
        H264Level::Level3 => 40_500,
        H264Level::Level31 => 108_000,
        H264Level::Level32 => 216_000,
        H264Level::Level4 | H264Level::Level41 => 245_760,
        H264Level::Level42 => 522_240,
        H264Level::Level5 => 589_824,
        H264Level::Level51 => 983_040,
        H264Level::Level52 => 2_073_600,
    }
}

fn level_max_mbps(level: H264Level) -> (r: u32)
    ensures
        r == spec_level_max_mbps(level),
{
    match level {
        H264Level::Level1 | H264Level::Level1b => 1485,
        H264Level::Level11 => 3000,
        H264Level::Level12 => 6000,
        H264Level::Level13 | H264Level::Level2 => 11_880,
        H264Level::Level21 => 19_800,
        H264Level::Level22 => 20_250,
        H264Level::Level3 => 40_500,
        H264Level::Level31 => 108_000,
        H264Level::Level32 => 216_000,
        H264Level::Level4 | H264Level::Level41 => 245_760,
        H264Level::Level42 => 522_240,
        H264Level::Level5 => 589_824,
        H264Level::Level51 => 983_040,
        H264Level::Level52 => 2_073_600,
    }
}

/// The pixel count of the 16:9 size `64 i x 36 i`.
pub open spec fn pixels_of_scale(i: int) -> int {
    (i * 64) * (i * 36)
}

/// Searching upward from `i`: one less than the first scale up to 30 whose
/// size exceeds `max_pixels`, or 30 (1920x1080) when none does.
pub open spec fn scale_from(i: int, max_pixels: int) -> int
    decreases 31 - i,
{
    if i > 30 {
        30
    } else if pixels_of_scale(i) > max_pixels {
        i - 1
    } else {
        scale_from(i + 1, max_pixels)
    }
}

/// The frame rate the bridge encodes at: `max-mbps / max-fs` (at least 1)
/// where the peer names a non-zero `max-fs`, otherwise 30.
pub open spec fn spec_fps(mbps: u32, max_fs: Option<u32>) -> u32 {
    match max_fs {
        Some(f) => if f >= 1 {
            if mbps / f >= 1 {
                (mbps / f) as u32
            } else {
                1
            }
        } else {
            DEFAULT_FPS
        },
        None => DEFAULT_FPS,
    }
}

/// The largest 16:9 size (in steps of 64x36, up to 1920x1080) whose pixel
/// count fits what the level, `max-mbps` and `max-fs` allow, and the frame
/// rate; 1920x1080 where not even 64x36 fits. The pixel budget is
/// `max-mbps * 256 / fps`.
pub open spec fn spec_best_resolution_and_fps(
    level: H264Level,
    max_mbps: Option<u32>,
    max_fs: Option<u32>,
) -> ((u32, u32), u32) {
    let mbps = match max_mbps {
        Some(m) => m,
        None => spec_level_max_mbps(level),
    };
    let fps = spec_fps(mbps, max_fs);
    let max_pixels = (mbps * 256) / (fps as int);
    let k = scale_from(1, max_pixels);
    if k == 0 {
        ((1920, 1080), fps)
    } else {
        (((64 * k) as u32, (36 * k) as u32), fps)
    }
}

/// The scale the search settles on is the largest up to 30 whose size fits
/// the pixel budget, or 0 when not even the smallest fits.
pub proof fn lemma_scale_is_largest_fitting(px: int)
    requires
        px >= 0,
    ensures
        ({
            let k = scale_from(1, px);
            ||| (k == 0 && px < pixels_of_scale(1))
            ||| (1 <= k <= 30 && pixels_of_scale(k) <= px && (k == 30 || px < pixels_of_scale(k + 1)))
        }),
{
    assert(pixels_of_scale(0) == 0) by (nonlinear_arith);
    lemma_scale_from_step(1, px);
}

proof fn lemma_scale_from_step(i: int, px: int)
    requires
        1 <= i <= 31,
    ensures
        ({
            let k = scale_from(i, px);
            (pixels_of_scale(i - 1) <= px) ==> (i - 1 <= k <= 30 && pixels_of_scale(k) <= px && (k
                == 30 || px < pixels_of_scale(k + 1)))
        }),
    decreases 31 - i,
{
    if i <= 30 && pixels_of_scale(i) <= px {
        lemma_scale_from_step(i + 1, px);
    }
}

/// A higher level never allows fewer macroblocks per second: the rate grows
/// with the level's `level_idc` (level 1b counts as code 0).
pub proof fn lemma_level_rate_grows(c1: u8, c2: u8)
    requires
        spec_level_of_code(c1) is Some,
        spec_level_of_code(c2) is Some,
        c1 <= c2,
    ensures
        spec_level_max_mbps(spec_level_of_code(c1)->0) <= spec_level_max_mbps(spec_level_of_code(c2)->0),
{
}

proof fn lemma_scale_all_fit(i: int, px: int)
    requires
        1 <= i <= 31,
        px >= 1920 * 1080,
    ensures
        scale_from(i, px) == 30,
    decreases 31 - i,
{
    if i <= 30 {
        assert(pixels_of_scale(i) <= 1920 * 1080) by (nonlinear_arith)
            requires
                1 <= i <= 30,
        {
            assert(i * 64 <= 1920);
            assert(i * 36 <= 1080);
            assert((i * 64) * (i * 36) <= 1920 * (i * 36));
        }
        lemma_scale_all_fit(i + 1, px);
    }
}

/// From level 4 on, a peer that names no `max-mbps` or `max-fs` gets
/// 1920x1080 at 30 frames per second.
pub proof fn lemma_level4_and_up_gets_1080p30(c: u8)
    requires
        spec_level_of_code(c) is Some,
        c >= 40,
    ensures
        spec_best_resolution_and_fps(spec_level_of_code(c)->0, None, None) == ((1920u32, 1080u32), 30u32),
{
    let level = spec_level_of_code(c)->0;
    let mbps = spec_level_max_mbps(level);
    assert(mbps >= 245_760);
    let px = (mbps * 256) / 30;
    assert(px >= 1920 * 1080);
    lemma_scale_all_fit(1, px);
}

/// Picks the encoding size and frame rate for an H.264 level and the peer's
/// optional `max-mbps` and `max-fs` parameters.
pub fn calculate_best_resolution_and_fps(
    level: H264Level,
    max_mbps: Option<u32>,
    max_fs: Option<u32>,
) -> (r: ((u32, u32), u32))
    ensures
        r == spec_best_resolution_and_fps(level, max_mbps, max_fs),
        r.1 >= 1,
{
    let mut fps: u32 = DEFAULT_FPS;
    let mut mbps = level_max_mbps(level);
    if let Some(m) = max_mbps {
        mbps = m;
    }
    if let Some(f) = max_fs {
        if f >= 1 {
            let q = mbps / f;
            fps = if q >= 1 {
                q
            } else {
                1
            };
        }
    }
    assert(fps == spec_fps(mbps, max_fs));
    let max_pixels: u64 = (mbps as u64) * 256 / (fps as u64);
    let ghost px = max_pixels as int;
    let ghost m = match max_mbps {
        Some(m) => m,
        None => spec_level_max_mbps(level),
    };
    assert(mbps == m);
    assert(px == (m * 256) / (fps as int));
    let mut i: u64 = 1;
    while i <= 30
        invariant
            1 <= i <= 31,
            px == max_pixels as int,
            mbps == m,
            m == match max_mbps {
                Some(m) => m,
                None => spec_level_max_mbps(level),
            },
            fps == spec_fps(mbps, max_fs),
            fps >= 1,
            px == (m * 256) / (fps as int),
            scale_from(1, px) == scale_from(i as int, px),
        decreases 31 - i,
    {
        let width: u64 = i * 16 * 4;
        let height: u64 = i * 9 * 4;
        assert(width * height <= 1920 * 1080) by (nonlinear_arith)
            requires
                width <= 1920,
                height <= 1080,
        ;
        assert(width * height == pixels_of_scale(i as int)) by (nonlinear_arith)
            requires
                width == i * 64,
                height == i * 36,
        ;
        if width * height > max_pixels {
            if i == 1 {
                return ((1920, 1080), fps);
            }
            let previous_i: u32 = (i - 1) as u32;
            return ((previous_i * 16 * 4, previous_i * 9 * 4), fps);
        }
        i = i + 1;
    }
    ((1920, 1080), fps)
}

/// A value clamped by one dimension of an image attribute: into the range,
/// or down to the first listed value, or down to the single value.
pub open spec fn spec_clamp_by_range(value: u32, range: XyRangeV) -> u32 {
    match range {
        XyRangeV::Range { lower, upper, .. } => if value < lower {
            lower
        } else if value > upper {
            upper
        } else {
            value
        },
        XyRangeV::List(items) => if items.len() > 0 && items[0] < value {
            items[0]
        } else {
            value
        },
        XyRangeV::Value(v) => if v < value {
            v
        } else {
            value
        },
    }
}

/// Clamps `value` by one dimension of an image attribute.
pub fn clamp_by_range(value: &mut u32, range: &XyRange)
    requires
        xy_range_wf(range@),
    ensures
        *final(value) == spec_clamp_by_range(*old(value), range@),
{
    match range {
        XyRange::Range { lower, upper, step: _ } => {
            if *value < *lower {
                *value = *lower;
            } else if *value > *upper {
                *value = *upper;
            }
        },
        XyRange::List(items) => {
            if items.len() > 0 && items[0] < *value {
                *value = items[0];
            }
        },
        XyRange::Value(v) => {
            if *v < *value {
                *value = *v;
            }
        },
    }
}

/// Width and height clamped by the highest weighted receive set of an image
/// attribute, where it has one.
pub open spec fn spec_clamp_by_imageattr(imageattr: ImageAttrV, width: u32, height: u32) -> (
    u32,
    u32,
) {
    match imageattr.recv_best {
        Some((x, y)) => (spec_clamp_by_range(width, x), spec_clamp_by_range(height, y)),
        None => (width, height),
    }
}

/// Clamps width and height by an image attribute.
pub fn clamp_resolution_by_imageattr(imageattr: &ImageAttr, width: &mut u32, height: &mut u32)
    requires
        match imageattr@.recv_best {
            Some((x, y)) => xy_range_wf(x) && xy_range_wf(y),
            None => true,
        },
    ensures
        (*final(width), *final(height)) == spec_clamp_by_imageattr(
            imageattr@,
            *old(width),
            *old(height),
        ),
{
    if let Some((x, y)) = &imageattr.recv_best {
        clamp_by_range(width, x);
        clamp_by_range(height, y);
    }
}

/// The profile and level discriminants of a `profile-level-id`.
#[derive(Debug, Clone, Copy, PartialEq, Eq, Structural)]
pub struct ProfileLevelCodes {
    pub profile: u8,
    pub level: u8,
}

/// What the parameters of an H.264 `fmtp` attribute say, as far as the
/// bridge reads them. `failed` marks parameters the bridge refuses.
#[derive(Debug, Clone, Copy, PartialEq, Eq, Structural)]
pub struct H264FmtpParams {
    /// Profile and level discriminants of `profile-level-id`
    pub level: Option<ProfileLevelCodes>,
    pub max_mbps: Option<u32>,
    pub max_fs: Option<u32>,
    /// From `max-br`, in bits/s
    pub bitrate: Option<u32>,
    pub packetization_mode: H264PacketizationMode,
    pub failed: bool,
}

pub open spec fn fmtp_initial() -> H264FmtpParams {
    H264FmtpParams {
        level: None,
        max_mbps: None,
        max_fs: None,
        bitrate: None,
        packetization_mode: H264PacketizationMode::SingleNal,
        failed: false,
    }
}

pub open spec fn fmtp_failed(st: H264FmtpParams) -> H264FmtpParams {
    H264FmtpParams { failed: true, ..st }
}

/// One `key=value` parameter applied to what was read so far. Without `=`
/// a parameter is ignored; `profile-level-id` must parse; every other value
/// must be a `u32`; `max-br` is in kbit/s and is capped at `max_bitrate`;
/// `packetization-mode` must be 0 or 1.
pub open spec fn fmtp_step(st: H264FmtpParams, piece: Seq<char>, max_bitrate: u32) -> H264FmtpParams {
    if st.failed {
        st
    } else {
        match spec_split_once(piece, '=') {
            None => st,
            Some((key, value)) => if key == "profile-level-id"@ {
                match spec_profile_level_id(value) {
                    Some((p, l)) => H264FmtpParams {
                        level: Some(ProfileLevelCodes { profile: p, level: l }),
                        ..st
                    },
                    None => fmtp_failed(st),
                }
            } else {
                match spec_parse_u32(value) {
                    None => fmtp_failed(st),
                    Some(v) => if key == "max-mbps"@ {
                        H264FmtpParams { max_mbps: Some(v), ..st }
                    } else if key == "max-fs"@ {
                        H264FmtpParams { max_fs: Some(v), ..st }
                    } else if key == "max-br"@ {
                        H264FmtpParams {
                            bitrate: Some(
                                if v * 1000 < max_bitrate {
                                    (v * 1000) as u32
                                } else {
                                    max_bitrate
                                },
                            ),
                            ..st
                        }
                    } else if key == "packetization-mode"@ {
                        if v == 0 {
                            H264FmtpParams {
                                packetization_mode: H264PacketizationMode::SingleNal,
                                ..st
                            }
                        } else if v == 1 {
                            H264FmtpParams {
                                packetization_mode: H264PacketizationMode::NonInterleavedMode,
                                ..st
                            }
                        } else {
                            fmtp_failed(st)
                        }
                    } else {
                        st
                    },
                }
            },
        }
    }
}

/// The parameters applied one after the other.
pub open spec fn fmtp_fold(pieces: Seq<Seq<char>>, max_bitrate: u32) -> H264FmtpParams
    decreases pieces.len(),
{
    if pieces.len() == 0 {
        fmtp_initial()
    } else {
        fmtp_step(fmtp_fold(pieces.drop_last(), max_bitrate), pieces.last(), max_bitrate)
    }
}

fn fmtp_apply(st: H264FmtpParams, piece: &Vec<char>, max_bitrate: u32) -> (r: H264FmtpParams)
    ensures
        r == fmtp_step(st, piece@, max_bitrate),
{
    if st.failed {
        return st;
    }
    let failed = H264FmtpParams { failed: true, ..st };
    match split_once_chars(piece, '=') {
        None => st,
        Some((key, value)) => {
            if chars_equal_str(&key, "profile-level-id") {
                match parse_profile_level_id(&value) {
                    Some((p, l)) => H264FmtpParams {
                        level: Some(ProfileLevelCodes { profile: p, level: l }),
                        ..st
                    },
                    None => failed,
                }
            } else {
                match parse_u32(&value) {
                    None => failed,
                    Some(v) => {
                        if chars_equal_str(&key, "max-mbps") {
                            H264FmtpParams { max_mbps: Some(v), ..st }
                        } else if chars_equal_str(&key, "max-fs") {
                            H264FmtpParams { max_fs: Some(v), ..st }
                        } else if chars_equal_str(&key, "max-br") {
                            let b: u64 = (v as u64) * 1000;
                            H264FmtpParams {
                                bitrate: Some(
                                    if b < max_bitrate as u64 {
                                        b as u32
                                    } else {
                                        max_bitrate
                                    },
                                ),
                                ..st
                            }
                        } else if chars_equal_str(&key, "packetization-mode") {
                            if v == 0 {
                                H264FmtpParams {
                                    packetization_mode: H264PacketizationMode::SingleNal,
                                    ..st
                                }
                            } else if v == 1 {
                                H264FmtpParams {
                                    packetization_mode: H264PacketizationMode::NonInterleavedMode,
                                    ..st
                                }
                            } else {
                                failed
                            }
                        } else {
                            st
                        }
                    },
                }
            }
        },
    }
}

/// Reads the `;`-separated parameters of an H.264 `fmtp` attribute.
pub fn parse_h264_fmtp(params: &String, max_bitrate: u32) -> (r: H264FmtpParams)
    ensures
        r == fmtp_fold(spec_split(params@, ';'), max_bitrate),
{
    let chars = chars_of(params.as_str());
    let pieces = split_chars(&chars, ';');
    let ghost ps = views_of(pieces@);
    let mut st = H264FmtpParams {
        level: None,
        max_mbps: None,
        max_fs: None,
        bitrate: None,
        packetization_mode: H264PacketizationMode::SingleNal,
        failed: false,
    };
    let mut i: usize = 0;
    assert(ps.take(0) =~= Seq::<Seq<char>>::empty());
    while i < pieces.len()
        invariant
            ps == views_of(pieces@),
            i <= pieces@.len(),
            st == fmtp_fold(ps.take(i as int), max_bitrate),
        decreases pieces@.len() - i,
    {
        st = fmtp_apply(st, &pieces[i], max_bitrate);
        assert(ps.take(i + 1).drop_last() =~= ps.take(i as int));
        assert(ps.take(i + 1).last() == pieces@[i as int]@);
        i = i + 1;
    }
    assert(ps.take(pieces@.len() as int) =~= ps);
    st
}

/// The first `fmtp` attribute, from index `i` on, for payload `pt`.
pub open spec fn find_fmtp(s: Seq<FmtpV>, pt: u8, i: int) -> Option<FmtpV>
    decreases s.len() - i,
{
    if i < 0 || i >= s.len() {
        None
    } else if s[i].format == pt {
        Some(s[i])
    } else {
        find_fmtp(s, pt, i + 1)
    }
}

/// The first image attribute, from index `i` on, for payload `pt` or for all
/// payloads.
pub open spec fn find_imageattr(s: Seq<ImageAttrV>, pt: u8, i: int) -> Option<ImageAttrV>
    decreases s.len() - i,
{
    if i < 0 || i >= s.len() {
        None
    } else if s[i].pt is None || s[i].pt == Some(pt) {
        Some(s[i])
    } else {
        find_imageattr(s, pt, i + 1)
    }
}

/// The bitrate after the bandwidth lines from index `i` on: the last `TIAS`
/// line wins, and `acc` stands where there is none.
pub open spec fn tias_from(s: Seq<BandwidthV>, i: int, acc: Option<u32>) -> Option<u32>
    decreases s.len() - i,
{
    if i < 0 || i >= s.len() {
        acc
    } else {
        tias_from(
            s,
            i + 1,
            if s[i].type_ == "TIAS"@ {
                Some(s[i].bandwidth)
            } else {
                acc
            },
        )
    }
}

/// The encoder profile for an H.264 profile; predictive high 4:4:4 has none.
pub open spec fn spec_encoder_profile(p: H264Profile) -> Option<EncoderProfile> {
    match p {
        H264Profile::ConstrainedBaseline | H264Profile::Baseline => Some(EncoderProfile::Baseline),
        H264Profile::Main => Some(EncoderProfile::Main),
        H264Profile::High | H264Profile::ConstrainedHigh => Some(EncoderProfile::High),
        H264Profile::PredictiveHigh444 => None,
    }
}

/// How the bridge encodes for a peer whose fmtp says `st`: without a
/// `profile-level-id` nothing beyond H.264; with one, the size and frame rate
/// of its level (clamped by the image attribute) and the matching encoder
/// profile. `None` where the profile has no encoder profile.
pub open spec fn spec_h264_params(st: H264FmtpParams, imageattr: Option<ImageAttrV>) -> Option<
    SdpSendCodecParams,
> {
    match st.level {
        None => Some(SdpSendCodecParams::NoParams),
        Some(codes) => match (spec_profile_of_code(codes.profile), spec_level_of_code(codes.level)) {
            (Some(profile), Some(level)) => {
                let ((w0, h0), fps) = spec_best_resolution_and_fps(level, st.max_mbps, st.max_fs);
                let (w, h) = match imageattr {
                    Some(ia) => spec_clamp_by_imageattr(ia, w0, h0),
                    None => (w0, h0),
                };
                match spec_encoder_profile(profile) {
                    Some(ep) => Some(
                        SdpSendCodecParams::H264 {
                            width: w,
                            height: h,
                            fps,
                            level,
                            profile: ep,
                            packetization_mode: st.packetization_mode,
                        },
                    ),
                    None => None,
                }
            },
            _ => Some(SdpSendCodecParams::NoParams),
        },
    }
}

/// An `rtpmap` that names H.264 at 90000 Hz.
pub open spec fn is_h264_rtpmap(m: RtpMapV) -> bool {
    m.encoding == "H264"@ && m.clock_rate == 90000
}

/// The send and receive codec for one H.264 payload of the peer's media
/// description, or `None` where its parameters are refused.
pub open spec fn spec_video_candidate(
    max_bitrate: u32,
    offer: MediaDescriptionV,
    rtpmap: RtpMapV,
    cap: DecoderCapability,
) -> Option<(SdpSendCodec, SdpRecvCodecV)> {
    let pt = rtpmap.payload;
    let st = match find_fmtp(offer.fmtp, pt, 0) {
        Some(f) => fmtp_fold(spec_split(f.params, ';'), max_bitrate),
        None => fmtp_initial(),
    };
    if st.failed {
        None
    } else {
        match spec_h264_params(st, find_imageattr(offer.imageattr, pt, 0)) {
            None => None,
            Some(params) => Some(
                (
                    SdpSendCodec {
                        payload: pt,
                        codec: Codec::H264,
                        codec_params: params,
                        bitrate: tias_from(offer.bandwidth, 0, st.bitrate),
                    },
                    recv_codec_v(
                        pt,
                        Codec::H264,
                        Some(spec_decoder_fmtp(cap, st.packetization_mode)),
                    ),
                ),
            ),
        }
    }
}

/// The first H.264 payload, from the `rtpmap` at index `i` on, whose
/// parameters the bridge accepts.
pub open spec fn choose_video_from(
    max_bitrate: u32,
    offer: MediaDescriptionV,
    cap: DecoderCapability,
    i: int,
) -> Option<(SdpSendCodec, SdpRecvCodecV)>
    decreases offer.rtpmap.len() - i,
{
    if i < 0 || i >= offer.rtpmap.len() {
        None
    } else if is_h264_rtpmap(offer.rtpmap[i]) && spec_video_candidate(
        max_bitrate,
        offer,
        offer.rtpmap[i],
        cap,
    ) is Some {
        spec_video_candidate(max_bitrate, offer, offer.rtpmap[i], cap)
    } else {
        choose_video_from(max_bitrate, offer, cap, i + 1)
    }
}

pub open spec fn spec_choose_video_codec(
    max_bitrate: u32,
    offer: MediaDescriptionV,
    cap: DecoderCapability,
) -> Option<(SdpSendCodec, SdpRecvCodecV)> {
    choose_video_from(max_bitrate, offer, cap, 0)
}

pub(crate) fn find_fmtp_index(offer: &MediaDescription, pt: u8) -> (r: Option<usize>)
    ensures
        match r {
            Some(i) => i < offer@.fmtp.len() && find_fmtp(offer@.fmtp, pt, 0) == Some(
                offer@.fmtp[i as int],
            ),
            None => find_fmtp(offer@.fmtp, pt, 0) is None,
        },
{
    let mut i: usize = 0;
    while i < offer.fmtp.len()
        invariant
            i <= offer@.fmtp.len(),
            find_fmtp(offer@.fmtp, pt, 0) == find_fmtp(offer@.fmtp, pt, i as int),
        decreases offer.fmtp.len() - i,
    {
        if offer.fmtp[i].format == pt {
            return Some(i);
        }
        i = i + 1;
    }
    None
}

fn find_imageattr_index(offer: &MediaDescription, pt: u8) -> (r: Option<usize>)
    ensures
        match r {
            Some(i) => i < offer@.imageattr.len() && find_imageattr(offer@.imageattr, pt, 0)
                == Some(offer@.imageattr[i as int]),
            None => find_imageattr(offer@.imageattr, pt, 0) is None,
        },
{
    let mut i: usize = 0;
    while i < offer.imageattr.len()
        invariant
            i <= offer@.imageattr.len(),
            find_imageattr(offer@.imageattr, pt, 0) == find_imageattr(
                offer@.imageattr,
                pt,
                i as int,
            ),
        decreases offer.imageattr.len() - i,
    {
        let matches = match offer.imageattr[i].pt {
            None => true,
            Some(p) => p == pt,
        };
        if matches {
            return Some(i);
        }
        i = i + 1;
    }
    None
}

fn last_tias(offer: &MediaDescription, start: Option<u32>) -> (r: Option<u32>)
    ensures
        r == tias_from(offer@.bandwidth, 0, start),
{
    let mut acc = start;
    let mut i: usize = 0;
    while i < offer.bandwidth.len()
        invariant
            i <= offer@.bandwidth.len(),
            tias_from(offer@.bandwidth, 0, start) == tias_from(offer@.bandwidth, i as int, acc),
        decreases offer.bandwidth.len() - i,
    {
        if str_equals(offer.bandwidth[i].type_.as_str(), "TIAS") {
            acc = Some(offer.bandwidth[i].bandwidth);
        }
        i = i + 1;
    }
    acc
}

/// The send parameters of an H.264 offer from what its `fmtp` said: without
/// a known profile and level none; otherwise the size and frame rate the
/// level allows, clamped by the receive image attribute; `None` where the
/// profile has no encoder profile.
pub fn h264_params(st: &H264FmtpParams, imageattr: Option<&ImageAttr>) -> (r: Option<
    SdpSendCodecParams,
>)
    requires
        match imageattr {
            Some(ia) => match ia@.recv_best {
                Some((x, y)) => xy_range_wf(x) && xy_range_wf(y),
                None => true,
            },
            None => true,
        },
    ensures
        r == spec_h264_params(
            *st,
            match imageattr {
                Some(ia) => Some(ia@),
                None => None,
            },
        ),
{
    match st.level {
        None => Some(SdpSendCodecParams::NoParams),
        Some(codes) => match (profile_of_code(codes.profile), level_of_code(codes.level)) {
            (Some(profile), Some(level)) => {
                let ((mut width, mut height), fps) = calculate_best_resolution_and_fps(
                    level,
                    st.max_mbps,
                    st.max_fs,
                );
                if let Some(ia) = imageattr {
                    clamp_resolution_by_imageattr(ia, &mut width, &mut height);
                }
                let ep = match profile {
                    H264Profile::ConstrainedBaseline | H264Profile::Baseline => EncoderProfile::Baseline,
                    H264Profile::Main => EncoderProfile::Main,
                    H264Profile::High | H264Profile::ConstrainedHigh => EncoderProfile::High,
                    H264Profile::PredictiveHigh444 => {
                        return None;
                    },
                };
                Some(
                    SdpSendCodecParams::H264 {
                        width,
                        height,
                        fps,
                        level,
                        profile: ep,
                        packetization_mode: st.packetization_mode,
                    },
                )
            },
            _ => Some(SdpSendCodecParams::NoParams),
        },
    }
}

fn video_candidate(
    max_bitrate: u32,
    offer: &MediaDescription,
    rtpmap: &RtpMap,
    cap: &DecoderCapability,
) -> (r: Option<(SdpSendCodec, SdpRecvCodec)>)
    requires
        crate::sdp_model::media_wf(offer@),
    ensures
        match (r, spec_video_candidate(max_bitrate, offer@, rtpmap@, *cap)) {
            (Some((s, c)), Some((ss, sc))) => s == ss && c@ == sc,
            (None, None) => true,
            _ => false,
        },
{
    let pt = rtpmap.payload;
    let st = match find_fmtp_index(offer, pt) {
        Some(i) => parse_h264_fmtp(&offer.fmtp[i].params, max_bitrate),
        None => H264FmtpParams {
            level: None,
            max_mbps: None,
            max_fs: None,
            bitrate: None,
            packetization_mode: H264PacketizationMode::SingleNal,
            failed: false,
        },
    };
    if st.failed {
        return None;
    }
    let ia_index = find_imageattr_index(offer, pt);
    let params = match ia_index {
        Some(i) => {
            proof {
                assert(offer@.imageattr[i as int] == offer.imageattr@[i as int]@);
            }
            h264_params(&st, Some(&offer.imageattr[i]))
        },
        None => h264_params(&st, None),
    };
    match params {
        None => None,
        Some(params) => {
            let bitrate = last_tias(offer, st.bitrate);
            Some(
                (
                    SdpSendCodec { payload: pt, codec: Codec::H264, codec_params: params, bitrate },
                    SdpRecvCodec {
                        payload: pt,
                        codec: Codec::H264,
                        fmtp: Some(decoder_fmtp(cap, st.packetization_mode)),
                    },
                ),
            )
        },
    }
}

/// Picks the H.264 payload to send and receive with from a peer's video media
/// description: the first `rtpmap` that names H.264 at 90000 Hz and whose
/// `fmtp` parameters the bridge accepts. The bitrate is the last `TIAS`
/// bandwidth line where there is one, otherwise `max-br` (capped at the
/// configured maximum).
pub fn choose_video_codec(
    settings: &Settings,
    offer: &MediaDescription,
    cap: &DecoderCapability,
) -> (r: Option<(SdpSendCodec, SdpRecvCodec)>)
    requires
        crate::sdp_model::media_wf(offer@),
    ensures
        match (r, spec_choose_video_codec(settings.sip.max_video_bitrate, offer@, *cap)) {
            (Some((s, c)), Some((ss, sc))) => s == ss && c@ == sc,
            (None, None) => true,
            _ => false,
        },
{
    let max_bitrate = settings.sip.max_video_bitrate;
    let mut i: usize = 0;
    while i < offer.rtpmap.len()
        invariant
            i <= offer@.rtpmap.len(),
            max_bitrate == settings.sip.max_video_bitrate,
            crate::sdp_model::media_wf(offer@),
            spec_choose_video_codec(max_bitrate, offer@, *cap) == choose_video_from(
                max_bitrate,
                offer@,
                *cap,
                i as int,
            ),
        decreases offer.rtpmap.len() - i,
    {
        let rtpmap = &offer.rtpmap[i];
        assert(offer@.rtpmap[i as int] == rtpmap@);
        if str_equals(rtpmap.encoding.as_str(), "H264") && rtpmap.clock_rate == 90000 {
            let c = video_candidate(max_bitrate, offer, rtpmap, cap);
            if c.is_some() {
                return c;
            }
        }
        i = i + 1;
    }
    None
}

/// The bitrate the H.264 encoder is set to: the negotiated one, at most the
/// configured maximum (the maximum where none was negotiated), halved where
/// the configuration asks for it.
pub open spec fn spec_encoder_bitrate(negotiated: Option<u32>, max_bitrate: u32, half: bool) -> u32 {
    let b = match negotiated {
        Some(b) => if b < max_bitrate {
            b
        } else {
            max_bitrate
        },
        None => max_bitrate,
    };
    if half {
        b / 2
    } else {
        b
    }
}

pub fn encoder_bitrate(negotiated: Option<u32>, max_bitrate: u32, half: bool) -> (r: u32)
    ensures
        r == spec_encoder_bitrate(negotiated, max_bitrate, half),
        r <= max_bitrate,
{
    let mut b = match negotiated {
        Some(b) => if b < max_bitrate {
            b
        } else {
            max_bitrate
        },
        None => max_bitrate,
    };
    if half {
        b = b / 2;
    }
    b
}

} // verus!
