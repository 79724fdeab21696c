//! The SDP offer/answer state of one call: the media sessions the bridge has
//! offered or established, how an offer or answer from the peer changes them,
//! and the description the bridge sends back.
use crate::codec::{spec_clock_rate, Codec, MediaType};
use crate::net::{spec_family_of, AddressFamily, IpAddress, SocketAddress};
use crate::outside::{base64_decode, base64_encode, random_bytes, spec_base64_decode, spec_base64_encode};
use crate::sdp_model::{
    Direction, Fmtp, FmtpV, MediaDescription, MediaDescriptionV, SdpMediaType, SrtpCrypto,
    SrtpCryptoV, SrtpSuite, TaggedAddress, TaggedAddressV,
};
use crate::sdp_model::{
    media_wf, session_wf, Origin, RtpMap, RtpMapV, SessionDescription, SessionDescriptionV, TransportProtocol,
};
use crate::settings::Settings;
use crate::sip_codec::{
    choose_audio_codec, choose_video_codec, copy_opt_string, offer_all_audio_codecs,
    offer_all_video_codecs, spec_all_audio_codecs, spec_all_video_codecs, spec_choose_audio_codec,
    spec_choose_video_codec, spec_make_rtpmap, DecoderCapability, SdpRecvCodec, SdpRecvCodecV,
    SdpSendCodec,
};
use crate::text::{eq_ignore_ascii_case, spec_eq_ignore_ascii_case};
use crate::sdp_parse::{parse_description, spec_read_body, HostAddress};
use std::sync::Arc;
use vstd::prelude::*;

verus! {

/// Identifies a media session within one call.
#[derive(Debug, Clone, Copy, PartialEq, Eq, PartialOrd, Ord, Hash, Structural)]
pub struct MediaSessionId(pub u32);

/// SRTP parameters of a media session.
#[derive(Debug)]
pub struct SrtpInfo {
    pub tag: u32,
    pub suite: SrtpSuite,
    pub send_key: Vec<u8>,
    pub recv_key: Vec<u8>,
}

pub struct SrtpInfoV {
    pub tag: u32,
    pub suite: SrtpSuite,
    pub send_key: Seq<u8>,
    pub recv_key: Seq<u8>,
}

impl View for SrtpInfo {
    type V = SrtpInfoV;

    open spec fn view(&self) -> SrtpInfoV {
        SrtpInfoV {
            tag: self.tag,
            suite: self.suite,
            send_key: self.send_key@,
            recv_key: self.recv_key@,
        }
    }
}

impl DeepView for SrtpInfo {
    type V = SrtpInfoV;

    open spec fn deep_view(&self) -> SrtpInfoV {
        self@
    }
}

impl SrtpInfo {
    /// A copy with the same contents.
    pub fn copy(&self) -> (r: SrtpInfo)
        ensures
            r@ == self@,
    {
        SrtpInfo {
            tag: self.tag,
            suite: self.suite,
            send_key: self.send_key.clone(),
            recv_key: self.recv_key.clone(),
        }
    }
}

/// Telephone events (DTMF) negotiated for a media session.
#[derive(Debug)]
pub struct DtmfEvents {
    pub pt: u8,
    pub fmtp: Option<Fmtp>,
}

pub struct DtmfEventsV {
    pub pt: u8,
    pub fmtp: Option<FmtpV>,
}

impl View for DtmfEvents {
    type V = DtmfEventsV;

    open spec fn view(&self) -> DtmfEventsV {
        DtmfEventsV { pt: self.pt, fmtp: self.fmtp.deep_view() }
    }
}

/// What the bridge offered for a media session.
#[derive(Debug)]
pub struct Offered {
    pub codec: Vec<SdpRecvCodec>,
    pub srtp: Vec<SrtpInfo>,
}

/// What was agreed on for a media session.
#[derive(Debug)]
pub struct Established {
    pub remote_rtp_addr: SocketAddress,
    pub remote_rtcp_addr: SocketAddress,
    pub send_codec: SdpSendCodec,
    pub recv_codec: SdpRecvCodec,
    pub srtp: Option<SrtpInfo>,
}

pub struct EstablishedV {
    pub remote_rtp_addr: SocketAddress,
    pub remote_rtcp_addr: SocketAddress,
    pub send_codec: SdpSendCodec,
    pub recv_codec: SdpRecvCodecV,
    pub srtp: Option<SrtpInfoV>,
}

impl View for Established {
    type V = EstablishedV;

    open spec fn view(&self) -> EstablishedV {
        EstablishedV {
            remote_rtp_addr: self.remote_rtp_addr,
            remote_rtcp_addr: self.remote_rtcp_addr,
            send_codec: self.send_codec,
            recv_codec: self.recv_codec@,
            srtp: self.srtp.deep_view(),
        }
    }
}

#[derive(Debug)]
pub enum MediaSessionState {
    Offered(Offered),
    Established(Established),
}

pub enum MediaSessionStateV {
    Offered { codec: Seq<SdpRecvCodecV>, srtp: Seq<SrtpInfoV> },
    Established(EstablishedV),
}

impl View for MediaSessionState {
    type V = MediaSessionStateV;

    open spec fn view(&self) -> MediaSessionStateV {
        match self {
            MediaSessionState::Offered(o) => MediaSessionStateV::Offered {
                codec: o.codec.deep_view(),
                srtp: o.srtp.deep_view(),
            },
            MediaSessionState::Established(e) => MediaSessionStateV::Established(e@),
        }
    }
}

impl MediaSessionState {
    pub fn is_offered(&self) -> (r: bool)
        ensures
            r == (self@ is Offered),
    {
        match self {
            MediaSessionState::Offered(..) => true,
            MediaSessionState::Established(..) => false,
        }
    }

    pub fn is_established(&self) -> (r: bool)
        ensures
            r == (self@ is Established),
    {
        match self {
            MediaSessionState::Offered(..) => false,
            MediaSessionState::Established(..) => true,
        }
    }
}

/// One media stream of the call, with the socket pair `S` it runs on.
#[derive(Debug)]
pub struct MediaSession<S> {
    pub id: MediaSessionId,
    pub media_type: MediaType,
    pub state: MediaSessionState,
    pub local_rtp_addr: SocketAddress,
    pub local_rtcp_addr: SocketAddress,
    pub direction: Direction,
    pub dtmf_events: Option<DtmfEvents>,
    pub socket_pair: S,
}

pub struct MediaSessionV {
    pub id: MediaSessionId,
    pub media_type: MediaType,
    pub state: MediaSessionStateV,
    pub local_rtp_addr: SocketAddress,
    pub local_rtcp_addr: SocketAddress,
    pub direction: Direction,
    pub dtmf_events: Option<DtmfEventsV>,
}

impl<S> View for MediaSession<S> {
    type V = MediaSessionV;

    open spec fn view(&self) -> MediaSessionV {
        MediaSessionV {
            id: self.id,
            media_type: self.media_type,
            state: self.state@,
            local_rtp_addr: self.local_rtp_addr,
            local_rtcp_addr: self.local_rtcp_addr,
            direction: self.direction,
            dtmf_events: match &self.dtmf_events {
                Some(d) => Some(d@),
                None => None,
            },
        }
    }
}

pub open spec fn sessions_view<S>(s: Seq<MediaSession<S>>) -> Seq<MediaSessionV> {
    Seq::new(s.len(), |i: int| s[i]@)
}

/// A change of the media streams that the media pipeline has to carry out.
#[derive(Debug, Clone, Copy, PartialEq, Eq, Structural)]
pub enum MediaChange {
    AddReceiver(MediaSessionId),
    RemoveReceiver(MediaSessionId),
    AddSender(MediaSessionId),
    RemoveSender(MediaSessionId),
}

/// Why an offer or answer from the peer could not be taken.
#[derive(Debug, Clone, Copy, PartialEq, Eq, Structural)]
pub enum SdpError {
    /// Neither the media description nor the session has a connection line
    MissingConnection,
    /// The connection names a host that did not resolve
    UnresolvableAddress,
    /// The answer holds a media description that was not offered
    NotOffered,
    /// A crypto key is not valid base64
    InvalidKey,
    /// No audio codec the bridge supports
    NoAudioCodec,
    /// No video codec the bridge supports
    NoVideoCodec,
    /// The answer's codec is none of those offered
    NoMatchingCodec,
    /// No crypto attribute with a suite the bridge supports
    NoCompatibleCrypto,
    /// A transport protocol other than RTP/AVP and RTP/SAVP
    UnsupportedProtocol,
    /// A media type other than audio and video
    UnexpectedMedia,
    /// No RTP/RTCP port pair could be bound for a session to offer
    NoPorts,
    /// The body is not an SDP session description
    InvalidSdp,
}

// ---------------------------------------------------------------------------
// Directions
// ---------------------------------------------------------------------------

pub open spec fn spec_is_sending(d: Direction) -> bool {
    d == Direction::SendOnly || d == Direction::SendRecv
}

pub open spec fn spec_is_receiving(d: Direction) -> bool {
    d == Direction::RecvOnly || d == Direction::SendRecv
}

/// Whether media flows out in this direction.
pub fn is_sending(d: Direction) -> (r: bool)
    ensures
        r == spec_is_sending(d),
{
    match d {
        Direction::SendOnly | Direction::SendRecv => true,
        _ => false,
    }
}

/// Whether media flows in in this direction.
pub fn is_receiving(d: Direction) -> (r: bool)
    ensures
        r == spec_is_receiving(d),
{
    match d {
        Direction::RecvOnly | Direction::SendRecv => true,
        _ => false,
    }
}

/// Our direction for a peer's direction; where the peer's address is
/// unspecified we never send.
pub open spec fn spec_flip_direction(d: Direction, origin_unspecified: bool) -> Direction {
    match d {
        Direction::SendRecv => if origin_unspecified {
            Direction::RecvOnly
        } else {
            Direction::SendRecv
        },
        Direction::RecvOnly => if origin_unspecified {
            Direction::Inactive
        } else {
            Direction::SendOnly
        },
        Direction::SendOnly => Direction::RecvOnly,
        Direction::Inactive => Direction::Inactive,
    }
}

/// The direction the bridge takes for a peer's direction.
pub fn flip_direction(d: Direction, origin_unspecified: bool) -> (r: Direction)
    ensures
        r == spec_flip_direction(d, origin_unspecified),
{
    match d {
        Direction::SendRecv => if origin_unspecified {
            Direction::RecvOnly
        } else {
            Direction::SendRecv
        },
        Direction::RecvOnly => if origin_unspecified {
            Direction::Inactive
        } else {
            Direction::SendOnly
        },
        Direction::SendOnly => Direction::RecvOnly,
        Direction::Inactive => Direction::Inactive,
    }
}

/// The bridge mirrors the peer: it receives exactly when the peer sends, and
/// it sends exactly when the peer receives and the peer's address is
/// specified.
pub proof fn lemma_flip_mirrors(d: Direction, origin_unspecified: bool)
    ensures
        spec_is_receiving(spec_flip_direction(d, origin_unspecified)) == spec_is_sending(d),
        spec_is_sending(spec_flip_direction(d, origin_unspecified)) == (spec_is_receiving(d)
            && !origin_unspecified),
{
}

// ---------------------------------------------------------------------------
// Addresses
// ---------------------------------------------------------------------------

pub open spec fn spec_tagged_to_socket_addr(t: TaggedAddressV, port: u16) -> Result<
    SocketAddress,
    SdpError,
> {
    match t {
        TaggedAddressV::Ip(ip) => Ok(SocketAddress { ip, port }),
        TaggedAddressV::Fqdn { resolved, .. } => match resolved {
            Some(ip) => Ok(SocketAddress { ip, port }),
            None => Err(SdpError::UnresolvableAddress),
        },
    }
}

/// The peer's RTP port plus one, modulo 2^16 as the release build adds.
pub open spec fn next_port(p: u16) -> u16 {
    if p == 0xffff {
        0
    } else {
        (p + 1) as u16
    }
}

/// The peer's RTP and RTCP addresses: the media's connection or else the
/// session's, the media's port, and the `a=rtcp` port or else the next port.
pub open spec fn spec_remote_peer_addresses(
    session_conn: Option<TaggedAddressV>,
    m: MediaDescriptionV,
) -> Result<(SocketAddress, SocketAddress), SdpError> {
    let rtcp_port = match m.rtcp_port {
        Some(p) => p,
        None => next_port(m.port),
    };
    let conn = match m.connection {
        Some(c) => Some(c),
        None => session_conn,
    };
    match conn {
        None => Err(SdpError::MissingConnection),
        Some(c) => match spec_tagged_to_socket_addr(c, m.port) {
            Err(e) => Err(e),
            Ok(rtp) => Ok((rtp, SocketAddress { ip: rtp.ip, port: rtcp_port })),
        },
    }
}

fn tagged_to_socket_addr(t: &TaggedAddress, port: u16) -> (r: Result<SocketAddress, SdpError>)
    ensures
        r == spec_tagged_to_socket_addr(t@, port),
{
    match t {
        TaggedAddress::Ip(ip) => Ok(SocketAddress { ip: *ip, port }),
        TaggedAddress::Fqdn { name: _, resolved } => match resolved {
            Some(ip) => Ok(SocketAddress { ip: *ip, port }),
            None => Err(SdpError::UnresolvableAddress),
        },
    }
}

/// The peer's RTP and RTCP addresses for a media description.
pub fn remote_peer_addresses(
    session_conn: &Option<TaggedAddress>,
    m: &MediaDescription,
) -> (r: Result<(SocketAddress, SocketAddress), SdpError>)
    ensures
        r == spec_remote_peer_addresses(session_conn.deep_view(), m@),
{
    let rtcp_port = match m.rtcp_port {
        Some(p) => p,
        None => m.port.wrapping_add(1),
    };
    let conn = match &m.connection {
        Some(c) => Some(c),
        None => match session_conn {
            Some(c) => Some(c),
            None => None,
        },
    };
    match conn {
        None => Err(SdpError::MissingConnection),
        Some(c) => match tagged_to_socket_addr(c, m.port) {
            Err(e) => Err(e),
            Ok(rtp) => Ok((rtp, SocketAddress { ip: rtp.ip, port: rtcp_port })),
        },
    }
}

// ---------------------------------------------------------------------------
// SRTP
// ---------------------------------------------------------------------------

/// The first crypto attribute, from index `i` on, with the given tag and suite.
pub open spec fn find_crypto(s: Seq<SrtpCryptoV>, tag: u32, suite: SrtpSuite, i: int) -> Option<
    SrtpCryptoV,
>
    decreases s.len() - i,
{
    if i < 0 || i >= s.len() {
        None
    } else if s[i].tag == tag && s[i].suite == suite {
        Some(s[i])
    } else {
        find_crypto(s, tag, suite, i + 1)
    }
}

/// Of the offered SRTP parameters from index `i` on, the first one the answer
/// takes up (by tag and suite), with the answer's key as receive key.
pub open spec fn matching_crypto_from(offered: Seq<SrtpInfoV>, answer: MediaDescriptionV, i: int) -> Result<
    Option<SrtpInfoV>,
    SdpError,
>
    decreases offered.len() - i,
{
    if i < 0 || i >= offered.len() {
        Ok(None)
    } else {
        match find_crypto(answer.crypto, offered[i].tag, offered[i].suite, 0) {
            None => matching_crypto_from(offered, answer, i + 1),
            Some(c) => match spec_base64_decode(c.keys[0]) {
                None => Err(SdpError::InvalidKey),
                Some(key) => Ok(Some(SrtpInfoV { recv_key: key, ..offered[i] })),
            },
        }
    }
}

fn find_crypto_index(m: &MediaDescription, tag: u32, suite: SrtpSuite) -> (r: Option<usize>)
    ensures
        match r {
            Some(i) => i < m@.crypto.len() && find_crypto(m@.crypto, tag, suite, 0) == Some(
                m@.crypto[i as int],
            ),
            None => find_crypto(m@.crypto, tag, suite, 0) is None,
        },
{
    let mut i: usize = 0;
    while i < m.crypto.len()
        invariant
            i <= m@.crypto.len(),
            find_crypto(m@.crypto, tag, suite, 0) == find_crypto(m@.crypto, tag, suite, i as int),
        decreases m.crypto.len() - i,
    {
        if m.crypto[i].tag == tag && m.crypto[i].suite == suite {
            return Some(i);
        }
        i = i + 1;
    }
    None
}

/// The offered SRTP parameters that the answer takes up, if any.
pub fn find_matching_crypto_in_answer(offered: &Vec<SrtpInfo>, answer: &MediaDescription) -> (r:
    Result<Option<SrtpInfo>, SdpError>)
    requires
        crate::sdp_model::media_wf(answer@),
    ensures
        match (r, matching_crypto_from(offered.deep_view(), answer@, 0)) {
            (Ok(Some(a)), Ok(Some(b))) => a@ == b,
            (Ok(None), Ok(None)) => true,
            (Err(e), Err(f)) => e == f,
            _ => false,
        },
{
    let mut i: usize = 0;
    while i < offered.len()
        invariant
            i <= offered@.len(),
            crate::sdp_model::media_wf(answer@),
            matching_crypto_from(offered.deep_view(), answer@, 0) == matching_crypto_from(
                offered.deep_view(),
                answer@,
                i as int,
            ),
        decreases offered.len() - i,
    {
        let o = &offered[i];
        assert(offered.deep_view()[i as int] == o@);
        match find_crypto_index(answer, o.tag, o.suite) {
            None => {},
            Some(k) => {
                let crypto = &answer.crypto[k];
                assert(answer@.crypto[k as int] == crypto@);
                assert(answer@.crypto[k as int].keys.len() >= 1);
                assert(crypto.keys@.len() == crypto@.keys.len());
                assert(crypto@.keys[0] == crypto.keys@[0]@);
                match base64_decode(&crypto.keys[0]) {
                    None => {
                        return Err(SdpError::InvalidKey);
                    },
                    Some(recv_key) => {
                        let mut srtp = o.copy();
                        srtp.recv_key = recv_key;
                        return Ok(Some(srtp));
                    },
                }
            },
        }
        i = i + 1;
    }
    Ok(None)
}

/// SRTP parameters with the contents of the (random) send key blanked out.
pub open spec fn blank_send_key(s: SrtpInfoV) -> SrtpInfoV {
    SrtpInfoV { send_key: Seq::new(s.send_key.len(), |i: int| 0u8), ..s }
}

/// Blanking a send key twice is blanking it once.
pub proof fn lemma_blank_idempotent(s: SrtpInfoV)
    ensures
        blank_send_key(blank_send_key(s)) == blank_send_key(s),
{
    assert(blank_send_key(blank_send_key(s)).send_key =~= blank_send_key(s).send_key);
}

/// The first crypto attribute with the given suite.
pub open spec fn find_suite(s: Seq<SrtpCryptoV>, suite: SrtpSuite, i: int) -> Option<SrtpCryptoV>
    decreases s.len() - i,
{
    if i < 0 || i >= s.len() {
        None
    } else if s[i].suite == suite {
        Some(s[i])
    } else {
        find_suite(s, suite, i + 1)
    }
}

/// The crypto attribute the bridge answers an SRTP offer with: the first with
/// suite AES_256_CM_HMAC_SHA1_80, else AES_256_CM_HMAC_SHA1_32, else
/// AES_CM_128_HMAC_SHA1_80, else AES_CM_128_HMAC_SHA1_32.
pub open spec fn preferred_crypto(s: Seq<SrtpCryptoV>) -> Option<SrtpCryptoV> {
    match find_suite(s, SrtpSuite::AES_256_CM_HMAC_SHA1_80, 0) {
        Some(c) => Some(c),
        None => match find_suite(s, SrtpSuite::AES_256_CM_HMAC_SHA1_32, 0) {
            Some(c) => Some(c),
            None => match find_suite(s, SrtpSuite::AES_CM_128_HMAC_SHA1_80, 0) {
                Some(c) => Some(c),
                None => find_suite(s, SrtpSuite::AES_CM_128_HMAC_SHA1_32, 0),
            },
        },
    }
}

/// The SRTP parameters for an offered SRTP media description, with the send
/// key blanked: the tag and suite of the preferred crypto attribute, its key
/// as receive key, and a send key of the same length.
pub open spec fn spec_setup_srtp(m: MediaDescriptionV) -> Result<SrtpInfoV, SdpError> {
    match preferred_crypto(m.crypto) {
        None => Err(SdpError::NoCompatibleCrypto),
        Some(c) => match spec_base64_decode(c.keys[0]) {
            None => Err(SdpError::InvalidKey),
            Some(key) => Ok(
                SrtpInfoV {
                    tag: c.tag,
                    suite: c.suite,
                    send_key: Seq::new(key.len(), |i: int| 0u8),
                    recv_key: key,
                },
            ),
        },
    }
}

fn find_suite_index(m: &MediaDescription, suite: SrtpSuite) -> (r: Option<usize>)
    ensures
        match r {
            Some(i) => i < m@.crypto.len() && find_suite(m@.crypto, suite, 0) == Some(
                m@.crypto[i as int],
            ),
            None => find_suite(m@.crypto, suite, 0) is None,
        },
{
    let mut i: usize = 0;
    while i < m.crypto.len()
        invariant
            i <= m@.crypto.len(),
            find_suite(m@.crypto, suite, 0) == find_suite(m@.crypto, suite, i as int),
        decreases m.crypto.len() - i,
    {
        if m.crypto[i].suite == suite {
            return Some(i);
        }
        i = i + 1;
    }
    None
}

/// The send key the bridge picks for an SRTP offer is as long as the key it
/// takes from the peer for the chosen suite.
pub proof fn lemma_setup_srtp_key_lengths(m: MediaDescriptionV)
    ensures
        spec_setup_srtp(m) matches Ok(i) ==> i.send_key.len() == i.recv_key.len(),
{
}

/// Picks the crypto suite for an SRTP offer, takes the peer's key as receive
/// key and draws a random send key of the same length.
pub fn setup_srtp(m: &MediaDescription) -> (r: Result<SrtpInfo, SdpError>)
    requires
        crate::sdp_model::media_wf(m@),
    ensures
        match (r, spec_setup_srtp(m@)) {
            (Ok(a), Ok(b)) => blank_send_key(a@) == b,
            (Err(e), Err(f)) => e == f,
            _ => false,
        },
        r matches Ok(a) ==> a@.send_key.len() == a@.recv_key.len(),
{
    let choice = match find_suite_index(m, SrtpSuite::AES_256_CM_HMAC_SHA1_80) {
        Some(i) => Some(i),
        None => match find_suite_index(m, SrtpSuite::AES_256_CM_HMAC_SHA1_32) {
            Some(i) => Some(i),
            None => match find_suite_index(m, SrtpSuite::AES_CM_128_HMAC_SHA1_80) {
                Some(i) => Some(i),
                None => find_suite_index(m, SrtpSuite::AES_CM_128_HMAC_SHA1_32),
            },
        },
    };
    let k = match choice {
        None => {
            return Err(SdpError::NoCompatibleCrypto);
        },
        Some(k) => k,
    };
    let crypto = &m.crypto[k];
    assert(m@.crypto[k as int] == crypto@);
    assert(m@.crypto[k as int].keys.len() >= 1);
    assert(crypto.keys@.len() == crypto@.keys.len());
    assert(crypto@.keys[0] == crypto.keys@[0]@);
    let recv_key = match base64_decode(&crypto.keys[0]) {
        None => {
            return Err(SdpError::InvalidKey);
        },
        Some(key) => key,
    };
    let send_key = random_bytes(recv_key.len());
    let r = SrtpInfo { tag: crypto.tag, suite: crypto.suite, send_key, recv_key };
    assert(blank_send_key(r@).send_key =~= Seq::new(r@.recv_key.len(), |i: int| 0u8));
    Ok(r)
}

/// The SRTP suites the bridge offers, by tag, with their key lengths:
/// AES_256_CM_HMAC_SHA1_80 and _32 with 46 bytes, AES_CM_128_HMAC_SHA1_80 and
/// _32 with 30 bytes. Send keys are blanked; receive keys are empty.
pub open spec fn spec_offer_srtp() -> Seq<SrtpInfoV> {
    seq![
        SrtpInfoV { tag: 0, suite: SrtpSuite::AES_256_CM_HMAC_SHA1_80, send_key: Seq::new(46, |i: int| 0u8), recv_key: Seq::empty() },
        SrtpInfoV { tag: 1, suite: SrtpSuite::AES_256_CM_HMAC_SHA1_32, send_key: Seq::new(46, |i: int| 0u8), recv_key: Seq::empty() },
        SrtpInfoV { tag: 2, suite: SrtpSuite::AES_CM_128_HMAC_SHA1_80, send_key: Seq::new(30, |i: int| 0u8), recv_key: Seq::empty() },
        SrtpInfoV { tag: 3, suite: SrtpSuite::AES_CM_128_HMAC_SHA1_32, send_key: Seq::new(30, |i: int| 0u8), recv_key: Seq::empty() },
    ]
}

pub open spec fn blank_send_keys(s: Seq<SrtpInfoV>) -> Seq<SrtpInfoV> {
    Seq::new(s.len(), |i: int| blank_send_key(s[i]))
}

fn offered_suite(tag: u32, suite: SrtpSuite, key_len: usize) -> (r: SrtpInfo)
    ensures
        r@.tag == tag,
        r@.suite == suite,
        r@.send_key.len() == key_len,
        r@.recv_key == Seq::<u8>::empty(),
{
    SrtpInfo { tag, suite, send_key: random_bytes(key_len), recv_key: Vec::new() }
}

/// The SRTP parameters the bridge offers, each with a fresh random send key.
pub fn offer_srtp() -> (r: Vec<SrtpInfo>)
    ensures
        blank_send_keys(r.deep_view()) == spec_offer_srtp(),
{
    let mut v: Vec<SrtpInfo> = Vec::new();
    v.push(offered_suite(0, SrtpSuite::AES_256_CM_HMAC_SHA1_80, 46));
    v.push(offered_suite(1, SrtpSuite::AES_256_CM_HMAC_SHA1_32, 46));
    v.push(offered_suite(2, SrtpSuite::AES_CM_128_HMAC_SHA1_80, 30));
    v.push(offered_suite(3, SrtpSuite::AES_CM_128_HMAC_SHA1_32, 30));
    proof {
        let b = blank_send_keys(v.deep_view());
        let e = spec_offer_srtp();
        assert forall|i: int| 0 <= i < 4 implies #[trigger] b[i] == e[i] by {
            assert(b[i].send_key =~= e[i].send_key);
            assert(b[i].recv_key =~= e[i].recv_key);
        }
        assert(b =~= e);
    }
    v
}

/// The `a=crypto` attribute that announces SRTP parameters: tag, suite and the
/// send key in base64.
pub open spec fn spec_crypto_attribute(s: SrtpInfoV) -> SrtpCryptoV {
    SrtpCryptoV { tag: s.tag, suite: s.suite, keys: seq![spec_base64_encode(s.send_key)] }
}

/// Appends the crypto attribute for `srtp`.
pub fn populate_crypto_attributes(srtp: &SrtpInfo, crypto: &mut Vec<SrtpCrypto>)
    ensures
        final(crypto).deep_view() == old(crypto).deep_view().push(spec_crypto_attribute(srtp@)),
{
    let key_and_salt = base64_encode(&srtp.send_key);
    let mut keys: Vec<String> = Vec::new();
    keys.push(key_and_salt);
    let attr = SrtpCrypto { tag: srtp.tag, suite: srtp.suite, keys };
    assert(attr@.keys =~= seq![spec_base64_encode(srtp@.send_key)]);
    let ghost old_view = crypto.deep_view();
    crypto.push(attr);
    assert(crypto.deep_view() =~= old_view.push(spec_crypto_attribute(srtp@)));
}

// ---------------------------------------------------------------------------
// Session state
// ---------------------------------------------------------------------------

/// The offer/answer state of one call.
pub struct SessionState<S> {
    pub settings: Arc<Settings>,
    /// What the H.264 decoder announces in `fmtp`
    pub decoder: DecoderCapability,
    pub pub_ip: IpAddress,
    pub sdp_id: u64,
    pub sdp_version: u64,
    /// Counts up, modulo 2^32
    pub next_media_session_id: u32,
    pub media_sessions: Vec<MediaSession<S>>,
}

impl<S> SessionState<S> {
    /// The media sessions as views.
    pub open spec fn sessions(&self) -> Seq<MediaSessionV> {
        sessions_view(self.media_sessions@)
    }

    pub open spec fn max_video_bitrate(&self) -> u32 {
        self.settings.sip.max_video_bitrate
    }

    /// A state without media sessions, for a call whose media the bridge
    /// announces at `pub_ip`. The SDP session id is the time `now_secs` (in
    /// seconds since the Unix epoch), the version one more.
    pub fn empty(settings: Arc<Settings>, pub_ip: IpAddress, now_secs: u64, decoder: DecoderCapability) -> (r: Self)
        requires
            now_secs < u64::MAX,
        ensures
            r.settings == settings,
            r.decoder == decoder,
            r.pub_ip == pub_ip,
            r.sdp_id == now_secs,
            r.sdp_version == now_secs + 1,
            r.next_media_session_id == 0,
            r.sessions() == Seq::<MediaSessionV>::empty(),
    {
        let r = SessionState {
            settings,
            decoder,
            pub_ip,
            sdp_id: now_secs,
            sdp_version: now_secs + 1,
            next_media_session_id: 0,
            media_sessions: Vec::new(),
        };
        assert(r.sessions() =~= Seq::<MediaSessionV>::empty());
        r
    }

    /// The media session with the given id; there must be one.
    pub fn media_by_id(&self, id: MediaSessionId) -> (r: &MediaSession<S>)
        requires
            exists|i: int| 0 <= i < self.sessions().len() && (#[trigger] self.sessions()[i]).id == id,
        ensures
            first_with_id(self.sessions(), id, 0) == Some(r@),
    {
        let mut i: usize = 0;
        while i < self.media_sessions.len()
            invariant
                i <= self.media_sessions@.len(),
                first_with_id(self.sessions(), id, 0) == first_with_id(self.sessions(), id, i as int),
                forall|j: int| 0 <= j < i ==> self.sessions()[j].id != id,
            decreases self.media_sessions.len() - i,
        {
            if self.media_sessions[i].id == id {
                return &self.media_sessions[i];
            }
            i = i + 1;
        }
        proof {
            let k = choose|k: int| 0 <= k < self.sessions().len() && (#[trigger] self.sessions()[k]).id == id;
            assert(self.sessions()[k].id != id);
        }
        &self.media_sessions[0]
    }
}

/// The first media session, from index `i` on, with the given id.
pub open spec fn first_with_id(s: Seq<MediaSessionV>, id: MediaSessionId, i: int) -> Option<MediaSessionV>
    decreases s.len() - i,
{
    if i < 0 || i >= s.len() {
        None
    } else if s[i].id == id {
        Some(s[i])
    } else {
        first_with_id(s, id, i + 1)
    }
}

/// A session found by `first_with_id` stands in the sequence with that id.
pub proof fn lemma_first_with_id_found(s: Seq<MediaSessionV>, id: MediaSessionId, i: int)
    requires
        first_with_id(s, id, i) is Some,
    ensures
        exists|k: int| 0 <= k < s.len() && (#[trigger] s[k]).id == id,
    decreases s.len() - i,
{
    if 0 <= i < s.len() && s[i].id != id {
        lemma_first_with_id_found(s, id, i + 1);
    } else {
        assert(s[i].id == id);
    }
}

/// Whether a media session of the bridge matches an SDP media type.
pub open spec fn same_media_type(t: MediaType, s: SdpMediaType) -> bool {
    (t == MediaType::Audio && s == SdpMediaType::Audio) || (t == MediaType::Video && s
        == SdpMediaType::Video)
}

fn same_media_type_exec(t: MediaType, s: SdpMediaType) -> (r: bool)
    ensures
        r == same_media_type(t, s),
{
    match (t, s) {
        (MediaType::Audio, SdpMediaType::Audio) => true,
        (MediaType::Video, SdpMediaType::Video) => true,
        _ => false,
    }
}

/// A media description the bridge takes part in: a non-zero port, at least
/// one format, and not inactive.
pub open spec fn media_is_active(m: MediaDescriptionV) -> bool {
    m.port != 0 && m.fmts.len() > 0 && m.direction != Direction::Inactive
}

/// The first offered media session, from index `i` on, of the given type.
pub open spec fn first_offered(s: Seq<MediaSessionV>, t: SdpMediaType, i: int) -> Option<int>
    decreases s.len() - i,
{
    if i < 0 || i >= s.len() {
        None
    } else if same_media_type(s[i].media_type, t) && s[i].state is Offered {
        Some(i)
    } else {
        first_offered(s, t, i + 1)
    }
}

/// The first receive codec, from index `i` on, of the given codec.
pub open spec fn find_codec(s: Seq<SdpRecvCodecV>, c: Codec, i: int) -> Option<SdpRecvCodecV>
    decreases s.len() - i,
{
    if i < 0 || i >= s.len() {
        None
    } else if s[i].codec == c {
        Some(s[i])
    } else {
        find_codec(s, c, i + 1)
    }
}

pub open spec fn is_telephone_event(m: RtpMapV) -> bool {
    spec_eq_ignore_ascii_case(m.encoding, "telephone-event"@)
}

/// The payload of the first `telephone-event` rtpmap, from index `i` on, at
/// the given clock rate.
pub open spec fn find_telephone_event(s: Seq<RtpMapV>, clock_rate: u32, i: int) -> Option<u8>
    decreases s.len() - i,
{
    if i < 0 || i >= s.len() {
        None
    } else if is_telephone_event(s[i]) && s[i].clock_rate == clock_rate {
        Some(s[i].payload)
    } else {
        find_telephone_event(s, clock_rate, i + 1)
    }
}

/// The changes that start sending and receiving in a direction.
pub open spec fn start_changes(id: MediaSessionId, d: Direction) -> Seq<MediaChange> {
    (if spec_is_sending(d) {
        seq![MediaChange::AddSender(id)]
    } else {
        Seq::empty()
    }) + (if spec_is_receiving(d) {
        seq![MediaChange::AddReceiver(id)]
    } else {
        Seq::empty()
    })
}

/// What one media description of an answer does.
pub enum AnswerStep {
    /// Nothing: an inactive or empty media description
    Skip,
    Fail(SdpError),
    /// Establish the media session at `index`
    Apply { index: int, est: EstablishedV, dtmf: Option<DtmfEventsV>, changes: Seq<MediaChange> },
}

/// One media description of an answer, matched against the first offered
/// session of its type: the peer's addresses, the direction, the SRTP
/// parameters the answer takes up, the send codec chosen from the answer and
/// the offered receive codec of the same kind, and telephone events at the
/// receive codec's clock rate.
pub open spec fn spec_answer_step(
    sessions: Seq<MediaSessionV>,
    conn: Option<TaggedAddressV>,
    m: MediaDescriptionV,
    max_bitrate: u32,
    cap: DecoderCapability,
) -> AnswerStep {
    if !media_is_active(m) {
        AnswerStep::Skip
    } else {
        match spec_remote_peer_addresses(conn, m) {
            Err(e) => AnswerStep::Fail(e),
            Ok((rtp, rtcp)) => {
                let dir = spec_flip_direction(m.direction, rtp.ip.spec_is_unspecified());
                match first_offered(sessions, m.media_type, 0) {
                    None => AnswerStep::Fail(SdpError::NotOffered),
                    Some(k) => match sessions[k].state {
                        MediaSessionStateV::Established(_) => AnswerStep::Fail(SdpError::NotOffered),
                        MediaSessionStateV::Offered { codec, srtp } => match matching_crypto_from(srtp, m, 0) {
                            Err(e) => AnswerStep::Fail(e),
                            Ok(srtp) => {
                                let send = if m.media_type == SdpMediaType::Audio {
                                    spec_choose_audio_codec(m.fmts)
                                } else {
                                    match spec_choose_video_codec(max_bitrate, m, cap) {
                                        Some((s, _)) => Some(s),
                                        None => None,
                                    }
                                };
                                match send {
                                    None => AnswerStep::Fail(
                                        if m.media_type == SdpMediaType::Audio {
                                            SdpError::NoAudioCodec
                                        } else {
                                            SdpError::NoVideoCodec
                                        },
                                    ),
                                    Some(send) => match find_codec(codec, send.codec, 0) {
                                        None => AnswerStep::Fail(SdpError::NoMatchingCodec),
                                        Some(recv) => AnswerStep::Apply {
                                            index: k,
                                            est: EstablishedV {
                                                remote_rtp_addr: rtp,
                                                remote_rtcp_addr: rtcp,
                                                send_codec: send,
                                                recv_codec: recv,
                                                srtp,
                                            },
                                            dtmf: match find_telephone_event(
                                                m.rtpmap,
                                                spec_clock_rate(recv.codec),
                                                0,
                                            ) {
                                                Some(pt) => Some(DtmfEventsV { pt, fmtp: None }),
                                                None => None,
                                            },
                                            changes: start_changes(sessions[k].id, dir),
                                        },
                                    },
                                }
                            },
                        },
                    },
                }
            },
        }
    }
}

/// The sessions, changes and error after the first media descriptions of an
/// answer, taken in order; the first error stops the rest.
pub struct AnswerFold {
    pub sessions: Seq<MediaSessionV>,
    pub changes: Seq<MediaChange>,
    pub error: Option<SdpError>,
}

pub open spec fn answer_fold(
    sessions: Seq<MediaSessionV>,
    conn: Option<TaggedAddressV>,
    media: Seq<MediaDescriptionV>,
    max_bitrate: u32,
    cap: DecoderCapability,
) -> AnswerFold
    decreases media.len(),
{
    if media.len() == 0 {
        AnswerFold { sessions, changes: Seq::empty(), error: None }
    } else {
        let prev = answer_fold(sessions, conn, media.drop_last(), max_bitrate, cap);
        if prev.error is Some {
            prev
        } else {
            match spec_answer_step(prev.sessions, conn, media.last(), max_bitrate, cap) {
                AnswerStep::Skip => prev,
                AnswerStep::Fail(e) => AnswerFold { error: Some(e), ..prev },
                AnswerStep::Apply { index, est, dtmf, changes } => AnswerFold {
                    sessions: prev.sessions.update(
                        index,
                        MediaSessionV {
                            state: MediaSessionStateV::Established(est),
                            dtmf_events: dtmf,
                            ..prev.sessions[index]
                        },
                    ),
                    changes: prev.changes + changes,
                    error: None,
                },
            }
        }
    }
}

/// The established sessions, in order.
pub open spec fn keep_established(s: Seq<MediaSessionV>) -> Seq<MediaSessionV>
    decreases s.len(),
{
    if s.len() == 0 {
        s
    } else {
        (if s[0].state is Established {
            seq![s[0]]
        } else {
            Seq::empty()
        }) + keep_established(s.drop_first())
    }
}

enum AnswerStepExec {
    Skip,
    Fail(SdpError),
    Apply { index: usize, est: Established, dtmf: Option<DtmfEvents>, changes: Vec<MediaChange> },
}

fn find_telephone_event_exec(m: &MediaDescription, clock_rate: u32) -> (r: Option<u8>)
    ensures
        r == find_telephone_event(m@.rtpmap, clock_rate, 0),
{
    let mut i: usize = 0;
    while i < m.rtpmap.len()
        invariant
            i <= m@.rtpmap.len(),
            find_telephone_event(m@.rtpmap, clock_rate, 0) == find_telephone_event(
                m@.rtpmap,
                clock_rate,
                i as int,
            ),
        decreases m.rtpmap.len() - i,
    {
        assert(m@.rtpmap[i as int] == m.rtpmap@[i as int]@);
        if eq_ignore_ascii_case(m.rtpmap[i].encoding.as_str(), "telephone-event")
            && m.rtpmap[i].clock_rate == clock_rate {
            return Some(m.rtpmap[i].payload);
        }
        i = i + 1;
    }
    None
}

fn find_codec_index(codecs: &Vec<SdpRecvCodec>, c: Codec) -> (r: Option<usize>)
    ensures
        match r {
            Some(j) => j < codecs@.len() && find_codec(codecs.deep_view(), c, 0) == Some(
                codecs.deep_view()[j as int],
            ),
            None => find_codec(codecs.deep_view(), c, 0) is None,
        },
{
    let mut j: usize = 0;
    while j < codecs.len()
        invariant
            j <= codecs@.len(),
            find_codec(codecs.deep_view(), c, 0) == find_codec(codecs.deep_view(), c, j as int),
        decreases codecs.len() - j,
    {
        if codecs[j].codec == c {
            return Some(j);
        }
        j = j + 1;
    }
    None
}

fn start_changes_exec(id: MediaSessionId, d: Direction) -> (r: Vec<MediaChange>)
    ensures
        r@ == start_changes(id, d),
{
    let mut v: Vec<MediaChange> = Vec::new();
    if is_sending(d) {
        v.push(MediaChange::AddSender(id));
    }
    if is_receiving(d) {
        v.push(MediaChange::AddReceiver(id));
    }
    assert(v@ =~= start_changes(id, d));
    v
}

impl<S> SessionState<S> {
    fn first_offered_exec(&self, t: SdpMediaType) -> (r: Option<usize>)
        ensures
            match r {
                Some(k) => k < self.sessions().len() && first_offered(self.sessions(), t, 0) == Some(k as int),
                None => first_offered(self.sessions(), t, 0) is None,
            },
    {
        let mut i: usize = 0;
        while i < self.media_sessions.len()
            invariant
                i <= self.media_sessions@.len(),
                first_offered(self.sessions(), t, 0) == first_offered(self.sessions(), t, i as int),
            decreases self.media_sessions.len() - i,
        {
            if same_media_type_exec(self.media_sessions[i].media_type, t)
                && self.media_sessions[i].state.is_offered() {
                return Some(i);
            }
            i = i + 1;
        }
        None
    }

    fn answer_step(&self, conn: &Option<TaggedAddress>, m: &MediaDescription) -> (r: AnswerStepExec)
        requires
            crate::sdp_model::media_wf(m@),
        ensures
            match (r, spec_answer_step(self.sessions(), conn.deep_view(), m@, self.max_video_bitrate(), self.decoder)) {
                (AnswerStepExec::Skip, AnswerStep::Skip) => true,
                (AnswerStepExec::Fail(e), AnswerStep::Fail(f)) => e == f,
                (AnswerStepExec::Apply { index, est, dtmf, changes }, AnswerStep::Apply { index: i2, est: e2, dtmf: d2, changes: c2 }) =>
                    index == i2 && est@ == e2 && changes@ == c2 && match (dtmf, d2) {
                        (Some(a), Some(b)) => a@ == b,
                        (None, None) => true,
                        _ => false,
                    },
                _ => false,
            },
            r matches AnswerStepExec::Apply { index, .. } ==> index < self.sessions().len(),
    {
        if m.port == 0 || m.fmts.len() == 0 || m.direction == Direction::Inactive {
            return AnswerStepExec::Skip;
        }
        let (rtp, rtcp) = match remote_peer_addresses(conn, m) {
            Err(e) => {
                return AnswerStepExec::Fail(e);
            },
            Ok(a) => a,
        };
        let dir = flip_direction(m.direction, rtp.ip.is_unspecified());
        let k = match self.first_offered_exec(m.media_type) {
            None => {
                return AnswerStepExec::Fail(SdpError::NotOffered);
            },
            Some(k) => k,
        };
        let session = &self.media_sessions[k];
        assert(self.sessions()[k as int] == session@);
        let offered = match &session.state {
            MediaSessionState::Established(_) => {
                return AnswerStepExec::Fail(SdpError::NotOffered);
            },
            MediaSessionState::Offered(o) => o,
        };
        let srtp = match find_matching_crypto_in_answer(&offered.srtp, m) {
            Err(e) => {
                return AnswerStepExec::Fail(e);
            },
            Ok(s) => s,
        };
        let send = if m.media_type == SdpMediaType::Audio {
            match choose_audio_codec(m) {
                None => {
                    return AnswerStepExec::Fail(SdpError::NoAudioCodec);
                },
                Some(s) => s,
            }
        } else {
            match choose_video_codec(&*self.settings, m, &self.decoder) {
                None => {
                    return AnswerStepExec::Fail(SdpError::NoVideoCodec);
                },
                Some((s, _)) => s,
            }
        };
        let recv = match find_codec_index(&offered.codec, send.codec) {
            None => None,
            Some(j) => {
                assert(offered.codec.deep_view()[j as int] == offered.codec@[j as int]@);
                Some(offered.codec[j].copy())
            },
        };
        let recv = match recv {
            None => {
                return AnswerStepExec::Fail(SdpError::NoMatchingCodec);
            },
            Some(r) => r,
        };
        let dtmf = match find_telephone_event_exec(m, recv.codec.clock_rate()) {
            Some(pt) => Some(DtmfEvents { pt, fmtp: None }),
            None => None,
        };
        let changes = start_changes_exec(session.id, dir);
        AnswerStepExec::Apply {
            index: k,
            est: Established {
                remote_rtp_addr: rtp,
                remote_rtcp_addr: rtcp,
                send_codec: send,
                recv_codec: recv,
                srtp,
            },
            dtmf,
            changes,
        }
    }

    /// Removes the media sessions that are not established, keeping the order
    /// of the others.
    fn retain_established(&mut self)
        ensures
            final(self).sessions() == keep_established(old(self).sessions()),
            final(self).settings == old(self).settings,
            final(self).decoder == old(self).decoder,
            final(self).pub_ip == old(self).pub_ip,
            final(self).sdp_id == old(self).sdp_id,
            final(self).sdp_version == old(self).sdp_version,
            final(self).next_media_session_id == old(self).next_media_session_id,
    {
        let mut rest: Vec<MediaSession<S>> = Vec::new();
        std::mem::swap(&mut rest, &mut self.media_sessions);
        let ghost all = sessions_view(rest@);
        assert(sessions_view(self.media_sessions@) =~= Seq::<MediaSessionV>::empty());
        while rest.len() > 0
            invariant
                self.sessions() + keep_established(sessions_view(rest@)) == keep_established(all),
                all == old(self).sessions(),
                self.settings == old(self).settings,
                self.decoder == old(self).decoder,
                self.pub_ip == old(self).pub_ip,
                self.sdp_id == old(self).sdp_id,
                self.sdp_version == old(self).sdp_version,
                self.next_media_session_id == old(self).next_media_session_id,
            decreases rest.len(),
        {
            let ghost before = sessions_view(rest@);
            let ghost kept = self.sessions();
            let s = rest.remove(0);
            assert(sessions_view(rest@) =~= before.drop_first());
            assert(before[0] == s@);
            if s.state.is_established() {
                self.media_sessions.push(s);
                assert(self.sessions() =~= kept.push(s@));
                assert(kept.push(s@) + keep_established(sessions_view(rest@)) =~= kept + (seq![s@]
                    + keep_established(sessions_view(rest@))));
            } else {
                assert(seq![s@].len() == 1);
                assert(Seq::<MediaSessionV>::empty() + keep_established(sessions_view(rest@))
                    =~= keep_established(sessions_view(rest@)));
            }
        }
        assert(keep_established(sessions_view(rest@)) =~= Seq::<MediaSessionV>::empty());
        assert(self.sessions() + Seq::<MediaSessionV>::empty() =~= self.sessions());
    }

    /// Takes the peer's SDP answer to the bridge's offer. Each active media
    /// description establishes the first offered session of its type; the
    /// changes start sending and receiving as the answer's direction allows.
    /// Sessions the answer did not establish are dropped. The first media
    /// description that cannot be taken ends the call with its error.
    pub fn receive_answer(&mut self, answer: &SessionDescription) -> (r: Result<Vec<MediaChange>, SdpError>)
        requires
            session_wf(answer@),
        ensures
            ({
                let f = answer_fold(
                    old(self).sessions(),
                    answer@.connection,
                    answer@.media_descriptions,
                    old(self).max_video_bitrate(),
                    old(self).decoder,
                );
                match r {
                    Ok(changes) => f.error is None && changes@ == f.changes && final(self).sessions()
                        == keep_established(f.sessions),
                    Err(e) => f.error == Some(e) && final(self).sessions() == f.sessions,
                }
            }),
            r is Ok ==> forall|i: int| 0 <= i < final(self).sessions().len()
                ==> (#[trigger] final(self).sessions()[i]).state is Established,
            final(self).settings == old(self).settings,
            final(self).decoder == old(self).decoder,
            final(self).pub_ip == old(self).pub_ip,
            final(self).sdp_id == old(self).sdp_id,
            final(self).sdp_version == old(self).sdp_version,
            final(self).next_media_session_id == old(self).next_media_session_id,
    {
        let ghost media = answer@.media_descriptions;
        let ghost conn = answer@.connection;
        let mut changes: Vec<MediaChange> = Vec::new();
        let mut i: usize = 0;
        assert(media.take(0) =~= Seq::<MediaDescriptionV>::empty());
        while i < answer.media_descriptions.len()
            invariant
                i <= media.len(),
                media == answer@.media_descriptions,
                conn == answer@.connection,
                session_wf(answer@),
                ({
                    let f = answer_fold(old(self).sessions(), conn, media.take(i as int), old(self).max_video_bitrate(), old(self).decoder);
                    f.error is None && f.changes == changes@ && f.sessions == self.sessions()
                }),
                self.settings == old(self).settings,
                self.decoder == old(self).decoder,
                self.pub_ip == old(self).pub_ip,
                self.sdp_id == old(self).sdp_id,
                self.sdp_version == old(self).sdp_version,
                self.next_media_session_id == old(self).next_media_session_id,
            decreases media.len() - i,
        {
            let m = &answer.media_descriptions[i];
            proof {
                assert(media[i as int] == m@);
                assert(crate::sdp_model::media_wf(media[i as int]));
                assert(media.take(i + 1).drop_last() =~= media.take(i as int));
                assert(media.take(i + 1).last() == m@);
            }
            match self.answer_step(&answer.connection, m) {
                AnswerStepExec::Skip => {},
                AnswerStepExec::Fail(e) => {
                    proof {
                        lemma_answer_fold_stops(old(self).sessions(), conn, media, i as int + 1, old(self).max_video_bitrate(), old(self).decoder);
                    }
                    return Err(e);
                },
                AnswerStepExec::Apply { index, est, dtmf, changes: new_changes } => {
                    let ghost before = self.sessions();
                    let mut session = self.media_sessions.remove(index);
                    session.state = MediaSessionState::Established(est);
                    session.dtmf_events = dtmf;
                    self.media_sessions.insert(index, session);
                    proof {
                        assert(self.sessions() =~= before.update(
                            index as int,
                            MediaSessionV {
                                state: MediaSessionStateV::Established(est@),
                                dtmf_events: match dtmf {
                                    Some(d) => Some(d@),
                                    None => None,
                                },
                                ..before[index as int]
                            },
                        ));
                    }
                    let mut nc = new_changes;
                    changes.append(&mut nc);
                },
            }
            i = i + 1;
        }
        assert(media.take(media.len() as int) =~= media);
        self.retain_established();
        proof {
            lemma_keep_established_all(answer_fold(old(self).sessions(), conn, media, old(self).max_video_bitrate(), old(self).decoder).sessions);
        }
        Ok(changes)
    }
}

/// Every session that `keep_established` keeps is established.
proof fn lemma_keep_established_all(s: Seq<MediaSessionV>)
    ensures
        forall|i: int| 0 <= i < keep_established(s).len() ==> (#[trigger] keep_established(s)[i]).state is Established,
    decreases s.len(),
{
    if s.len() > 0 {
        lemma_keep_established_all(s.drop_first());
        let head: Seq<MediaSessionV> = if s[0].state is Established { seq![s[0]] } else { Seq::empty() };
        let tail = keep_established(s.drop_first());
        assert forall|i: int| 0 <= i < keep_established(s).len() implies (#[trigger] keep_established(s)[i]).state is Established by {
            assert(keep_established(s) == head + tail);
            if i < head.len() {
                assert(keep_established(s)[i] == head[i]);
            } else {
                assert(keep_established(s)[i] == tail[i - head.len()]);
            }
        }
    }
}

/// Once an error stands in the answer fold, later media descriptions leave it.
proof fn lemma_answer_fold_stops(
    sessions: Seq<MediaSessionV>,
    conn: Option<TaggedAddressV>,
    media: Seq<MediaDescriptionV>,
    n: int,
    max_bitrate: u32,
    cap: DecoderCapability,
)
    requires
        1 <= n <= media.len(),
        answer_fold(sessions, conn, media.take(n), max_bitrate, cap).error is Some,
    ensures
        answer_fold(sessions, conn, media, max_bitrate, cap) == answer_fold(sessions, conn, media.take(n), max_bitrate, cap),
    decreases media.len() - n,
{
    if n < media.len() {
        assert(media.take(n + 1).drop_last() =~= media.take(n));
        lemma_answer_fold_stops(sessions, conn, media, n + 1, max_bitrate, cap);
    } else {
        assert(media.take(n) =~= media);
    }
}

// ---------------------------------------------------------------------------
// Offers from the peer
// ---------------------------------------------------------------------------

/// A media session the bridge will create for an offer, once a socket pair
/// in `family` is bound for it.
#[derive(Debug)]
pub struct NewSession {
    pub id: MediaSessionId,
    pub media_type: MediaType,
    pub send_codec: SdpSendCodec,
    pub recv_codec: SdpRecvCodec,
    pub srtp: Option<SrtpInfo>,
    pub remote_rtp_addr: SocketAddress,
    pub remote_rtcp_addr: SocketAddress,
    pub direction: Direction,
    pub dtmf_events: Option<DtmfEvents>,
    pub family: AddressFamily,
}

pub struct NewSessionV {
    pub id: MediaSessionId,
    pub media_type: MediaType,
    pub send_codec: SdpSendCodec,
    pub recv_codec: SdpRecvCodecV,
    pub srtp: Option<SrtpInfoV>,
    pub remote_rtp_addr: SocketAddress,
    pub remote_rtcp_addr: SocketAddress,
    pub direction: Direction,
    pub dtmf_events: Option<DtmfEventsV>,
    pub family: AddressFamily,
}

impl View for NewSession {
    type V = NewSessionV;

    open spec fn view(&self) -> NewSessionV {
        NewSessionV {
            id: self.id,
            media_type: self.media_type,
            send_codec: self.send_codec,
            recv_codec: self.recv_codec@,
            srtp: self.srtp.deep_view(),
            remote_rtp_addr: self.remote_rtp_addr,
            remote_rtcp_addr: self.remote_rtcp_addr,
            direction: self.direction,
            dtmf_events: match &self.dtmf_events {
                Some(d) => Some(d@),
                None => None,
            },
            family: self.family,
        }
    }
}

/// What the bridge does with one media description of an offer.
#[derive(Debug)]
pub enum OfferEntry {
    /// It continues an existing session, whose direction was `existing`
    Matched { id: MediaSessionId, existing: Direction, new: Direction },
    /// It creates a session
    New(NewSession),
}

pub enum OfferEntryV {
    Matched { id: MediaSessionId, existing: Direction, new: Direction },
    New(NewSessionV),
}

impl View for OfferEntry {
    type V = OfferEntryV;

    open spec fn view(&self) -> OfferEntryV {
        match self {
            OfferEntry::Matched { id, existing, new } => OfferEntryV::Matched {
                id: *id,
                existing: *existing,
                new: *new,
            },
            OfferEntry::New(n) => OfferEntryV::New(n@),
        }
    }
}

impl DeepView for OfferEntry {
    type V = OfferEntryV;

    open spec fn deep_view(&self) -> OfferEntryV {
        self@
    }
}

/// The plan for an offer: what each taken media description does, the ids
/// of all sessions the offer keeps or creates, and the id counter after it.
#[derive(Debug)]
pub struct OfferPlan {
    pub entries: Vec<OfferEntry>,
    pub matched: Vec<MediaSessionId>,
    pub next_media_session_id: u32,
}

pub struct PlanFold {
    pub entries: Seq<OfferEntryV>,
    pub matched: Seq<MediaSessionId>,
    pub next_id: u32,
    pub error: Option<SdpError>,
}

/// A socket pair bound for a new session, with the public ports that the
/// bridge announces for it.
#[derive(Debug)]
pub struct AllocatedPair<S> {
    pub public_rtp_port: u16,
    pub public_rtcp_port: u16,
    pub pair: S,
}

pub open spec fn wrapping_next(id: u32) -> u32 {
    if id == u32::MAX {
        0
    } else {
        (id + 1) as u32
    }
}

/// An existing session that a media description of an offer continues: not
/// yet matched, of the same type, established with the same peer addresses,
/// and with its send payload still among the offered formats.
pub open spec fn continues(
    s: MediaSessionV,
    matched: Seq<MediaSessionId>,
    t: SdpMediaType,
    rtp: SocketAddress,
    rtcp: SocketAddress,
    fmts: Seq<u8>,
) -> bool {
    &&& !matched.contains(s.id)
    &&& same_media_type(s.media_type, t)
    &&& match s.state {
        MediaSessionStateV::Established(e) => e.remote_rtp_addr == rtp && e.remote_rtcp_addr == rtcp
            && fmts.contains(e.send_codec.payload),
        _ => false,
    }
}

pub open spec fn first_continued(
    s: Seq<MediaSessionV>,
    matched: Seq<MediaSessionId>,
    t: SdpMediaType,
    rtp: SocketAddress,
    rtcp: SocketAddress,
    fmts: Seq<u8>,
    i: int,
) -> Option<int>
    decreases s.len() - i,
{
    if i < 0 || i >= s.len() {
        None
    } else if continues(s[i], matched, t, rtp, rtcp, fmts) {
        Some(i)
    } else {
        first_continued(s, matched, t, rtp, rtcp, fmts, i + 1)
    }
}

/// The telephone events of an offer: the last `telephone-event` rtpmap at
/// 8000 Hz, from index `i` on, with the first fmtp for its payload.
pub open spec fn offered_dtmf(m: MediaDescriptionV, i: int, acc: Option<DtmfEventsV>) -> Option<
    DtmfEventsV,
>
    decreases m.rtpmap.len() - i,
{
    if i < 0 || i >= m.rtpmap.len() {
        acc
    } else {
        offered_dtmf(
            m,
            i + 1,
            if is_telephone_event(m.rtpmap[i]) && m.rtpmap[i].clock_rate == 8000 {
                Some(
                    DtmfEventsV {
                        pt: m.rtpmap[i].payload,
                        fmtp: crate::sip_codec::find_fmtp(m.fmtp, m.rtpmap[i].payload, 0),
                    },
                )
            } else {
                acc
            },
        )
    }
}

/// The codecs, SRTP parameters and type of a new session for an offered
/// media description, with the send key blanked; `None` where the bridge
/// skips the description.
pub open spec fn spec_new_session_parts(m: MediaDescriptionV, max_bitrate: u32, cap: DecoderCapability) -> Option<
    (MediaType, SdpSendCodec, SdpRecvCodecV, Option<SrtpInfoV>),
> {
    let codecs = if m.media_type == SdpMediaType::Audio {
        match spec_choose_audio_codec(m.fmts) {
            Some(send) => Some(
                (MediaType::Audio, send, SdpRecvCodecV { payload: send.payload, codec: send.codec, fmtp: None }),
            ),
            None => None,
        }
    } else if m.media_type == SdpMediaType::Video {
        match spec_choose_video_codec(max_bitrate, m, cap) {
            Some((send, recv)) => Some((MediaType::Video, send, recv)),
            None => None,
        }
    } else {
        None
    };
    match codecs {
        None => None,
        Some((t, send, recv)) => if m.proto == TransportProtocol::RtpAvp {
            Some((t, send, recv, None))
        } else if m.proto == TransportProtocol::RtpSavp {
            match spec_setup_srtp(m) {
                Ok(srtp) => Some((t, send, recv, Some(srtp))),
                Err(_) => None,
            }
        } else {
            None
        },
    }
}

/// One media description of an offer: skipped where inactive, an error where
/// the peer's address cannot be had, otherwise it continues the first
/// session it matches or creates one (skipped where no codec, crypto suite or
/// protocol fits).
pub open spec fn spec_offer_step(
    sessions: Seq<MediaSessionV>,
    conn: Option<TaggedAddressV>,
    m: MediaDescriptionV,
    pf: PlanFold,
    max_bitrate: u32,
    cap: DecoderCapability,
) -> PlanFold {
    if !media_is_active(m) {
        pf
    } else {
        match spec_remote_peer_addresses(conn, m) {
            Err(e) => PlanFold { error: Some(e), ..pf },
            Ok((rtp, rtcp)) => {
                let dir = spec_flip_direction(m.direction, rtp.ip.spec_is_unspecified());
                match first_continued(sessions, pf.matched, m.media_type, rtp, rtcp, m.fmts, 0) {
                    Some(k) => PlanFold {
                        entries: pf.entries.push(
                            OfferEntryV::Matched {
                                id: sessions[k].id,
                                existing: sessions[k].direction,
                                new: dir,
                            },
                        ),
                        matched: pf.matched.push(sessions[k].id),
                        ..pf
                    },
                    None => match spec_new_session_parts(m, max_bitrate, cap) {
                        None => pf,
                        Some((t, send, recv, srtp)) => {
                            let id = MediaSessionId(pf.next_id);
                            PlanFold {
                                entries: pf.entries.push(
                                    OfferEntryV::New(
                                        NewSessionV {
                                            id,
                                            media_type: t,
                                            send_codec: send,
                                            recv_codec: recv,
                                            srtp,
                                            remote_rtp_addr: rtp,
                                            remote_rtcp_addr: rtcp,
                                            direction: dir,
                                            dtmf_events: offered_dtmf(m, 0, None),
                                            family: spec_family_of(rtp.ip),
                                        },
                                    ),
                                ),
                                matched: pf.matched.push(id),
                                next_id: wrapping_next(pf.next_id),
                                error: None,
                            }
                        },
                    },
                }
            },
        }
    }
}

pub open spec fn plan_fold(
    sessions: Seq<MediaSessionV>,
    conn: Option<TaggedAddressV>,
    media: Seq<MediaDescriptionV>,
    next_id: u32,
    max_bitrate: u32,
    cap: DecoderCapability,
) -> PlanFold
    decreases media.len(),
{
    if media.len() == 0 {
        PlanFold { entries: Seq::empty(), matched: Seq::empty(), next_id, error: None }
    } else {
        let prev = plan_fold(sessions, conn, media.drop_last(), next_id, max_bitrate, cap);
        if prev.error is Some {
            prev
        } else {
            spec_offer_step(sessions, conn, media.last(), prev, max_bitrate, cap)
        }
    }
}

/// An entry with the random contents of its send key blanked out.
pub open spec fn blank_entry(e: OfferEntryV) -> OfferEntryV {
    match e {
        OfferEntryV::New(n) => OfferEntryV::New(
            NewSessionV {
                srtp: match n.srtp {
                    Some(s) => Some(blank_send_key(s)),
                    None => None,
                },
                ..n
            },
        ),
        _ => e,
    }
}

pub open spec fn blank_entries(s: Seq<OfferEntryV>) -> Seq<OfferEntryV> {
    Seq::new(s.len(), |i: int| blank_entry(s[i]))
}

proof fn lemma_plan_fold_stops(
    sessions: Seq<MediaSessionV>,
    conn: Option<TaggedAddressV>,
    media: Seq<MediaDescriptionV>,
    next_id: u32,
    n: int,
    max_bitrate: u32,
    cap: DecoderCapability,
)
    requires
        1 <= n <= media.len(),
        plan_fold(sessions, conn, media.take(n), next_id, max_bitrate, cap).error is Some,
    ensures
        plan_fold(sessions, conn, media, next_id, max_bitrate, cap) == plan_fold(
            sessions,
            conn,
            media.take(n),
            next_id,
            max_bitrate,
            cap,
        ),
    decreases media.len() - n,
{
    if n < media.len() {
        assert(media.take(n + 1).drop_last() =~= media.take(n));
        lemma_plan_fold_stops(sessions, conn, media, next_id, n + 1, max_bitrate, cap);
    } else {
        assert(media.take(n) =~= media);
    }
}

fn contains_id(v: &Vec<MediaSessionId>, id: MediaSessionId) -> (r: bool)
    ensures
        r == v@.contains(id),
{
    let mut i: usize = 0;
    while i < v.len()
        invariant
            i <= v@.len(),
            forall|j: int| 0 <= j < i ==> v@[j] != id,
        decreases v.len() - i,
    {
        if v[i] == id {
            return true;
        }
        i = i + 1;
    }
    false
}

fn contains_payload(v: &Vec<u8>, x: u8) -> (r: bool)
    ensures
        r == v@.contains(x),
{
    let mut i: usize = 0;
    while i < v.len()
        invariant
            i <= v@.len(),
            forall|j: int| 0 <= j < i ==> v@[j] != x,
        decreases v.len() - i,
    {
        if v[i] == x {
            return true;
        }
        i = i + 1;
    }
    false
}

fn offered_dtmf_exec(m: &MediaDescription) -> (r: Option<DtmfEvents>)
    ensures
        match (r, offered_dtmf(m@, 0, None)) {
            (Some(a), Some(b)) => a@ == b,
            (None, None) => true,
            _ => false,
        },
{
    let mut acc: Option<DtmfEvents> = None;
    let mut i: usize = 0;
    while i < m.rtpmap.len()
        invariant
            i <= m@.rtpmap.len(),
            offered_dtmf(m@, 0, None) == offered_dtmf(
                m@,
                i as int,
                match &acc {
                    Some(d) => Some(d@),
                    None => None,
                },
            ),
        decreases m.rtpmap.len() - i,
    {
        let rtpmap = &m.rtpmap[i];
        assert(m@.rtpmap[i as int] == rtpmap@);
        if eq_ignore_ascii_case(rtpmap.encoding.as_str(), "telephone-event") && rtpmap.clock_rate == 8000 {
            let fmtp = match crate::sip_codec::find_fmtp_index(m, rtpmap.payload) {
                Some(j) => {
                    assert(m@.fmtp[j as int] == m.fmtp@[j as int]@);
                    Some(m.fmtp[j].copy())
                },
                None => None,
            };
            acc = Some(DtmfEvents { pt: rtpmap.payload, fmtp });
        }
        i = i + 1;
    }
    acc
}

impl<S> SessionState<S> {
    fn first_continued_exec(
        &self,
        matched: &Vec<MediaSessionId>,
        m: &MediaDescription,
        rtp: SocketAddress,
        rtcp: SocketAddress,
    ) -> (r: Option<usize>)
        ensures
            match r {
                Some(k) => k < self.sessions().len() && first_continued(
                    self.sessions(),
                    matched@,
                    m@.media_type,
                    rtp,
                    rtcp,
                    m@.fmts,
                    0,
                ) == Some(k as int),
                None => first_continued(self.sessions(), matched@, m@.media_type, rtp, rtcp, m@.fmts, 0) is None,
            },
    {
        let mut i: usize = 0;
        while i < self.media_sessions.len()
            invariant
                i <= self.media_sessions@.len(),
                first_continued(self.sessions(), matched@, m@.media_type, rtp, rtcp, m@.fmts, 0)
                    == first_continued(self.sessions(), matched@, m@.media_type, rtp, rtcp, m@.fmts, i as int),
            decreases self.media_sessions.len() - i,
        {
            let s = &self.media_sessions[i];
            assert(self.sessions()[i as int] == s@);
            let ok = !contains_id(matched, s.id) && same_media_type_exec(s.media_type, m.media_type)
                && match &s.state {
                MediaSessionState::Established(e) => e.remote_rtp_addr == rtp && e.remote_rtcp_addr
                    == rtcp && contains_payload(&m.fmts, e.send_codec.payload),
                MediaSessionState::Offered(_) => false,
            };
            if ok {
                return Some(i);
            }
            i = i + 1;
        }
        None
    }

    fn new_session_parts(&self, m: &MediaDescription) -> (r: Option<(MediaType, SdpSendCodec, SdpRecvCodec, Option<SrtpInfo>)>)
        requires
            crate::sdp_model::media_wf(m@),
        ensures
            match (r, spec_new_session_parts(m@, self.max_video_bitrate(), self.decoder)) {
                (Some((t, s, c, srtp)), Some((t2, s2, c2, srtp2))) => t == t2 && s == s2 && c@ == c2
                    && match (srtp, srtp2) {
                    (Some(a), Some(b)) => blank_send_key(a@) == b,
                    (None, None) => true,
                    _ => false,
                },
                (None, None) => true,
                _ => false,
            },
    {
        let (t, send, recv) = if m.media_type == SdpMediaType::Audio {
            match choose_audio_codec(m) {
                Some(send) => (MediaType::Audio, send, SdpRecvCodec { payload: send.payload, codec: send.codec, fmtp: None }),
                None => {
                    return None;
                },
            }
        } else if m.media_type == SdpMediaType::Video {
            match choose_video_codec(&*self.settings, m, &self.decoder) {
                Some((send, recv)) => (MediaType::Video, send, recv),
                None => {
                    return None;
                },
            }
        } else {
            return None;
        };
        if m.proto == TransportProtocol::RtpAvp {
            Some((t, send, recv, None))
        } else if m.proto == TransportProtocol::RtpSavp {
            match setup_srtp(m) {
                Ok(srtp) => Some((t, send, recv, Some(srtp))),
                Err(_) => None,
            }
        } else {
            None
        }
    }

    /// Plans how to take the peer's SDP offer, without changing the state.
    /// Each active media description continues the first established session
    /// it matches (same type, same peer addresses, send payload still offered)
    /// or else becomes a new session with the next id. A media description
    /// without a usable peer address fails the whole offer. New sessions get
    /// random SRTP send keys.
    pub fn plan_offer(&self, offer: &SessionDescription) -> (r: Result<OfferPlan, SdpError>)
        requires
            session_wf(offer@),
        ensures
            ({
                let f = plan_fold(
                    self.sessions(),
                    offer@.connection,
                    offer@.media_descriptions,
                    self.next_media_session_id,
                    self.max_video_bitrate(),
                    self.decoder,
                );
                match r {
                    Ok(plan) => f.error is None && blank_entries(plan.entries.deep_view()) == blank_entries(f.entries)
                        && plan.matched@ == f.matched && plan.next_media_session_id == f.next_id,
                    Err(e) => f.error == Some(e),
                }
            }),
    {
        let ghost media = offer@.media_descriptions;
        let ghost conn = offer@.connection;
        let ghost sessions = self.sessions();
        let mut entries: Vec<OfferEntry> = Vec::new();
        let mut matched: Vec<MediaSessionId> = Vec::new();
        let mut next_id = self.next_media_session_id;
        let mut i: usize = 0;
        assert(media.take(0) =~= Seq::<MediaDescriptionV>::empty());
        assert(blank_entries(entries.deep_view()) =~= blank_entries(Seq::<OfferEntryV>::empty()));
        while i < offer.media_descriptions.len()
            invariant
                i <= media.len(),
                media == offer@.media_descriptions,
                conn == offer@.connection,
                sessions == self.sessions(),
                session_wf(offer@),
                ({
                    let f = plan_fold(sessions, conn, media.take(i as int), self.next_media_session_id, self.max_video_bitrate(), self.decoder);
                    f.error is None && blank_entries(f.entries) == blank_entries(entries.deep_view())
                        && f.matched == matched@ && f.next_id == next_id
                }),
            decreases media.len() - i,
        {
            let m = &offer.media_descriptions[i];
            let ghost f0 = plan_fold(sessions, conn, media.take(i as int), self.next_media_session_id, self.max_video_bitrate(), self.decoder);
            proof {
                assert(media[i as int] == m@);
                assert(crate::sdp_model::media_wf(media[i as int]));
                assert(media.take(i + 1).drop_last() =~= media.take(i as int));
                assert(media.take(i + 1).last() == m@);
            }
            if m.port != 0 && m.fmts.len() != 0 && m.direction != Direction::Inactive {
                let (rtp, rtcp) = match remote_peer_addresses(&offer.connection, m) {
                    Err(e) => {
                        proof {
                            lemma_plan_fold_stops(sessions, conn, media, self.next_media_session_id, i as int + 1, self.max_video_bitrate(), self.decoder);
                        }
                        return Err(e);
                    },
                    Ok(a) => a,
                };
                let dir = flip_direction(m.direction, rtp.ip.is_unspecified());
                match self.first_continued_exec(&matched, m, rtp, rtcp) {
                    Some(k) => {
                        let id = self.media_sessions[k].id;
                        let ghost old_entries = entries.deep_view();
                        entries.push(OfferEntry::Matched { id, existing: self.media_sessions[k].direction, new: dir });
                        matched.push(id);
                        proof {
                            assert(entries.deep_view() =~= old_entries.push(OfferEntryV::Matched { id, existing: sessions[k as int].direction, new: dir }));
                            assert(blank_entries(entries.deep_view()) =~= blank_entries(f0.entries).push(OfferEntryV::Matched { id, existing: sessions[k as int].direction, new: dir }));
                        }
                    },
                    None => {
                        match self.new_session_parts(m) {
                            None => {},
                            Some((t, send, recv, srtp)) => {
                                let ghost srtp_v = srtp.deep_view();
                                let ghost parts = spec_new_session_parts(m@, self.max_video_bitrate(), self.decoder);
                                let id = MediaSessionId(next_id);
                                next_id = next_id.wrapping_add(1);
                                let dtmf_events = offered_dtmf_exec(m);
                                let ns = NewSession {
                                    id,
                                    media_type: t,
                                    send_codec: send,
                                    recv_codec: recv,
                                    srtp,
                                    remote_rtp_addr: rtp,
                                    remote_rtcp_addr: rtcp,
                                    direction: dir,
                                    dtmf_events,
                                    family: AddressFamily::of(rtp.ip),
                                };
                                let ghost nsv = ns@;
                                let ghost old_entries = entries.deep_view();
                                entries.push(OfferEntry::New(ns));
                                matched.push(id);
                                proof {
                                    assert(entries.deep_view() =~= old_entries.push(OfferEntryV::New(nsv)));
                                    let f1 = spec_offer_step(sessions, conn, m@, f0, self.max_video_bitrate(), self.decoder);
                                    let spec_entry = f1.entries.last();
                                    match (srtp_v, parts) {
                                        (Some(a), Some((_, _, _, Some(b)))) => {
                                            lemma_blank_idempotent(a);
                                        },
                                        _ => {},
                                    }
                                    assert(blank_entry(OfferEntryV::New(nsv)) == blank_entry(spec_entry));
                                    assert(f1.entries =~= f0.entries.push(spec_entry));
                                    assert(blank_entries(entries.deep_view()) =~= blank_entries(old_entries).push(blank_entry(OfferEntryV::New(nsv))));
                                    assert(blank_entries(f1.entries) =~= blank_entries(f0.entries).push(blank_entry(spec_entry)));
                                    assert(blank_entries(entries.deep_view()) =~= blank_entries(f1.entries));
                                }
                            },
                        }
                    },
                }
            }
            i = i + 1;
        }
        assert(media.take(media.len() as int) =~= media);
        Ok(OfferPlan { entries, matched, next_media_session_id: next_id })
    }
}

/// The changes that take a session from one direction to another.
pub open spec fn direction_changes(id: MediaSessionId, existing: Direction, new: Direction) -> Seq<
    MediaChange,
> {
    (if spec_is_sending(existing) && !spec_is_sending(new) {
        seq![MediaChange::RemoveSender(id)]
    } else if !spec_is_sending(existing) && spec_is_sending(new) {
        seq![MediaChange::AddSender(id)]
    } else {
        Seq::empty()
    }) + (if spec_is_receiving(existing) && !spec_is_receiving(new) {
        seq![MediaChange::RemoveReceiver(id)]
    } else if !spec_is_receiving(existing) && spec_is_receiving(new) {
        seq![MediaChange::AddReceiver(id)]
    } else {
        Seq::empty()
    })
}

/// The session a new entry becomes on a socket pair with the given public
/// RTP and RTCP ports.
pub open spec fn new_session_view(n: NewSessionV, pub_ip: IpAddress, ports: (u16, u16)) -> MediaSessionV {
    MediaSessionV {
        id: n.id,
        media_type: n.media_type,
        state: MediaSessionStateV::Established(
            EstablishedV {
                remote_rtp_addr: n.remote_rtp_addr,
                remote_rtcp_addr: n.remote_rtcp_addr,
                send_codec: n.send_codec,
                recv_codec: n.recv_codec,
                srtp: n.srtp,
            },
        ),
        local_rtp_addr: SocketAddress { ip: pub_ip, port: ports.0 },
        local_rtcp_addr: SocketAddress { ip: pub_ip, port: ports.1 },
        direction: n.direction,
        dtmf_events: n.dtmf_events,
    }
}

pub struct ApplyFold {
    pub sessions: Seq<MediaSessionV>,
    pub changes: Seq<MediaChange>,
}

/// The entries of a plan carried out in order: a continued session changes
/// from its direction to the new one; a new session with a socket pair is
/// appended and starts from inactive; one without a socket pair is dropped.
pub open spec fn apply_fold(
    sessions: Seq<MediaSessionV>,
    entries: Seq<OfferEntryV>,
    sockets: Seq<Option<(u16, u16)>>,
    pub_ip: IpAddress,
) -> ApplyFold
    decreases entries.len(),
{
    if entries.len() == 0 {
        ApplyFold { sessions, changes: Seq::empty() }
    } else {
        let prev = apply_fold(sessions, entries.drop_last(), sockets, pub_ip);
        match entries.last() {
            OfferEntryV::Matched { id, existing, new } => ApplyFold {
                changes: prev.changes + direction_changes(id, existing, new),
                ..prev
            },
            OfferEntryV::New(n) => match sockets[entries.len() - 1] {
                None => prev,
                Some(ports) => ApplyFold {
                    sessions: prev.sessions.push(new_session_view(n, pub_ip, ports)),
                    changes: prev.changes + direction_changes(n.id, Direction::Inactive, n.direction),
                },
            },
        }
    }
}

/// The changes that stop whatever a session sends and receives.
pub open spec fn removal_changes(s: MediaSessionV) -> Seq<MediaChange> {
    (if spec_is_sending(s.direction) {
        seq![MediaChange::RemoveSender(s.id)]
    } else {
        Seq::empty()
    }) + (if spec_is_receiving(s.direction) {
        seq![MediaChange::RemoveReceiver(s.id)]
    } else {
        Seq::empty()
    })
}

/// The sessions whose id is among `matched`, in order.
pub open spec fn keep_matched(s: Seq<MediaSessionV>, matched: Seq<MediaSessionId>) -> Seq<MediaSessionV>
    decreases s.len(),
{
    if s.len() == 0 {
        s
    } else {
        (if matched.contains(s[0].id) {
            seq![s[0]]
        } else {
            Seq::empty()
        }) + keep_matched(s.drop_first(), matched)
    }
}

/// The id and socket pair of each session, in order.
pub open spec fn id_pairs<S>(s: Seq<MediaSession<S>>) -> Seq<(MediaSessionId, S)> {
    Seq::new(s.len(), |i: int| (s[i].id, s[i].socket_pair))
}

/// The ids and pairs whose id is among `matched`, in order.
pub open spec fn keep_matched_pairs<S>(s: Seq<(MediaSessionId, S)>, matched: Seq<MediaSessionId>) -> Seq<
    (MediaSessionId, S),
>
    decreases s.len(),
{
    if s.len() == 0 {
        s
    } else {
        (if matched.contains(s[0].0) {
            seq![s[0]]
        } else {
            Seq::empty()
        }) + keep_matched_pairs(s.drop_first(), matched)
    }
}

/// The id and pair of each session an offer plan creates: those of its new
/// entries for which a pair was bound.
pub open spec fn added_id_pairs<S>(entries: Seq<OfferEntryV>, sockets: Seq<Option<AllocatedPair<S>>>) -> Seq<
    (MediaSessionId, S),
>
    decreases entries.len(),
{
    if entries.len() == 0 {
        Seq::empty()
    } else {
        let k = entries.len() - 1;
        let rest = added_id_pairs(entries.drop_last(), sockets);
        match (entries[k], sockets[k]) {
            (OfferEntryV::New(n), Some(p)) => rest.push((n.id, p.pair)),
            _ => rest,
        }
    }
}

/// The changes that stop the sessions whose id is not among `matched`.
pub open spec fn dropped_changes(s: Seq<MediaSessionV>, matched: Seq<MediaSessionId>) -> Seq<MediaChange>
    decreases s.len(),
{
    if s.len() == 0 {
        Seq::empty()
    } else {
        (if matched.contains(s[0].id) {
            Seq::empty()
        } else {
            removal_changes(s[0])
        }) + dropped_changes(s.drop_first(), matched)
    }
}

pub open spec fn socket_ports<S>(sockets: Seq<Option<AllocatedPair<S>>>) -> Seq<Option<(u16, u16)>> {
    Seq::new(
        sockets.len(),
        |i: int|
            match sockets[i] {
                Some(p) => Some((p.public_rtp_port, p.public_rtcp_port)),
                None => None,
            },
    )
}

fn direction_changes_exec(id: MediaSessionId, existing: Direction, new: Direction) -> (r: Vec<MediaChange>)
    ensures
        r@ == direction_changes(id, existing, new),
{
    let mut v: Vec<MediaChange> = Vec::new();
    if is_sending(existing) && !is_sending(new) {
        v.push(MediaChange::RemoveSender(id));
    } else if !is_sending(existing) && is_sending(new) {
        v.push(MediaChange::AddSender(id));
    }
    if is_receiving(existing) && !is_receiving(new) {
        v.push(MediaChange::RemoveReceiver(id));
    } else if !is_receiving(existing) && is_receiving(new) {
        v.push(MediaChange::AddReceiver(id));
    }
    assert(v@ =~= direction_changes(id, existing, new));
    v
}

impl<S> SessionState<S> {
    /// Removes the sessions whose id is not among `matched`, keeping the order
    /// of the others, and gives the changes that stop the removed ones.
    fn retain_matched(&mut self, matched: &Vec<MediaSessionId>) -> (r: Vec<MediaChange>)
        ensures
            final(self).sessions() == keep_matched(old(self).sessions(), matched@),
            id_pairs(final(self).media_sessions@) == keep_matched_pairs(id_pairs(old(self).media_sessions@), matched@),
            r@ == dropped_changes(old(self).sessions(), matched@),
            final(self).settings == old(self).settings,
            final(self).decoder == old(self).decoder,
            final(self).pub_ip == old(self).pub_ip,
            final(self).sdp_id == old(self).sdp_id,
            final(self).sdp_version == old(self).sdp_version,
            final(self).next_media_session_id == old(self).next_media_session_id,
    {
        let mut rest: Vec<MediaSession<S>> = Vec::new();
        std::mem::swap(&mut rest, &mut self.media_sessions);
        let ghost all = sessions_view(rest@);
        let ghost all_pairs = id_pairs(rest@);
        let mut changes: Vec<MediaChange> = Vec::new();
        assert(sessions_view(self.media_sessions@) =~= Seq::<MediaSessionV>::empty());
        assert(id_pairs(self.media_sessions@) =~= Seq::<(MediaSessionId, S)>::empty());
        while rest.len() > 0
            invariant
                self.sessions() + keep_matched(sessions_view(rest@), matched@) == keep_matched(all, matched@),
                id_pairs(self.media_sessions@) + keep_matched_pairs(id_pairs(rest@), matched@) == keep_matched_pairs(all_pairs, matched@),
                all_pairs == id_pairs(old(self).media_sessions@),
                changes@ + dropped_changes(sessions_view(rest@), matched@) == dropped_changes(all, matched@),
                all == old(self).sessions(),
                self.settings == old(self).settings,
                self.decoder == old(self).decoder,
                self.pub_ip == old(self).pub_ip,
                self.sdp_id == old(self).sdp_id,
                self.sdp_version == old(self).sdp_version,
                self.next_media_session_id == old(self).next_media_session_id,
            decreases rest.len(),
        {
            let ghost before = sessions_view(rest@);
            let ghost before_pairs = id_pairs(rest@);
            let ghost kept = self.sessions();
            let ghost kept_pairs = id_pairs(self.media_sessions@);
            let ghost ch = changes@;
            let s = rest.remove(0);
            assert(sessions_view(rest@) =~= before.drop_first());
            assert(id_pairs(rest@) =~= before_pairs.drop_first());
            assert(before[0] == s@);
            assert(before_pairs[0] == (s.id, s.socket_pair));
            if contains_id(matched, s.id) {
                let ghost sp = (s.id, s.socket_pair);
                self.media_sessions.push(s);
                assert(self.sessions() =~= kept.push(s@));
                assert(id_pairs(self.media_sessions@) =~= kept_pairs.push(sp));
                assert(kept_pairs.push(sp) + keep_matched_pairs(id_pairs(rest@), matched@) =~= kept_pairs + (seq![sp]
                    + keep_matched_pairs(id_pairs(rest@), matched@)));
                assert(kept.push(s@) + keep_matched(sessions_view(rest@), matched@) =~= kept + (seq![s@]
                    + keep_matched(sessions_view(rest@), matched@)));
                assert(Seq::<MediaChange>::empty() + dropped_changes(sessions_view(rest@), matched@)
                    =~= dropped_changes(sessions_view(rest@), matched@));
            } else {
                if is_sending(s.direction) {
                    changes.push(MediaChange::RemoveSender(s.id));
                }
                if is_receiving(s.direction) {
                    changes.push(MediaChange::RemoveReceiver(s.id));
                }
                assert(changes@ =~= ch + removal_changes(s@));
                assert(ch + removal_changes(s@) + dropped_changes(sessions_view(rest@), matched@) =~= ch
                    + (removal_changes(s@) + dropped_changes(sessions_view(rest@), matched@)));
                assert(Seq::<MediaSessionV>::empty() + keep_matched(sessions_view(rest@), matched@)
                    =~= keep_matched(sessions_view(rest@), matched@));
                assert(Seq::<(MediaSessionId, S)>::empty() + keep_matched_pairs(id_pairs(rest@), matched@)
                    =~= keep_matched_pairs(id_pairs(rest@), matched@));
            }
        }
        assert(keep_matched(sessions_view(rest@), matched@) =~= Seq::<MediaSessionV>::empty());
        assert(keep_matched_pairs(id_pairs(rest@), matched@) =~= Seq::<(MediaSessionId, S)>::empty());
        assert(id_pairs(self.media_sessions@) + Seq::<(MediaSessionId, S)>::empty() =~= id_pairs(self.media_sessions@));
        assert(self.sessions() + Seq::<MediaSessionV>::empty() =~= self.sessions());
        assert(changes@ + Seq::<MediaChange>::empty() =~= changes@);
        changes
    }

    /// Carries out a plan made by `plan_offer` of this state, with the socket
    /// pairs bound for its new sessions (`sockets[i]` for `entries[i]`; `None`
    /// where none could be bound). Gives the changes the media pipeline has to
    /// carry out: those of each entry in order, then those that stop the
    /// sessions the offer no longer holds, which are dropped.
    pub fn apply_offer(&mut self, plan: OfferPlan, sockets: Vec<Option<AllocatedPair<S>>>) -> (r: Vec<MediaChange>)
        requires
            sockets@.len() == plan.entries@.len(),
        ensures
            ({
                let f = apply_fold(
                    old(self).sessions(),
                    plan.entries.deep_view(),
                    socket_ports(sockets@),
                    old(self).pub_ip,
                );
                &&& final(self).sessions() == keep_matched(f.sessions, plan.matched@)
                &&& r@ == f.changes + dropped_changes(f.sessions, plan.matched@)
            }),
            id_pairs(final(self).media_sessions@) == keep_matched_pairs(
                id_pairs(old(self).media_sessions@) + added_id_pairs(plan.entries.deep_view(), sockets@),
                plan.matched@,
            ),
            final(self).next_media_session_id == plan.next_media_session_id,
            final(self).settings == old(self).settings,
            final(self).decoder == old(self).decoder,
            final(self).pub_ip == old(self).pub_ip,
            final(self).sdp_id == old(self).sdp_id,
            final(self).sdp_version == old(self).sdp_version,
    {
        let OfferPlan { entries, matched, next_media_session_id } = plan;
        let ghost all_entries = entries.deep_view();
        let ghost ports = socket_ports(sockets@);
        let ghost all_sockets = sockets@;
        let ghost old_pairs = id_pairs(self.media_sessions@);
        let mut entries = entries;
        let mut sockets = sockets;
        let mut changes: Vec<MediaChange> = Vec::new();
        let mut i: usize = 0;
        let ghost n = all_entries.len();
        let len0 = entries.len();
        assert(n == entries@.len());
        assert(n == len0);
        assert(all_entries.take(0) =~= Seq::<OfferEntryV>::empty());
        while entries.len() > 0
            invariant
                i + entries@.len() == n,
                n <= usize::MAX,
                all_entries.len() == n,
                ports.len() == n,
                sockets@.len() == entries@.len(),
                forall|j: int| 0 <= j < entries@.len() ==> #[trigger] entries.deep_view()[j] == all_entries[i + j],
                forall|j: int| 0 <= j < sockets@.len() ==> #[trigger] socket_ports(sockets@)[j] == ports[i + j],
                all_sockets.len() == n,
                forall|j: int| 0 <= j < sockets@.len() ==> #[trigger] sockets@[j] == all_sockets[i + j],
                old_pairs == id_pairs(old(self).media_sessions@),
                id_pairs(self.media_sessions@) == old_pairs + added_id_pairs(all_entries.take(i as int), all_sockets),
                ({
                    let f = apply_fold(old(self).sessions(), all_entries.take(i as int), ports, old(self).pub_ip);
                    f.sessions == self.sessions() && f.changes == changes@
                }),
                self.settings == old(self).settings,
                self.decoder == old(self).decoder,
                self.pub_ip == old(self).pub_ip,
                self.sdp_id == old(self).sdp_id,
                self.sdp_version == old(self).sdp_version,
                self.next_media_session_id == old(self).next_media_session_id,
            decreases entries@.len(),
        {
            let ghost ev = entries.deep_view();
            let ghost sv = socket_ports(sockets@);
            let ghost ch = changes@;
            let ghost ss = self.sessions();
            let ghost sk = sockets@;
            let ghost pp = id_pairs(self.media_sessions@);
            let entry = entries.remove(0);
            let socket = sockets.remove(0);
            proof {
                assert(socket == all_sockets[i as int]);
                assert forall|j: int| 0 <= j < sockets@.len() implies #[trigger] sockets@[j] == all_sockets[i + 1 + j] by {
                    assert(sockets@[j] == sk[j + 1]);
                }
                assert(entry@ == ev[0]);
                assert(ev[0] == all_entries[i as int]);
                assert(sv[0] == ports[i as int]);
                assert(all_entries.take(i + 1).drop_last() =~= all_entries.take(i as int));
                assert(all_entries.take(i + 1).last() == all_entries[i as int]);
                assert(all_entries.take(i + 1).len() - 1 == i);
                assert forall|j: int| 0 <= j < entries@.len() implies #[trigger] entries.deep_view()[j] == all_entries[i + 1 + j] by {
                    assert(entries.deep_view()[j] == ev[j + 1]);
                }
                assert forall|j: int| 0 <= j < sockets@.len() implies #[trigger] socket_ports(sockets@)[j] == ports[i + 1 + j] by {
                    assert(socket_ports(sockets@)[j] == sv[j + 1]);
                }
            }
            match entry {
                OfferEntry::Matched { id, existing, new } => {
                    let mut c = direction_changes_exec(id, existing, new);
                    changes.append(&mut c);
                },
                OfferEntry::New(ns) => {
                    match socket {
                        None => {},
                        Some(pair) => {
                            let ghost nsv = ns@;
                            let NewSession {
                                id,
                                media_type,
                                send_codec,
                                recv_codec,
                                srtp,
                                remote_rtp_addr,
                                remote_rtcp_addr,
                                direction,
                                dtmf_events,
                                family: _,
                            } = ns;
                            let session = MediaSession {
                                id,
                                media_type,
                                state: MediaSessionState::Established(
                                    Established { remote_rtp_addr, remote_rtcp_addr, send_codec, recv_codec, srtp },
                                ),
                                local_rtp_addr: SocketAddress { ip: self.pub_ip, port: pair.public_rtp_port },
                                local_rtcp_addr: SocketAddress { ip: self.pub_ip, port: pair.public_rtcp_port },
                                direction,
                                dtmf_events,
                                socket_pair: pair.pair,
                            };
                            assert(session@ == new_session_view(nsv, self.pub_ip, (pair.public_rtp_port, pair.public_rtcp_port)));
                            let ghost np = (session.id, session.socket_pair);
                            self.media_sessions.push(session);
                            assert(self.sessions() =~= ss.push(new_session_view(nsv, self.pub_ip, (pair.public_rtp_port, pair.public_rtcp_port))));
                            assert(id_pairs(self.media_sessions@) =~= pp.push(np));
                            let mut c = direction_changes_exec(id, Direction::Inactive, direction);
                            changes.append(&mut c);
                        },
                    }
                },
            }
            i = i + 1;
        }
        assert(all_entries.take(n as int) =~= all_entries);
        self.next_media_session_id = next_media_session_id;
        let mut dropped = self.retain_matched(&matched);
        changes.append(&mut dropped);
        changes
    }
}

// ---------------------------------------------------------------------------
// The bridge's own offer
// ---------------------------------------------------------------------------

pub open spec fn has_media_of(s: Seq<MediaSessionV>, t: MediaType) -> bool {
    exists|i: int| 0 <= i < s.len() && (#[trigger] s[i]).media_type == t
}

/// A session with the random contents of its offered send keys blanked out.
pub open spec fn blank_session(s: MediaSessionV) -> MediaSessionV {
    match s.state {
        MediaSessionStateV::Offered { codec, srtp } => MediaSessionV {
            state: MediaSessionStateV::Offered { codec, srtp: blank_send_keys(srtp) },
            ..s
        },
        _ => s,
    }
}

/// The session the bridge offers for a media type: all codecs it receives of
/// that type, the SRTP suites where SRTP is offered, send and receive, and
/// telephone events at payload 101 for audio.
pub open spec fn spec_offered_session(
    id: MediaSessionId,
    t: MediaType,
    offer_srtp: bool,
    cap: DecoderCapability,
    pub_ip: IpAddress,
    ports: (u16, u16),
) -> MediaSessionV {
    MediaSessionV {
        id,
        media_type: t,
        state: MediaSessionStateV::Offered {
            codec: if t == MediaType::Audio {
                spec_all_audio_codecs()
            } else {
                spec_all_video_codecs(cap)
            },
            srtp: if offer_srtp {
                spec_offer_srtp()
            } else {
                Seq::empty()
            },
        },
        local_rtp_addr: SocketAddress { ip: pub_ip, port: ports.0 },
        local_rtcp_addr: SocketAddress { ip: pub_ip, port: ports.1 },
        direction: Direction::SendRecv,
        dtmf_events: if t == MediaType::Audio {
            Some(DtmfEventsV { pt: 101, fmtp: None })
        } else {
            None
        },
    }
}

impl<S> SessionState<S> {
    fn has_media_exec(&self, t: MediaType) -> (r: bool)
        ensures
            r == has_media_of(self.sessions(), t),
    {
        let mut i: usize = 0;
        while i < self.media_sessions.len()
            invariant
                i <= self.media_sessions@.len(),
                forall|j: int| 0 <= j < i ==> (#[trigger] self.sessions()[j]).media_type != t,
            decreases self.media_sessions.len() - i,
        {
            assert(self.sessions()[i as int].media_type == self.media_sessions@[i as int].media_type);
            if self.media_sessions[i].media_type == t {
                return true;
            }
            i = i + 1;
        }
        false
    }

    /// Which media the bridge still has to offer: audio where no audio
    /// session exists, video where no video session exists.
    pub fn missing_offer_media(&self) -> (r: (bool, bool))
        ensures
            r == (!has_media_of(self.sessions(), MediaType::Audio), !has_media_of(self.sessions(), MediaType::Video)),
    {
        (!self.has_media_exec(MediaType::Audio), !self.has_media_exec(MediaType::Video))
    }

    /// Adds an offered session of the given type on a bound socket pair, with
    /// the next id.
    pub fn add_offered_session(&mut self, media_type: MediaType, pair: AllocatedPair<S>)
        ensures
            final(self).sessions().len() == old(self).sessions().len() + 1,
            final(self).sessions().drop_last() == old(self).sessions(),
            final(self).media_sessions@.drop_last() == old(self).media_sessions@,
            final(self).media_sessions@.last().socket_pair == pair.pair,
            blank_session(final(self).sessions().last()) == spec_offered_session(
                MediaSessionId(old(self).next_media_session_id),
                media_type,
                old(self).settings.sip.offer_srtp,
                old(self).decoder,
                old(self).pub_ip,
                (pair.public_rtp_port, pair.public_rtcp_port),
            ),
            final(self).next_media_session_id == wrapping_next(old(self).next_media_session_id),
            final(self).settings == old(self).settings,
            final(self).decoder == old(self).decoder,
            final(self).pub_ip == old(self).pub_ip,
            final(self).sdp_id == old(self).sdp_id,
            final(self).sdp_version == old(self).sdp_version,
    {
        let id = MediaSessionId(self.next_media_session_id);
        self.next_media_session_id = self.next_media_session_id.wrapping_add(1);
        let codec = match media_type {
            MediaType::Audio => offer_all_audio_codecs(),
            MediaType::Video => offer_all_video_codecs(&self.decoder),
        };
        let srtp = if self.settings.sip.offer_srtp {
            offer_srtp()
        } else {
            Vec::new()
        };
        let ghost srtp_v = srtp.deep_view();
        let dtmf_events = match media_type {
            MediaType::Audio => Some(DtmfEvents { pt: 101, fmtp: None }),
            MediaType::Video => None,
        };
        let session = MediaSession {
            id,
            media_type,
            state: MediaSessionState::Offered(Offered { codec, srtp }),
            local_rtp_addr: SocketAddress { ip: self.pub_ip, port: pair.public_rtp_port },
            local_rtcp_addr: SocketAddress { ip: self.pub_ip, port: pair.public_rtcp_port },
            direction: Direction::SendRecv,
            dtmf_events,
            socket_pair: pair.pair,
        };
        let ghost sv = session@;
        let ghost before = self.sessions();
        self.media_sessions.push(session);
        proof {
            assert(self.sessions() =~= before.push(sv));
            assert(self.sessions().drop_last() =~= before);
            assert(self.media_sessions@.drop_last() =~= old(self).media_sessions@);
            if !old(self).settings.sip.offer_srtp {
                assert(blank_send_keys(srtp_v) =~= Seq::<SrtpInfoV>::empty());
            }
        }
    }
}

/// Both audio and video have a session: there is nothing left to offer.
pub open spec fn offer_complete(s: Seq<MediaSessionV>) -> bool {
    has_media_of(s, MediaType::Audio) && has_media_of(s, MediaType::Video)
}

/// Where a setup fails: a missing medium without a bound pair, audio first.
pub open spec fn setup_fails(s: Seq<MediaSessionV>, audio_bound: bool, video_bound: bool) -> bool {
    (!has_media_of(s, MediaType::Audio) && !audio_bound) || (!has_media_of(s, MediaType::Video)
        && !video_bound)
}

impl<S> SessionState<S> {
    /// Adds an offered audio session where there is none, then an offered
    /// video session where there is none, each on the pair bound for it. A
    /// medium to offer without a bound pair fails the setup: where that is
    /// audio nothing is added; where it is video the audio session stays.
    /// Pairs given for media that need none are dropped.
    pub fn setup_offer(&mut self, audio_pair: Option<AllocatedPair<S>>, video_pair: Option<AllocatedPair<S>>) -> (r:
        Result<(), SdpError>)
        ensures
            ({
                let old_s = old(self).sessions();
                let add_audio = !has_media_of(old_s, MediaType::Audio) && audio_pair is Some;
                let audio_failed = !has_media_of(old_s, MediaType::Audio) && audio_pair is None;
                let add_video = !audio_failed && !has_media_of(old_s, MediaType::Video) && video_pair
                    is Some;
                let n: int = old_s.len() as int;
                let ka: int = if add_audio { 1 } else { 0 };
                let kv: int = if add_video { 1 } else { 0 };
                let id0 = old(self).next_media_session_id;
                &&& r is Err <==> setup_fails(old_s, audio_pair is Some, video_pair is Some)
                &&& r is Err ==> r == Err::<(), SdpError>(SdpError::NoPorts)
                &&& final(self).sessions().len() == n + ka + kv
                &&& final(self).sessions().take(n) == old_s
                &&& final(self).media_sessions@.take(n) == old(self).media_sessions@
                &&& add_audio ==> {
                    &&& blank_session(final(self).sessions()[n]) == spec_offered_session(
                        MediaSessionId(id0),
                        MediaType::Audio,
                        old(self).settings.sip.offer_srtp,
                        old(self).decoder,
                        old(self).pub_ip,
                        (audio_pair->0.public_rtp_port, audio_pair->0.public_rtcp_port),
                    )
                    &&& final(self).media_sessions@[n].socket_pair == audio_pair->0.pair
                }
                &&& add_video ==> {
                    &&& blank_session(final(self).sessions()[n + ka]) == spec_offered_session(
                        MediaSessionId(if add_audio { wrapping_next(id0) } else { id0 }),
                        MediaType::Video,
                        old(self).settings.sip.offer_srtp,
                        old(self).decoder,
                        old(self).pub_ip,
                        (video_pair->0.public_rtp_port, video_pair->0.public_rtcp_port),
                    )
                    &&& final(self).media_sessions@[n + ka].socket_pair == video_pair->0.pair
                }
                &&& final(self).next_media_session_id == if add_audio && add_video {
                    wrapping_next(wrapping_next(id0))
                } else if add_audio || add_video {
                    wrapping_next(id0)
                } else {
                    id0
                }
            }),
            r is Ok ==> offer_complete(final(self).sessions()),
            offer_complete(old(self).sessions()) ==> r is Ok && final(self).sessions() == old(
                self,
            ).sessions() && final(self).next_media_session_id == old(self).next_media_session_id,
            final(self).settings == old(self).settings,
            final(self).decoder == old(self).decoder,
            final(self).pub_ip == old(self).pub_ip,
            final(self).sdp_id == old(self).sdp_id,
            final(self).sdp_version == old(self).sdp_version,
    {
        let ghost old_s = self.sessions();
        let ghost old_m = self.media_sessions@;
        let ghost n = old_s.len();
        let (audio_missing, video_missing) = self.missing_offer_media();
        if audio_missing {
            match audio_pair {
                None => {
                    assert(self.sessions().take(n as int) =~= old_s);
                    assert(self.media_sessions@.take(n as int) =~= old_m);
                    return Err(SdpError::NoPorts);
                },
                Some(p) => {
                    self.add_offered_session(MediaType::Audio, p);
                },
            }
        }
        let ghost mid_s = self.sessions();
        let ghost mid_m = self.media_sessions@;
        proof {
            if audio_missing {
                assert(mid_s[n as int] == mid_s.last());
                assert(mid_s.take(n as int) =~= mid_s.drop_last());
                assert(mid_m.take(n as int) =~= mid_m.drop_last());
                assert(mid_s[n as int].media_type == MediaType::Audio);
            } else {
                assert(mid_s.take(n as int) =~= old_s);
                assert(mid_m.take(n as int) =~= old_m);
            }
            assert(has_media_of(mid_s, MediaType::Audio));
            assert forall|i: int| 0 <= i < n implies #[trigger] mid_s[i] == old_s[i] by {
                assert(mid_s.take(n as int)[i] == mid_s[i]);
            }
            if has_media_of(old_s, MediaType::Video) {
                let i = choose|i: int| 0 <= i < old_s.len() && (#[trigger] old_s[i]).media_type == MediaType::Video;
                assert(mid_s[i] == old_s[i]);
            }
        }
        if video_missing {
            match video_pair {
                None => {
                    return Err(SdpError::NoPorts);
                },
                Some(p) => {
                    self.add_offered_session(MediaType::Video, p);
                },
            }
        }
        proof {
            let f = self.sessions();
            let fm = self.media_sessions@;
            let k = mid_s.len();
            if video_missing {
                assert(f.take(k as int) =~= f.drop_last());
                assert(fm.take(k as int) =~= fm.drop_last());
                assert(f[k as int] == f.last());
                assert(f.take(n as int) =~= mid_s.take(n as int));
                assert(fm.take(n as int) =~= mid_m.take(n as int));
                assert(f[k as int].media_type == MediaType::Video);
                assert forall|i: int| 0 <= i < k implies #[trigger] f[i] == mid_s[i] by {
                    assert(f.take(k as int)[i] == f[i]);
                }
                let i = choose|i: int| 0 <= i < mid_s.len() && (#[trigger] mid_s[i]).media_type == MediaType::Audio;
                assert(f[i] == mid_s[i]);
                if audio_missing {
                    assert(f[n as int] == mid_s[n as int]);
                    assert(fm[n as int] == mid_m[n as int]);
                }
            } else {
                assert(f =~= mid_s);
            }
        }
        Ok(())
    }
}

/// Some session of the type is established.
pub open spec fn has_established_of(s: Seq<MediaSessionV>, t: SdpMediaType) -> bool {
    exists|i: int| 0 <= i < s.len() && same_media_type((#[trigger] s[i]).media_type, t) && s[i].state is Established
}

/// A media description of an answer to a re-offer that answers a session
/// already established: it is active, and of its type no session is offered
/// and one is established.
pub open spec fn reanswered(s: Seq<MediaSessionV>, m: MediaDescriptionV) -> bool {
    media_is_active(m) && first_offered(s, m.media_type, 0) is None && has_established_of(s, m.media_type)
}

/// The media descriptions of an answer less those that answer established
/// sessions, in order.
pub open spec fn drop_reanswered(s: Seq<MediaSessionV>, media: Seq<MediaDescriptionV>) -> Seq<MediaDescriptionV>
    decreases media.len(),
{
    if media.len() == 0 {
        Seq::empty()
    } else {
        let rest = drop_reanswered(s, media.drop_last());
        if reanswered(s, media.last()) {
            rest
        } else {
            rest.push(media.last())
        }
    }
}

proof fn lemma_none_offered(s: Seq<MediaSessionV>, t: SdpMediaType, i: int)
    requires
        forall|j: int| 0 <= j < s.len() ==> (#[trigger] s[j]).state is Established,
    ensures
        first_offered(s, t, i) is None,
    decreases s.len() - i,
{
    if 0 <= i < s.len() {
        lemma_none_offered(s, t, i + 1);
    }
}

proof fn lemma_all_inactive(
    s: Seq<MediaSessionV>,
    conn: Option<TaggedAddressV>,
    media: Seq<MediaDescriptionV>,
    max_bitrate: u32,
    cap: DecoderCapability,
)
    requires
        forall|j: int| 0 <= j < media.len() ==> !media_is_active(#[trigger] media[j]),
    ensures
        answer_fold(s, conn, media, max_bitrate, cap) == (AnswerFold { sessions: s, changes: Seq::empty(), error: None }),
    decreases media.len(),
{
    if media.len() > 0 {
        lemma_all_inactive(s, conn, media.drop_last(), max_bitrate, cap);
        assert(!media_is_active(media[media.len() - 1]));
    }
}

proof fn lemma_drop_reanswered_inactive(s: Seq<MediaSessionV>, media: Seq<MediaDescriptionV>)
    requires
        forall|j: int| 0 <= j < s.len() ==> (#[trigger] s[j]).state is Established,
        forall|j: int| 0 <= j < media.len() && media_is_active(#[trigger] media[j]) ==> has_established_of(s, media[j].media_type),
    ensures
        forall|j: int| 0 <= j < drop_reanswered(s, media).len() ==> !media_is_active(#[trigger] drop_reanswered(s, media)[j]),
    decreases media.len(),
{
    if media.len() > 0 {
        lemma_drop_reanswered_inactive(s, media.drop_last());
        let m = media.last();
        assert(m == media[media.len() - 1]);
        lemma_none_offered(s, m.media_type, 0);
        let rest = drop_reanswered(s, media.drop_last());
        if !reanswered(s, m) {
            assert forall|j: int| 0 <= j < rest.push(m).len() implies !media_is_active(#[trigger] rest.push(m)[j]) by {
                if j < rest.len() {
                    assert(rest.push(m)[j] == rest[j]);
                }
            }
        }
    }
}

proof fn lemma_keep_established_same(s: Seq<MediaSessionV>)
    requires
        forall|j: int| 0 <= j < s.len() ==> (#[trigger] s[j]).state is Established,
    ensures
        keep_established(s) == s,
    decreases s.len(),
{
    if s.len() > 0 {
        assert(s[0].state is Established);
        lemma_keep_established_same(s.drop_first());
        assert(seq![s[0]] + s.drop_first() =~= s);
    }
}

/// A re-INVITE without a body leaves the call as it is: where every session
/// is established and each active media description of the answer to the
/// re-offer is of a type that has an established session, the answer is
/// accepted with no changes and the sessions stay as they were.
pub proof fn lemma_reanswer_keeps_call(
    s: Seq<MediaSessionV>,
    conn: Option<TaggedAddressV>,
    media: Seq<MediaDescriptionV>,
    max_bitrate: u32,
    cap: DecoderCapability,
)
    requires
        forall|j: int| 0 <= j < s.len() ==> (#[trigger] s[j]).state is Established,
        forall|j: int| 0 <= j < media.len() && media_is_active(#[trigger] media[j]) ==> has_established_of(s, media[j].media_type),
    ensures
        answer_fold(s, conn, drop_reanswered(s, media), max_bitrate, cap) == (AnswerFold {
            sessions: s,
            changes: Seq::empty(),
            error: None,
        }),
        keep_established(s) == s,
{
    lemma_drop_reanswered_inactive(s, media);
    lemma_all_inactive(s, conn, drop_reanswered(s, media), max_bitrate, cap);
    lemma_keep_established_same(s);
}

impl<S> SessionState<S> {
    /// Takes the peer's answer as it came in the SIP body: `InvalidSdp` where
    /// the body is not UTF-8 or no SDP description, otherwise what
    /// `receive_answer` does with the description it reads as (host names
    /// resolved with `hosts`).
    pub fn receive_answer_sdp(&mut self, body: &Vec<u8>, hosts: &Vec<HostAddress>) -> (r: Result<
        Vec<MediaChange>,
        SdpError,
    >)
        ensures
            match spec_read_body(body@, hosts.deep_view()) {
                Err(e) => r == Err::<Vec<MediaChange>, SdpError>(e) && final(self).sessions()
                    == old(self).sessions(),
                Ok(d) => {
                    let f = answer_fold(
                        old(self).sessions(),
                        d.connection,
                        d.media_descriptions,
                        old(self).max_video_bitrate(),
                        old(self).decoder,
                    );
                    match r {
                        Ok(changes) => f.error is None && changes@ == f.changes && final(self).sessions()
                            == keep_established(f.sessions),
                        Err(e) => f.error == Some(e) && final(self).sessions() == f.sessions,
                    }
                },
            },
            final(self).settings == old(self).settings,
            final(self).decoder == old(self).decoder,
            final(self).pub_ip == old(self).pub_ip,
            final(self).sdp_id == old(self).sdp_id,
            final(self).sdp_version == old(self).sdp_version,
            final(self).next_media_session_id == old(self).next_media_session_id,
    {
        match parse_description(body, hosts) {
            Err(e) => Err(e),
            Ok(d) => self.receive_answer(&d),
        }
    }

    /// Takes the peer's answer to the bridge's re-offer, made for a re-INVITE
    /// without a body: a media description answering a session that is
    /// already established (active, of a type with an established session
    /// and no offered one) is accepted as it is, and the rest goes through
    /// `receive_answer`.
    pub fn receive_reanswer(&mut self, answer: SessionDescription) -> (r: Result<Vec<MediaChange>, SdpError>)
        requires
            session_wf(answer@),
        ensures
            ({
                let f = answer_fold(
                    old(self).sessions(),
                    answer@.connection,
                    drop_reanswered(old(self).sessions(), answer@.media_descriptions),
                    old(self).max_video_bitrate(),
                    old(self).decoder,
                );
                match r {
                    Ok(changes) => f.error is None && changes@ == f.changes && final(self).sessions()
                        == keep_established(f.sessions),
                    Err(e) => f.error == Some(e) && final(self).sessions() == f.sessions,
                }
            }),
            final(self).settings == old(self).settings,
            final(self).decoder == old(self).decoder,
            final(self).pub_ip == old(self).pub_ip,
            final(self).sdp_id == old(self).sdp_id,
            final(self).sdp_version == old(self).sdp_version,
            final(self).next_media_session_id == old(self).next_media_session_id,
    {
        let SessionDescription { origin, name, connection, media_descriptions } = answer;
        let ghost all = media_descriptions.deep_view();
        let ghost ss = self.sessions();
        let mut rest = media_descriptions;
        let mut kept: Vec<MediaDescription> = Vec::new();
        let mut i: usize = 0;
        let ghost n = all.len();
        let len0 = rest.len();
        assert(n == rest@.len());
        assert(n == len0);
        assert(all.take(0) =~= Seq::<MediaDescriptionV>::empty());
        while rest.len() > 0
            invariant
                i + rest@.len() == n,
                n <= usize::MAX,
                all.len() == n,
                ss == self.sessions(),
                forall|j: int| 0 <= j < rest@.len() ==> #[trigger] rest.deep_view()[j] == all[i + j],
                forall|j: int| 0 <= j < n ==> media_wf(#[trigger] all[j]),
                kept.deep_view() == drop_reanswered(ss, all.take(i as int)),
                forall|j: int| 0 <= j < kept@.len() ==> media_wf(#[trigger] kept.deep_view()[j]),
            decreases rest@.len(),
        {
            let ghost rv = rest.deep_view();
            let m = rest.remove(0);
            proof {
                assert(m@ == rv[0]);
                assert(rv[0] == all[i as int]);
                assert(all.take(i + 1).drop_last() =~= all.take(i as int));
                assert(all.take(i + 1).last() == all[i as int]);
                assert forall|j: int| 0 <= j < rest@.len() implies #[trigger] rest.deep_view()[j] == all[i + 1 + j] by {
                    assert(rest.deep_view()[j] == rv[j + 1]);
                }
            }
            let active = m.port != 0 && m.fmts.len() > 0 && m.direction != Direction::Inactive;
            let skip = active && self.first_offered_exec(m.media_type).is_none() && self.has_established_exec(
                m.media_type,
            );
            if !skip {
                let ghost before = kept.deep_view();
                let ghost mv = m@;
                kept.push(m);
                assert(kept.deep_view() =~= before.push(mv));
            }
            i = i + 1;
        }
        assert(all.take(i as int) =~= all);
        let d = SessionDescription { origin, name, connection, media_descriptions: kept };
        assert forall|j: int| 0 <= j < d@.media_descriptions.len() implies media_wf(#[trigger] d@.media_descriptions[j]) by {
            assert(d@.media_descriptions[j] == kept.deep_view()[j]);
        }
        self.receive_answer(&d)
    }

    /// `receive_reanswer` for the answer as it came in the SIP body:
    /// `InvalidSdp` where the body is not UTF-8 or no SDP description.
    pub fn receive_reanswer_sdp(&mut self, body: &Vec<u8>, hosts: &Vec<HostAddress>) -> (r: Result<
        Vec<MediaChange>,
        SdpError,
    >)
        ensures
            match spec_read_body(body@, hosts.deep_view()) {
                Err(e) => r == Err::<Vec<MediaChange>, SdpError>(e) && final(self).sessions()
                    == old(self).sessions(),
                Ok(d) => {
                    let f = answer_fold(
                        old(self).sessions(),
                        d.connection,
                        drop_reanswered(old(self).sessions(), d.media_descriptions),
                        old(self).max_video_bitrate(),
                        old(self).decoder,
                    );
                    match r {
                        Ok(changes) => f.error is None && changes@ == f.changes && final(self).sessions()
                            == keep_established(f.sessions),
                        Err(e) => f.error == Some(e) && final(self).sessions() == f.sessions,
                    }
                },
            },
            final(self).settings == old(self).settings,
            final(self).decoder == old(self).decoder,
            final(self).pub_ip == old(self).pub_ip,
            final(self).sdp_id == old(self).sdp_id,
            final(self).sdp_version == old(self).sdp_version,
            final(self).next_media_session_id == old(self).next_media_session_id,
    {
        match parse_description(body, hosts) {
            Err(e) => Err(e),
            Ok(d) => self.receive_reanswer(d),
        }
    }

    fn has_established_exec(&self, t: SdpMediaType) -> (r: bool)
        ensures
            r == has_established_of(self.sessions(), t),
    {
        let mut i: usize = 0;
        while i < self.media_sessions.len()
            invariant
                i <= self.media_sessions@.len(),
                forall|j: int| 0 <= j < i ==> !(same_media_type((#[trigger] self.sessions()[j]).media_type, t)
                    && self.sessions()[j].state is Established),
            decreases self.media_sessions.len() - i,
        {
            assert(self.sessions()[i as int] == self.media_sessions@[i as int]@);
            if same_media_type_exec(self.media_sessions[i].media_type, t)
                && self.media_sessions[i].state.is_established() {
                return true;
            }
            i = i + 1;
        }
        false
    }

    /// Plans the sessions for the peer's offer as it came in the SIP body:
    /// `InvalidSdp` where the body is not UTF-8 or no SDP description,
    /// otherwise what
    /// `plan_offer` gives for the description it reads as (host names
    /// resolved with `hosts`).
    pub fn plan_offer_sdp(&self, body: &Vec<u8>, hosts: &Vec<HostAddress>) -> (r: Result<OfferPlan, SdpError>)
        ensures
            match spec_read_body(body@, hosts.deep_view()) {
                Err(e) => r == Err::<OfferPlan, SdpError>(e),
                Ok(d) => {
                    let f = plan_fold(
                        self.sessions(),
                        d.connection,
                        d.media_descriptions,
                        self.next_media_session_id,
                        self.max_video_bitrate(),
                        self.decoder,
                    );
                    match r {
                        Ok(plan) => f.error is None && blank_entries(plan.entries.deep_view()) == blank_entries(
                            f.entries,
                        ) && plan.matched@ == f.matched && plan.next_media_session_id == f.next_id,
                        Err(e) => f.error == Some(e),
                    }
                },
            },
    {
        match parse_description(body, hosts) {
            Err(e) => Err(e),
            Ok(d) => self.plan_offer(&d),
        }
    }
}

// ---------------------------------------------------------------------------
// The description the bridge sends
// ---------------------------------------------------------------------------

pub open spec fn codec_rtpmaps(c: Seq<SdpRecvCodecV>) -> Seq<RtpMapV> {
    Seq::new(c.len(), |i: int| spec_make_rtpmap(c[i]))
}

pub open spec fn codec_payloads(c: Seq<SdpRecvCodecV>) -> Seq<u8> {
    Seq::new(c.len(), |i: int| c[i].payload)
}

/// The fmtp attributes of the codecs that have parameters, in order.
pub open spec fn codec_fmtps(c: Seq<SdpRecvCodecV>) -> Seq<FmtpV>
    decreases c.len(),
{
    if c.len() == 0 {
        Seq::empty()
    } else {
        codec_fmtps(c.drop_last()) + match c.last().fmtp {
            Some(p) => seq![FmtpV { format: c.last().payload, params: p }],
            None => Seq::empty(),
        }
    }
}

pub open spec fn crypto_attributes(s: Seq<SrtpInfoV>) -> Seq<SrtpCryptoV> {
    Seq::new(s.len(), |i: int| spec_crypto_attribute(s[i]))
}

pub open spec fn sdp_media_type(t: MediaType) -> SdpMediaType {
    match t {
        MediaType::Audio => SdpMediaType::Audio,
        MediaType::Video => SdpMediaType::Video,
    }
}

pub open spec fn telephone_event_rtpmap(pt: u8) -> RtpMapV {
    RtpMapV { payload: pt, encoding: "telephone-event"@, clock_rate: 8000, params: None }
}

/// The media description that announces a session: the offered codecs (or
/// the agreed receive codec) with their rtpmap and fmtp attributes and the
/// SRTP crypto attributes, then telephone events where negotiated; the
/// session's local RTP address and RTCP port, and its direction.
pub open spec fn spec_media_description(s: MediaSessionV) -> MediaDescriptionV {
    let (rtpmap0, fmts0, fmtp0, crypto, proto) = match s.state {
        MediaSessionStateV::Offered { codec, srtp } => (
            codec_rtpmaps(codec),
            codec_payloads(codec),
            codec_fmtps(codec),
            crypto_attributes(srtp),
            if srtp.len() == 0 {
                TransportProtocol::RtpAvp
            } else {
                TransportProtocol::RtpSavp
            },
        ),
        MediaSessionStateV::Established(e) => (
            seq![spec_make_rtpmap(e.recv_codec)],
            seq![e.recv_codec.payload],
            codec_fmtps(seq![e.recv_codec]),
            match e.srtp {
                Some(x) => seq![spec_crypto_attribute(x)],
                None => Seq::empty(),
            },
            if e.srtp is Some {
                TransportProtocol::RtpSavp
            } else {
                TransportProtocol::RtpAvp
            },
        ),
    };
    let (rtpmap, fmts, fmtp) = match s.dtmf_events {
        Some(d) => (
            rtpmap0.push(telephone_event_rtpmap(d.pt)),
            fmts0.push(d.pt),
            match d.fmtp {
                Some(f) => fmtp0.push(f),
                None => fmtp0,
            },
        ),
        None => (rtpmap0, fmts0, fmtp0),
    };
    MediaDescriptionV {
        media_type: sdp_media_type(s.media_type),
        port: s.local_rtp_addr.port,
        proto,
        fmts,
        connection: Some(TaggedAddressV::Ip(s.local_rtp_addr.ip)),
        bandwidth: Seq::empty(),
        direction: s.direction,
        rtcp_port: Some(s.local_rtcp_addr.port),
        rtpmap,
        fmtp,
        crypto,
        imageattr: Seq::empty(),
    }
}

fn push_codec(codec: &SdpRecvCodec, rtpmaps: &mut Vec<RtpMap>, fmts: &mut Vec<u8>, fmtps: &mut Vec<Fmtp>)
    ensures
        final(rtpmaps).deep_view() == old(rtpmaps).deep_view().push(spec_make_rtpmap(codec@)),
        final(fmts)@ == old(fmts)@.push(codec.payload),
        final(fmtps).deep_view() == old(fmtps).deep_view() + match codec@.fmtp {
            Some(p) => seq![FmtpV { format: codec.payload, params: p }],
            None => Seq::<FmtpV>::empty(),
        },
{
    let ghost r0 = rtpmaps.deep_view();
    let ghost f0 = fmtps.deep_view();
    rtpmaps.push(codec.make_rtpmap());
    assert(rtpmaps.deep_view() =~= r0.push(spec_make_rtpmap(codec@)));
    fmts.push(codec.payload);
    match &codec.fmtp {
        Some(p) => {
            fmtps.push(Fmtp { format: codec.payload, params: p.clone() });
            assert(fmtps.deep_view() =~= f0 + seq![FmtpV { format: codec.payload, params: p@ }]);
        },
        None => {
            assert(fmtps.deep_view() =~= f0 + Seq::<FmtpV>::empty());
        },
    }
}

/// Every media description the bridge announces carries the direction of
/// the session it announces.
pub proof fn lemma_description_keeps_direction(s: MediaSessionV)
    ensures
        spec_media_description(s).direction == s.direction,
{
}

/// The bridge's own description announces each session, in order, with its
/// own direction.
pub proof fn lemma_build_sdp_directions(sdp_id: u64, sdp_version: u64, pub_ip: IpAddress, sessions: Seq<MediaSessionV>)
    ensures
        spec_build_sdp(sdp_id, sdp_version, pub_ip, sessions).media_descriptions.len() == sessions.len(),
        forall|i: int|
            0 <= i < sessions.len() ==> (#[trigger] spec_build_sdp(sdp_id, sdp_version, pub_ip, sessions).media_descriptions[i]).direction
                == sessions[i].direction,
{
}

/// The media description that announces a session.
pub fn determine_media_description<S>(s: &MediaSession<S>) -> (r: MediaDescription)
    ensures
        r@ == spec_media_description(s@),
        r@.direction == s@.direction,
{
    let mut rtpmaps: Vec<RtpMap> = Vec::new();
    let mut fmtps: Vec<Fmtp> = Vec::new();
    let mut fmts: Vec<u8> = Vec::new();
    let mut crypto: Vec<SrtpCrypto> = Vec::new();
    let proto = match &s.state {
        MediaSessionState::Offered(offered) => {
            let ghost codecs = offered.codec.deep_view();
            let mut i: usize = 0;
            while i < offered.codec.len()
                invariant
                    i <= codecs.len(),
                    codecs == offered.codec.deep_view(),
                    rtpmaps.deep_view() == codec_rtpmaps(codecs.take(i as int)),
                    fmts@ == codec_payloads(codecs.take(i as int)),
                    fmtps.deep_view() == codec_fmtps(codecs.take(i as int)),
                decreases codecs.len() - i,
            {
                let ghost r0 = rtpmaps.deep_view();
                let ghost p0 = fmts@;
                push_codec(&offered.codec[i], &mut rtpmaps, &mut fmts, &mut fmtps);
                proof {
                    assert(codecs[i as int] == offered.codec@[i as int]@);
                    let t = codecs.take(i + 1);
                    assert(t.drop_last() =~= codecs.take(i as int));
                    assert(t.last() == codecs[i as int]);
                    assert(rtpmaps.deep_view() =~= codec_rtpmaps(t));
                    assert(fmts@ =~= codec_payloads(t));
                }
                i = i + 1;
            }
            let ghost srtps = offered.srtp.deep_view();
            let mut j: usize = 0;
            while j < offered.srtp.len()
                invariant
                    j <= srtps.len(),
                    srtps == offered.srtp.deep_view(),
                    crypto.deep_view() == crypto_attributes(srtps.take(j as int)),
                decreases srtps.len() - j,
            {
                populate_crypto_attributes(&offered.srtp[j], &mut crypto);
                proof {
                    assert(srtps[j as int] == offered.srtp@[j as int]@);
                    assert(crypto.deep_view() =~= crypto_attributes(srtps.take(j + 1)));
                }
                j = j + 1;
            }
            proof {
                assert(codecs.take(codecs.len() as int) =~= codecs);
                assert(srtps.take(srtps.len() as int) =~= srtps);
            }
            if offered.srtp.len() == 0 {
                TransportProtocol::RtpAvp
            } else {
                TransportProtocol::RtpSavp
            }
        },
        MediaSessionState::Established(established) => {
            push_codec(&established.recv_codec, &mut rtpmaps, &mut fmts, &mut fmtps);
            proof {
                let c = seq![established.recv_codec@];
                assert(c.drop_last() =~= Seq::<SdpRecvCodecV>::empty());
                assert(rtpmaps.deep_view() =~= seq![spec_make_rtpmap(established.recv_codec@)]);
                assert(fmts@ =~= seq![established.recv_codec.payload]);
                assert(c.drop_last() == Seq::<SdpRecvCodecV>::empty());
                assert(codec_fmtps(Seq::<SdpRecvCodecV>::empty()) == Seq::<FmtpV>::empty());
                assert(c.last() == established.recv_codec@);
                assert(fmtps.deep_view() =~= codec_fmtps(c));
            }
            match &established.srtp {
                Some(srtp) => {
                    populate_crypto_attributes(srtp, &mut crypto);
                    assert(crypto.deep_view() =~= seq![spec_crypto_attribute(srtp@)]);
                    TransportProtocol::RtpSavp
                },
                None => {
                    assert(crypto.deep_view() =~= Seq::<SrtpCryptoV>::empty());
                    TransportProtocol::RtpAvp
                },
            }
        },
    };
    if let Some(dtmf) = &s.dtmf_events {
        let ghost r0 = rtpmaps.deep_view();
        let ghost f0 = fmtps.deep_view();
        proof {
            reveal_strlit("telephone-event");
        }
        rtpmaps.push(RtpMap { payload: dtmf.pt, encoding: String::from_str("telephone-event"), clock_rate: 8000, params: None });
        assert(rtpmaps.deep_view() =~= r0.push(telephone_event_rtpmap(dtmf.pt)));
        if let Some(fmtp) = &dtmf.fmtp {
            fmtps.push(fmtp.copy());
            assert(fmtps.deep_view() =~= f0.push(fmtp@));
        }
        fmts.push(dtmf.pt);
    }
    let media_type = match s.media_type {
        MediaType::Audio => SdpMediaType::Audio,
        MediaType::Video => SdpMediaType::Video,
    };
    let r = MediaDescription {
        media_type,
        port: s.local_rtp_addr.port,
        proto,
        fmts,
        connection: Some(TaggedAddress::Ip(s.local_rtp_addr.ip)),
        bandwidth: Vec::new(),
        direction: s.direction,
        rtcp_port: Some(s.local_rtcp_addr.port),
        rtpmap: rtpmaps,
        fmtp: fmtps,
        crypto,
        imageattr: Vec::new(),
    };
    proof {
        assert(r@.bandwidth =~= Seq::empty());
        assert(r@.imageattr =~= Seq::empty());
    }
    r
}

/// The description that the bridge sends: origin with the session id,
/// version and public address, and one media description per session.
pub open spec fn spec_build_sdp(sdp_id: u64, sdp_version: u64, pub_ip: IpAddress, sessions: Seq<MediaSessionV>) -> SessionDescriptionV {
    SessionDescriptionV {
        origin: Some(Origin { session_id: sdp_id, session_version: sdp_version, address: pub_ip }),
        name: "opentalk-obelisk"@,
        connection: None,
        media_descriptions: Seq::new(sessions.len(), |i: int| spec_media_description(sessions[i])),
    }
}

impl<S> SessionState<S> {
    /// The session description that announces this state.
    pub fn build_sdp(&self) -> (r: SessionDescription)
        ensures
            r@ == spec_build_sdp(self.sdp_id, self.sdp_version, self.pub_ip, self.sessions()),
    {
        let mut media: Vec<MediaDescription> = Vec::new();
        let mut i: usize = 0;
        while i < self.media_sessions.len()
            invariant
                i <= self.media_sessions@.len(),
                media.deep_view() =~= Seq::new(i as nat, |j: int| spec_media_description(self.sessions()[j])),
            decreases self.media_sessions.len() - i,
        {
            let d = determine_media_description(&self.media_sessions[i]);
            assert(self.sessions()[i as int] == self.media_sessions@[i as int]@);
            let ghost m0 = media.deep_view();
            let ghost dv = d@;
            media.push(d);
            assert(media.deep_view() =~= m0.push(dv));
            i = i + 1;
        }
        proof {
            reveal_strlit("opentalk-obelisk");
        }
        SessionDescription {
            origin: Some(Origin { session_id: self.sdp_id, session_version: self.sdp_version, address: self.pub_ip }),
            name: String::from_str("opentalk-obelisk"),
            connection: None,
            media_descriptions: media,
        }
    }
}

} // verus!
