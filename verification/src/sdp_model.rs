//! The parts of an SDP session description that the bridge reads and writes,
//! held as plain values. Each type has a view in which strings are `char`
//! sequences, so that contracts can compare contents.
use crate::net::IpAddress;
use vstd::prelude::*;

verus! {

/// The direction attribute of a media description.
#[derive(Debug, Clone, Copy, PartialEq, Eq, Structural)]
pub enum Direction {
    SendRecv,
    RecvOnly,
    SendOnly,
    Inactive,
}

/// The media type of an `m=` line; everything but audio and video is `Other`.
#[derive(Debug, Clone, Copy, PartialEq, Eq, Structural)]
pub enum SdpMediaType {
    Audio,
    Video,
    Other,
}

/// The transport protocol of an `m=` line.
#[derive(Debug, Clone, Copy, PartialEq, Eq, Structural)]
pub enum TransportProtocol {
    /// `RTP/AVP`
    RtpAvp,
    /// `RTP/SAVP`
    RtpSavp,
    /// Any other protocol
    Other,
}

/// SRTP crypto suites of the `a=crypto` attribute.
#[allow(non_camel_case_types)]
#[derive(Debug, Clone, Copy, PartialEq, Eq, Structural)]
pub enum SrtpSuite {
    AES_CM_128_HMAC_SHA1_80,
    AES_CM_128_HMAC_SHA1_32,
    AES_192_CM_HMAC_SHA1_80,
    AES_192_CM_HMAC_SHA1_32,
    AES_256_CM_HMAC_SHA1_80,
    AES_256_CM_HMAC_SHA1_32,
    AEAD_AES_128_GCM,
    AEAD_AES_256_GCM,
    /// A suite the bridge does not know
    Other,
}

/// A connection address as it stands in an SDP `c=` line. For a host name,
/// `resolved` is the address the caller's lookup gave for it, `None` where
/// it gave none.
#[derive(Debug)]
pub enum TaggedAddress {
    Ip(IpAddress),
    Fqdn { name: String, resolved: Option<IpAddress> },
}

pub enum TaggedAddressV {
    Ip(IpAddress),
    Fqdn { name: Seq<char>, resolved: Option<IpAddress> },
}

impl View for TaggedAddress {
    type V = TaggedAddressV;

    open spec fn view(&self) -> TaggedAddressV {
        match self {
            TaggedAddress::Ip(ip) => TaggedAddressV::Ip(*ip),
            TaggedAddress::Fqdn { name, resolved } => TaggedAddressV::Fqdn {
                name: name@,
                resolved: *resolved,
            },
        }
    }
}

impl DeepView for TaggedAddress {
    type V = TaggedAddressV;

    open spec fn deep_view(&self) -> TaggedAddressV {
        self@
    }
}

/// `a=rtpmap`
#[derive(Debug)]
pub struct RtpMap {
    pub payload: u8,
    pub encoding: String,
    pub clock_rate: u32,
    pub params: Option<String>,
}

pub struct RtpMapV {
    pub payload: u8,
    pub encoding: Seq<char>,
    pub clock_rate: u32,
    pub params: Option<Seq<char>>,
}

impl View for RtpMap {
    type V = RtpMapV;

    open spec fn view(&self) -> RtpMapV {
        RtpMapV {
            payload: self.payload,
            encoding: self.encoding@,
            clock_rate: self.clock_rate,
            params: self.params.deep_view(),
        }
    }
}

impl DeepView for RtpMap {
    type V = RtpMapV;

    open spec fn deep_view(&self) -> RtpMapV {
        self@
    }
}

/// `a=fmtp`
#[derive(Debug)]
pub struct Fmtp {
    pub format: u8,
    pub params: String,
}

pub struct FmtpV {
    pub format: u8,
    pub params: Seq<char>,
}

impl View for Fmtp {
    type V = FmtpV;

    open spec fn view(&self) -> FmtpV {
        FmtpV { format: self.format, params: self.params@ }
    }
}

impl DeepView for Fmtp {
    type V = FmtpV;

    open spec fn deep_view(&self) -> FmtpV {
        self@
    }
}

impl Fmtp {
    /// A copy with the same contents.
    pub fn copy(&self) -> (r: Fmtp)
        ensures
            r@ == self@,
    {
        Fmtp { format: self.format, params: self.params.clone() }
    }
}

/// `a=crypto`: tag, suite, and the `key_and_salt` of each keying material.
#[derive(Debug)]
pub struct SrtpCrypto {
    pub tag: u32,
    pub suite: SrtpSuite,
    pub keys: Vec<String>,
}

pub struct SrtpCryptoV {
    pub tag: u32,
    pub suite: SrtpSuite,
    pub keys: Seq<Seq<char>>,
}

impl View for SrtpCrypto {
    type V = SrtpCryptoV;

    open spec fn view(&self) -> SrtpCryptoV {
        SrtpCryptoV { tag: self.tag, suite: self.suite, keys: self.keys.deep_view() }
    }
}

impl DeepView for SrtpCrypto {
    type V = SrtpCryptoV;

    open spec fn deep_view(&self) -> SrtpCryptoV {
        self@
    }
}

/// `b=`
#[derive(Debug)]
pub struct Bandwidth {
    pub type_: String,
    pub bandwidth: u32,
}

pub struct BandwidthV {
    pub type_: Seq<char>,
    pub bandwidth: u32,
}

impl View for Bandwidth {
    type V = BandwidthV;

    open spec fn view(&self) -> BandwidthV {
        BandwidthV { type_: self.type_@, bandwidth: self.bandwidth }
    }
}

impl DeepView for Bandwidth {
    type V = BandwidthV;

    open spec fn deep_view(&self) -> BandwidthV {
        self@
    }
}

/// One dimension of an `a=imageattr` set.
#[derive(Debug)]
pub enum XyRange {
    Range { lower: u32, upper: u32, step: Option<u32> },
    List(Vec<u32>),
    Value(u32),
}

pub enum XyRangeV {
    Range { lower: u32, upper: u32, step: Option<u32> },
    List(Seq<u32>),
    Value(u32),
}

impl View for XyRange {
    type V = XyRangeV;

    open spec fn view(&self) -> XyRangeV {
        match self {
            XyRange::Range { lower, upper, step } => XyRangeV::Range {
                lower: *lower,
                upper: *upper,
                step: *step,
            },
            XyRange::List(items) => XyRangeV::List(items@),
            XyRange::Value(v) => XyRangeV::Value(*v),
        }
    }
}

/// `a=imageattr`: the payload type it applies to (`None` for `*`) and, of
/// the sets given for the receive direction, the one with the highest `q`.
#[derive(Debug)]
pub struct ImageAttr {
    pub pt: Option<u8>,
    pub recv_best: Option<(XyRange, XyRange)>,
}

pub struct ImageAttrV {
    pub pt: Option<u8>,
    pub recv_best: Option<(XyRangeV, XyRangeV)>,
}

impl View for ImageAttr {
    type V = ImageAttrV;

    open spec fn view(&self) -> ImageAttrV {
        ImageAttrV {
            pt: self.pt,
            recv_best: match &self.recv_best {
                Some((x, y)) => Some((x@, y@)),
                None => None,
            },
        }
    }
}

impl DeepView for ImageAttr {
    type V = ImageAttrV;

    open spec fn deep_view(&self) -> ImageAttrV {
        self@
    }
}

/// A media description (`m=` section).
#[derive(Debug)]
pub struct MediaDescription {
    pub media_type: SdpMediaType,
    pub port: u16,
    pub proto: TransportProtocol,
    pub fmts: Vec<u8>,
    pub connection: Option<TaggedAddress>,
    pub bandwidth: Vec<Bandwidth>,
    pub direction: Direction,
    /// Port of the `a=rtcp` attribute
    pub rtcp_port: Option<u16>,
    pub rtpmap: Vec<RtpMap>,
    pub fmtp: Vec<Fmtp>,
    pub crypto: Vec<SrtpCrypto>,
    pub imageattr: Vec<ImageAttr>,
}

pub struct MediaDescriptionV {
    pub media_type: SdpMediaType,
    pub port: u16,
    pub proto: TransportProtocol,
    pub fmts: Seq<u8>,
    pub connection: Option<TaggedAddressV>,
    pub bandwidth: Seq<BandwidthV>,
    pub direction: Direction,
    pub rtcp_port: Option<u16>,
    pub rtpmap: Seq<RtpMapV>,
    pub fmtp: Seq<FmtpV>,
    pub crypto: Seq<SrtpCryptoV>,
    pub imageattr: Seq<ImageAttrV>,
}

impl View for MediaDescription {
    type V = MediaDescriptionV;

    open spec fn view(&self) -> MediaDescriptionV {
        MediaDescriptionV {
            media_type: self.media_type,
            port: self.port,
            proto: self.proto,
            fmts: self.fmts@,
            connection: self.connection.deep_view(),
            bandwidth: self.bandwidth.deep_view(),
            direction: self.direction,
            rtcp_port: self.rtcp_port,
            rtpmap: self.rtpmap.deep_view(),
            fmtp: self.fmtp.deep_view(),
            crypto: self.crypto.deep_view(),
            imageattr: self.imageattr.deep_view(),
        }
    }
}

impl DeepView for MediaDescription {
    type V = MediaDescriptionV;

    open spec fn deep_view(&self) -> MediaDescriptionV {
        self@
    }
}

/// The origin line of a description that the bridge writes.
#[derive(Debug, Clone, Copy, PartialEq, Eq, Structural)]
pub struct Origin {
    pub session_id: u64,
    pub session_version: u64,
    pub address: IpAddress,
}

/// A session description: origin (where written by the bridge), name, the
/// session-level connection and the media descriptions.
#[derive(Debug)]
pub struct SessionDescription {
    pub origin: Option<Origin>,
    /// The `s=` line
    pub name: String,
    pub connection: Option<TaggedAddress>,
    pub media_descriptions: Vec<MediaDescription>,
}

pub struct SessionDescriptionV {
    pub origin: Option<Origin>,
    pub name: Seq<char>,
    pub connection: Option<TaggedAddressV>,
    pub media_descriptions: Seq<MediaDescriptionV>,
}

impl View for SessionDescription {
    type V = SessionDescriptionV;

    open spec fn view(&self) -> SessionDescriptionV {
        SessionDescriptionV {
            origin: self.origin,
            name: self.name@,
            connection: self.connection.deep_view(),
            media_descriptions: self.media_descriptions.deep_view(),
        }
    }
}

/// A range of an image attribute is well formed when its bounds are ordered.
pub open spec fn xy_range_wf(r: XyRangeV) -> bool {
    match r {
        XyRangeV::Range { lower, upper, .. } => lower <= upper,
        _ => true,
    }
}

/// What a parsed media description always satisfies: every crypto attribute
/// carries a key, and every image attribute range has ordered bounds.
pub open spec fn media_wf(m: MediaDescriptionV) -> bool {
    &&& forall|i: int| 0 <= i < m.crypto.len() ==> #[trigger] m.crypto[i].keys.len() >= 1
    &&& forall|i: int|
        0 <= i < m.imageattr.len() ==> match (#[trigger] m.imageattr[i]).recv_best {
            Some((x, y)) => xy_range_wf(x) && xy_range_wf(y),
            None => true,
        }
}

pub open spec fn session_wf(s: SessionDescriptionV) -> bool {
    forall|i: int| 0 <= i < s.media_descriptions.len() ==> media_wf(#[trigger] s.media_descriptions[i])
}

} // verus!
