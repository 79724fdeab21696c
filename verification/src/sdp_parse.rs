//! Reading an SDP body. The line structure is parsed by the `sdp-types`
//! crate into raw text fields (see `outside::parse_sdp`); this module reads
//! those fields into the bridge's description: media types, protocols,
//! payload formats, and the `rtpmap`, `fmtp`, `rtcp`, `crypto`, `imageattr`
//! and direction attributes. An attribute whose value does not read is
//! skipped.
use crate::net::IpAddress;
use crate::outside::{parse_ip, parse_sdp, spec_parse_ip, spec_parse_sdp};
use crate::sdp::SdpError;
use crate::sdp_model::{
    Bandwidth, BandwidthV, Direction, Fmtp, FmtpV, ImageAttr, ImageAttrV, MediaDescription,
    MediaDescriptionV, RtpMap, RtpMapV, SdpMediaType, SessionDescription, SessionDescriptionV,
    SrtpCrypto, SrtpCryptoV, SrtpSuite, TaggedAddress, TaggedAddressV, TransportProtocol, XyRange,
    XyRangeV, media_wf, session_wf, xy_range_wf,
};
use crate::text::{
    chars_equal_str, chars_of, parse_u32, spec_parse_u32, spec_split, spec_split_once,
    split_chars, split_once_chars, views_of,
};
use vstd::prelude::*;

verus! {

// ---------------------------------------------------------------------------
// The raw fields
// ---------------------------------------------------------------------------

/// An `a=` line: the attribute's name and its value after `:`, if any.
pub struct RawAttribute {
    pub name: String,
    pub value: Option<String>,
}

pub struct RawAttributeV {
    pub name: Seq<char>,
    pub value: Option<Seq<char>>,
}

impl View for RawAttribute {
    type V = RawAttributeV;

    open spec fn view(&self) -> RawAttributeV {
        RawAttributeV { name: self.name@, value: self.value.deep_view() }
    }
}

impl DeepView for RawAttribute {
    type V = RawAttributeV;

    open spec fn deep_view(&self) -> RawAttributeV {
        self@
    }
}

/// A `b=` line.
pub struct RawBandwidth {
    pub kind: String,
    pub value: u64,
}

pub struct RawBandwidthV {
    pub kind: Seq<char>,
    pub value: u64,
}

impl View for RawBandwidth {
    type V = RawBandwidthV;

    open spec fn view(&self) -> RawBandwidthV {
        RawBandwidthV { kind: self.kind@, value: self.value }
    }
}

impl DeepView for RawBandwidth {
    type V = RawBandwidthV;

    open spec fn deep_view(&self) -> RawBandwidthV {
        self@
    }
}

/// An `m=` section: the fields of the `m=` line, the connection addresses of
/// its `c=` lines, its `b=` lines and its attributes, in order.
pub struct RawMedia {
    pub media: String,
    pub port: u16,
    pub proto: String,
    pub fmt: String,
    pub connections: Vec<String>,
    pub bandwidths: Vec<RawBandwidth>,
    pub attributes: Vec<RawAttribute>,
}

pub struct RawMediaV {
    pub media: Seq<char>,
    pub port: u16,
    pub proto: Seq<char>,
    pub fmt: Seq<char>,
    pub connections: Seq<Seq<char>>,
    pub bandwidths: Seq<RawBandwidthV>,
    pub attributes: Seq<RawAttributeV>,
}

impl View for RawMedia {
    type V = RawMediaV;

    open spec fn view(&self) -> RawMediaV {
        RawMediaV {
            media: self.media@,
            port: self.port,
            proto: self.proto@,
            fmt: self.fmt@,
            connections: self.connections.deep_view(),
            bandwidths: self.bandwidths.deep_view(),
            attributes: self.attributes.deep_view(),
        }
    }
}

impl DeepView for RawMedia {
    type V = RawMediaV;

    open spec fn deep_view(&self) -> RawMediaV {
        self@
    }
}

/// A session description as lines: its name, the address of its `c=` line
/// and its media sections.
pub struct RawSession {
    pub name: String,
    pub connection: Option<String>,
    pub media: Vec<RawMedia>,
}

pub struct RawSessionV {
    pub name: Seq<char>,
    pub connection: Option<Seq<char>>,
    pub media: Seq<RawMediaV>,
}

impl View for RawSession {
    type V = RawSessionV;

    open spec fn view(&self) -> RawSessionV {
        RawSessionV {
            name: self.name@,
            connection: self.connection.deep_view(),
            media: self.media.deep_view(),
        }
    }
}

// ---------------------------------------------------------------------------
// UTF-8
// ---------------------------------------------------------------------------

pub open spec fn is_cont(b: u8) -> bool {
    0x80 <= b <= 0xBF
}

/// The bytes from `i` on are well-formed UTF-8 (RFC 3629): no overlong
/// forms, no surrogates, nothing above U+10FFFF, no cut-off sequence.
pub open spec fn utf8_from(s: Seq<u8>, i: int) -> bool
    decreases s.len() - i,
{
    if i < 0 || i >= s.len() {
        true
    } else {
        let b = s[i];
        if b < 0x80 {
            utf8_from(s, i + 1)
        } else if 0xC2 <= b <= 0xDF {
            i + 1 < s.len() && is_cont(s[i + 1]) && utf8_from(s, i + 2)
        } else if b == 0xE0 {
            i + 2 < s.len() && 0xA0 <= s[i + 1] <= 0xBF && is_cont(s[i + 2]) && utf8_from(s, i + 3)
        } else if (0xE1 <= b <= 0xEC) || (0xEE <= b <= 0xEF) {
            i + 2 < s.len() && is_cont(s[i + 1]) && is_cont(s[i + 2]) && utf8_from(s, i + 3)
        } else if b == 0xED {
            i + 2 < s.len() && 0x80 <= s[i + 1] <= 0x9F && is_cont(s[i + 2]) && utf8_from(s, i + 3)
        } else if b == 0xF0 {
            i + 3 < s.len() && 0x90 <= s[i + 1] <= 0xBF && is_cont(s[i + 2]) && is_cont(s[i + 3])
                && utf8_from(s, i + 4)
        } else if 0xF1 <= b <= 0xF3 {
            i + 3 < s.len() && is_cont(s[i + 1]) && is_cont(s[i + 2]) && is_cont(s[i + 3])
                && utf8_from(s, i + 4)
        } else if b == 0xF4 {
            i + 3 < s.len() && 0x80 <= s[i + 1] <= 0x8F && is_cont(s[i + 2]) && is_cont(s[i + 3])
                && utf8_from(s, i + 4)
        } else {
            false
        }
    }
}

pub open spec fn spec_is_utf8(s: Seq<u8>) -> bool {
    utf8_from(s, 0)
}

/// Whether the bytes are well-formed UTF-8, as `str::from_utf8` checks.
pub fn is_utf8(s: &Vec<u8>) -> (r: bool)
    ensures
        r == spec_is_utf8(s@),
{
    let n = s.len();
    let mut i: usize = 0;
    while i < n
        invariant
            n == s@.len(),
            i <= n,
            spec_is_utf8(s@) == utf8_from(s@, i as int),
        decreases n - i,
    {
        let b = s[i];
        if b < 0x80 {
            i = i + 1;
        } else if 0xC2 <= b && b <= 0xDF {
            if !(n - i > 1 && 0x80 <= s[i + 1] && s[i + 1] <= 0xBF) {
                return false;
            }
            i = i + 2;
        } else if b == 0xE0 || (0xE1 <= b && b <= 0xEC) || (0xEE <= b && b <= 0xEF) || b == 0xED {
            if !(n - i > 2) {
                return false;
            }
            let (lo, hi): (u8, u8) = if b == 0xE0 {
                (0xA0, 0xBF)
            } else if b == 0xED {
                (0x80, 0x9F)
            } else {
                (0x80, 0xBF)
            };
            if !(lo <= s[i + 1] && s[i + 1] <= hi && 0x80 <= s[i + 2] && s[i + 2] <= 0xBF) {
                return false;
            }
            i = i + 3;
        } else if b == 0xF0 || (0xF1 <= b && b <= 0xF3) || b == 0xF4 {
            if !(n - i > 3) {
                return false;
            }
            let (lo, hi): (u8, u8) = if b == 0xF0 {
                (0x90, 0xBF)
            } else if b == 0xF4 {
                (0x80, 0x8F)
            } else {
                (0x80, 0xBF)
            };
            if !(lo <= s[i + 1] && s[i + 1] <= hi && 0x80 <= s[i + 2] && s[i + 2] <= 0xBF && 0x80
                <= s[i + 3] && s[i + 3] <= 0xBF) {
                return false;
            }
            i = i + 4;
        } else {
            return false;
        }
    }
    true
}

// ---------------------------------------------------------------------------
// Numbers and names
// ---------------------------------------------------------------------------

pub open spec fn spec_parse_u8(s: Seq<char>) -> Option<u8> {
    match spec_parse_u32(s) {
        Some(v) => if v <= 255 {
            Some(v as u8)
        } else {
            None
        },
        None => None,
    }
}

fn parse_u8(s: &Vec<char>) -> (r: Option<u8>)
    ensures
        r == spec_parse_u8(s@),
{
    match parse_u32(s) {
        Some(v) => if v <= 255 {
            Some(v as u8)
        } else {
            None
        },
        None => None,
    }
}

pub open spec fn spec_parse_u16(s: Seq<char>) -> Option<u16> {
    match spec_parse_u32(s) {
        Some(v) => if v <= 65535 {
            Some(v as u16)
        } else {
            None
        },
        None => None,
    }
}

fn parse_u16(s: &Vec<char>) -> (r: Option<u16>)
    ensures
        r == spec_parse_u16(s@),
{
    match parse_u32(s) {
        Some(v) => if v <= 65535 {
            Some(v as u16)
        } else {
            None
        },
        None => None,
    }
}

pub open spec fn spec_media_type(s: Seq<char>) -> SdpMediaType {
    if s == "audio"@ {
        SdpMediaType::Audio
    } else if s == "video"@ {
        SdpMediaType::Video
    } else {
        SdpMediaType::Other
    }
}

fn media_type_of(s: &Vec<char>) -> (r: SdpMediaType)
    ensures
        r == spec_media_type(s@),
{
    if chars_equal_str(s, "audio") {
        SdpMediaType::Audio
    } else if chars_equal_str(s, "video") {
        SdpMediaType::Video
    } else {
        SdpMediaType::Other
    }
}

pub open spec fn spec_proto(s: Seq<char>) -> TransportProtocol {
    if s == "RTP/AVP"@ {
        TransportProtocol::RtpAvp
    } else if s == "RTP/SAVP"@ {
        TransportProtocol::RtpSavp
    } else {
        TransportProtocol::Other
    }
}

fn proto_of(s: &Vec<char>) -> (r: TransportProtocol)
    ensures
        r == spec_proto(s@),
{
    if chars_equal_str(s, "RTP/AVP") {
        TransportProtocol::RtpAvp
    } else if chars_equal_str(s, "RTP/SAVP") {
        TransportProtocol::RtpSavp
    } else {
        TransportProtocol::Other
    }
}

pub open spec fn spec_suite(s: Seq<char>) -> SrtpSuite {
    if s == "AES_CM_128_HMAC_SHA1_80"@ {
        SrtpSuite::AES_CM_128_HMAC_SHA1_80
    } else if s == "AES_CM_128_HMAC_SHA1_32"@ {
        SrtpSuite::AES_CM_128_HMAC_SHA1_32
    } else if s == "AES_192_CM_HMAC_SHA1_80"@ {
        SrtpSuite::AES_192_CM_HMAC_SHA1_80
    } else if s == "AES_192_CM_HMAC_SHA1_32"@ {
        SrtpSuite::AES_192_CM_HMAC_SHA1_32
    } else if s == "AES_256_CM_HMAC_SHA1_80"@ {
        SrtpSuite::AES_256_CM_HMAC_SHA1_80
    } else if s == "AES_256_CM_HMAC_SHA1_32"@ {
        SrtpSuite::AES_256_CM_HMAC_SHA1_32
    } else if s == "AEAD_AES_128_GCM"@ {
        SrtpSuite::AEAD_AES_128_GCM
    } else if s == "AEAD_AES_256_GCM"@ {
        SrtpSuite::AEAD_AES_256_GCM
    } else {
        SrtpSuite::Other
    }
}

fn suite_of(s: &Vec<char>) -> (r: SrtpSuite)
    ensures
        r == spec_suite(s@),
{
    if chars_equal_str(s, "AES_CM_128_HMAC_SHA1_80") {
        SrtpSuite::AES_CM_128_HMAC_SHA1_80
    } else if chars_equal_str(s, "AES_CM_128_HMAC_SHA1_32") {
        SrtpSuite::AES_CM_128_HMAC_SHA1_32
    } else if chars_equal_str(s, "AES_192_CM_HMAC_SHA1_80") {
        SrtpSuite::AES_192_CM_HMAC_SHA1_80
    } else if chars_equal_str(s, "AES_192_CM_HMAC_SHA1_32") {
        SrtpSuite::AES_192_CM_HMAC_SHA1_32
    } else if chars_equal_str(s, "AES_256_CM_HMAC_SHA1_80") {
        SrtpSuite::AES_256_CM_HMAC_SHA1_80
    } else if chars_equal_str(s, "AES_256_CM_HMAC_SHA1_32") {
        SrtpSuite::AES_256_CM_HMAC_SHA1_32
    } else if chars_equal_str(s, "AEAD_AES_128_GCM") {
        SrtpSuite::AEAD_AES_128_GCM
    } else if chars_equal_str(s, "AEAD_AES_256_GCM") {
        SrtpSuite::AEAD_AES_256_GCM
    } else {
        SrtpSuite::Other
    }
}

/// The chars of `s` from `start` to `end`.
fn sub_chars(s: &Vec<char>, start: usize, end: usize) -> (r: Vec<char>)
    requires
        start <= end <= s@.len(),
    ensures
        r@ == s@.subrange(start as int, end as int),
{
    let mut r: Vec<char> = Vec::new();
    let mut i = start;
    while i < end
        invariant
            start <= i <= end <= s@.len(),
            r@ == s@.subrange(start as int, i as int),
        decreases end - i,
    {
        r.push(s[i]);
        i = i + 1;
    }
    r
}

// ---------------------------------------------------------------------------
// Payload formats of the m= line
// ---------------------------------------------------------------------------

/// The payload numbers among the space-separated formats; other formats are
/// skipped.
pub open spec fn spec_fmts(tokens: Seq<Seq<char>>) -> Seq<u8>
    decreases tokens.len(),
{
    if tokens.len() == 0 {
        Seq::empty()
    } else {
        let rest = spec_fmts(tokens.drop_last());
        match spec_parse_u8(tokens.last()) {
            Some(p) => rest.push(p),
            None => rest,
        }
    }
}

fn fmts_of(s: &Vec<char>) -> (r: Vec<u8>)
    ensures
        r@ == spec_fmts(spec_split(s@, ' ')),
{
    let tokens = split_chars(s, ' ');
    let ghost t = spec_split(s@, ' ');
    let mut r: Vec<u8> = Vec::new();
    let mut i: usize = 0;
    while i < tokens.len()
        invariant
            i <= tokens@.len(),
            views_of(tokens@) == t,
            r@ == spec_fmts(t.take(i as int)),
        decreases tokens.len() - i,
    {
        assert(t.take(i + 1).drop_last() =~= t.take(i as int));
        assert(t[i as int] == tokens@[i as int]@);
        match parse_u8(&tokens[i]) {
            Some(p) => r.push(p),
            None => {},
        }
        i = i + 1;
    }
    assert(t.take(i as int) =~= t);
    r
}

// ---------------------------------------------------------------------------
// rtpmap, fmtp, rtcp
// ---------------------------------------------------------------------------

/// `<payload> <encoding>/<clock rate>[/<parameters>]`
pub open spec fn spec_rtpmap(v: Seq<char>) -> Option<RtpMapV> {
    match spec_split_once(v, ' ') {
        None => None,
        Some((pt, rest)) => match spec_parse_u8(pt) {
            None => None,
            Some(p) => {
                let parts = spec_split(rest, '/');
                if parts.len() == 2 || parts.len() == 3 {
                    match spec_parse_u32(parts[1]) {
                        Some(c) => Some(
                            RtpMapV {
                                payload: p,
                                encoding: parts[0],
                                clock_rate: c,
                                params: if parts.len() == 3 {
                                    Some(parts[2])
                                } else {
                                    None
                                },
                            },
                        ),
                        None => None,
                    }
                } else {
                    None
                }
            },
        },
    }
}

fn vec_to_string(v: &Vec<char>) -> (r: String)
    ensures
        r@ == v@,
{
    let mut s = String::new();
    let mut i: usize = 0;
    while i < v.len()
        invariant
            i <= v@.len(),
            s@ == v@.take(i as int),
        decreases v.len() - i,
    {
        s.push(v[i]);
        assert(s@ =~= v@.take(i + 1));
        i = i + 1;
    }
    assert(v@.take(i as int) =~= v@);
    s
}

fn rtpmap_of(v: &Vec<char>) -> (r: Option<RtpMap>)
    ensures
        match (r, spec_rtpmap(v@)) {
            (Some(a), Some(b)) => a@ == b,
            (None, None) => true,
            _ => false,
        },
{
    let (pt, rest) = match split_once_chars(v, ' ') {
        None => {
            return None;
        },
        Some(x) => x,
    };
    let p = match parse_u8(&pt) {
        None => {
            return None;
        },
        Some(p) => p,
    };
    let parts = split_chars(&rest, '/');
    let ghost ps = spec_split(rest@, '/');
    assert(views_of(parts@) == ps);
    if parts.len() == 2 || parts.len() == 3 {
        assert(ps[1] == parts@[1]@);
        assert(ps[0] == parts@[0]@);
        match parse_u32(&parts[1]) {
            Some(c) => {
                let params = if parts.len() == 3 {
                    assert(ps[2] == parts@[2]@);
                    Some(vec_to_string(&parts[2]))
                } else {
                    None
                };
                Some(RtpMap { payload: p, encoding: vec_to_string(&parts[0]), clock_rate: c, params })
            },
            None => None,
        }
    } else {
        None
    }
}

/// `<format> <parameters>`
pub open spec fn spec_fmtp(v: Seq<char>) -> Option<FmtpV> {
    match spec_split_once(v, ' ') {
        None => None,
        Some((f, params)) => match spec_parse_u8(f) {
            Some(format) => Some(FmtpV { format, params }),
            None => None,
        },
    }
}

fn fmtp_of(v: &Vec<char>) -> (r: Option<Fmtp>)
    ensures
        match (r, spec_fmtp(v@)) {
            (Some(a), Some(b)) => a@ == b,
            (None, None) => true,
            _ => false,
        },
{
    match split_once_chars(v, ' ') {
        None => None,
        Some((f, params)) => match parse_u8(&f) {
            Some(format) => Some(Fmtp { format, params: vec_to_string(&params) }),
            None => None,
        },
    }
}

/// The port that an `rtcp` value starts with.
pub open spec fn spec_rtcp(v: Seq<char>) -> Option<u16> {
    match spec_split_once(v, ' ') {
        Some((p, _)) => spec_parse_u16(p),
        None => spec_parse_u16(v),
    }
}

fn rtcp_of(v: &Vec<char>) -> (r: Option<u16>)
    ensures
        r == spec_rtcp(v@),
{
    match split_once_chars(v, ' ') {
        Some((p, _)) => parse_u16(&p),
        None => parse_u16(v),
    }
}

// ---------------------------------------------------------------------------
// crypto
// ---------------------------------------------------------------------------

pub open spec fn starts_with_seq(s: Seq<char>, p: Seq<char>) -> bool {
    s.len() >= p.len() && s.take(p.len() as int) == p
}

fn starts_with_str(s: &Vec<char>, p: &str) -> (r: bool)
    ensures
        r == starts_with_seq(s@, p@),
{
    let n = p.unicode_len();
    if s.len() < n {
        return false;
    }
    let head = sub_chars(s, 0, n);
    assert(head@ == s@.take(n as int));
    chars_equal_str(&head, p)
}

/// The `key||salt` of an `inline:` key parameter: the text up to the first
/// `|`.
pub open spec fn spec_inline_key(p: Seq<char>) -> Seq<char> {
    let rest = p.skip(7);
    match spec_split_once(rest, '|') {
        Some((k, _)) => k,
        None => rest,
    }
}

/// The keys of the `inline:` parameters among the `;`-separated key
/// parameters; others are skipped.
pub open spec fn spec_inline_keys(pieces: Seq<Seq<char>>) -> Seq<Seq<char>>
    decreases pieces.len(),
{
    if pieces.len() == 0 {
        Seq::empty()
    } else {
        let rest = spec_inline_keys(pieces.drop_last());
        if starts_with_seq(pieces.last(), "inline:"@) {
            rest.push(spec_inline_key(pieces.last()))
        } else {
            rest
        }
    }
}

/// `<tag> <suite> <key parameters> [<session parameters>]`, with at least
/// one `inline:` key.
pub open spec fn spec_crypto(v: Seq<char>) -> Option<SrtpCryptoV> {
    let parts = spec_split(v, ' ');
    if parts.len() >= 3 {
        match spec_parse_u32(parts[0]) {
            Some(tag) => {
                let keys = spec_inline_keys(spec_split(parts[2], ';'));
                if keys.len() >= 1 {
                    Some(SrtpCryptoV { tag, suite: spec_suite(parts[1]), keys })
                } else {
                    None
                }
            },
            None => None,
        }
    } else {
        None
    }
}

fn crypto_of(v: &Vec<char>) -> (r: Option<SrtpCrypto>)
    ensures
        match (r, spec_crypto(v@)) {
            (Some(a), Some(b)) => a@ == b,
            (None, None) => true,
            _ => false,
        },
{
    let parts = split_chars(v, ' ');
    let ghost ps = spec_split(v@, ' ');
    if parts.len() < 3 {
        return None;
    }
    assert(ps[0] == parts@[0]@ && ps[1] == parts@[1]@ && ps[2] == parts@[2]@);
    let tag = match parse_u32(&parts[0]) {
        None => {
            return None;
        },
        Some(t) => t,
    };
    let pieces = split_chars(&parts[2], ';');
    let ghost pv = spec_split(parts@[2]@, ';');
    let mut keys: Vec<String> = Vec::new();
    let mut i: usize = 0;
    while i < pieces.len()
        invariant
            i <= pieces@.len(),
            views_of(pieces@) == pv,
            keys.deep_view() == spec_inline_keys(pv.take(i as int)),
        decreases pieces.len() - i,
    {
        assert(pv.take(i + 1).drop_last() =~= pv.take(i as int));
        assert(pv[i as int] == pieces@[i as int]@);
        if starts_with_str(&pieces[i], "inline:") {
            proof {
                reveal_strlit("inline:");
            }
            let rest = sub_chars(&pieces[i], 7, pieces[i].len());
            assert(rest@ == pv[i as int].skip(7));
            let key = match split_once_chars(&rest, '|') {
                Some((k, _)) => k,
                None => rest,
            };
            let ghost before = keys.deep_view();
            keys.push(vec_to_string(&key));
            assert(keys.deep_view() =~= before.push(spec_inline_key(pv[i as int])));
        }
        i = i + 1;
    }
    assert(pv.take(i as int) =~= pv);
    if keys.len() == 0 {
        return None;
    }
    Some(SrtpCrypto { tag, suite: suite_of(&parts[1]), keys })
}

// ---------------------------------------------------------------------------
// imageattr
// ---------------------------------------------------------------------------

/// The numbers of a `,`-separated list, `None` where one does not read.
pub open spec fn spec_u32_list(items: Seq<Seq<char>>) -> Option<Seq<u32>>
    decreases items.len(),
{
    if items.len() == 0 {
        Some(Seq::empty())
    } else {
        match (spec_u32_list(items.drop_last()), spec_parse_u32(items.last())) {
            (Some(l), Some(v)) => Some(l.push(v)),
            _ => None,
        }
    }
}

fn u32_list(items: &Vec<Vec<char>>) -> (r: Option<Vec<u32>>)
    ensures
        match (r, spec_u32_list(views_of(items@))) {
            (Some(a), Some(b)) => a@ == b,
            (None, None) => true,
            _ => false,
        },
{
    let ghost iv = views_of(items@);
    let mut out: Vec<u32> = Vec::new();
    let mut i: usize = 0;
    while i < items.len()
        invariant
            i <= items@.len(),
            iv == views_of(items@),
            spec_u32_list(iv.take(i as int)) == Some(out@),
        decreases items.len() - i,
    {
        assert(iv.take(i + 1).drop_last() =~= iv.take(i as int));
        assert(iv[i as int] == items@[i as int]@);
        match parse_u32(&items[i]) {
            Some(v) => out.push(v),
            None => {
                proof {
                    lemma_u32_list_none(iv, i as int + 1);
                }
                return None;
            },
        }
        i = i + 1;
    }
    assert(iv.take(i as int) =~= iv);
    Some(out)
}

proof fn lemma_u32_list_none(items: Seq<Seq<char>>, k: int)
    requires
        0 < k <= items.len(),
        spec_u32_list(items.take(k)) is None,
    ensures
        spec_u32_list(items) is None,
    decreases items.len() - k,
{
    if k < items.len() {
        assert(items.take(k + 1).drop_last() =~= items.take(k));
        lemma_u32_list_none(items, k + 1);
    } else {
        assert(items.take(k) =~= items);
    }
}

/// The inside of a bracketed value: `a:b` and `a:step:b` are ranges (with
/// ordered bounds), anything else a `,`-separated list.
pub open spec fn spec_xy_inner(inner: Seq<char>) -> Option<XyRangeV> {
    let parts = spec_split(inner, ':');
    if parts.len() == 2 {
        match (spec_parse_u32(parts[0]), spec_parse_u32(parts[1])) {
            (Some(l), Some(u)) => if l <= u {
                Some(XyRangeV::Range { lower: l, upper: u, step: None })
            } else {
                None
            },
            _ => None,
        }
    } else if parts.len() == 3 {
        match (spec_parse_u32(parts[0]), spec_parse_u32(parts[1]), spec_parse_u32(parts[2])) {
            (Some(l), Some(st), Some(u)) => if l <= u {
                Some(XyRangeV::Range { lower: l, upper: u, step: Some(st) })
            } else {
                None
            },
            _ => None,
        }
    } else if parts.len() == 1 {
        match spec_u32_list(spec_split(inner, ',')) {
            Some(l) => Some(XyRangeV::List(l)),
            None => None,
        }
    } else {
        None
    }
}

fn xy_inner(inner: &Vec<char>) -> (r: Option<XyRange>)
    ensures
        match (r, spec_xy_inner(inner@)) {
            (Some(a), Some(b)) => a@ == b,
            (None, None) => true,
            _ => false,
        },
{
    let parts = split_chars(inner, ':');
    let ghost ps = spec_split(inner@, ':');
    if parts.len() == 2 {
        assert(ps[0] == parts@[0]@ && ps[1] == parts@[1]@);
        match (parse_u32(&parts[0]), parse_u32(&parts[1])) {
            (Some(l), Some(u)) => if l <= u {
                Some(XyRange::Range { lower: l, upper: u, step: None })
            } else {
                None
            },
            _ => None,
        }
    } else if parts.len() == 3 {
        assert(ps[0] == parts@[0]@ && ps[1] == parts@[1]@ && ps[2] == parts@[2]@);
        match (parse_u32(&parts[0]), parse_u32(&parts[1]), parse_u32(&parts[2])) {
            (Some(l), Some(st), Some(u)) => if l <= u {
                Some(XyRange::Range { lower: l, upper: u, step: Some(st) })
            } else {
                None
            },
            _ => None,
        }
    } else if parts.len() == 1 {
        let items = split_chars(inner, ',');
        match u32_list(&items) {
            Some(l) => Some(XyRange::List(l)),
            None => None,
        }
    } else {
        None
    }
}

/// One `x=` or `y=` value and the text after it: a bracketed value up to its
/// `]`, or a number up to the next `,`.
pub open spec fn spec_xy(s: Seq<char>) -> Option<(XyRangeV, Seq<char>)> {
    if s.len() > 0 && s[0] == '[' {
        match spec_split_once(s.drop_first(), ']') {
            Some((inner, rest)) => match spec_xy_inner(inner) {
                Some(r) => Some((r, rest)),
                None => None,
            },
            None => None,
        }
    } else {
        let (num, rest) = match spec_split_once(s, ',') {
            Some((a, b)) => (a, seq![','] + b),
            None => (s, Seq::empty()),
        };
        match spec_parse_u32(num) {
            Some(v) => Some((XyRangeV::Value(v), rest)),
            None => None,
        }
    }
}

fn xy_of(s: &Vec<char>) -> (r: Option<(XyRange, Vec<char>)>)
    ensures
        match (r, spec_xy(s@)) {
            (Some((a, ra)), Some((b, rb))) => a@ == b && ra@ == rb,
            (None, None) => true,
            _ => false,
        },
{
    if s.len() > 0 && s[0] == '[' {
        let tail = sub_chars(s, 1, s.len());
        assert(tail@ == s@.drop_first());
        match split_once_chars(&tail, ']') {
            Some((inner, rest)) => match xy_inner(&inner) {
                Some(r) => Some((r, rest)),
                None => None,
            },
            None => None,
        }
    } else {
        let (num, rest) = match split_once_chars(s, ',') {
            Some((a, b)) => {
                let mut rest: Vec<char> = Vec::new();
                rest.push(',');
                let mut b = b;
                let ghost bv = b@;
                rest.append(&mut b);
                assert(rest@ =~= seq![','] + bv);
                (a, rest)
            },
            None => (sub_chars(s, 0, s.len()), Vec::new()),
        };
        assert(s@.subrange(0, s@.len() as int) =~= s@);
        match parse_u32(&num) {
            Some(v) => Some((XyRange::Value(v), rest)),
            None => None,
        }
    }
}

/// A `q` value scaled by 10000 (digits beyond the fourth decimal dropped).
pub open spec fn spec_qvalue(s: Seq<char>) -> Option<u64> {
    match spec_split_once(s, '.') {
        None => match spec_parse_u32(s) {
            Some(i) => Some((i * 10000) as u64),
            None => None,
        },
        Some((ip, f)) => {
            let int_part = if ip.len() == 0 {
                Some(0u32)
            } else {
                spec_parse_u32(ip)
            };
            if 1 <= f.len() <= 9 {
                match (int_part, spec_parse_u32(f)) {
                    (Some(i), Some(v)) => Some(
                        (i * 10000 + if f.len() == 1 {
                            v * 1000
                        } else if f.len() == 2 {
                            v * 100
                        } else if f.len() == 3 {
                            v * 10
                        } else if f.len() == 4 {
                            v as int
                        } else if f.len() == 5 {
                            (v / 10) as int
                        } else if f.len() == 6 {
                            (v / 100) as int
                        } else if f.len() == 7 {
                            (v / 1000) as int
                        } else if f.len() == 8 {
                            (v / 10000) as int
                        } else {
                            (v / 100000) as int
                        }) as u64,
                    ),
                    _ => None,
                }
            } else {
                None
            }
        },
    }
}

fn qvalue(s: &Vec<char>) -> (r: Option<u64>)
    ensures
        r == spec_qvalue(s@),
{
    match split_once_chars(s, '.') {
        None => match parse_u32(s) {
            Some(i) => Some(i as u64 * 10000),
            None => None,
        },
        Some((ip, f)) => {
            let int_part = if ip.len() == 0 {
                Some(0u32)
            } else {
                parse_u32(&ip)
            };
            let n = f.len();
            if 1 <= n && n <= 9 {
                match (int_part, parse_u32(&f)) {
                    (Some(i), Some(v)) => {
                        let v = v as u64;
                        let frac: u64 = if n == 1 {
                            v * 1000
                        } else if n == 2 {
                            v * 100
                        } else if n == 3 {
                            v * 10
                        } else if n == 4 {
                            v
                        } else if n == 5 {
                            v / 10
                        } else if n == 6 {
                            v / 100
                        } else if n == 7 {
                            v / 1000
                        } else if n == 8 {
                            v / 10000
                        } else {
                            v / 100000
                        };
                        Some(i as u64 * 10000 + frac)
                    },
                    _ => None,
                }
            } else {
                None
            }
        },
    }
}

/// The `q` of a set's further parameters (the last `q=` counts), 5000 (0.5)
/// where none is given; `None` where a `q` does not read.
pub open spec fn spec_set_q(params: Seq<Seq<char>>) -> Option<u64>
    decreases params.len(),
{
    if params.len() == 0 {
        Some(5000)
    } else {
        match spec_set_q(params.drop_last()) {
            None => None,
            Some(q) => if starts_with_seq(params.last(), "q="@) {
                spec_qvalue(params.last().skip(2))
            } else {
                Some(q)
            },
        }
    }
}

fn set_q(params: &Vec<Vec<char>>) -> (r: Option<u64>)
    ensures
        r == spec_set_q(views_of(params@)),
{
    let ghost pv = views_of(params@);
    let mut q: u64 = 5000;
    let mut i: usize = 0;
    while i < params.len()
        invariant
            i <= params@.len(),
            pv == views_of(params@),
            spec_set_q(pv.take(i as int)) == Some(q),
        decreases params.len() - i,
    {
        assert(pv.take(i + 1).drop_last() =~= pv.take(i as int));
        assert(pv[i as int] == params@[i as int]@);
        if starts_with_str(&params[i], "q=") {
            proof {
                reveal_strlit("q=");
            }
            let v = sub_chars(&params[i], 2, params[i].len());
            assert(v@ == pv[i as int].skip(2));
            match qvalue(&v) {
                Some(x) => {
                    q = x;
                },
                None => {
                    proof {
                        lemma_set_q_none(pv, i as int + 1);
                    }
                    return None;
                },
            }
        }
        i = i + 1;
    }
    assert(pv.take(i as int) =~= pv);
    Some(q)
}

proof fn lemma_set_q_none(params: Seq<Seq<char>>, k: int)
    requires
        0 < k <= params.len(),
        spec_set_q(params.take(k)) is None,
    ensures
        spec_set_q(params) is None,
    decreases params.len() - k,
{
    if k < params.len() {
        assert(params.take(k + 1).drop_last() =~= params.take(k));
        lemma_set_q_none(params, k + 1);
    } else {
        assert(params.take(k) =~= params);
    }
}

/// One `[x=...,y=...,...]` set: its `x` and `y` values and its `q`.
pub open spec fn spec_set(tok: Seq<char>) -> Option<(XyRangeV, XyRangeV, u64)> {
    if tok.len() >= 2 && tok[0] == '[' && tok[tok.len() - 1] == ']' {
        let body = tok.subrange(1, tok.len() - 1);
        if starts_with_seq(body, "x="@) {
            match spec_xy(body.skip(2)) {
                Some((x, r1)) => if starts_with_seq(r1, ",y="@) {
                    match spec_xy(r1.skip(3)) {
                        Some((y, r2)) => if r2.len() == 0 {
                            Some((x, y, 5000))
                        } else if r2[0] == ',' {
                            match spec_set_q(spec_split(r2.skip(1), ',')) {
                                Some(q) => Some((x, y, q)),
                                None => None,
                            }
                        } else {
                            None
                        },
                        None => None,
                    }
                } else {
                    None
                },
                None => None,
            }
        } else {
            None
        }
    } else {
        None
    }
}

fn set_of(tok: &Vec<char>) -> (r: Option<(XyRange, XyRange, u64)>)
    ensures
        match (r, spec_set(tok@)) {
            (Some((a, b, q)), Some((sa, sb, sq))) => a@ == sa && b@ == sb && q == sq,
            (None, None) => true,
            _ => false,
        },
{
    let n = tok.len();
    if !(n >= 2 && tok[0] == '[' && tok[n - 1] == ']') {
        return None;
    }
    let body = sub_chars(tok, 1, n - 1);
    if !starts_with_str(&body, "x=") {
        return None;
    }
    proof {
        reveal_strlit("x=");
        reveal_strlit(",y=");
    }
    let b2 = sub_chars(&body, 2, body.len());
    assert(b2@ == body@.skip(2));
    let (x, r1) = match xy_of(&b2) {
        None => {
            return None;
        },
        Some(p) => p,
    };
    if !starts_with_str(&r1, ",y=") {
        return None;
    }
    let r1b = sub_chars(&r1, 3, r1.len());
    assert(r1b@ == r1@.skip(3));
    let (y, r2) = match xy_of(&r1b) {
        None => {
            return None;
        },
        Some(p) => p,
    };
    if r2.len() == 0 {
        Some((x, y, 5000))
    } else if r2[0] == ',' {
        let rest = sub_chars(&r2, 1, r2.len());
        assert(rest@ == r2@.skip(1));
        let params = split_chars(&rest, ',');
        match set_q(&params) {
            Some(q) => Some((x, y, q)),
            None => None,
        }
    } else {
        None
    }
}

/// What has been read of an `imageattr` value: the direction whose sets
/// follow (0 none yet, 1 send, 2 recv), the receive set with the highest
/// `q` so far (the later one on a tie) and whether everything read.
pub struct ImageAttrScan {
    pub mode: u8,
    pub best: Option<(XyRangeV, XyRangeV)>,
    pub best_q: u64,
    pub ok: bool,
}

pub open spec fn scan_init() -> ImageAttrScan {
    ImageAttrScan { mode: 0, best: None, best_q: 0, ok: true }
}

pub open spec fn scan_step(st: ImageAttrScan, tok: Seq<char>) -> ImageAttrScan {
    if !st.ok {
        st
    } else if tok == "send"@ {
        ImageAttrScan { mode: 1, ..st }
    } else if tok == "recv"@ {
        ImageAttrScan { mode: 2, ..st }
    } else if tok.len() == 0 || tok == "*"@ || st.mode != 2 {
        st
    } else {
        match spec_set(tok) {
            None => ImageAttrScan { ok: false, ..st },
            Some((x, y, q)) => if st.best is None || q >= st.best_q {
                ImageAttrScan { best: Some((x, y)), best_q: q, ..st }
            } else {
                st
            },
        }
    }
}

pub open spec fn scan_fold(toks: Seq<Seq<char>>) -> ImageAttrScan
    decreases toks.len(),
{
    if toks.len() == 0 {
        scan_init()
    } else {
        scan_step(scan_fold(toks.drop_last()), toks.last())
    }
}

/// `<payload or *> (send|recv) <sets> [(send|recv) <sets>]`: of the receive
/// sets, the one with the highest `q` (0.5 where a set names none; the
/// later one on a tie). `None` where the payload or a receive set does not
/// read.
pub open spec fn spec_imageattr(v: Seq<char>) -> Option<ImageAttrV> {
    let toks = spec_split(v, ' ');
    let pt: Option<Option<u8>> = if toks[0] == "*"@ {
        Some(None)
    } else {
        match spec_parse_u8(toks[0]) {
            Some(p) => Some(Some(p)),
            None => None,
        }
    };
    match pt {
        None => None,
        Some(pt) => {
            let st = scan_fold(toks.skip(1));
            if st.ok {
                Some(ImageAttrV { pt, recv_best: st.best })
            } else {
                None
            }
        },
    }
}

fn imageattr_of(v: &Vec<char>) -> (r: Option<ImageAttr>)
    ensures
        match (r, spec_imageattr(v@)) {
            (Some(a), Some(b)) => a@ == b,
            (None, None) => true,
            _ => false,
        },
{
    let toks = split_chars(v, ' ');
    let ghost tv = spec_split(v@, ' ');
    proof {
        crate::text::lemma_split_nonempty(v@, ' ');
    }
    assert(tv[0] == toks@[0]@);
    let pt: Option<u8> = if chars_equal_str(&toks[0], "*") {
        None
    } else {
        match parse_u8(&toks[0]) {
            Some(p) => Some(p),
            None => {
                            return None;
            },
        }
    };
    let ghost rest = tv.skip(1);
    let mut mode: u8 = 0;
    let mut best: Option<(XyRange, XyRange)> = None;
    let mut best_q: u64 = 0;
    let mut i: usize = 1;
    while i < toks.len()
        invariant
            1 <= i <= toks@.len(),
            views_of(toks@) == tv,
            tv == spec_split(v@, ' '),
            tv.len() >= 1,
            rest == tv.skip(1),
            if tv[0] == "*"@ {
                pt is None
            } else {
                spec_parse_u8(tv[0]) == Some(pt->0) && pt is Some
            },
            ({
                let st = scan_fold(rest.take(i - 1));
                &&& st.ok
                &&& st.mode == mode
                &&& st.best_q == best_q
                &&& st.best == match &best {
                    Some((x, y)) => Some((x@, y@)),
                    None => None,
                }
            }),
        decreases toks.len() - i,
    {
        assert(rest.take(i as int).drop_last() =~= rest.take(i - 1));
        assert(rest.take(i as int).last() == tv[i as int]);
        assert(tv[i as int] == toks@[i as int]@);
        let t = &toks[i];
        if chars_equal_str(t, "send") {
            mode = 1;
        } else if chars_equal_str(t, "recv") {
            mode = 2;
        } else if t.len() == 0 || chars_equal_str(t, "*") || mode != 2 {
        } else {
            match set_of(t) {
                None => {
                    proof {
                        lemma_scan_stops(rest, i as int);
                    }
                    return None;
                },
                Some((x, y, q)) => {
                    if best.is_none() || q >= best_q {
                        best = Some((x, y));
                        best_q = q;
                    }
                },
            }
        }
        i = i + 1;
    }
    assert(rest.take(i - 1) =~= rest);
    Some(ImageAttr { pt, recv_best: best })
}

proof fn lemma_scan_stops(toks: Seq<Seq<char>>, k: int)
    requires
        0 < k <= toks.len(),
        !scan_fold(toks.take(k)).ok,
    ensures
        !scan_fold(toks).ok,
    decreases toks.len() - k,
{
    if k < toks.len() {
        assert(toks.take(k + 1).drop_last() =~= toks.take(k));
        lemma_scan_stops(toks, k + 1);
    } else {
        assert(toks.take(k) =~= toks);
    }
}

// ---------------------------------------------------------------------------
// Media sections and the session
// ---------------------------------------------------------------------------

/// The answer of a host name lookup that the caller made.
pub struct HostAddress {
    pub name: String,
    pub ip: IpAddress,
}

pub struct HostAddressV {
    pub name: Seq<char>,
    pub ip: IpAddress,
}

impl View for HostAddress {
    type V = HostAddressV;

    open spec fn view(&self) -> HostAddressV {
        HostAddressV { name: self.name@, ip: self.ip }
    }
}

impl DeepView for HostAddress {
    type V = HostAddressV;

    open spec fn deep_view(&self) -> HostAddressV {
        self@
    }
}

/// The address of the first lookup answer for the name.
pub open spec fn spec_lookup(hosts: Seq<HostAddressV>, name: Seq<char>) -> Option<IpAddress>
    decreases hosts.len(),
{
    if hosts.len() == 0 {
        None
    } else if hosts[0].name == name {
        Some(hosts[0].ip)
    } else {
        spec_lookup(hosts.drop_first(), name)
    }
}

fn lookup(hosts: &Vec<HostAddress>, name: &String) -> (r: Option<IpAddress>)
    ensures
        r == spec_lookup(hosts.deep_view(), name@),
{
    let ghost hv = hosts.deep_view();
    let mut i: usize = 0;
    assert(hv.skip(0) =~= hv);
    while i < hosts.len()
        invariant
            i <= hosts@.len(),
            hv == hosts.deep_view(),
            spec_lookup(hv, name@) == spec_lookup(hv.skip(i as int), name@),
        decreases hosts.len() - i,
    {
        let ghost t = hv.skip(i as int);
        assert(t[0] == hosts@[i as int]@);
        assert(t.drop_first() =~= hv.skip(i + 1));
        if str_eq(&hosts[i].name, name) {
            return Some(hosts[i].ip);
        }
        i = i + 1;
    }
    None
}

fn str_eq(a: &String, b: &String) -> (r: bool)
    ensures
        r == (a@ == b@),
{
    let av = chars_of(a.as_str());
    chars_equal_str(&av, b.as_str())
}

/// A connection address: an IP address as it reads, otherwise a host name
/// with the caller's lookup answer for it.
pub open spec fn spec_tagged(addr: Seq<char>, hosts: Seq<HostAddressV>) -> TaggedAddressV {
    match spec_parse_ip(addr) {
        Some(ip) => TaggedAddressV::Ip(ip),
        None => TaggedAddressV::Fqdn { name: addr, resolved: spec_lookup(hosts, addr) },
    }
}

fn tagged_of(addr: &String, hosts: &Vec<HostAddress>) -> (r: TaggedAddress)
    ensures
        r@ == spec_tagged(addr@, hosts.deep_view()),
{
    match parse_ip(addr.as_str()) {
        Some(ip) => TaggedAddress::Ip(ip),
        None => TaggedAddress::Fqdn { name: addr.clone(), resolved: lookup(hosts, addr) },
    }
}

/// The `b=` lines whose value fits in 32 bits.
pub open spec fn spec_bandwidths(bs: Seq<RawBandwidthV>) -> Seq<BandwidthV>
    decreases bs.len(),
{
    if bs.len() == 0 {
        Seq::empty()
    } else {
        let rest = spec_bandwidths(bs.drop_last());
        if bs.last().value <= u32::MAX {
            rest.push(BandwidthV { type_: bs.last().kind, bandwidth: bs.last().value as u32 })
        } else {
            rest
        }
    }
}

/// One attribute applied to a media description.
pub open spec fn spec_attr_step(m: MediaDescriptionV, a: RawAttributeV) -> MediaDescriptionV {
    if a.name == "sendrecv"@ {
        MediaDescriptionV { direction: Direction::SendRecv, ..m }
    } else if a.name == "recvonly"@ {
        MediaDescriptionV { direction: Direction::RecvOnly, ..m }
    } else if a.name == "sendonly"@ {
        MediaDescriptionV { direction: Direction::SendOnly, ..m }
    } else if a.name == "inactive"@ {
        MediaDescriptionV { direction: Direction::Inactive, ..m }
    } else {
        match a.value {
            None => m,
            Some(v) => if a.name == "rtcp"@ {
                match spec_rtcp(v) {
                    Some(p) => MediaDescriptionV { rtcp_port: Some(p), ..m },
                    None => m,
                }
            } else if a.name == "rtpmap"@ {
                match spec_rtpmap(v) {
                    Some(r) => MediaDescriptionV { rtpmap: m.rtpmap.push(r), ..m },
                    None => m,
                }
            } else if a.name == "fmtp"@ {
                match spec_fmtp(v) {
                    Some(f) => MediaDescriptionV { fmtp: m.fmtp.push(f), ..m },
                    None => m,
                }
            } else if a.name == "crypto"@ {
                match spec_crypto(v) {
                    Some(c) => MediaDescriptionV { crypto: m.crypto.push(c), ..m },
                    None => m,
                }
            } else if a.name == "imageattr"@ {
                match spec_imageattr(v) {
                    Some(i) => MediaDescriptionV { imageattr: m.imageattr.push(i), ..m },
                    None => m,
                }
            } else {
                m
            },
        }
    }
}

pub open spec fn spec_attr_fold(m: MediaDescriptionV, attrs: Seq<RawAttributeV>) -> MediaDescriptionV
    decreases attrs.len(),
{
    if attrs.len() == 0 {
        m
    } else {
        spec_attr_step(spec_attr_fold(m, attrs.drop_last()), attrs.last())
    }
}

/// A media section read: type, port, protocol and payload formats of the
/// `m=` line, its first connection address, its bandwidths, and its
/// attributes applied in order to a send-and-receive description.
pub open spec fn spec_media(m: RawMediaV, hosts: Seq<HostAddressV>) -> MediaDescriptionV {
    spec_attr_fold(
        MediaDescriptionV {
            media_type: spec_media_type(m.media),
            port: m.port,
            proto: spec_proto(m.proto),
            fmts: spec_fmts(spec_split(m.fmt, ' ')),
            connection: if m.connections.len() > 0 {
                Some(spec_tagged(m.connections[0], hosts))
            } else {
                None
            },
            bandwidth: spec_bandwidths(m.bandwidths),
            direction: Direction::SendRecv,
            rtcp_port: None,
            rtpmap: Seq::empty(),
            fmtp: Seq::empty(),
            crypto: Seq::empty(),
            imageattr: Seq::empty(),
        },
        m.attributes,
    )
}

proof fn lemma_attr_fold_wf(m: MediaDescriptionV, attrs: Seq<RawAttributeV>)
    requires
        media_wf(m),
    ensures
        media_wf(spec_attr_fold(m, attrs)),
    decreases attrs.len(),
{
    if attrs.len() > 0 {
        lemma_attr_fold_wf(m, attrs.drop_last());
        let p = spec_attr_fold(m, attrs.drop_last());
        let q = spec_attr_fold(m, attrs);
        assert forall|i: int| 0 <= i < q.crypto.len() implies #[trigger] q.crypto[i].keys.len() >= 1 by {
            if i < p.crypto.len() {
                assert(q.crypto[i] == p.crypto[i]);
            }
        }
        assert forall|i: int| 0 <= i < q.imageattr.len() implies match (#[trigger] q.imageattr[i]).recv_best {
            Some((x, y)) => xy_range_wf(x) && xy_range_wf(y),
            None => true,
        } by {
            if i < p.imageattr.len() {
                assert(q.imageattr[i] == p.imageattr[i]);
            } else {
                lemma_imageattr_wf(attrs.last().value->0);
            }
        }
    }
}

proof fn lemma_xy_wf(s: Seq<char>)
    ensures
        spec_xy(s) matches Some((r, _)) ==> xy_range_wf(r),
{
}

proof fn lemma_scan_wf(toks: Seq<Seq<char>>)
    ensures
        scan_fold(toks).best matches Some((x, y)) ==> xy_range_wf(x) && xy_range_wf(y),
    decreases toks.len(),
{
    if toks.len() > 0 {
        lemma_scan_wf(toks.drop_last());
        let tok = toks.last();
        if tok.len() >= 2 {
            let body = tok.subrange(1, tok.len() - 1);
            lemma_xy_wf(body.skip(2));
            match spec_xy(body.skip(2)) {
                Some((x, r1)) => lemma_xy_wf(r1.skip(3)),
                None => {},
            }
        }
    }
}

proof fn lemma_imageattr_wf(v: Seq<char>)
    ensures
        spec_imageattr(v) matches Some(ia) ==> (ia.recv_best matches Some((x, y)) ==> xy_range_wf(x)
            && xy_range_wf(y)),
{
    lemma_scan_wf(spec_split(v, ' ').skip(1));
}

/// The direction an attribute name sets: `sendrecv`, `recvonly`,
/// `sendonly` and `inactive` (RFC 8866, section 6.7).
pub open spec fn direction_of_name(n: Seq<char>) -> Option<Direction> {
    if n == "sendrecv"@ {
        Some(Direction::SendRecv)
    } else if n == "recvonly"@ {
        Some(Direction::RecvOnly)
    } else if n == "sendonly"@ {
        Some(Direction::SendOnly)
    } else if n == "inactive"@ {
        Some(Direction::Inactive)
    } else {
        None
    }
}

/// The direction the last direction attribute sets, `d` where there is none.
pub open spec fn last_direction(attrs: Seq<RawAttributeV>, d: Direction) -> Direction
    decreases attrs.len(),
{
    if attrs.len() == 0 {
        d
    } else {
        match direction_of_name(attrs.last().name) {
            Some(x) => x,
            None => last_direction(attrs.drop_last(), d),
        }
    }
}

/// Reading attributes leaves a media description with the direction of its
/// last direction attribute, or the one it had where there is none.
pub proof fn lemma_attrs_set_direction(m: MediaDescriptionV, attrs: Seq<RawAttributeV>)
    ensures
        spec_attr_fold(m, attrs).direction == last_direction(attrs, m.direction),
    decreases attrs.len(),
{
    if attrs.len() > 0 {
        lemma_attrs_set_direction(m, attrs.drop_last());
    }
}

/// A media section reads with the direction of its last direction attribute,
/// send and receive where it has none.
pub proof fn lemma_media_direction(raw: RawMediaV, hosts: Seq<HostAddressV>)
    ensures
        spec_media(raw, hosts).direction == last_direction(raw.attributes, Direction::SendRecv),
{
    let base = MediaDescriptionV {
        media_type: spec_media_type(raw.media),
        port: raw.port,
        proto: spec_proto(raw.proto),
        fmts: spec_fmts(spec_split(raw.fmt, ' ')),
        connection: if raw.connections.len() > 0 {
            Some(spec_tagged(raw.connections[0], hosts))
        } else {
            None
        },
        bandwidth: spec_bandwidths(raw.bandwidths),
        direction: Direction::SendRecv,
        rtcp_port: None,
        rtpmap: Seq::empty(),
        fmtp: Seq::empty(),
        crypto: Seq::empty(),
        imageattr: Seq::empty(),
    };
    lemma_attrs_set_direction(base, raw.attributes);
}

fn bandwidths_of(bs: &Vec<RawBandwidth>) -> (r: Vec<Bandwidth>)
    ensures
        r.deep_view() == spec_bandwidths(bs.deep_view()),
{
    let ghost bv = bs.deep_view();
    let mut r: Vec<Bandwidth> = Vec::new();
    let mut i: usize = 0;
    while i < bs.len()
        invariant
            i <= bs@.len(),
            bv == bs.deep_view(),
            r.deep_view() == spec_bandwidths(bv.take(i as int)),
        decreases bs.len() - i,
    {
        assert(bv.take(i + 1).drop_last() =~= bv.take(i as int));
        assert(bv[i as int] == bs@[i as int]@);
        if bs[i].value <= 0xffff_ffff {
            let ghost before = r.deep_view();
            r.push(Bandwidth { type_: bs[i].kind.clone(), bandwidth: bs[i].value as u32 });
            assert(r.deep_view() =~= before.push(BandwidthV { type_: bv[i as int].kind, bandwidth: bv[i as int].value as u32 }));
        }
        i = i + 1;
    }
    assert(bv.take(i as int) =~= bv);
    r
}

fn attr_apply(m: &mut MediaDescription, a: &RawAttribute)
    ensures
        final(m)@ == spec_attr_step(old(m)@, a@),
        final(m)@.direction == match direction_of_name(a@.name) {
            Some(d) => d,
            None => old(m)@.direction,
        },
{
    let name = chars_of(a.name.as_str());
    if chars_equal_str(&name, "sendrecv") {
        m.direction = Direction::SendRecv;
    } else if chars_equal_str(&name, "recvonly") {
        m.direction = Direction::RecvOnly;
    } else if chars_equal_str(&name, "sendonly") {
        m.direction = Direction::SendOnly;
    } else if chars_equal_str(&name, "inactive") {
        m.direction = Direction::Inactive;
    } else {
        match &a.value {
            None => {},
            Some(value) => {
                let v = chars_of(value.as_str());
                if chars_equal_str(&name, "rtcp") {
                    match rtcp_of(&v) {
                        Some(p) => {
                            m.rtcp_port = Some(p);
                        },
                        None => {},
                    }
                } else if chars_equal_str(&name, "rtpmap") {
                    match rtpmap_of(&v) {
                        Some(r) => {
                            let ghost before = m.rtpmap.deep_view();
                            let ghost rv = r@;
                            m.rtpmap.push(r);
                            assert(m.rtpmap.deep_view() =~= before.push(rv));
                        },
                        None => {},
                    }
                } else if chars_equal_str(&name, "fmtp") {
                    match fmtp_of(&v) {
                        Some(f) => {
                            let ghost before = m.fmtp.deep_view();
                            let ghost fv = f@;
                            m.fmtp.push(f);
                            assert(m.fmtp.deep_view() =~= before.push(fv));
                        },
                        None => {},
                    }
                } else if chars_equal_str(&name, "crypto") {
                    match crypto_of(&v) {
                        Some(c) => {
                            let ghost before = m.crypto.deep_view();
                            let ghost cv = c@;
                            m.crypto.push(c);
                            assert(m.crypto.deep_view() =~= before.push(cv));
                        },
                        None => {},
                    }
                } else if chars_equal_str(&name, "imageattr") {
                    match imageattr_of(&v) {
                        Some(i) => {
                            let ghost before = m.imageattr.deep_view();
                            let ghost iv = i@;
                            m.imageattr.push(i);
                            assert(m.imageattr.deep_view() =~= before.push(iv));
                        },
                        None => {},
                    }
                }
            },
        }
    }
}

fn media_of(raw: &RawMedia, hosts: &Vec<HostAddress>) -> (r: MediaDescription)
    ensures
        r@ == spec_media(raw@, hosts.deep_view()),
        media_wf(r@),
{
    let fmt = chars_of(raw.fmt.as_str());
    let media = chars_of(raw.media.as_str());
    let proto = chars_of(raw.proto.as_str());
    let connection = if raw.connections.len() > 0 {
        assert(raw@.connections[0] == raw.connections@[0]@);
        Some(tagged_of(&raw.connections[0], hosts))
    } else {
        None
    };
    let mut m = MediaDescription {
        media_type: media_type_of(&media),
        port: raw.port,
        proto: proto_of(&proto),
        fmts: fmts_of(&fmt),
        connection,
        bandwidth: bandwidths_of(&raw.bandwidths),
        direction: Direction::SendRecv,
        rtcp_port: None,
        rtpmap: Vec::new(),
        fmtp: Vec::new(),
        crypto: Vec::new(),
        imageattr: Vec::new(),
    };
    let ghost base = m@;
    assert(m.rtpmap.deep_view() =~= Seq::<RtpMapV>::empty());
    assert(m.fmtp.deep_view() =~= Seq::<FmtpV>::empty());
    assert(m.crypto.deep_view() =~= Seq::<SrtpCryptoV>::empty());
    assert(m.imageattr.deep_view() =~= Seq::<ImageAttrV>::empty());
    let ghost av = raw.attributes.deep_view();
    let mut i: usize = 0;
    while i < raw.attributes.len()
        invariant
            i <= raw.attributes@.len(),
            av == raw.attributes.deep_view(),
            m@ == spec_attr_fold(base, av.take(i as int)),
            base == spec_attr_fold(base, av.take(0)),
        decreases raw.attributes.len() - i,
    {
        assert(av.take(i + 1).drop_last() =~= av.take(i as int));
        assert(av[i as int] == raw.attributes@[i as int]@);
        attr_apply(&mut m, &raw.attributes[i]);
        i = i + 1;
    }
    assert(av.take(i as int) =~= av);
    proof {
        lemma_attr_fold_wf(base, av);
    }
    m
}

/// The description a body reads as, with the caller's host name lookups;
/// it carries no origin.
pub open spec fn spec_description(raw: RawSessionV, hosts: Seq<HostAddressV>) -> SessionDescriptionV {
    SessionDescriptionV {
        origin: None,
        name: raw.name,
        connection: match raw.connection {
            Some(c) => Some(spec_tagged(c, hosts)),
            None => None,
        },
        media_descriptions: Seq::new(raw.media.len(), |i: int| spec_media(raw.media[i], hosts)),
    }
}

/// The description raw lines read as, host names resolved with the given
/// lookup answers; it carries no origin.
pub fn description_of(raw: &RawSession, hosts: &Vec<HostAddress>) -> (r: SessionDescription)
    ensures
        r@ == spec_description(raw@, hosts.deep_view()),
        session_wf(r@),
{
    let connection = match &raw.connection {
        Some(c) => Some(tagged_of(c, hosts)),
        None => None,
    };
    let ghost rv = raw@;
    let mut media: Vec<MediaDescription> = Vec::new();
    let mut i: usize = 0;
    while i < raw.media.len()
        invariant
            i <= raw.media@.len(),
            rv == raw@,
            media@.len() == i,
            forall|j: int| 0 <= j < i ==> (#[trigger] media@[j])@ == spec_media(rv.media[j], hosts.deep_view())
                && media_wf(media@[j]@),
        decreases raw.media.len() - i,
    {
        assert(rv.media[i as int] == raw.media@[i as int]@);
        let m = media_of(&raw.media[i], hosts);
        media.push(m);
        i = i + 1;
    }
    let d = SessionDescription { origin: None, name: raw.name.clone(), connection, media_descriptions: media };
    assert(d@.media_descriptions =~= spec_description(rv, hosts.deep_view()).media_descriptions);
    assert forall|j: int| 0 <= j < d@.media_descriptions.len() implies media_wf(#[trigger] d@.media_descriptions[j]) by {
        assert(d@.media_descriptions[j] == media@[j]@);
    }
    d
}

/// What a body reads as: `InvalidSdp` where it is not UTF-8 or the SDP
/// parse refuses it, otherwise the description of its lines.
pub open spec fn spec_read_body(body: Seq<u8>, hosts: Seq<HostAddressV>) -> Result<SessionDescriptionV, SdpError> {
    if !spec_is_utf8(body) {
        Err(SdpError::InvalidSdp)
    } else {
        match spec_parse_sdp(body) {
            None => Err(SdpError::InvalidSdp),
            Some(raw) => Ok(spec_description(raw, hosts)),
        }
    }
}

/// Reads an SDP body: a body that is not UTF-8, or that the SDP parse
/// refuses, gives `InvalidSdp`; host names resolve with the given lookup
/// answers.
pub fn parse_description(body: &Vec<u8>, hosts: &Vec<HostAddress>) -> (r: Result<SessionDescription, SdpError>)
    ensures
        match (r, spec_read_body(body@, hosts.deep_view())) {
            (Ok(d), Ok(e)) => d@ == e && session_wf(d@),
            (Err(a), Err(b)) => a == b,
            _ => false,
        },
{
    if !is_utf8(body) {
        return Err(SdpError::InvalidSdp);
    }
    match parse_sdp(body) {
        None => Err(SdpError::InvalidSdp),
        Some(raw) => Ok(description_of(&raw, hosts)),
    }
}
} // verus!
