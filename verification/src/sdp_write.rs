//! Writing the bridge's session description as SDP text.
use crate::net::IpAddress;
use crate::outside::{ip_text, spec_ip_text};
use crate::sdp_model::{
    BandwidthV, Direction, FmtpV, MediaDescription, MediaDescriptionV, Origin, RtpMap, RtpMapV,
    SdpMediaType, SessionDescription, SessionDescriptionV, SrtpCrypto, SrtpCryptoV, SrtpSuite, TaggedAddress,
    TaggedAddressV, TransportProtocol,
};
use crate::text::{decimal, push_decimal, push_str};
use vstd::prelude::*;

verus! {

pub open spec fn crlf() -> Seq<char> {
    seq!['\r', '\n']
}

fn push_crlf(out: &mut String)
    ensures
        final(out)@ == old(out)@ + crlf(),
{
    proof {
        reveal_strlit("\r\n");
    }
    push_str(out, "\r\n");
}

/// The network and address type and the address of a `c=` or `o=` line; a
/// host name is written as an IPv4 one.
pub open spec fn spec_ip_addr_text(ip: IpAddress) -> Seq<char> {
    match ip {
        IpAddress::V4(_) => "IN IP4 "@ + spec_ip_text(ip),
        IpAddress::V6(_) => "IN IP6 "@ + spec_ip_text(ip),
    }
}

pub open spec fn spec_addr_text(t: TaggedAddressV) -> Seq<char> {
    match t {
        TaggedAddressV::Ip(ip) => spec_ip_addr_text(ip),
        TaggedAddressV::Fqdn { name, .. } => "IN IP4 "@ + name,
    }
}

fn push_ip_addr(out: &mut String, ip: IpAddress)
    ensures
        final(out)@ == old(out)@ + spec_ip_addr_text(ip),
{
    let text = ip_text(ip);
    match ip {
        IpAddress::V4(_) => push_str(out, "IN IP4 "),
        IpAddress::V6(_) => push_str(out, "IN IP6 "),
    }
    push_str(out, text.as_str());
}

fn push_addr(out: &mut String, t: &TaggedAddress)
    ensures
        final(out)@ == old(out)@ + spec_addr_text(t@),
{
    match t {
        TaggedAddress::Ip(ip) => push_ip_addr(out, *ip),
        TaggedAddress::Fqdn { name, .. } => {
            push_str(out, "IN IP4 ");
            push_str(out, name.as_str());
        },
    }
}

/// The name of a media type; one the bridge does not know is written as
/// `application`.
pub open spec fn spec_media_name(t: SdpMediaType) -> Seq<char> {
    match t {
        SdpMediaType::Audio => "audio"@,
        SdpMediaType::Video => "video"@,
        SdpMediaType::Other => "application"@,
    }
}

/// The name of a protocol; one the bridge does not know is written as `UDP`.
pub open spec fn spec_proto_name(p: TransportProtocol) -> Seq<char> {
    match p {
        TransportProtocol::RtpAvp => "RTP/AVP"@,
        TransportProtocol::RtpSavp => "RTP/SAVP"@,
        TransportProtocol::Other => "UDP"@,
    }
}

pub open spec fn spec_direction_name(d: Direction) -> Seq<char> {
    match d {
        Direction::SendRecv => "sendrecv"@,
        Direction::RecvOnly => "recvonly"@,
        Direction::SendOnly => "sendonly"@,
        Direction::Inactive => "inactive"@,
    }
}

/// The name of a crypto suite; one the bridge does not know is written as
/// `UNKNOWN`.
pub open spec fn spec_suite_name(s: SrtpSuite) -> Seq<char> {
    match s {
        SrtpSuite::AES_CM_128_HMAC_SHA1_80 => "AES_CM_128_HMAC_SHA1_80"@,
        SrtpSuite::AES_CM_128_HMAC_SHA1_32 => "AES_CM_128_HMAC_SHA1_32"@,
        SrtpSuite::AES_192_CM_HMAC_SHA1_80 => "AES_192_CM_HMAC_SHA1_80"@,
        SrtpSuite::AES_192_CM_HMAC_SHA1_32 => "AES_192_CM_HMAC_SHA1_32"@,
        SrtpSuite::AES_256_CM_HMAC_SHA1_80 => "AES_256_CM_HMAC_SHA1_80"@,
        SrtpSuite::AES_256_CM_HMAC_SHA1_32 => "AES_256_CM_HMAC_SHA1_32"@,
        SrtpSuite::AEAD_AES_128_GCM => "AEAD_AES_128_GCM"@,
        SrtpSuite::AEAD_AES_256_GCM => "AEAD_AES_256_GCM"@,
        SrtpSuite::Other => "UNKNOWN"@,
    }
}

fn media_name(t: SdpMediaType) -> (r: &'static str)
    ensures
        r@ == spec_media_name(t),
{
    match t {
        SdpMediaType::Audio => "audio",
        SdpMediaType::Video => "video",
        SdpMediaType::Other => "application",
    }
}

fn proto_name(p: TransportProtocol) -> (r: &'static str)
    ensures
        r@ == spec_proto_name(p),
{
    match p {
        TransportProtocol::RtpAvp => "RTP/AVP",
        TransportProtocol::RtpSavp => "RTP/SAVP",
        TransportProtocol::Other => "UDP",
    }
}

fn direction_name(d: Direction) -> (r: &'static str)
    ensures
        r@ == spec_direction_name(d),
{
    match d {
        Direction::SendRecv => "sendrecv",
        Direction::RecvOnly => "recvonly",
        Direction::SendOnly => "sendonly",
        Direction::Inactive => "inactive",
    }
}

fn suite_name(s: SrtpSuite) -> (r: &'static str)
    ensures
        r@ == spec_suite_name(s),
{
    match s {
        SrtpSuite::AES_CM_128_HMAC_SHA1_80 => "AES_CM_128_HMAC_SHA1_80",
        SrtpSuite::AES_CM_128_HMAC_SHA1_32 => "AES_CM_128_HMAC_SHA1_32",
        SrtpSuite::AES_192_CM_HMAC_SHA1_80 => "AES_192_CM_HMAC_SHA1_80",
        SrtpSuite::AES_192_CM_HMAC_SHA1_32 => "AES_192_CM_HMAC_SHA1_32",
        SrtpSuite::AES_256_CM_HMAC_SHA1_80 => "AES_256_CM_HMAC_SHA1_80",
        SrtpSuite::AES_256_CM_HMAC_SHA1_32 => "AES_256_CM_HMAC_SHA1_32",
        SrtpSuite::AEAD_AES_128_GCM => "AEAD_AES_128_GCM",
        SrtpSuite::AEAD_AES_256_GCM => "AEAD_AES_256_GCM",
        SrtpSuite::Other => "UNKNOWN",
    }
}

/// ` <fmt>` for each payload format.
pub open spec fn spec_fmts_text(f: Seq<u8>) -> Seq<char>
    decreases f.len(),
{
    if f.len() == 0 {
        Seq::empty()
    } else {
        spec_fmts_text(f.drop_last()) + " "@ + decimal(f.last() as nat)
    }
}

/// `b=<type>:<bandwidth>` lines.
pub open spec fn spec_bandwidth_lines(b: Seq<BandwidthV>) -> Seq<char>
    decreases b.len(),
{
    if b.len() == 0 {
        Seq::empty()
    } else {
        spec_bandwidth_lines(b.drop_last()) + "b="@ + b.last().type_ + ":"@ + decimal(
            b.last().bandwidth as nat,
        ) + crlf()
    }
}

/// `a=rtpmap:<payload> <encoding>/<clock rate>[/<parameters>]` lines.
pub open spec fn spec_rtpmap_lines(r: Seq<RtpMapV>) -> Seq<char>
    decreases r.len(),
{
    if r.len() == 0 {
        Seq::empty()
    } else {
        spec_rtpmap_lines(r.drop_last()) + spec_rtpmap_line(r.last())
    }
}

pub open spec fn spec_rtpmap_line(m: RtpMapV) -> Seq<char> {
    "a=rtpmap:"@ + decimal(m.payload as nat) + " "@ + m.encoding + "/"@ + decimal(m.clock_rate as nat)
        + match m.params {
        Some(p) => "/"@ + p,
        None => Seq::empty(),
    } + crlf()
}

/// `a=fmtp:<format> <parameters>` lines.
pub open spec fn spec_fmtp_lines(f: Seq<FmtpV>) -> Seq<char>
    decreases f.len(),
{
    if f.len() == 0 {
        Seq::empty()
    } else {
        spec_fmtp_lines(f.drop_last()) + "a=fmtp:"@ + decimal(f.last().format as nat) + " "@
            + f.last().params + crlf()
    }
}

/// The key parameters of a crypto attribute: `inline:<key>`, separated by
/// `;`.
pub open spec fn spec_keys_text(k: Seq<Seq<char>>) -> Seq<char>
    decreases k.len(),
{
    if k.len() == 0 {
        Seq::empty()
    } else if k.len() == 1 {
        "inline:"@ + k[0]
    } else {
        spec_keys_text(k.drop_last()) + ";inline:"@ + k.last()
    }
}

/// `a=crypto:<tag> <suite> <key parameters>` lines.
pub open spec fn spec_crypto_lines(c: Seq<SrtpCryptoV>) -> Seq<char>
    decreases c.len(),
{
    if c.len() == 0 {
        Seq::empty()
    } else {
        spec_crypto_lines(c.drop_last()) + spec_crypto_line(c.last())
    }
}

pub open spec fn spec_crypto_line(c: SrtpCryptoV) -> Seq<char> {
    "a=crypto:"@ + decimal(c.tag as nat) + " "@ + spec_suite_name(c.suite) + " "@ + spec_keys_text(
        c.keys,
    ) + crlf()
}

pub open spec fn spec_m_line(m: MediaDescriptionV) -> Seq<char> {
    "m="@ + spec_media_name(m.media_type) + " "@ + decimal(m.port as nat) + " "@ + spec_proto_name(
        m.proto,
    ) + spec_fmts_text(m.fmts) + crlf()
}

pub open spec fn spec_conn_line(c: Option<TaggedAddressV>) -> Seq<char> {
    match c {
        Some(c) => "c="@ + spec_addr_text(c) + crlf(),
        None => Seq::empty(),
    }
}

pub open spec fn spec_rtcp_line(p: Option<u16>) -> Seq<char> {
    match p {
        Some(p) => "a=rtcp:"@ + decimal(p as nat) + crlf(),
        None => Seq::empty(),
    }
}

pub open spec fn spec_direction_line(d: Direction) -> Seq<char> {
    "a="@ + spec_direction_name(d) + crlf()
}

/// A media section: the `m=` line, its `c=` line, its `b=` lines, then the
/// `rtcp`, direction, `rtpmap`, `fmtp` and `crypto` attributes.
pub open spec fn spec_media_text(m: MediaDescriptionV) -> Seq<char> {
    spec_m_line(m) + spec_conn_line(m.connection) + spec_bandwidth_lines(m.bandwidth) + spec_rtcp_line(
        m.rtcp_port,
    ) + spec_direction_line(m.direction) + spec_rtpmap_lines(m.rtpmap) + spec_fmtp_lines(m.fmtp)
        + spec_crypto_lines(m.crypto)
}

pub open spec fn spec_media_sections(m: Seq<MediaDescriptionV>) -> Seq<char>
    decreases m.len(),
{
    if m.len() == 0 {
        Seq::empty()
    } else {
        spec_media_sections(m.drop_last()) + spec_media_text(m.last())
    }
}

/// The SDP text of a description: `v=0`, the origin (user `-`), the name,
/// the session's connection, `t=0 0`, then the media sections.
pub open spec fn spec_origin_line(o: Option<Origin>) -> Seq<char> {
    match o {
        Some(o) => "o=- "@ + decimal(o.session_id as nat) + " "@ + decimal(o.session_version as nat)
            + " "@ + spec_ip_addr_text(o.address) + crlf(),
        None => Seq::empty(),
    }
}

/// The SDP text of a description: `v=0`, the origin (user `-`), the name,
/// the session's connection, `t=0 0`, then the media sections.
pub open spec fn spec_sdp_text(d: SessionDescriptionV) -> Seq<char> {
    "v=0"@ + crlf() + spec_origin_line(d.origin) + "s="@ + d.name + crlf() + spec_conn_line(
        d.connection,
    ) + "t=0 0"@ + crlf() + spec_media_sections(d.media_descriptions)
}

fn push_m_line(out: &mut String, m: &MediaDescription)
    ensures
        final(out)@ == old(out)@ + spec_m_line(m@),
{
    let ghost start = out@;
    push_str(out, "m=");
    push_str(out, media_name(m.media_type));
    push_str(out, " ");
    push_decimal(out, m.port as u64);
    push_str(out, " ");
    push_str(out, proto_name(m.proto));
    let ghost before_fmts = out@;
    let mut i: usize = 0;
    while i < m.fmts.len()
        invariant
            i <= m.fmts@.len(),
            out@ == before_fmts + spec_fmts_text(m.fmts@.take(i as int)),
        decreases m.fmts.len() - i,
    {
        assert(m.fmts@.take(i + 1).drop_last() =~= m.fmts@.take(i as int));
        push_str(out, " ");
        push_decimal(out, m.fmts[i] as u64);
        i = i + 1;
    }
    assert(m.fmts@.take(i as int) =~= m.fmts@);
    push_crlf(out);
    assert(out@ =~= start + spec_m_line(m@));
}

fn push_conn_line(out: &mut String, c: &Option<TaggedAddress>)
    ensures
        final(out)@ == old(out)@ + spec_conn_line(c.deep_view()),
{
    let ghost start = out@;
    match c {
        Some(c) => {
            push_str(out, "c=");
            push_addr(out, c);
            push_crlf(out);
        },
        None => {},
    }
    assert(out@ =~= start + spec_conn_line(c.deep_view()));
}

fn push_bandwidths(out: &mut String, m: &MediaDescription)
    ensures
        final(out)@ == old(out)@ + spec_bandwidth_lines(m@.bandwidth),
{
    let ghost before_bw = out@;
    let mut i: usize = 0;
    while i < m.bandwidth.len()
        invariant
            i <= m.bandwidth@.len(),
            out@ == before_bw + spec_bandwidth_lines(m@.bandwidth.take(i as int)),
        decreases m.bandwidth.len() - i,
    {
        assert(m@.bandwidth.take(i + 1).drop_last() =~= m@.bandwidth.take(i as int));
        assert(m@.bandwidth[i as int] == m.bandwidth@[i as int]@);
        push_str(out, "b=");
        push_str(out, m.bandwidth[i].type_.as_str());
        push_str(out, ":");
        push_decimal(out, m.bandwidth[i].bandwidth as u64);
        push_crlf(out);
        i = i + 1;
    }
    assert(m@.bandwidth.take(i as int) =~= m@.bandwidth);
}

fn push_rtcp_and_direction(out: &mut String, m: &MediaDescription)
    ensures
        final(out)@ == old(out)@ + spec_rtcp_line(m.rtcp_port) + spec_direction_line(m.direction),
{
    let ghost start = out@;
    match m.rtcp_port {
        Some(p) => {
            push_str(out, "a=rtcp:");
            push_decimal(out, p as u64);
            push_crlf(out);
        },
        None => {},
    }
    let ghost mid = out@;
    assert(mid =~= start + spec_rtcp_line(m.rtcp_port));
    push_str(out, "a=");
    push_str(out, direction_name(m.direction));
    push_crlf(out);
    assert(out@ =~= mid + spec_direction_line(m.direction));
}

fn push_rtpmap_line(out: &mut String, r: &RtpMap)
    ensures
        final(out)@ == old(out)@ + spec_rtpmap_line(r@),
{
    let ghost s0 = out@;
    push_str(out, "a=rtpmap:");
    push_decimal(out, r.payload as u64);
    push_str(out, " ");
    push_str(out, r.encoding.as_str());
    push_str(out, "/");
    push_decimal(out, r.clock_rate as u64);
    match &r.params {
        Some(p) => {
            push_str(out, "/");
            push_str(out, p.as_str());
        },
        None => {},
    }
    push_crlf(out);
    assert(out@ =~= s0 + spec_rtpmap_line(r@));
}

fn push_rtpmaps(out: &mut String, m: &MediaDescription)
    ensures
        final(out)@ == old(out)@ + spec_rtpmap_lines(m@.rtpmap),
{
    let ghost before_rtpmap = out@;
    let mut i: usize = 0;
    while i < m.rtpmap.len()
        invariant
            i <= m.rtpmap@.len(),
            out@ == before_rtpmap + spec_rtpmap_lines(m@.rtpmap.take(i as int)),
        decreases m.rtpmap.len() - i,
    {
        assert(m@.rtpmap.take(i + 1).drop_last() =~= m@.rtpmap.take(i as int));
        assert(m@.rtpmap[i as int] == m.rtpmap@[i as int]@);
        push_rtpmap_line(out, &m.rtpmap[i]);
        i = i + 1;
    }
    assert(m@.rtpmap.take(i as int) =~= m@.rtpmap);
}

fn push_fmtps(out: &mut String, m: &MediaDescription)
    ensures
        final(out)@ == old(out)@ + spec_fmtp_lines(m@.fmtp),
{
    let ghost before_fmtp = out@;
    let mut i: usize = 0;
    while i < m.fmtp.len()
        invariant
            i <= m.fmtp@.len(),
            out@ == before_fmtp + spec_fmtp_lines(m@.fmtp.take(i as int)),
        decreases m.fmtp.len() - i,
    {
        assert(m@.fmtp.take(i + 1).drop_last() =~= m@.fmtp.take(i as int));
        assert(m@.fmtp[i as int] == m.fmtp@[i as int]@);
        push_str(out, "a=fmtp:");
        push_decimal(out, m.fmtp[i].format as u64);
        push_str(out, " ");
        push_str(out, m.fmtp[i].params.as_str());
        push_crlf(out);
        i = i + 1;
    }
    assert(m@.fmtp.take(i as int) =~= m@.fmtp);
}

fn push_keys(out: &mut String, keys: &Vec<String>)
    ensures
        final(out)@ == old(out)@ + spec_keys_text(keys.deep_view()),
{
    let ghost kv = keys.deep_view();
    let ghost before_keys = out@;
    let mut k: usize = 0;
    while k < keys.len()
        invariant
            k <= keys@.len(),
            kv == keys.deep_view(),
            out@ == before_keys + spec_keys_text(kv.take(k as int)),
        decreases keys.len() - k,
    {
        assert(kv.take(k + 1).drop_last() =~= kv.take(k as int));
        assert(kv[k as int] == keys@[k as int]@);
        if k == 0 {
            push_str(out, "inline:");
            assert(kv.take(1)[0] == kv[0]);
        } else {
            push_str(out, ";inline:");
        }
        push_str(out, keys[k].as_str());
        k = k + 1;
    }
    assert(kv.take(k as int) =~= kv);
}

fn push_crypto_line(out: &mut String, c: &SrtpCrypto)
    ensures
        final(out)@ == old(out)@ + spec_crypto_line(c@),
{
    let ghost s0 = out@;
    push_str(out, "a=crypto:");
    push_decimal(out, c.tag as u64);
    push_str(out, " ");
    push_str(out, suite_name(c.suite));
    push_str(out, " ");
    push_keys(out, &c.keys);
    push_crlf(out);
    assert(out@ =~= s0 + spec_crypto_line(c@));
}

fn push_cryptos(out: &mut String, m: &MediaDescription)
    ensures
        final(out)@ == old(out)@ + spec_crypto_lines(m@.crypto),
{
    let ghost before_crypto = out@;
    let mut i: usize = 0;
    while i < m.crypto.len()
        invariant
            i <= m.crypto@.len(),
            out@ == before_crypto + spec_crypto_lines(m@.crypto.take(i as int)),
        decreases m.crypto.len() - i,
    {
        assert(m@.crypto.take(i + 1).drop_last() =~= m@.crypto.take(i as int));
        assert(m@.crypto[i as int] == m.crypto@[i as int]@);
        push_crypto_line(out, &m.crypto[i]);
        i = i + 1;
    }
    assert(m@.crypto.take(i as int) =~= m@.crypto);
}

fn push_media(out: &mut String, m: &MediaDescription)
    ensures
        final(out)@ == old(out)@ + spec_media_text(m@),
{
    let ghost s0 = out@;
    push_m_line(out, m);
    push_conn_line(out, &m.connection);
    push_bandwidths(out, m);
    push_rtcp_and_direction(out, m);
    push_rtpmaps(out, m);
    push_fmtps(out, m);
    push_cryptos(out, m);
    assert(out@ =~= s0 + spec_media_text(m@));
}

fn push_origin_line(out: &mut String, o: Option<Origin>)
    ensures
        final(out)@ == old(out)@ + spec_origin_line(o),
{
    let ghost start = out@;
    match o {
        Some(o) => {
            push_str(out, "o=- ");
            push_decimal(out, o.session_id);
            push_str(out, " ");
            push_decimal(out, o.session_version);
            push_str(out, " ");
            push_ip_addr(out, o.address);
            push_crlf(out);
        },
        None => {},
    }
    assert(out@ =~= start + spec_origin_line(o));
}

/// Writes a description as SDP text.
pub fn sdp_text(d: &SessionDescription) -> (r: String)
    ensures
        r@ == spec_sdp_text(d@),
{
    let mut out = String::new();
    let ghost s0 = out@;
    push_str(&mut out, "v=0");
    push_crlf(&mut out);
    push_origin_line(&mut out, d.origin);
    push_str(&mut out, "s=");
    push_str(&mut out, d.name.as_str());
    push_crlf(&mut out);
    push_conn_line(&mut out, &d.connection);
    push_str(&mut out, "t=0 0");
    push_crlf(&mut out);
    let ghost before = out@;
    assert(before =~= s0 + ("v=0"@ + crlf() + spec_origin_line(d@.origin) + "s="@ + d@.name + crlf()
        + spec_conn_line(d@.connection) + "t=0 0"@ + crlf()));
    let ghost mv = d@.media_descriptions;
    let mut i: usize = 0;
    while i < d.media_descriptions.len()
        invariant
            i <= d.media_descriptions@.len(),
            mv == d@.media_descriptions,
            out@ == before + spec_media_sections(mv.take(i as int)),
        decreases d.media_descriptions.len() - i,
    {
        assert(mv.take(i + 1).drop_last() =~= mv.take(i as int));
        assert(mv[i as int] == d.media_descriptions@[i as int]@);
        push_media(&mut out, &d.media_descriptions[i]);
        i = i + 1;
    }
    assert(mv.take(i as int) =~= mv);
    assert(out@ =~= spec_sdp_text(d@));
    out
}

} // verus!
