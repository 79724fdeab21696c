//! Calls into outside crates. Each function here is trusted: Verus believes
//! its contract, which says what the called crate does as far as its source
//! and documentation show it.
use base64::Engine;
use rand::seq::IteratorRandom;
use rand::RngCore;
use crate::net::IpAddress;
use crate::sdp_parse::{RawAttribute, RawBandwidth, RawMedia, RawSession, RawSessionV};
use std::str::FromStr;
use vstd::prelude::*;

verus! {

/// What `h264_profile_level_id::ProfileLevelId::from_str` gives for a
/// `profile-level-id` value: the discriminants of the parsed `Profile` and
/// `Level`, or `None` where the value is refused.
pub uninterp spec fn spec_profile_level_id(text: Seq<char>) -> Option<(u8, u8)>;

/// The discriminants of `h264_profile_level_id::Profile`.
pub open spec fn is_profile_code(p: u8) -> bool {
    1 <= p <= 6
}

/// The discriminants of `h264_profile_level_id::Level`.
pub open spec fn is_level_code(l: u8) -> bool {
    l == 0 || (10 <= l <= 13) || (20 <= l <= 22) || (30 <= l <= 32) || (40 <= l <= 42) || (50
        <= l <= 52)
}

/// Calls `ProfileLevelId::from_str` and gives the parsed profile and level as
/// their discriminants. Claimed: the result depends on the text alone, and the
/// codes are those the crate's two enums declare.
#[verifier::external_body]
pub(crate) fn parse_profile_level_id(text: &Vec<char>) -> (r: Option<(u8, u8)>)
    ensures
        r == spec_profile_level_id(text@),
        r matches Some((p, l)) ==> is_profile_code(p) && is_level_code(l),
{
    let s: String = text.iter().collect();
    match h264_profile_level_id::ProfileLevelId::from_str(&s) {
        Ok(id) => Some((id.profile() as u8, id.level() as u8)),
        Err(_) => None,
    }
}

/// What `base64::engine::general_purpose::STANDARD.encode` gives for bytes.
pub uninterp spec fn spec_base64_encode(bytes: Seq<u8>) -> Seq<char>;

/// What `base64::engine::general_purpose::STANDARD.decode` gives for a text:
/// the decoded bytes, or `None` where it reports an error.
pub uninterp spec fn spec_base64_decode(text: Seq<char>) -> Option<Seq<u8>>;

/// Calls `STANDARD.encode`. Claimed: the result depends on the bytes alone.
#[verifier::external_body]
pub(crate) fn base64_encode(bytes: &Vec<u8>) -> (r: String)
    ensures
        r@ == spec_base64_encode(bytes@),
{
    base64::engine::general_purpose::STANDARD.encode(bytes)
}

/// Calls `STANDARD.decode` on the text's bytes. Claimed: the result depends on
/// the text alone.
#[verifier::external_body]
pub(crate) fn base64_decode(text: &String) -> (r: Option<Vec<u8>>)
    ensures
        match r {
            Some(v) => spec_base64_decode(text@) == Some(v@),
            None => spec_base64_decode(text@) is None,
        },
{
    base64::engine::general_purpose::STANDARD.decode(text.as_bytes()).ok()
}

/// Fills a buffer of `len` bytes with `rand::rng().fill_bytes`. Claimed: the
/// buffer keeps its length; its contents are random and not stated.
#[verifier::external_body]
pub(crate) fn random_bytes(len: usize) -> (r: Vec<u8>)
    ensures
        r@.len() == len,
{
    let mut buf = vec![0u8; len];
    rand::rng().fill_bytes(&mut buf);
    buf
}

/// Calls `IteratorRandom::choose` with `rand::rng()` on the items. Claimed, as
/// its documentation says: `None` exactly when there are no items, otherwise
/// one of them; which one is random and not stated.
#[verifier::external_body]
pub(crate) fn choose_random(items: Vec<u16>) -> (r: Option<u16>)
    ensures
        r is None <==> items@.len() == 0,
        r matches Some(x) ==> items@.contains(x),
{
    items.into_iter().choose(&mut rand::rng())
}

/// `String::push`, which vstd leaves without a specification: as its
/// documentation says, it appends the character to the end of the string.
pub assume_specification[std::string::String::push](s: &mut String, ch: char)
    ensures
        final(s)@ == old(s)@.push(ch),
;

/// What `core::net::IpAddr::from_str` gives for a text: the address, with
/// an IPv4 address as its 32-bit and an IPv6 address as its 128-bit number,
/// or `None` where the text is not an address.
pub uninterp spec fn spec_parse_ip(text: Seq<char>) -> Option<IpAddress>;

/// Calls `IpAddr::from_str`. Claimed: the result depends on the text alone.
#[verifier::external_body]
pub(crate) fn parse_ip(text: &str) -> (r: Option<IpAddress>)
    ensures
        r == spec_parse_ip(text@),
{
    match core::net::IpAddr::from_str(text) {
        Ok(core::net::IpAddr::V4(a)) => Some(IpAddress::V4(u32::from(a))),
        Ok(core::net::IpAddr::V6(a)) => Some(IpAddress::V6(u128::from(a))),
        Err(_) => None,
    }
}

/// What `core::net::IpAddr`'s `Display` writes for an address.
pub uninterp spec fn spec_ip_text(ip: IpAddress) -> Seq<char>;

/// Formats the address with `core::net::IpAddr`'s `Display`. Claimed: the
/// text depends on the address alone.
#[verifier::external_body]
pub(crate) fn ip_text(ip: IpAddress) -> (r: String)
    ensures
        r@ == spec_ip_text(ip),
{
    match ip {
        IpAddress::V4(a) => format!("{}", core::net::IpAddr::V4(core::net::Ipv4Addr::from(a))),
        IpAddress::V6(a) => format!("{}", core::net::IpAddr::V6(core::net::Ipv6Addr::from(a))),
    }
}

/// What `sdp_types::Session::parse` (sdp-types 0.3.1) gives for a body, as
/// raw text fields: the session name, the address of the session's `c=`
/// line, and for each media section the fields of its `m=` line, the
/// addresses of its `c=` lines, its `b=` lines and its attributes in order.
/// `None` where the crate refuses the body. Nothing is said here of which
/// bodies it refuses: it is lax (lines other than `v=` may be missing, and
/// lines with unknown keys are skipped unread).
pub uninterp spec fn spec_parse_sdp(body: Seq<u8>) -> Option<RawSessionV>;

/// Calls `Session::parse` and copies the fields it gives into the raw
/// session. Claimed: the result depends on the body alone.
#[verifier::external_body]
pub(crate) fn parse_sdp(body: &Vec<u8>) -> (r: Option<RawSession>)
    ensures
        match r {
            Some(s) => spec_parse_sdp(body@) == Some(s@),
            None => spec_parse_sdp(body@) is None,
        },
{
    let s = sdp_types::Session::parse(body.as_slice()).ok()?;
    Some(RawSession {
        name: s.session_name,
        connection: s.connection.map(|c| c.connection_address),
        media: s.medias.into_iter().map(|m| RawMedia {
            media: m.media, port: m.port, proto: m.proto, fmt: m.fmt,
            connections: m.connections.into_iter().map(|c| c.connection_address).collect(),
            bandwidths: m.bandwidths.into_iter().map(|b| RawBandwidth { kind: b.bwtype, value: b.bandwidth }).collect(),
            attributes: m.attributes.into_iter().map(|a| RawAttribute { name: a.attribute, value: a.value }).collect(),
        }).collect(),
    })
}

} // verus!
