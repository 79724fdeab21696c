//! The SIP endpoint's own decisions: the URIs it registers and answers
//! with, the STUN server it asks, how it reacts to a REGISTER response, and
//! the name it gives a caller.
use crate::net::{IpAddress, SocketAddress};
use crate::settings::{DisplayNameSource, SipSettings};
use crate::text::push_str;
use vstd::prelude::*;

verus! {

pub open spec fn sip_prefix() -> Seq<char> {
    seq!['s', 'i', 'p', ':']
}

pub open spec fn sips_prefix() -> Seq<char> {
    seq!['s', 'i', 'p', 's', ':']
}

pub open spec fn spec_starts_with(s: Seq<char>, prefix: Seq<char>) -> bool {
    prefix.len() <= s.len() && s.take(prefix.len() as int) == prefix
}

/// `str::trim_start_matches` with a non-empty pattern: every leading copy
/// of the pattern is removed.
pub open spec fn trim_start_matches(s: Seq<char>, prefix: Seq<char>) -> Seq<char>
    decreases s.len(),
{
    if prefix.len() > 0 && spec_starts_with(s, prefix) {
        trim_start_matches(s.skip(prefix.len() as int), prefix)
    } else {
        s
    }
}

/// A SIP URI as written: with its scheme where it has one, else with
/// `sip:` put in front.
pub open spec fn spec_maybe_add_sip_scheme(i: Seq<char>) -> Seq<char> {
    if spec_starts_with(i, sip_prefix()) || spec_starts_with(i, sips_prefix()) {
        i
    } else {
        sip_prefix() + i
    }
}

/// Whether `s` begins with `prefix`.
pub fn starts_with(s: &str, prefix: &str) -> (r: bool)
    ensures
        r == spec_starts_with(s@, prefix@),
{
    let n = prefix.unicode_len();
    if n > s.unicode_len() {
        return false;
    }
    let mut i: usize = 0;
    while i < n
        invariant
            n == prefix@.len(),
            n <= s@.len(),
            i <= n,
            forall|j: int| 0 <= j < i ==> s@[j] == prefix@[j],
        decreases n - i,
    {
        if s.get_char(i) != prefix.get_char(i) {
            assert(s@.take(n as int)[i as int] != prefix@[i as int]);
            return false;
        }
        i = i + 1;
    }
    assert(s@.take(n as int) =~= prefix@);
    true
}

fn copy_str(s: &str) -> (r: String)
    ensures
        r@ == s@,
{
    let mut out = String::new();
    push_str(&mut out, s);
    assert(Seq::<char>::empty() + s@ =~= s@);
    out
}

/// The registrar or outbound proxy as a SIP URI: `sip:` is put in front
/// unless it starts with `sip:` or `sips:`.
pub fn maybe_add_sip_scheme(i: &str) -> (r: String)
    ensures
        r@ == spec_maybe_add_sip_scheme(i@),
{
    proof {
        reveal_strlit("sip:");
        reveal_strlit("sips:");
        assert("sip:"@ =~= sip_prefix());
        assert("sips:"@ =~= sips_prefix());
    }
    if starts_with(i, "sip:") || starts_with(i, "sips:") {
        copy_str(i)
    } else {
        let mut out = String::new();
        push_str(&mut out, "sip:");
        push_str(&mut out, i);
        assert(Seq::<char>::empty() + sip_prefix() =~= sip_prefix());
        out
    }
}

/// `str::trim_start_matches` for a non-empty pattern.
pub fn trim_start_matches_str(s: &str, prefix: &str) -> (r: String)
    requires
        prefix@.len() > 0,
    ensures
        r@ == trim_start_matches(s@, prefix@),
{
    let n = s.unicode_len();
    let m = prefix.unicode_len();
    let mut start: usize = 0;
    let ghost mut rest = s@;
    while m <= n - start && starts_at(s, start, prefix)
        invariant
            n == s@.len(),
            m == prefix@.len(),
            m > 0,
            start <= n,
            rest == s@.skip(start as int),
            trim_start_matches(s@, prefix@) == trim_start_matches(rest, prefix@),
        decreases n - start,
    {
        proof {
            assert(spec_starts_with(rest, prefix@)) by {
                assert(rest.take(m as int) =~= s@.subrange(start as int, start + m));
            }
            assert(rest.skip(m as int) =~= s@.skip(start + m));
            rest = rest.skip(m as int);
        }
        start = start + m;
    }
    proof {
        if m <= n - start {
            assert(!spec_starts_with(rest, prefix@)) by {
                assert(rest.take(m as int) =~= s@.subrange(start as int, start + m));
            }
        } else {
            assert(rest.len() < m);
        }
    }
    let out = copy_str(s.substring_char(start, n));
    assert(rest =~= s@.subrange(start as int, n as int));
    out
}

/// Whether `prefix` stands in `s` at char position `start`.
fn starts_at(s: &str, start: usize, prefix: &str) -> (r: bool)
    requires
        start + prefix@.len() <= s@.len(),
    ensures
        r == (s@.subrange(start as int, start + prefix@.len()) == prefix@),
{
    let m = prefix.unicode_len();
    let n = s.unicode_len();
    let mut i: usize = 0;
    while i < m
        invariant
            m == prefix@.len(),
            n == s@.len(),
            start + m <= n,
            i <= m,
            forall|j: int| 0 <= j < i ==> s@[start + j] == prefix@[j],
        decreases m - i,
    {
        if s.get_char(start + i) != prefix.get_char(i) {
            assert(s@.subrange(start as int, start + m)[i as int] != prefix@[i as int]);
            return false;
        }
        i = i + 1;
    }
    assert(s@.subrange(start as int, start + m) =~= prefix@);
    true
}

/// `sip:user@host`, or `sip:host` without a user.
pub open spec fn spec_sip_uri(username: Option<Seq<char>>, host: Seq<char>) -> Seq<char> {
    match username {
        Some(u) => sip_prefix() + u + seq!['@'] + host,
        None => sip_prefix() + host,
    }
}

pub open spec fn opt_view(s: Option<String>) -> Option<Seq<char>> {
    match s {
        Some(x) => Some(x@),
        None => None,
    }
}

/// The host the bridge names itself by: the registrar without its scheme,
/// or else its public address.
pub open spec fn spec_id_host(sip: SipSettings, pub_addr: Seq<char>) -> Seq<char> {
    match sip.registrar {
        Some(r) => trim_start_matches(trim_start_matches(r.registrar@, sip_prefix()), sips_prefix()),
        None => pub_addr,
    }
}

/// The text of the bridge's SIP identity: the configured one, or one made
/// of the username and the registrar's host (or the public address).
pub open spec fn spec_id_uri(sip: SipSettings, pub_addr: Seq<char>) -> Seq<char> {
    match sip.id {
        Some(id) => id@,
        None => spec_sip_uri(opt_view(sip.username), spec_id_host(sip, pub_addr)),
    }
}

/// The text of the bridge's contact: the configured one, or one made of the
/// username and the public address.
pub open spec fn spec_contact_uri(sip: SipSettings, pub_addr: Seq<char>) -> Seq<char> {
    match sip.contact {
        Some(c) => c@,
        None => spec_sip_uri(opt_view(sip.username), pub_addr),
    }
}

/// Where neither an identity nor a registrar is configured, the identity is
/// generated just as the contact is.
pub proof fn lemma_id_without_registrar_is_contact(sip: SipSettings, pub_addr: Seq<char>)
    requires
        sip.id is None,
        sip.registrar is None,
        sip.contact is None,
    ensures
        spec_id_uri(sip, pub_addr) == spec_contact_uri(sip, pub_addr),
{
}

fn sip_uri(username: &Option<String>, host: &str) -> (r: String)
    ensures
        r@ == spec_sip_uri(opt_view(*username), host@),
{
    proof {
        reveal_strlit("sip:");
        reveal_strlit("@");
    }
    let mut out = String::new();
    push_str(&mut out, "sip:");
    match username {
        Some(u) => {
            push_str(&mut out, u.as_str());
            push_str(&mut out, "@");
        },
        None => {},
    }
    push_str(&mut out, host);
    assert(Seq::<char>::empty() + sip_prefix() =~= sip_prefix());
    out
}

/// The text of the bridge's SIP identity (`id` of the configuration, else
/// generated); `pub_addr` is the public address as text.
pub fn generate_id_uri(sip: &SipSettings, pub_addr: &str) -> (r: String)
    ensures
        r@ == spec_id_uri(*sip, pub_addr@),
{
    match &sip.id {
        Some(id) => copy_str(id.as_str()),
        None => {
            let host = match &sip.registrar {
                Some(r) => {
                    proof {
                        reveal_strlit("sip:");
                        reveal_strlit("sips:");
                        assert("sip:"@ =~= sip_prefix());
                        assert("sips:"@ =~= sips_prefix());
                    }
                    let a = trim_start_matches_str(r.registrar.as_str(), "sip:");
                    trim_start_matches_str(a.as_str(), "sips:")
                },
                None => copy_str(pub_addr),
            };
            sip_uri(&sip.username, host.as_str())
        },
    }
}

/// The text of the bridge's contact URI (`contact` of the configuration,
/// else generated); `pub_addr` is the public address as text.
pub fn generate_contact_uri(sip: &SipSettings, pub_addr: &str) -> (r: String)
    ensures
        r@ == spec_contact_uri(*sip, pub_addr@),
{
    match &sip.contact {
        Some(c) => copy_str(c.as_str()),
        None => sip_uri(&sip.username, pub_addr),
    }
}

/// The STUN server as `host:port`, with the STUN port 3478 where it names
/// none.
pub open spec fn spec_stun_server_with_port(s: Seq<char>) -> Seq<char> {
    if s.contains(':') {
        s
    } else {
        s + seq![':', '3', '4', '7', '8']
    }
}

pub fn stun_server_with_port(s: &str) -> (r: String)
    ensures
        r@ == spec_stun_server_with_port(s@),
{
    let n = s.unicode_len();
    let mut i: usize = 0;
    while i < n
        invariant
            n == s@.len(),
            i <= n,
            forall|j: int| 0 <= j < i ==> s@[j] != ':',
        decreases n - i,
    {
        if s.get_char(i) == ':' {
            assert(s@[i as int] == ':');
            return copy_str(s);
        }
        i = i + 1;
    }
    proof {
        reveal_strlit(":3478");
    }
    let mut out = copy_str(s);
    push_str(&mut out, ":3478");
    out
}

/// How the bridge learns the address it is reached at.
#[derive(Debug)]
pub enum PubAddrAction {
    /// Ask this STUN server (`host:port`) through the UDP transport
    QueryStun(String),
    /// Use the configured inbound address
    UseInbound(SocketAddress),
    /// Resolve the address the SIP transports are bound to
    ResolveBind,
}

/// Where a STUN server is configured, `inbound_addr` is ignored: the STUN
/// server is asked through the UDP transport, or, where no UDP transport is
/// bound, the bound address is resolved. Without a STUN server,
/// `inbound_addr` is used where configured, otherwise the bound address.
pub fn public_address_action(sip: &SipSettings, udp_bound: bool) -> (r: PubAddrAction)
    ensures
        match (sip.stun_server, sip.inbound_addr) {
            (Some(s), _) => if udp_bound {
                r matches PubAddrAction::QueryStun(t) && t@ == spec_stun_server_with_port(s@)
            } else {
                r is ResolveBind
            },
            (None, Some(a)) => r == PubAddrAction::UseInbound(a),
            (None, None) => r is ResolveBind,
        },
{
    match &sip.stun_server {
        Some(s) => {
            if udp_bound {
                PubAddrAction::QueryStun(stun_server_with_port(s.as_str()))
            } else {
                PubAddrAction::ResolveBind
            }
        },
        None => match sip.inbound_addr {
            Some(a) => PubAddrAction::UseInbound(a),
            None => PubAddrAction::ResolveBind,
        },
    }
}

/// The IP address announced for media: `inbound_media_ip` where configured,
/// otherwise that of the public address.
pub fn media_ip(inbound_media_ip: Option<IpAddress>, pub_addr: SocketAddress) -> (r: IpAddress)
    ensures
        r == match inbound_media_ip {
            Some(i) => i,
            None => pub_addr.ip,
        },
{
    match inbound_media_ip {
        Some(i) => i,
        None => pub_addr.ip,
    }
}

/// What to do with the final response to a REGISTER request.
#[derive(Debug, Clone, Copy, PartialEq, Eq, Structural)]
pub enum RegisterResponseAction {
    /// 2xx: the binding holds (or is removed)
    Registered,
    /// 401 or 407: answer the challenge and send again
    Authenticate,
    /// Another 4xx while registering: let the registration take the error
    /// response and send again if it can go on
    RetryAfterError,
    /// Anything else: registration failed
    Fail,
}

pub open spec fn spec_register_response_action(code: u16, remove_binding: bool) -> RegisterResponseAction {
    if 200 <= code <= 299 {
        RegisterResponseAction::Registered
    } else if code == 401 || code == 407 {
        RegisterResponseAction::Authenticate
    } else if 400 <= code <= 499 && !remove_binding {
        RegisterResponseAction::RetryAfterError
    } else {
        RegisterResponseAction::Fail
    }
}

pub fn register_response_action(code: u16, remove_binding: bool) -> (r: RegisterResponseAction)
    ensures
        r == spec_register_response_action(code, remove_binding),
{
    if 200 <= code && code <= 299 {
        RegisterResponseAction::Registered
    } else if code == 401 || code == 407 {
        RegisterResponseAction::Authenticate
    } else if 400 <= code && code <= 499 && !remove_binding {
        RegisterResponseAction::RetryAfterError
    } else {
        RegisterResponseAction::Fail
    }
}

/// The parts of a caller's URI that can name it.
#[derive(Debug)]
pub struct CallerUri {
    /// The display name of the name-addr, if any
    pub display_name: Option<String>,
    /// The user part, if it is a plain user (no password)
    pub user: Option<String>,
}

pub open spec fn spec_caller_name(uri: CallerUri) -> Option<Seq<char>> {
    match uri.display_name {
        Some(n) => Some(n@),
        None => opt_view(uri.user),
    }
}

/// The caller's name, from the header the configuration chooses: its
/// display name, else its user part.
pub fn caller_name(source: DisplayNameSource, contact: &CallerUri, from: &CallerUri) -> (r: Option<String>)
    ensures
        opt_view(r) == spec_caller_name(
            match source {
                DisplayNameSource::Contact => *contact,
                DisplayNameSource::From => *from,
            },
        ),
{
    let uri = match source {
        DisplayNameSource::Contact => contact,
        DisplayNameSource::From => from,
    };
    match &uri.display_name {
        Some(n) => Some(copy_str(n.as_str())),
        None => match &uri.user {
            Some(u) => Some(copy_str(u.as_str())),
            None => None,
        },
    }
}

pub open spec fn spec_contains_text(hay: Seq<char>, needle: Seq<char>) -> bool {
    exists|i: int| 0 <= i && i + needle.len() <= hay.len() && #[trigger] hay.subrange(i, i + needle.len()) == needle
}

/// Whether `needle` occurs in `hay`.
pub fn contains_text(hay: &str, needle: &str) -> (r: bool)
    ensures
        r == spec_contains_text(hay@, needle@),
{
    let n = hay.unicode_len();
    let m = needle.unicode_len();
    if m > n {
        proof {
            assert forall|i: int| 0 <= i && i + m <= n implies #[trigger] hay@.subrange(i, i + m) != needle@ by {}
        }
        return false;
    }
    if m == 0 {
        assert(hay@.subrange(0int, 0int + needle@.len()) =~= needle@);
        return true;
    }
    let mut i: usize = 0;
    while i <= n - m
        invariant
            m > 0,
            n == hay@.len(),
            m == needle@.len(),
            m <= n,
            i <= n - m + 1,
            forall|j: int| 0 <= j < i ==> #[trigger] hay@.subrange(j, j + m) != needle@,
        decreases n - m + 1 - i,
    {
        if starts_at(hay, i, needle) {
            assert(hay@.subrange(i as int, i + needle@.len()) == needle@);
            return true;
        }
        i = i + 1;
    }
    proof {
        assert forall|j: int| 0 <= j && j + m <= n implies #[trigger] hay@.subrange(j, j + m) != needle@ by {
            assert(j < i);
        }
    }
    false
}

/// What an INFO request inside a call asks for.
#[derive(Debug, Clone, Copy, PartialEq, Eq, Structural)]
pub enum InfoRequest {
    /// Not of the media control protocol: left unanswered
    NotMediaControl,
    /// Media control, but not a request for a full picture: 404
    Other,
    /// A request for a full picture
    PictureFastUpdate,
}

pub open spec fn spec_classify_info_request(content_type: Option<Seq<char>>, body: Option<Seq<char>>) -> InfoRequest {
    let media_control = match content_type {
        Some(ct) => spec_starts_with(ct, "application/media_control"@),
        None => false,
    };
    if !media_control {
        InfoRequest::NotMediaControl
    } else if match body {
        Some(b) => spec_contains_text(b, "picture_fast_update"@),
        None => false,
    } {
        InfoRequest::PictureFastUpdate
    } else {
        InfoRequest::Other
    }
}

/// Classifies an INFO request by its content type and its body as text
/// (`None` where either is missing, or the body is not UTF-8).
pub fn classify_info_request(content_type: Option<&str>, body: Option<&str>) -> (r: InfoRequest)
    ensures
        r == spec_classify_info_request(
            match content_type {
                Some(c) => Some(c@),
                None => None,
            },
            match body {
                Some(b) => Some(b@),
                None => None,
            },
        ),
{
    let media_control = match content_type {
        Some(ct) => starts_with(ct, "application/media_control"),
        None => false,
    };
    if !media_control {
        return InfoRequest::NotMediaControl;
    }
    let pfu = match body {
        Some(b) => contains_text(b, "picture_fast_update"),
        None => false,
    };
    if pfu {
        InfoRequest::PictureFastUpdate
    } else {
        InfoRequest::Other
    }
}

/// The status of the answer to an INFO request for a full picture: 200
/// once the video encoder has been told, 404 where it could not be.
pub fn picture_fast_update_status(notified: bool) -> (r: u16)
    ensures
        r == if notified { 200u16 } else { 404u16 },
{
    if notified {
        200
    } else {
        404
    }
}

/// What an INVITE's body asks of the bridge, by its `Content-Type`.
#[derive(Debug, Clone, Copy, PartialEq, Eq, Structural)]
pub enum InviteBody {
    /// `application/sdp`: the body holds the caller's offer
    Offer,
    /// No `Content-Type`: the bridge makes the offer
    NoOffer,
    /// Any other content type: answered with 406 Not Acceptable
    NotAcceptable,
}

/// Classifies an INVITE's body by its `Content-Type` header, if any.
pub fn invite_body(content_type: Option<&str>) -> (r: InviteBody)
    ensures
        r == match content_type {
            None => InviteBody::NoOffer,
            Some(c) => if c@ == "application/sdp"@ {
                InviteBody::Offer
            } else {
                InviteBody::NotAcceptable
            },
        },
{
    match content_type {
        None => InviteBody::NoOffer,
        Some(c) => if crate::text::str_equals(c, "application/sdp") {
            InviteBody::Offer
        } else {
            InviteBody::NotAcceptable
        },
    }
}

} // verus!
