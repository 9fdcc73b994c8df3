//! Tunnel requests carried by a verified token, and the dispatch decision that
//! maps a request onto one of the five local transports.

use vstd::prelude::*;
use base64::Engine;
use crate::text::{endpoint, endpoint_text};

verus! {

/// Session timeout of a forward UDP tunnel, and connect timeout of a forward
/// TCP tunnel, in milliseconds.
pub const DEFAULT_TIMEOUT_MS: u64 = 10_000;

/// The local protocol a token asks for. Timeouts are in milliseconds.
#[derive(Clone, Copy, Debug, PartialEq, Eq, Structural)]
pub enum LocalProtocol {
    Tcp,
    Udp { timeout_ms: Option<u64> },
    Stdio,
    Socks5 { timeout_ms: Option<u64> },
    TProxyTcp,
    TProxyUdp { timeout_ms: Option<u64> },
    ReverseTcp,
    ReverseUdp { timeout_ms: Option<u64> },
    ReverseSocks5,
}

/// The claims of a verified token: a tracing id, the protocol, and the
/// requested host and port.
#[derive(Clone, Debug)]
pub struct JwtTunnelConfig {
    pub id: String,
    pub p: LocalProtocol,
    pub r: String,
    pub rp: u16,
}

/// The transport a tunnel is served by.
#[derive(Clone, Copy, Debug, PartialEq, Eq, Structural)]
pub enum TunnelKind {
    /// Connect to the destination, giving up after `connect_timeout_ms`.
    ForwardTcp { connect_timeout_ms: u64 },
    /// A connected UDP stream that ends after `session_timeout_ms` of silence.
    ForwardUdp { session_timeout_ms: u64 },
    /// A shared TCP listener.
    ReverseTcp,
    /// A shared UDP listener, with the session timeout of the claims.
    ReverseUdp { timeout_ms: Option<u64> },
    /// A shared SOCKS5 listener.
    ReverseSocks5,
}

/// Why a tunnel could not be set up.
#[derive(Clone, Copy, Debug, PartialEq, Eq, Structural)]
pub enum TunnelError {
    /// The requested host is neither a domain name nor an IP literal.
    InvalidHost,
    /// The claims ask for a protocol the server does not serve.
    UnsupportedProtocol,
    /// The shared reverse listener has ended.
    ListenerStopped,
}

/// What the dispatcher decided for a request.
#[derive(Clone, Debug)]
pub struct TunnelPlan {
    /// The protocol reported for the tunnel.
    pub protocol: LocalProtocol,
    pub kind: TunnelKind,
    /// The normal text of the requested host.
    pub host: String,
    pub port: u16,
    /// `host:port`, the address a reverse listener binds.
    pub listen: String,
}

/// The transport each served protocol maps to; `None` for the others.
pub open spec fn kind_of(p: LocalProtocol) -> Option<TunnelKind> {
    match p {
        LocalProtocol::Tcp => Some(TunnelKind::ForwardTcp { connect_timeout_ms: DEFAULT_TIMEOUT_MS }),
        LocalProtocol::Udp { timeout_ms } => Some(
            TunnelKind::ForwardUdp {
                session_timeout_ms: match timeout_ms {
                    Some(t) => t,
                    None => DEFAULT_TIMEOUT_MS,
                },
            },
        ),
        LocalProtocol::ReverseTcp => Some(TunnelKind::ReverseTcp),
        LocalProtocol::ReverseUdp { timeout_ms } => Some(TunnelKind::ReverseUdp { timeout_ms }),
        LocalProtocol::ReverseSocks5 => Some(TunnelKind::ReverseSocks5),
        _ => None,
    }
}

/// The protocol reported for a served tunnel: a forward UDP tunnel drops its
/// timeout, the others report the protocol of the claims.
pub open spec fn effective_protocol(p: LocalProtocol) -> LocalProtocol {
    match p {
        LocalProtocol::Udp { .. } => LocalProtocol::Udp { timeout_ms: None },
        _ => p,
    }
}

/// `plan` serves `claims`: the transport of its protocol, the normal text of
/// its host, its port, and the listen address built from both.
pub open spec fn plan_for(claims: JwtTunnelConfig, plan: TunnelPlan) -> bool {
    &&& Some(plan.kind) == kind_of(claims.p)
    &&& plan.protocol == effective_protocol(claims.p)
    &&& parsed_host(claims.r@) == Some(plan.host@)
    &&& plan.port == claims.rp
    &&& plan.listen@ == endpoint_text(plan.host@, plan.port)
}

/// The normal text of a host as the URL standard parses it (a lower-case
/// domain, a dotted IPv4 address, or a bracketed IPv6 address), or `None`
/// when the text is no valid host.
pub uninterp spec fn parsed_host(s: Seq<char>) -> Option<Seq<char>>;

/// Relies on `url::Host::parse` for whether `s` is a host, and on `Host`'s
/// `Display` for its normal text; both depend on `s` alone.
#[verifier::external_body]
fn parse_host(s: &str) -> (r: Option<String>)
    ensures
        match r {
            Some(h) => parsed_host(s@) == Some(h@),
            None => parsed_host(s@) is None,
        },
{
    match url::Host::parse(s) {
        Ok(h) => Some(h.to_string()),
        Err(_) => None,
    }
}

/// Decides how a request is served. Only the five served protocols are
/// dispatched, and only for a host that parses; the plan carries the normal
/// text of the host, the port of the claims, and the listen address built
/// from both.
pub fn run_tunnel(claims: &JwtTunnelConfig) -> (r: Result<TunnelPlan, TunnelError>)
    ensures
        kind_of(claims.p) is None ==> r == Err::<TunnelPlan, TunnelError>(
            TunnelError::UnsupportedProtocol,
        ),
        kind_of(claims.p) is Some && parsed_host(claims.r@) is None ==> r == Err::<
            TunnelPlan,
            TunnelError,
        >(TunnelError::InvalidHost),
        kind_of(claims.p) is Some && parsed_host(claims.r@) is Some ==> r is Ok,
        r matches Ok(plan) ==> plan_for(*claims, plan),
{
    let (kind, protocol) = match claims.p {
        LocalProtocol::Tcp => (
            TunnelKind::ForwardTcp { connect_timeout_ms: DEFAULT_TIMEOUT_MS },
            claims.p,
        ),
        LocalProtocol::Udp { timeout_ms } => {
            let t = match timeout_ms {
                Some(t) => t,
                None => DEFAULT_TIMEOUT_MS,
            };
            (TunnelKind::ForwardUdp { session_timeout_ms: t }, LocalProtocol::Udp { timeout_ms: None })
        },
        LocalProtocol::ReverseTcp => (TunnelKind::ReverseTcp, claims.p),
        LocalProtocol::ReverseUdp { timeout_ms } => (
            TunnelKind::ReverseUdp { timeout_ms },
            claims.p,
        ),
        LocalProtocol::ReverseSocks5 => (TunnelKind::ReverseSocks5, claims.p),
        _ => {
            return Err(TunnelError::UnsupportedProtocol);
        },
    };
    let host = match parse_host(claims.r.as_str()) {
        Some(h) => h,
        None => {
            return Err(TunnelError::InvalidHost);
        },
    };
    let listen = endpoint(host.as_str(), claims.rp);
    Ok(TunnelPlan { protocol, kind, host, port: claims.rp, listen })
}

/// The standard base64 text (with padding) of the UTF-8 bytes of `s`.
pub uninterp spec fn base64_standard(s: Seq<char>) -> Seq<char>;

/// Relies on `base64::engine::general_purpose::STANDARD.encode`, which
/// depends on its input alone and panics only when the output length
/// overflows `usize`.
#[verifier::external_body]
fn base64_encode(s: &str) -> (r: String)
    requires
        s@.len() <= usize::MAX / 8,
    ensures
        r@ == base64_standard(s@),
{
    base64::engine::general_purpose::STANDARD.encode(s)
}

/// `https://host:port`, the address a SOCKS5 client asked a reverse listener
/// to reach.
pub open spec fn cookie_url(host: Seq<char>, port: u16) -> Seq<char> {
    seq!['h', 't', 't', 'p', 's', ':', '/', '/'] + endpoint_text(host, port)
}

/// The `Cookie` header of a successful upgrade: for a reverse SOCKS5 tunnel,
/// the base64 text of `https://host:port` with the destination the SOCKS5
/// client asked for; no cookie for the other protocols.
pub fn response_cookie(protocol: LocalProtocol, host: &str, port: u16) -> (r: Option<String>)
    requires
        host@.len() <= usize::MAX / 16,
    ensures
        protocol == LocalProtocol::ReverseSocks5 <==> r is Some,
        r matches Some(c) ==> c@ == base64_standard(cookie_url(host@, port)),
{
    match protocol {
        LocalProtocol::ReverseSocks5 => {
            proof {
                reveal_strlit("https://");
            }
            let mut url = String::from_str("https://");
            let dest = endpoint(host, port);
            url.append(dest.as_str());
            proof {
                assert(url@ =~= cookie_url(host@, port));
                crate::text::lemma_decimal_len(port as nat);
            }
            Some(base64_encode(url.as_str()))
        },
        _ => None,
    }
}

} // verus!
