use wstunnel_server::tls::TlsContext;
use wstunnel_server::tunnel::{JwtTunnelConfig, LocalProtocol, TunnelError, TunnelKind};
use wstunnel_server::upgrade::{admit_upgrade, Rejection, ServerPolicy};

fn policy(prefixes: Option<&[&str]>, dests: Option<&[&str]>) -> ServerPolicy {
    let own = |l: &[&str]| l.iter().map(|s| s.to_string()).collect::<Vec<_>>();
    ServerPolicy {
        restrict_http_upgrade_path_prefix: prefixes.map(own),
        restrict_to: dests.map(own),
    }
}

fn claims(p: LocalProtocol, r: &str, rp: u16) -> JwtTunnelConfig {
    JwtTunnelConfig { id: "c1".to_string(), p, r: r.to_string(), rp }
}

#[test]
fn forward_tcp_happy_path() {
    let c = claims(LocalProtocol::Tcp, "127.0.0.1", 7000);
    let plan = admit_upgrade(&policy(None, None), true, "/events", Some(&c)).unwrap();
    assert_eq!(plan.kind, TunnelKind::ForwardTcp { connect_timeout_ms: 10_000 });
    assert_eq!(plan.host, "127.0.0.1");
    assert_eq!(plan.port, 7000);
}

#[test]
fn missing_token_is_refused() {
    let r = admit_upgrade(&policy(None, None), true, "/events", None);
    assert_eq!(r.unwrap_err(), Rejection::BadToken);
}

#[test]
fn non_upgrade_is_refused() {
    let c = claims(LocalProtocol::Tcp, "127.0.0.1", 7000);
    let r = admit_upgrade(&policy(None, None), false, "/events", Some(&c));
    assert_eq!(r.unwrap_err(), Rejection::NotUpgrade);
}

#[test]
fn upgrade_bad_path_prefix() {
    let c = claims(LocalProtocol::Tcp, "127.0.0.1", 7000);
    let p = policy(Some(&["v1"]), None);
    assert_eq!(admit_upgrade(&p, true, "/v2/events", Some(&c)).unwrap_err(), Rejection::BadPath);
    assert!(admit_upgrade(&p, true, "/v1/events", Some(&c)).is_ok());
    assert_eq!(admit_upgrade(&p, true, "/v1/event", Some(&c)).unwrap_err(), Rejection::BadPath);
}

#[test]
fn upgrade_disallowed_destination() {
    let p = policy(None, Some(&["a.example:80"]));
    let c = claims(LocalProtocol::Tcp, "b.example", 80);
    let r = admit_upgrade(&p, true, "/events", Some(&c)).unwrap_err();
    assert_eq!(r, Rejection::ForbiddenDestination);
    assert_eq!(r.status(), 400);
    assert_eq!(r.body(), "Invalid upgrade request");
    let c = claims(LocalProtocol::Tcp, "a.example", 80);
    assert!(admit_upgrade(&p, true, "/events", Some(&c)).is_ok());
}

#[test]
fn upgrade_dispatch_errors() {
    let p = policy(None, None);
    let c = claims(LocalProtocol::Stdio, "127.0.0.1", 80);
    let r = admit_upgrade(&p, true, "/events", Some(&c)).unwrap_err();
    assert_eq!(r, Rejection::Tunnel(TunnelError::UnsupportedProtocol));
    let c = claims(LocalProtocol::Tcp, "bad host", 80);
    let r = admit_upgrade(&p, true, "/events", Some(&c)).unwrap_err();
    assert_eq!(r, Rejection::Tunnel(TunnelError::InvalidHost));
    assert_eq!(r.status(), 400);
}

#[test]
fn tls_reload_swaps_acceptor() {
    let mut ctx = TlsContext::new(1u32);
    assert_eq!(*ctx.tls_acceptor(), 1);
    assert!(ctx.reload::<String>(Ok(2)));
    assert_eq!(*ctx.tls_acceptor(), 2);
}

#[test]
fn tls_reload_error_keeps_acceptor() {
    let mut ctx = TlsContext::new(1u32);
    assert!(!ctx.reload(Err("bad certificate".to_string())));
    assert_eq!(*ctx.tls_acceptor(), 1);
}
