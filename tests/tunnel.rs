use base64::Engine;
use wstunnel_server::tunnel::{
    response_cookie, run_tunnel, JwtTunnelConfig, LocalProtocol, TunnelError, TunnelKind,
};

fn claims(p: LocalProtocol, r: &str, rp: u16) -> JwtTunnelConfig {
    JwtTunnelConfig { id: "id".to_string(), p, r: r.to_string(), rp }
}

#[test]
fn forward_tcp_plan() {
    let plan = run_tunnel(&claims(LocalProtocol::Tcp, "127.0.0.1", 7000)).unwrap();
    assert_eq!(plan.kind, TunnelKind::ForwardTcp { connect_timeout_ms: 10_000 });
    assert_eq!(plan.protocol, LocalProtocol::Tcp);
    assert_eq!(plan.host, "127.0.0.1");
    assert_eq!(plan.port, 7000);
    assert_eq!(plan.listen, "127.0.0.1:7000");
}

#[test]
fn forward_udp_default_and_given_timeout() {
    let plan = run_tunnel(&claims(LocalProtocol::Udp { timeout_ms: None }, "10.0.0.1", 53)).unwrap();
    assert_eq!(plan.kind, TunnelKind::ForwardUdp { session_timeout_ms: 10_000 });
    assert_eq!(plan.protocol, LocalProtocol::Udp { timeout_ms: None });
    let plan =
        run_tunnel(&claims(LocalProtocol::Udp { timeout_ms: Some(2_500) }, "10.0.0.1", 53)).unwrap();
    assert_eq!(plan.kind, TunnelKind::ForwardUdp { session_timeout_ms: 2_500 });
    assert_eq!(plan.protocol, LocalProtocol::Udp { timeout_ms: None });
}

#[test]
fn reverse_plans() {
    let plan = run_tunnel(&claims(LocalProtocol::ReverseTcp, "0.0.0.0", 0)).unwrap();
    assert_eq!(plan.kind, TunnelKind::ReverseTcp);
    assert_eq!(plan.listen, "0.0.0.0:0");
    let p = LocalProtocol::ReverseUdp { timeout_ms: Some(30_000) };
    let plan = run_tunnel(&claims(p, "127.0.0.1", 5353)).unwrap();
    assert_eq!(plan.kind, TunnelKind::ReverseUdp { timeout_ms: Some(30_000) });
    assert_eq!(plan.protocol, p);
    let plan = run_tunnel(&claims(LocalProtocol::ReverseSocks5, "127.0.0.1", 1080)).unwrap();
    assert_eq!(plan.kind, TunnelKind::ReverseSocks5);
    assert_eq!(plan.listen, "127.0.0.1:1080");
}

#[test]
fn host_is_normalised() {
    let plan = run_tunnel(&claims(LocalProtocol::Tcp, "Example.COM", 80)).unwrap();
    assert_eq!(plan.host, "example.com");
    assert_eq!(plan.listen, "example.com:80");
    let plan = run_tunnel(&claims(LocalProtocol::Tcp, "[::1]", 443)).unwrap();
    assert_eq!(plan.host, "[::1]");
    assert_eq!(plan.listen, "[::1]:443");
}

#[test]
fn invalid_host_is_refused() {
    let r = run_tunnel(&claims(LocalProtocol::Tcp, "bad host", 80));
    assert_eq!(r.unwrap_err(), TunnelError::InvalidHost);
    let r = run_tunnel(&claims(LocalProtocol::ReverseTcp, "", 80));
    assert_eq!(r.unwrap_err(), TunnelError::InvalidHost);
}

#[test]
fn unserved_protocols_are_refused() {
    for p in [
        LocalProtocol::Stdio,
        LocalProtocol::Socks5 { timeout_ms: None },
        LocalProtocol::TProxyTcp,
        LocalProtocol::TProxyUdp { timeout_ms: None },
    ] {
        let r = run_tunnel(&claims(p, "bad host", 80));
        assert_eq!(r.unwrap_err(), TunnelError::UnsupportedProtocol);
    }
}

#[test]
fn reverse_socks5_cookie() {
    let c = response_cookie(LocalProtocol::ReverseSocks5, "example.com", 443).unwrap();
    assert_eq!(c, "aHR0cHM6Ly9leGFtcGxlLmNvbTo0NDM=");
    let c = response_cookie(LocalProtocol::ReverseSocks5, "127.0.0.1", 1080).unwrap();
    assert_eq!(c, "aHR0cHM6Ly8xMjcuMC4wLjE6MTA4MA==");
}

#[test]
fn cookie_round_trips() {
    for (host, port) in [("example.com", 443u16), ("10.1.2.3", 0), ("[::1]", 65535)] {
        let c = response_cookie(LocalProtocol::ReverseSocks5, host, port).unwrap();
        let decoded = base64::engine::general_purpose::STANDARD.decode(c).unwrap();
        assert_eq!(String::from_utf8(decoded).unwrap(), format!("https://{}:{}", host, port));
    }
}

#[test]
fn no_cookie_for_other_protocols() {
    assert!(response_cookie(LocalProtocol::Tcp, "example.com", 443).is_none());
    assert!(response_cookie(LocalProtocol::ReverseTcp, "example.com", 443).is_none());
    assert!(response_cookie(LocalProtocol::Udp { timeout_ms: None }, "example.com", 443).is_none());
}
