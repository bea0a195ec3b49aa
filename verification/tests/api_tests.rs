use vipertrade::api::{
    clamp_days, clamp_limit, SymbolPnlQuery, ensure_operator_token, is_enabled, map_bybit_side, resolve_bybit_rest_url,
    BybitClient, OperatorAuthError, WsClaims,
};
use vipertrade::rate_limit::{client_key, is_trusted_proxy, RateLimiter, RemoteAddr, RemoteIp};
use vipertrade::signing::bybit_sign;

#[test]
fn lib_clamp_limit_enforces_bounds() {
    assert_eq!(clamp_limit(None, 50), 50);
    assert_eq!(clamp_limit(Some(0), 50), 1);
    assert_eq!(clamp_limit(Some(10), 50), 10);
    assert_eq!(clamp_limit(Some(500), 50), 200);
}

#[test]
fn main_clamp_limit_enforces_bounds() {
    assert_eq!(clamp_limit(None, 50), 50);
    assert_eq!(clamp_limit(Some(0), 50), 1);
    assert_eq!(clamp_limit(Some(10), 50), 10);
    assert_eq!(clamp_limit(Some(500), 50), 200);
}

#[test]
fn clamp_limit_edges() {
    assert_eq!(clamp_limit(Some(1), 50), 1);
    assert_eq!(clamp_limit(Some(200), 50), 200);
    assert_eq!(clamp_limit(Some(201), 50), 200);
    assert_eq!(clamp_limit(None, 0), 1);
    assert_eq!(clamp_limit(None, u32::MAX), 200);
}

fn v4(a: u8, b: u8, c: u8, d: u8) -> RemoteAddr {
    RemoteAddr {
        ip: RemoteIp::V4(a, b, c, d),
        ip_text: format!("{a}.{b}.{c}.{d}"),
    }
}

#[test]
fn internal_proxy_is_trusted_for_the_forwarded_header() {
    assert_eq!(client_key(Some(&v4(10, 244, 0, 7)), Some("203.0.113.9")), "203.0.113.9");
}

#[test]
fn first_hop_in_the_chain_is_the_client() {
    assert_eq!(
        client_key(Some(&v4(172, 18, 0, 4)), Some("203.0.113.9, 10.244.0.7")),
        "203.0.113.9"
    );
}

#[test]
fn external_client_cannot_forge_its_identity() {
    assert_eq!(
        client_key(Some(&v4(198, 51, 100, 20)), Some("1.2.3.4")),
        "198.51.100.20"
    );
}

#[test]
fn falls_back_to_the_socket_when_there_is_no_header() {
    assert_eq!(client_key(Some(&v4(10, 244, 0, 7)), None), "10.244.0.7");
    assert_eq!(client_key(Some(&v4(10, 244, 0, 7)), Some("  ")), "10.244.0.7");
    assert_eq!(client_key(None, Some("1.2.3.4")), "unknown");
}

#[test]
fn trusted_proxy_ranges() {
    assert!(is_trusted_proxy(&RemoteIp::V4(10, 0, 0, 1)));
    assert!(is_trusted_proxy(&RemoteIp::V4(172, 16, 0, 1)));
    assert!(is_trusted_proxy(&RemoteIp::V4(172, 31, 255, 255)));
    assert!(!is_trusted_proxy(&RemoteIp::V4(172, 32, 0, 1)));
    assert!(is_trusted_proxy(&RemoteIp::V4(192, 168, 1, 1)));
    assert!(is_trusted_proxy(&RemoteIp::V4(127, 0, 0, 1)));
    assert!(!is_trusted_proxy(&RemoteIp::V4(8, 8, 8, 8)));
    assert!(is_trusted_proxy(&RemoteIp::V6([0, 0, 0, 0, 0, 0, 0, 1])));
    assert!(is_trusted_proxy(&RemoteIp::V6([0xfd12, 0, 0, 0, 0, 0, 0, 1])));
    assert!(!is_trusted_proxy(&RemoteIp::V6([0x2001, 0xdb8, 0, 0, 0, 0, 0, 1])));
}

#[test]
fn ipv6_peer_inside_the_cluster_reads_the_header() {
    let peer = RemoteAddr {
        ip: RemoteIp::V6([0, 0, 0, 0, 0, 0, 0, 1]),
        ip_text: "::1".to_string(),
    };
    assert_eq!(client_key(Some(&peer), Some(" 198.51.100.1 ,x")), "198.51.100.1");
    let outside = RemoteAddr {
        ip: RemoteIp::V6([0x2001, 0xdb8, 0, 0, 0, 0, 0, 1]),
        ip_text: "2001:db8::1".to_string(),
    };
    assert_eq!(client_key(Some(&outside), Some("1.2.3.4")), "2001:db8::1");
}

#[test]
fn rate_limiter_admits_up_to_the_limit_per_window() {
    let mut rl = RateLimiter::new(2, 10);
    assert!(rl.check_and_consume("a", 20_000));
    assert!(rl.check_and_consume("a", 21_000));
    assert!(!rl.check_and_consume("a", 22_000));
    // Another key has its own bucket.
    assert!(rl.check_and_consume("b", 22_000));
    // Ten seconds later the oldest request has left the window.
    assert!(rl.check_and_consume("a", 30_500));
    assert!(!rl.check_and_consume("a", 30_600));
    assert!(rl.check_and_consume("a", 31_100));
}

#[test]
fn rate_limiter_with_zero_budget_refuses_everything() {
    let mut rl = RateLimiter::new(0, 60);
    assert!(!rl.check_and_consume("a", 100_000));
    assert!(!rl.check_and_consume("a", 200_000));
}

#[test]
fn operator_token_rules() {
    assert_eq!(ensure_operator_token("TOKEN", Some("s3cret"), Some("s3cret")), Ok(()));
    assert_eq!(
        ensure_operator_token("none", Some("s3cret"), Some("s3cret")),
        Err(OperatorAuthError::ModeNotToken)
    );
    assert_eq!(
        ensure_operator_token("token", None, Some("s3cret")),
        Err(OperatorAuthError::NoTokenConfigured)
    );
    assert_eq!(
        ensure_operator_token("token", Some("s3cret"), Some("other")),
        Err(OperatorAuthError::InvalidToken)
    );
    assert_eq!(
        ensure_operator_token("token", Some("s3cret"), None),
        Err(OperatorAuthError::InvalidToken)
    );
}

#[test]
fn operator_auth_error_replies() {
    assert_eq!(OperatorAuthError::ModeNotToken.status(), 403);
    assert_eq!(OperatorAuthError::NoTokenConfigured.status(), 403);
    assert_eq!(OperatorAuthError::InvalidToken.status(), 401);
    assert_eq!(OperatorAuthError::ModeNotToken.code(), "auth_not_configured");
    assert_eq!(OperatorAuthError::InvalidToken.code(), "invalid_token");
    assert_eq!(
        OperatorAuthError::ModeNotToken.message(),
        "operator auth mode is not configured for token controls"
    );
    assert_eq!(
        OperatorAuthError::NoTokenConfigured.message(),
        "operator control auth is not configured"
    );
    assert_eq!(
        OperatorAuthError::InvalidToken.message(),
        "missing or invalid operator token"
    );
}

#[test]
fn bybit_side_labels() {
    assert_eq!(map_bybit_side(Some(" Buy ")), "LONG");
    assert_eq!(map_bybit_side(Some("SELL")), "SHORT");
    assert_eq!(map_bybit_side(Some("none")), "NONE");
    assert_eq!(map_bybit_side(Some("  ")), "UNKNOWN");
    assert_eq!(map_bybit_side(None), "UNKNOWN");
}

#[test]
fn rest_url_resolution() {
    assert_eq!(
        resolve_bybit_rest_url(Some(" https://proxy.local/// "), Some("mainnet")),
        "https://proxy.local"
    );
    assert_eq!(resolve_bybit_rest_url(None, Some("testnet")), "https://api-testnet.bybit.com");
    assert_eq!(resolve_bybit_rest_url(Some(""), Some("paper")), "https://api.bybit.com");
    assert_eq!(resolve_bybit_rest_url(None, None), "https://api.bybit.com");
}

#[test]
fn bybit_client_defaults_and_signature() {
    let c = BybitClient::from_values(Some("key"), Some("secret"), None, None);
    assert_eq!(c.recv_window, "5000");
    assert_eq!(c.base_url, "https://api.bybit.com");
    assert!(c.is_configured());
    let sig = c.compute_signature("1700000000000", "category=linear").expect("sign");
    let expected = bybit_sign("secret", "1700000000000key5000category=linear").expect("sign");
    assert_eq!(sig, expected);
    let unset = BybitClient::from_values(None, Some("secret"), Some(""), Some("http://x"));
    assert!(!unset.is_configured());
    assert_eq!(unset.recv_window, "5000");
    assert_eq!(unset.base_url, "http://x");
}

#[test]
fn ws_claims_expire_after_ttl() {
    let c = WsClaims::new("web-ui", 1_000, 300);
    assert_eq!(c.sub, "web-ui");
    assert_eq!(c.iat, 1_000);
    assert_eq!(c.exp, 1_300);
    assert!(is_enabled(Some("k")));
    assert!(!is_enabled(None));
}

#[test]
fn look_back_windows_are_clamped() {
    assert_eq!(clamp_days(None, 7), 7);
    assert_eq!(clamp_days(Some(0), 7), 1);
    assert_eq!(clamp_days(Some(400), 7), 365);
    assert_eq!(clamp_days(Some(30), 7), 30);
    assert_eq!(SymbolPnlQuery { days: None }.window_days(), 14);
    assert_eq!(SymbolPnlQuery { days: Some(-5) }.window_days(), 1);
}
