//! Operator API rules: paging limits, side labels, the Bybit REST endpoint
//! and signed client, request/response shapes and WebSocket claims.
use vstd::prelude::*;
use vstd::string::*;
use vstd::utf8::encode_utf8;
use crate::config::{non_blank, opt_view, read_non_empty, TradingMode};
use crate::signing::{bybit_sign, hex_lower, hmac_sha256};
use crate::text::{
    ascii_lower, ascii_upper, chars_eq, chars_eq_str, chars_of, lower_chars, string_from_chars, trim,
    trim_chars, upper_chars,
};

verus! {

/// Page size: the requested limit (or the default) clamped to 1..=200.
pub fn clamp_limit(limit: Option<u32>, default_value: u32) -> (r: i64)
    ensures
        ({
            let raw = match limit {
                Some(l) => l,
                None => default_value,
            };
            r == if raw < 1 {
                1
            } else if raw > 200 {
                200
            } else {
                raw as int
            }
        }),
{
    let raw = match limit {
        Some(l) => l,
        None => default_value,
    };
    let c: u32 = if raw < 1 {
        1
    } else if raw > 200 {
        200
    } else {
        raw
    };
    c as i64
}

/// Position label of a Bybit side: Buy → LONG, Sell → SHORT (any case,
/// trimmed), another non-blank value uppercased, nothing → UNKNOWN.
pub open spec fn bybit_side_label(value: Option<Seq<char>>) -> Seq<char> {
    let n = ascii_lower(
        trim(
            match value {
                Some(v) => v,
                None => Seq::empty(),
            },
        ),
    );
    if n == "buy"@ {
        "LONG"@
    } else if n == "sell"@ {
        "SHORT"@
    } else if n.len() > 0 {
        ascii_upper(n)
    } else {
        "UNKNOWN"@
    }
}

pub fn map_bybit_side(value: Option<&str>) -> (r: String)
    ensures
        r@ == bybit_side_label(opt_view(value)),
{
    let c = match value {
        Some(v) => chars_of(v),
        None => Vec::new(),
    };
    let t = trim_chars(&c);
    let n = lower_chars(&t);
    if chars_eq_str(&n, "buy") {
        String::from_str("LONG")
    } else if chars_eq_str(&n, "sell") {
        String::from_str("SHORT")
    } else if n.len() > 0 {
        let u = upper_chars(&n);
        string_from_chars(&u)
    } else {
        String::from_str("UNKNOWN")
    }
}

/// Trailing `/` removed (as `trim_end_matches('/')`).
pub open spec fn trim_end_slashes(s: Seq<char>) -> Seq<char>
    decreases s.len(),
{
    if s.len() > 0 && s.last() == '/' {
        trim_end_slashes(s.drop_last())
    } else {
        s
    }
}

/// Bybit REST URL of the API: a non-blank `BYBIT_REST_URL` (trimmed, without
/// trailing slashes), else by trading mode.
pub fn resolve_bybit_rest_url(rest_url_raw: Option<&str>, mode_raw: Option<&str>) -> (r: String)
    ensures
        r@ == (match non_blank(opt_view(rest_url_raw)) {
            Some(u) => trim_end_slashes(u),
            None => if crate::config::mode_for(opt_view(mode_raw)) == TradingMode::Testnet {
                "https://api-testnet.bybit.com"@
            } else {
                "https://api.bybit.com"@
            },
        }),
{
    if let Some(u) = read_non_empty(rest_url_raw) {
        let c = chars_of(u.as_str());
        let mut end = c.len();
        assert(c@.take(end as int) == c@);
        while end > 0 && c[end - 1] == '/'
            invariant
                end <= c@.len(),
                trim_end_slashes(c@) == trim_end_slashes(c@.take(end as int)),
            decreases end,
        {
            assert(c@.take(end as int).drop_last() == c@.take(end - 1));
            end = end - 1;
        }
        let mut out: Vec<char> = Vec::new();
        for i in 0..end
            invariant
                end <= c@.len(),
                out@ == c@.take(i as int),
        {
            out.push(c[i]);
            assert(c@.take(i + 1) == c@.take(i as int).push(c@[i as int]));
        }
        assert(c@.take(c@.len() as int) == c@);
        return string_from_chars(&out);
    }
    let mode = TradingMode::from_label(mode_raw);
    let env = chars_of(mode.bybit_env());
    proof {
        reveal_strlit("mainnet");
        reveal_strlit("testnet");
        assert("mainnet"@[0] != "testnet"@[0]);
    }
    if chars_eq_str(&env, "mainnet") {
        String::from_str("https://api.bybit.com")
    } else {
        String::from_str("https://api-testnet.bybit.com")
    }
}

/// Bybit client of the API: credentials, receive window and base URL.
pub struct BybitClient {
    pub api_key: String,
    pub api_secret: String,
    pub recv_window: String,
    pub base_url: String,
}

pub open spec fn non_empty_or(o: Option<Seq<char>>, d: Seq<char>) -> Seq<char> {
    match o {
        Some(v) => if v.len() > 0 {
            v
        } else {
            d
        },
        None => d,
    }
}

fn non_empty_or_exec(o: Option<&str>, d: &str) -> (r: String)
    ensures
        r@ == non_empty_or(opt_view(o), d@),
{
    match o {
        Some(v) => {
            let c = chars_of(v);
            if c.len() > 0 {
                String::from_str(v)
            } else {
                String::from_str(d)
            }
        },
        None => String::from_str(d),
    }
}

impl BybitClient {
    /// `BYBIT_REST_URL` when non-empty, else mainnet.
    pub fn resolve_rest_url(rest_url_raw: Option<&str>) -> (r: String)
        ensures
            r@ == non_empty_or(opt_view(rest_url_raw), "https://api.bybit.com"@),
    {
        non_empty_or_exec(rest_url_raw, "https://api.bybit.com")
    }

    /// A client from the raw settings: key and secret as given (empty when
    /// unset), receive window `5000` unless set non-empty.
    pub fn from_values(
        api_key: Option<&str>,
        api_secret: Option<&str>,
        recv_window: Option<&str>,
        rest_url: Option<&str>,
    ) -> (r: Self)
        ensures
            r.api_key@ == non_empty_or(opt_view(api_key), Seq::empty()),
            r.api_secret@ == non_empty_or(opt_view(api_secret), Seq::empty()),
            r.recv_window@ == non_empty_or(opt_view(recv_window), "5000"@),
            r.base_url@ == non_empty_or(opt_view(rest_url), "https://api.bybit.com"@),
    {
        proof {
            reveal_strlit("");
        }
        BybitClient {
            api_key: non_empty_or_exec(api_key, ""),
            api_secret: non_empty_or_exec(api_secret, ""),
            recv_window: non_empty_or_exec(recv_window, "5000"),
            base_url: Self::resolve_rest_url(rest_url),
        }
    }

    /// Both key and secret are present.
    pub fn is_configured(&self) -> (r: bool)
        ensures
            r == (self.api_key@.len() > 0 && self.api_secret@.len() > 0),
    {
        let k = chars_of(self.api_key.as_str());
        let s = chars_of(self.api_secret.as_str());
        k.len() > 0 && s.len() > 0
    }

    /// Signature of a private request: hex HMAC-SHA256, under the secret, of
    /// timestamp, key, receive window and query string, concatenated.
    pub fn compute_signature(&self, timestamp: &str, query_string: &str) -> (r: Result<
        String,
        String,
    >)
        ensures
            match r {
                Ok(s) => s@ == hex_lower(
                    hmac_sha256(
                        encode_utf8(self.api_secret@),
                        encode_utf8(timestamp@ + self.api_key@ + self.recv_window@ + query_string@),
                    ),
                ),
                Err(_) => false,
            },
    {
        let mut payload = String::from_str(timestamp);
        payload.append(self.api_key.as_str());
        payload.append(self.recv_window.as_str());
        payload.append(query_string);
        match bybit_sign(self.api_secret.as_str(), payload.as_str()) {
            Ok(s) => Ok(s),
            Err(_) => Err(String::from_str("failed to initialize signature")),
        }
    }
}

/// Error body of the API.
pub struct ApiError {
    pub error: &'static str,
    pub message: String,
}

pub struct HealthResponse {
    pub status: &'static str,
    pub db_connected: bool,
}

pub struct KillSwitchRequest {
    pub enabled: bool,
    pub reason: Option<String>,
}

pub struct ExecutorControlRequest {
    pub enabled: bool,
    pub reason: Option<String>,
}

pub struct TradesQuery {
    pub limit: Option<u32>,
}

pub struct EventsQuery {
    pub limit: Option<u32>,
}

pub struct SymbolPnlQuery {
    pub days: Option<i64>,
}

pub struct DecisionsQuery {
    pub limit: Option<u32>,
}

/// Rejection of a rate-limited request.
pub struct RateLimited;

/// JWT claims of a WebSocket session.
pub struct WsClaims {
    /// Client identifier, e.g. "web-ui".
    pub sub: String,
    /// Issued at.
    pub iat: usize,
    /// Expiry.
    pub exp: usize,
}

impl WsClaims {
    /// Claims issued at `now` that expire `ttl_seconds` later.
    pub fn new(sub: &str, now: usize, ttl_seconds: u64) -> (r: WsClaims)
        requires
            now + ttl_seconds <= usize::MAX,
        ensures
            r.sub@ == sub@,
            r.iat == now,
            r.exp == now + ttl_seconds,
    {
        WsClaims { sub: String::from_str(sub), iat: now, exp: now + ttl_seconds as usize }
    }
}

/// Why a WebSocket request was rejected.
#[derive(Debug, Clone, Copy, PartialEq, Eq, Structural)]
pub enum AuthError {
    MissingToken,
    InvalidToken,
    ExpiredToken,
}

/// WebSocket auth is on exactly when `API_JWT_SECRET` is set.
pub fn is_enabled(secret: Option<&str>) -> (r: bool)
    ensures
        r == secret.is_some(),
{
    secret.is_some()
}

/// Why an operator control request was refused.
#[derive(Debug, Clone, Copy, PartialEq, Eq, Structural)]
pub enum OperatorAuthError {
    /// The operator auth mode is not `token` (any case): 403.
    ModeNotToken,
    /// No operator token is configured: 403.
    NoTokenConfigured,
    /// The request's token is missing or differs: 401.
    InvalidToken,
}

impl OperatorAuthError {
    /// HTTP status of the refusal.
    pub fn status(self) -> (r: u16)
        ensures
            r == (match self {
                OperatorAuthError::InvalidToken => 401u16,
                _ => 403u16,
            }),
    {
        match self {
            OperatorAuthError::InvalidToken => 401,
            _ => 403,
        }
    }

    /// Error code of the refusal.
    pub fn code(self) -> (r: &'static str)
        ensures
            r@ == (match self {
                OperatorAuthError::InvalidToken => "invalid_token"@,
                _ => "auth_not_configured"@,
            }),
    {
        match self {
            OperatorAuthError::InvalidToken => "invalid_token",
            _ => "auth_not_configured",
        }
    }

    /// Message of the refusal.
    pub fn message(self) -> (r: &'static str)
        ensures
            r@ == (match self {
                OperatorAuthError::ModeNotToken =>
                    "operator auth mode is not configured for token controls"@,
                OperatorAuthError::NoTokenConfigured => "operator control auth is not configured"@,
                OperatorAuthError::InvalidToken => "missing or invalid operator token"@,
            }),
    {
        match self {
            OperatorAuthError::ModeNotToken =>
                "operator auth mode is not configured for token controls",
            OperatorAuthError::NoTokenConfigured => "operator control auth is not configured",
            OperatorAuthError::InvalidToken => "missing or invalid operator token",
        }
    }
}

pub open spec fn operator_token_check(
    auth_mode: Seq<char>,
    configured: Option<Seq<char>>,
    presented: Option<Seq<char>>,
) -> Result<(), OperatorAuthError> {
    if ascii_lower(auth_mode) != "token"@ {
        Err(OperatorAuthError::ModeNotToken)
    } else {
        match configured {
            None => Err(OperatorAuthError::NoTokenConfigured),
            Some(t) => if presented == Some(t) {
                Ok(())
            } else {
                Err(OperatorAuthError::InvalidToken)
            },
        }
    }
}

/// Admits an operator control request: the auth mode must be `token` (any
/// case), a token must be configured, and the request must present exactly
/// that token.
pub fn ensure_operator_token(
    auth_mode: &str,
    configured_token: Option<&str>,
    token_header: Option<&str>,
) -> (r: Result<(), OperatorAuthError>)
    ensures
        r == operator_token_check(auth_mode@, opt_view(configured_token), opt_view(token_header)),
{
    let mode = lower_chars(&chars_of(auth_mode));
    if !chars_eq_str(&mode, "token") {
        return Err(OperatorAuthError::ModeNotToken);
    }
    match configured_token {
        None => Err(OperatorAuthError::NoTokenConfigured),
        Some(t) => match token_header {
            Some(h) => {
                let hc = chars_of(h);
                let tc = chars_of(t);
                if chars_eq(&hc, &tc) {
                    Ok(())
                } else {
                    Err(OperatorAuthError::InvalidToken)
                }
            },
            None => Err(OperatorAuthError::InvalidToken),
        },
    }
}

/// A look-back window in days: the requested one (or the default) clamped
/// to 1..=365.
pub fn clamp_days(days: Option<i64>, default_days: i64) -> (r: i64)
    ensures
        ({
            let raw = match days {
                Some(d) => d,
                None => default_days,
            };
            r == if raw < 1 {
                1
            } else if raw > 365 {
                365
            } else {
                raw
            }
        }),
{
    let raw = match days {
        Some(d) => d,
        None => default_days,
    };
    if raw < 1 {
        1
    } else if raw > 365 {
        365
    } else {
        raw
    }
}

impl SymbolPnlQuery {
    /// Days of closed trades the per-symbol PnL covers (14 by default).
    pub fn window_days(&self) -> (r: i64)
        ensures
            r == (match self.days {
                Some(d) => if d < 1 {
                    1
                } else if d > 365 {
                    365
                } else {
                    d
                },
                None => 14,
            }),
    {
        clamp_days(self.days, 14)
    }
}

} // verus!
