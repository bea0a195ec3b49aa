//! Event contracts shared by the services: schema version and the checks on
//! the identifying fields of market-signal and strategy-decision events.
use vstd::prelude::*;
use vstd::string::*;
use crate::text::{chars_eq_str, chars_of, trim, trim_chars};

verus! {

/// Version of the event contracts.
pub const SCHEMA_VERSION: &'static str = "1.0";

pub open spec fn blank(s: Seq<char>) -> bool {
    trim(s).len() == 0
}

fn is_blank(s: &str) -> (r: bool)
    ensures
        r == blank(s@),
{
    let c = chars_of(s);
    let t = trim_chars(&c);
    t.len() == 0
}

/// First failing check on a decision event's identifying fields: schema
/// version, event id, source event id, then the decision's action and
/// symbol.
pub open spec fn decision_envelope_error(
    schema_version: Seq<char>,
    event_id: Seq<char>,
    source_event_id: Seq<char>,
    action: Seq<char>,
    symbol: Seq<char>,
) -> Option<Seq<char>> {
    if schema_version != "1.0"@ {
        Some(
            "unsupported strategy decision schema_version '"@ + schema_version + "' expected '"@
                + "1.0"@ + "'"@,
        )
    } else if blank(event_id) {
        Some("strategy decision event_id is empty"@)
    } else if blank(source_event_id) {
        Some("strategy decision source_event_id is empty"@)
    } else if blank(action) {
        Some("strategy decision action is empty"@)
    } else if blank(symbol) {
        Some("strategy decision symbol is empty"@)
    } else {
        None
    }
}

/// Checks a decision event's identifying fields; the numeric fields of
/// the decision are checked after these.
pub fn validate_decision_envelope(
    schema_version: &str,
    event_id: &str,
    source_event_id: &str,
    action: &str,
    symbol: &str,
) -> (r: Result<(), String>)
    ensures
        match r {
            Ok(_) => decision_envelope_error(
                schema_version@,
                event_id@,
                source_event_id@,
                action@,
                symbol@,
            ).is_none(),
            Err(e) => decision_envelope_error(
                schema_version@,
                event_id@,
                source_event_id@,
                action@,
                symbol@,
            ) == Some(e@),
        },
{
    let v = chars_of(schema_version);
    if !chars_eq_str(&v, SCHEMA_VERSION) {
        let mut e = String::from_str("unsupported strategy decision schema_version '");
        e.append(schema_version);
        e.append("' expected '");
        e.append(SCHEMA_VERSION);
        e.append("'");
        return Err(e);
    }
    if is_blank(event_id) {
        return Err(String::from_str("strategy decision event_id is empty"));
    }
    if is_blank(source_event_id) {
        return Err(String::from_str("strategy decision source_event_id is empty"));
    }
    if is_blank(action) {
        return Err(String::from_str("strategy decision action is empty"));
    }
    if is_blank(symbol) {
        return Err(String::from_str("strategy decision symbol is empty"));
    }
    Ok(())
}

/// First failing check on a market-signal event's identifying fields:
/// schema version, event id, then the signal's symbol.
pub open spec fn market_envelope_error(
    schema_version: Seq<char>,
    event_id: Seq<char>,
    symbol: Seq<char>,
) -> Option<Seq<char>> {
    if schema_version != "1.0"@ {
        Some(
            "unsupported market signal schema_version '"@ + schema_version + "' expected '"@
                + "1.0"@ + "'"@,
        )
    } else if blank(event_id) {
        Some("market signal event_id is empty"@)
    } else if blank(symbol) {
        Some("market signal symbol is empty"@)
    } else {
        None
    }
}

/// Checks a market-signal event's identifying fields; the numeric fields
/// of the signal are checked after these.
pub fn validate_market_envelope(schema_version: &str, event_id: &str, symbol: &str) -> (r: Result<
    (),
    String,
>)
    ensures
        match r {
            Ok(_) => market_envelope_error(schema_version@, event_id@, symbol@).is_none(),
            Err(e) => market_envelope_error(schema_version@, event_id@, symbol@) == Some(e@),
        },
{
    let v = chars_of(schema_version);
    if !chars_eq_str(&v, SCHEMA_VERSION) {
        let mut e = String::from_str("unsupported market signal schema_version '");
        e.append(schema_version);
        e.append("' expected '");
        e.append(SCHEMA_VERSION);
        e.append("'");
        return Err(e);
    }
    if is_blank(event_id) {
        return Err(String::from_str("market signal event_id is empty"));
    }
    if is_blank(symbol) {
        return Err(String::from_str("market signal symbol is empty"));
    }
    Ok(())
}

} // verus!
