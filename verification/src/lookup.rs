use vstd::prelude::*;
use vstd::string::StringExecFns;
use crate::address::spec_extract;
use crate::address::extract_btc_address;
use crate::balance::format_btc_balance;
use crate::balance::spec_format_balance;

verus! {

/// The integer at `chain_stats.funded_txo_sum` of a JSON body, if the
/// body parses and the field holds an unsigned integer.
pub uninterp spec fn funded_sum_of(body: Seq<char>) -> Option<u64>;

/// The integer at `chain_stats.spent_txo_sum` of a JSON body, if the
/// body parses and the field holds an unsigned integer.
pub uninterp spec fn spent_sum_of(body: Seq<char>) -> Option<u64>;

/// Relies on `serde_json::from_str`, `serde_json::Value::get` and
/// `serde_json::Value::as_u64`: reads the unsigned integer at
/// `chain_stats.funded_txo_sum`, a function of the body text alone.
#[verifier::external_body]
fn funded_txo_sum(body: &str) -> (r: Option<u64>)
    ensures
        r == funded_sum_of(body@),
{
    serde_json::from_str::<serde_json::Value>(body).ok().and_then(
        |v| v.get("chain_stats").and_then(|c| c.get("funded_txo_sum")).and_then(|f| f.as_u64()),
    )
}

/// Relies on `serde_json::from_str`, `serde_json::Value::get` and
/// `serde_json::Value::as_u64`: reads the unsigned integer at
/// `chain_stats.spent_txo_sum`, a function of the body text alone.
#[verifier::external_body]
fn spent_txo_sum(body: &str) -> (r: Option<u64>)
    ensures
        r == spent_sum_of(body@),
{
    serde_json::from_str::<serde_json::Value>(body).ok().and_then(
        |v| v.get("chain_stats").and_then(|c| c.get("spent_txo_sum")).and_then(|f| f.as_u64()),
    )
}

/// The fixed text of every failed lookup.
pub open spec fn error_reply_text() -> Seq<char> {
    "Error getting balance."@
}

/// The reply to a message with no recognizable address in it.
pub open spec fn no_address_text() -> Seq<char> {
    "No bitcoin address found. Please send me a valid bitcoin address."@
}

/// What the reply to a fetched explorer body says: the formatted balance
/// `funded - spent` when both fields are present and funded covers spent,
/// and the fixed failure text when the body is malformed, a field is
/// missing or not an unsigned integer, or the balance would be negative.
pub open spec fn spec_body_reply(body: Seq<char>) -> Seq<char> {
    match (funded_sum_of(body), spent_sum_of(body)) {
        (Some(funded), Some(spent)) => if funded >= spent {
            spec_format_balance((funded - spent) as nat)
        } else {
            error_reply_text()
        },
        _ => error_reply_text(),
    }
}

/// The fixed failure reply.
pub fn error_reply() -> (r: String)
    ensures
        r@ == error_reply_text(),
{
    "Error getting balance.".to_owned()
}

/// Builds the reply for one fetched explorer body: the formatted balance
/// on a well-formed body, the fixed failure text otherwise.
pub fn body_reply(body: &str) -> (r: String)
    ensures
        r@ == spec_body_reply(body@),
{
    let funded = funded_txo_sum(body);
    let spent = spent_txo_sum(body);
    match (funded, spent) {
        (Some(f), Some(s)) => {
            if f >= s {
                format_btc_balance(f - s)
            } else {
                error_reply()
            }
        },
        _ => error_reply(),
    }
}

/// Builds the reply once the transport has had its say: the fixed failure
/// text when the fetch failed outright, the body's reply otherwise.
pub fn balance_reply(fetched: Option<&str>) -> (r: String)
    ensures
        match fetched {
            Some(body) => r@ == spec_body_reply(body@),
            None => r@ == error_reply_text(),
        },
{
    match fetched {
        Some(body) => body_reply(body),
        None => error_reply(),
    }
}

/// The explorer endpoint queried for one address.
pub fn lookup_url(base: &str, address: &str) -> (r: String)
    ensures
        r@ == base@ + "/address/"@ + address@,
{
    let mut url = base.to_owned();
    url.append("/address/");
    url.append(address);
    url
}

/// What the handler decides first: either the URL to fetch for the
/// address found in the message, or an immediate reply when no address
/// is there.
pub enum LookupStep {
    Fetch(String),
    Reply(String),
}

/// Reads one incoming message and decides the next step: fetch the
/// explorer URL of the first address in the message, or reply at once
/// that no address was found.
pub fn begin_lookup(message: &str, base: &str) -> (step: LookupStep)
    ensures
        match spec_extract(message@) {
            Some(a) => step matches LookupStep::Fetch(url) && url@ == base@ + "/address/"@ + a,
            None => step matches LookupStep::Reply(text) && text@ == no_address_text(),
        },
{
    match extract_btc_address(message) {
        Some(address) => LookupStep::Fetch(lookup_url(base, address.as_str())),
        None => LookupStep::Reply(
            "No bitcoin address found. Please send me a valid bitcoin address.".to_owned(),
        ),
    }
}

} // verus!
