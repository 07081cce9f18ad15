use vstd::prelude::*;

pub mod address;
pub mod balance;
pub mod lookup;
mod text;

pub use address::extract_btc_address;
pub use balance::format_btc_balance;
pub use lookup::LookupStep;
pub use lookup::balance_reply;
pub use lookup::begin_lookup;

verus! {

/// The help text the bot offers when asked what it does.
pub fn help_text() -> (r: String)
    ensures
        r@ == "Send me a bitcoin address and I'll tell you how much bitcoin it has."@,
{
    "Send me a bitcoin address and I'll tell you how much bitcoin it has.".to_owned()
}

} // verus!
