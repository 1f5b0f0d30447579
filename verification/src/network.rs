use vstd::prelude::*;
use vstd::string::StringExecFns;
use crate::decimal::{decimal_digits, push_decimal};

verus! {

/// The part of a block that the deadline check needs from a wallet.
pub struct BlockInfo {
    /// The block's generation signature, as hexadecimal text.
    pub generation_signature: String,
    /// The block's base target.
    pub base_target: u64,
}

/// The request that asks a wallet for the block at `height`; `walleturl`
/// already holds protocol, host and path (such as
/// `https://burst.megash.it/burst`), so only the query is appended.
pub fn blockinfo_url(walleturl: &str, height: u64) -> (url: String)
    ensures
        url@ == walleturl@ + "?requestType=getBlock&height="@ + decimal_digits(height as nat),
{
    let mut url = String::from_str(walleturl);
    url.append("?requestType=getBlock&height=");
    push_decimal(&mut url, height);
    url
}

} // verus!
