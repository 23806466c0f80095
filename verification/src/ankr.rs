//! Helpers for the indexer service's wire enums.

use vstd::prelude::*;

use vstd::string::StringExecFns;

verus! {

/// The lower-case chain name for a wire-level blockchain code; code zero
/// is the undefined marker and codes outside the closed list name no
/// chain.
pub open spec fn spec_blockchain_name(code: i32) -> Option<Seq<char>> {
    if code == 1 {
        Some("eth"@)
    } else if code == 2 {
        Some("bsc"@)
    } else if code == 3 {
        Some("arbitrum"@)
    } else if code == 4 {
        Some("optimism"@)
    } else if code == 5 {
        Some("base"@)
    } else if code == 6 {
        Some("polygon"@)
    } else {
        None
    }
}

/// Map a wire-level blockchain code to its lower-case chain name,
/// skipping the undefined marker and any code outside the closed list.
pub fn blockchain_to_str(blockchain: &i32) -> (r: Option<String>)
    ensures
        match r {
            Some(name) => spec_blockchain_name(*blockchain) == Some(name@),
            None => spec_blockchain_name(*blockchain) is None,
        },
{
    match *blockchain {
        1i32 => Some(String::from_str("eth")),
        2i32 => Some(String::from_str("bsc")),
        3i32 => Some(String::from_str("arbitrum")),
        4i32 => Some(String::from_str("optimism")),
        5i32 => Some(String::from_str("base")),
        6i32 => Some(String::from_str("polygon")),
        _ => None,
    }
}

} // verus!
