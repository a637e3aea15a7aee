//! The fixed catalog of modloader names and the modloader-type filter rule
//! for the search query.

use vstd::prelude::*;
use vstd::string::StringExecFns;
use crate::strutil::str_eq;

verus! {

/// The display name for a modloader identifier: a fixed table for 0 through
/// 6, and a placeholder for everything beyond it.
pub open spec fn catalog_name(i: int) -> Seq<char> {
    if i == 0 {
        "Any"@
    } else if i == 1 {
        "Forge"@
    } else if i == 2 {
        "Cauldron"@
    } else if i == 3 {
        "LiteLoader"@
    } else if i == 4 {
        "Fabric"@
    } else if i == 5 {
        "Quilt"@
    } else if i == 6 {
        "NeoForge"@
    } else {
        "Unknown mod loader"@
    }
}

pub fn display_name(index: usize) -> (r: String)
    ensures
        r@ == catalog_name(index as int),
{
    if index == 0 {
        String::from_str("Any")
    } else if index == 1 {
        String::from_str("Forge")
    } else if index == 2 {
        String::from_str("Cauldron")
    } else if index == 3 {
        String::from_str("LiteLoader")
    } else if index == 4 {
        String::from_str("Fabric")
    } else if index == 5 {
        String::from_str("Quilt")
    } else if index == 6 {
        String::from_str("NeoForge")
    } else {
        String::from_str("Unknown mod loader")
    }
}

/// The modloader-type filter sent with the query: empty for the literal
/// token `0` (meaning any loader), the raw token verbatim otherwise.
pub open spec fn filter_token_spec(t: Seq<char>) -> Seq<char> {
    if t == "0"@ {
        Seq::<char>::empty()
    } else {
        t
    }
}

/// The filter is empty exactly for the token `0`; every other token passes
/// through verbatim.
pub proof fn lemma_filter_token(t: Seq<char>)
    ensures
        t == "0"@ ==> filter_token_spec(t) == Seq::<char>::empty(),
        t != "0"@ ==> filter_token_spec(t) == t,
{
}

pub fn modloader_filter(token: &str) -> (r: String)
    ensures
        r@ == filter_token_spec(token@),
{
    if str_eq(token, "0") {
        String::new()
    } else {
        token.to_owned()
    }
}

} // verus!
