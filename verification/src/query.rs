//! The query parameters of one search request: a fixed game identifier, the
//! target version, the modloader-type filter, and fixed paging and sorting
//! fields.

use vstd::prelude::*;
use vstd::string::StringExecFns;
use crate::modloader::filter_token_spec;
use crate::modloader::modloader_filter;

verus! {

pub fn build_query(game_version: &str, modloader: &str) -> (q: Vec<(String, String)>)
    ensures
        q@.len() == 7,
        q@[0].0@ == "gameId"@ && q@[0].1@ == "432"@,
        q@[1].0@ == "gameVersion"@ && q@[1].1@ == game_version@,
        q@[2].0@ == "modLoaderType"@ && q@[2].1@ == filter_token_spec(modloader@),
        q@[3].0@ == "pageSize"@ && q@[3].1@ == "50"@,
        q@[4].0@ == "sortField"@ && q@[4].1@ == "1"@,
        q@[5].0@ == "sortOrder"@ && q@[5].1@ == "desc"@,
        q@[6].0@ == "index"@ && q@[6].1@ == "0"@,
{
    let mut q: Vec<(String, String)> = Vec::new();
    q.push((String::from_str("gameId"), String::from_str("432")));
    q.push((String::from_str("gameVersion"), game_version.to_owned()));
    q.push((String::from_str("modLoaderType"), modloader_filter(modloader)));
    q.push((String::from_str("pageSize"), String::from_str("50")));
    q.push((String::from_str("sortField"), String::from_str("1")));
    q.push((String::from_str("sortOrder"), String::from_str("desc")));
    q.push((String::from_str("index"), String::from_str("0")));
    q
}

} // verus!
