//! Searching the vimawesome plugin catalogue.
use vstd::prelude::*;

use crate::text::{push_str, string_from};

verus! {

/// The address of the catalogue search for `query` (everything where there is none).
pub fn request_url(query: Option<&str>) -> (url: String)
    ensures
        url@ == "https://vimawesome.com/api/plugins?query="@ + (match query {
            Some(q) => q@,
            None => Seq::empty(),
        }) + "&page=1"@,
{
    let mut url = string_from("https://vimawesome.com/api/plugins?query=");
    match query {
        Some(q) => push_str(&mut url, q),
        None => {
            proof {
                assert(url@ + Seq::<char>::empty() =~= url@);
            }
        },
    }
    push_str(&mut url, "&page=1");
    url
}

} // verus!
