//! Token lists as the Polygon token list service publishes them.
use vstd::prelude::*;
use crate::models::Token;

verus! {

/// A named list of tokens.
#[derive(Debug)]
pub struct TokenList {
    pub name: String,
    pub tokens: Vec<Token>,
}

/// Where the Polygon token list is published unless another address is given.
pub const POLYGON_TOKEN_LIST_URL: &'static str =
    "https://api-polygon-tokens.polygon.technology/tokenlists/polygonTokens.tokenlist.json";

/// The address to fetch the token list from: `url` where given, else the
/// Polygon token list.
pub fn token_list_url(url: Option<String>) -> (res: String)
    ensures
        res@ == (match url {
            Some(u) => u@,
            None => POLYGON_TOKEN_LIST_URL@,
        }),
{
    match url {
        Some(u) => u,
        None => String::from_str(POLYGON_TOKEN_LIST_URL),
    }
}

} // verus!
