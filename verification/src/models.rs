//! The records the storage layer writes: new function signatures and
//! tokens.
use vstd::prelude::*;

verus! {

/// A function signature to be stored: its text, its selector bytes and,
/// optionally, its ABI.
#[derive(Debug, Clone, PartialEq)]
pub struct NewSignature {
    pub signature: String,
    pub bytes: String,
    pub abi: Option<String>,
}

impl NewSignature {
    pub fn new(bytes: &str, signature: &str, abi: Option<&str>) -> (res: Self)
        ensures
            res.bytes@ == bytes@,
            res.signature@ == signature@,
            res.abi is Some <==> abi is Some,
            abi is Some ==> res.abi.unwrap()@ == abi.unwrap()@,
    {
        let abi = match abi {
            Some(f) => Some(String::from_str(f)),
            None => None,
        };
        NewSignature {
            bytes: String::from_str(bytes),
            signature: String::from_str(signature),
            abi,
        }
    }
}

/// A token of a token list.
#[derive(Debug, Clone, PartialEq)]
pub struct Token {
    pub chain_id: Option<i32>,
    pub address: String,
    pub name: String,
    pub symbol: String,
    pub decimals: i32,
    pub logo_uri: Option<String>,
    pub tags: Option<Vec<Option<String>>>,
}

} // verus!
