//! Function signatures as the 4byte directory lists them.
use vstd::prelude::*;

verus! {

/// One page of signatures.
#[derive(Debug)]
pub struct SignatureList {
    pub count: u32,
    pub next: Option<String>,
    pub previous: Option<String>,
    pub results: Vec<TextSignature>,
}

/// A signature as text and as hex selector.
#[derive(Debug)]
pub struct TextSignature {
    pub created_at: String,
    pub text_signature: String,
    pub hex_signature: String,
}

/// Where the signatures are listed unless another address is given.
pub const FOUR_BYTE_URL: &'static str = "https://www.4byte.directory/api/v1/signatures/";

/// The user agent the requests present.
pub const USER_AGENT_VALUE: &'static str = "Mozilla/5.0 (Linux; Android 6.0; Nexus 5 Build/MRA58N) AppleWebKit/537.36 (KHTML, like Gecko) Chrome/116.0.0.0 Mobile Safari/537.36";

/// The address to fetch signatures from: `url` where given, else the 4byte
/// directory.
pub fn signature_list_url(url: Option<String>) -> (res: String)
    ensures
        res@ == (match url {
            Some(u) => u@,
            None => FOUR_BYTE_URL@,
        }),
{
    match url {
        Some(u) => u,
        None => String::from_str(FOUR_BYTE_URL),
    }
}

} // verus!
