use vstd::prelude::*;
use vstd::slice::slice_to_vec;
use vstd::utf8::*;

use crate::text::{lower_of, lowercase, string_from_utf8, trim, trimmed};

verus! {

/// A user-agent name as it is compared: trimmed and in lower case.
pub open spec fn normalized_agent(s: Seq<char>) -> Seq<char> {
    lower_of(trimmed(s))
}

/// The normalized name written by the bytes `raw`, as UTF-8 bytes; `None`
/// where `raw` is not UTF-8.
pub open spec fn agent_of(raw: Seq<u8>) -> Option<Seq<u8>> {
    if valid_utf8(raw) {
        Some(encode_utf8(normalized_agent(decode_utf8(raw))))
    } else {
        None
    }
}

/// A user-agent name read from a `robots.txt` file.
#[derive(Debug, Clone)]
pub struct UserAgent {
    vec: Vec<u8>,
    utf8: String,
}

impl UserAgent {
    /// The bytes the name was read from.
    pub closed spec fn raw(&self) -> Seq<u8> {
        self.vec@
    }

    /// The normalized name.
    pub closed spec fn name(&self) -> Seq<char> {
        self.utf8@
    }

    /// Reads a user-agent name from `agent`; fails where the bytes are not
    /// UTF-8.
    pub fn new(agent: &[u8]) -> (r: Result<UserAgent, std::string::FromUtf8Error>)
        ensures
            r is Ok <==> valid_utf8(agent@),
            r matches Ok(a) ==> a.raw() == agent@ && a.name() == normalized_agent(
                decode_utf8(agent@),
            ),
    {
        match string_from_utf8(slice_to_vec(agent)) {
            Ok(s) => {
                let utf8 = UserAgent::normalize(s.as_str());
                Ok(UserAgent { vec: slice_to_vec(agent), utf8 })
            },
            Err(e) => Err(e),
        }
    }

    /// The normalized name.
    pub fn utf8(&self) -> (r: &String)
        ensures
            r@ == self.name(),
    {
        &self.utf8
    }

    /// Trims `agent` and puts it in lower case.
    pub fn normalize(agent: &str) -> (r: String)
        ensures
            r@ == normalized_agent(agent@),
    {
        lowercase(trim(agent))
    }
}

/// The normalized name written by `raw`, as UTF-8 bytes; `None` where `raw`
/// is not UTF-8.
pub fn try_agent(raw: &[u8]) -> (r: Option<Vec<u8>>)
    ensures
        r matches Some(v) ==> agent_of(raw@) == Some(v@),
        r is None ==> agent_of(raw@) is None,
{
    match string_from_utf8(slice_to_vec(raw)) {
        Ok(s) => {
            let n = UserAgent::normalize(s.as_str());
            Some(slice_to_vec(n.as_str().as_bytes()))
        },
        Err(_) => None,
    }
}

/// The normalized name of `agent`, as UTF-8 bytes.
pub fn agent_bytes(agent: &str) -> (r: Vec<u8>)
    ensures
        r@ == encode_utf8(normalized_agent(agent@)),
{
    let n = UserAgent::normalize(agent);
    slice_to_vec(n.as_str().as_bytes())
}

} // verus!
