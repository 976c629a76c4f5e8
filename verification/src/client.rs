//! What a transport computes around its fetch. The fetch itself is the
//! caller's: this library hands out addresses and takes the bodies that come
//! back.

use vstd::prelude::*;
use vstd::string::StringExecFns;
use vstd::utf8::{decode_utf8, valid_utf8};
use crate::codec::{fits_encoder, starts_with_mark, utf8_decode, utf8_text};

verus! {

/// A transport that reaches the service through a proxy, as a page in a
/// browser has to: every address is sent to the proxy, which forwards it.
#[derive(Debug, PartialEq, Eq)]
pub struct WasmClient {
    pub proxy: String,
}

impl WasmClient {
    /// A transport through the given proxy.
    pub fn new(proxy: String) -> (out: WasmClient)
        ensures
            out.proxy == proxy,
    {
        WasmClient { proxy }
    }

    /// The address to fetch for an address of the service: the proxy's
    /// address with the service's behind it.
    pub fn proxied(&self, url: &str) -> (out: String)
        ensures
            out@ == self.proxy@ + url@,
    {
        let mut out = self.proxy.clone();
        out.append(url);
        out
    }
}

/// The text of a body that was fetched as bytes: read as UTF-8, malformed
/// sequences replaced.
pub fn body_text(bytes: &[u8]) -> (out: String)
    requires
        fits_encoder(bytes@.len()),
    ensures
        out@ == utf8_text(bytes@),
        valid_utf8(bytes@) && !starts_with_mark(bytes@) ==> out@ == decode_utf8(bytes@),
{
    utf8_decode(bytes)
}

} // verus!
