use vstd::prelude::*;

verus! {

/// Relies on isahc::get and isahc::ReadResponseExt::bytes: performs a
/// blocking HTTP GET of `url` and reads the whole response body, returning
/// its bytes, or `None` when the request or the read fails.  The outcome
/// depends on the network, so nothing further is assumed of it; the caller
/// handles every outcome.
#[verifier::external_body]
pub(crate) fn fetch_bytes(url: &str) -> Option<Vec<u8>> {
    match isahc::get(url) {
        Ok(mut response) => isahc::ReadResponseExt::bytes(&mut response).ok(),
        Err(_) => None,
    }
}

} // verus!
