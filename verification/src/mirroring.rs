//! Mirroring crates.io: where a mirrored crate file is fetched from, and
//! whether what was fetched is one.

use crate::apis::{download_path, download_path_of};
use crate::error::{Error, ErrorView};
use crate::version::Version;
use vstd::prelude::*;
use vstd::string::StringExecFns;

verus! {

/// The address from which crates.io serves the crate file of the version
/// `version` of the crate `name`.
pub open spec fn crates_io_url_of(name: Seq<char>, version: Seq<char>) -> Seq<char> {
    "https://crates.io/api/v1/crates/"@ + download_path_of(name, version)
}

/// The address from which crates.io serves the crate file of `version` of
/// the crate `name`.
pub fn crates_io_url(name: &str, version: &Version) -> (url: String)
    ensures
        url@ == crates_io_url_of(name@, version@),
{
    let mut url = "https://crates.io/api/v1/crates/".to_owned();
    url.append(download_path(name, version).as_str());
    url
}

/// Whether a cached file of `length` bytes can be served: one that is
/// missing, which has no length, or empty cannot.
pub fn cache_is_usable(length: Option<u64>) -> (r: bool)
    ensures
        r == (length matches Some(n) && n != 0),
{
    match length {
        Some(n) => n != 0,
        None => false,
    }
}

/// Accepts what crates.io sent as a crate file unless it is empty.
pub fn check_download(body: &[u8]) -> (r: Result<(), Error>)
    ensures
        body@.len() > 0 <==> r is Ok,
        r matches Err(e) ==> e@ == ErrorView::InvalidHttpResponseLength,
{
    if body.len() == 0 {
        Err(Error::InvalidHttpResponseLength)
    } else {
        Ok(())
    }
}

} // verus!
