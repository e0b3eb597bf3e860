//! The registry's HTTP contract: where a package is asked for, and what a
//! response status means.

use vstd::prelude::*;
use vstd::string::*;

use crate::outcome::Error;

verus! {

/// The status by which the registry denies that a package exists.
pub const NOT_FOUND: u16 = 404;

/// The host that is asked when no other is configured.
pub const CRATES_IO: &'static str = "https://crates.io";

/// The path under which the registry serves package metadata.
pub open spec fn api_path() -> Seq<char> {
    "/api/v1/crates/"@
}

/// The address of the metadata of `name` on `host`.
pub open spec fn lookup_url(host: Seq<char>, name: Seq<char>) -> Seq<char> {
    host + api_path() + name
}

/// A status in the range 200..=299.
pub open spec fn status_is_success(status: u16) -> bool {
    200 <= status < 300
}

/// Whether `status` reports a request that was understood and answered.
pub fn is_success(status: u16) -> (ok: bool)
    ensures
        ok == status_is_success(status),
{
    200 <= status && status < 300
}

/// Builds the address to `GET` for the metadata of `name` on `host`.
pub fn registry_url(host: &str, name: &str) -> (url: String)
    ensures
        url@ == lookup_url(host@, name@),
{
    let mut url = String::from_str(host);
    url.append("/api/v1/crates/");
    url.append(name);
    url
}

/// Judges the status of the response to the lookup of `crate_name`, before
/// its body is read: a success lets the lookup go on, a 404 is the registry's
/// word that the package does not exist, and any other status is a failure
/// that carries the status.
pub fn check_status(crate_name: &String, status: u16) -> (checked: Result<(), Error>)
    ensures
        match checked {
            Ok(_) => status_is_success(status),
            Err(Error::CrateNotFound(name)) => status == NOT_FOUND && name@ == crate_name@,
            Err(Error::Status(code)) => !status_is_success(status) && status != NOT_FOUND && code
                == status,
            Err(_) => false,
        },
{
    if is_success(status) {
        Ok(())
    } else if status == NOT_FOUND {
        Err(Error::CrateNotFound(crate_name.clone()))
    } else {
        Err(Error::Status(status))
    }
}

} // verus!
