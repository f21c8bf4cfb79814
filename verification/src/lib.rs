//! Access to the PIV application of YubiKeys (and other PIV smart cards) over PC/SC.

use vstd::prelude::*;

pub mod error;
pub mod piv;

use crate::error::Error;

verus! {

/// Calls `curl::init`, which initializes libcurl once per process (later calls do
/// nothing). Its source asserts that `curl_global_init` succeeds, and so panics if libcurl
/// cannot be initialized; nothing is stated of that.
#[verifier::external_body]
fn curl_init() {
    curl::init()
}

/// Calls `sodiumoxide::init`, which initializes libsodium and returns `Err(())` when
/// `sodium_init` fails. Whether it fails depends on the machine, so nothing is stated of
/// the result.
#[verifier::external_body]
fn sodium_init() -> (r: Result<(), ()>) {
    sodiumoxide::init()
}

/// What `init` reports, given the outcome of initializing libsodium.
pub fn init_outcome(sodium: Result<(), ()>) -> (r: Result<(), Error>)
    ensures
        sodium is Ok ==> r is Ok,
        sodium is Err ==> r matches Err(Error::SodiumInit),
{
    match sodium {
        Ok(()) => Ok(()),
        Err(()) => Err(Error::SodiumInit),
    }
}

/// Initializes the libraries underneath (libcurl and libsodium). It is recommended to call
/// this function as soon as the program starts.
pub fn init() -> (r: Result<(), Error>)
    ensures
        r is Ok || r matches Err(Error::SodiumInit),
{
    curl_init();
    init_outcome(sodium_init())
}

} // verus!
