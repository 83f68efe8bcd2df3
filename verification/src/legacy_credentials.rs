//! Secrets of the terminal client, stored under the `profile:<name>` keyring
//! account.

use vstd::prelude::*;

use crate::credentials::{erase_password, legacy_entry, load_password, store_password};

verus! {

/// Stores a profile's secret.
pub fn set(profile_name: &str, secret: &str) -> Result<(), keyring::Error> {
    let e = legacy_entry(profile_name)?;
    store_password(&e, secret)
}

/// Reads a profile's secret.
pub fn get(profile_name: &str) -> Result<String, keyring::Error> {
    let e = legacy_entry(profile_name)?;
    load_password(&e)
}

/// Deletes a profile's secret.
pub fn delete(profile_name: &str) -> Result<(), keyring::Error> {
    let e = legacy_entry(profile_name)?;
    erase_password(&e)
}

} // verus!
