//! How the device joins a wireless network.

use vstd::prelude::*;

verus! {

/// How the device proves itself to the network.
#[derive(Clone, Copy, Debug, PartialEq, Eq)]
pub enum AuthMethod {
    /// An open network.
    Open,
    /// A network with a shared password.
    WPA2Personal,
}

/// Why no network can be joined.
#[derive(Clone, Copy, Debug, PartialEq, Eq)]
pub enum WifiError {
    /// The network has no name.
    MissingName,
}

impl WifiError {
    /// The error in words.
    pub fn message(&self) -> (r: &'static str)
        ensures
            r@ == "Missing WiFi name"@,
    {
        "Missing WiFi name"
    }
}

/// The method to join the network `ssid` with the password `pass`: none
/// for an empty password. A network without a name cannot be joined.
pub fn auth_method_for(ssid: &str, pass: &str) -> (r: Result<AuthMethod, WifiError>)
    ensures
        r == (if ssid@.len() == 0 {
            Err::<AuthMethod, WifiError>(WifiError::MissingName)
        } else if pass@.len() == 0 {
            Ok(AuthMethod::Open)
        } else {
            Ok(AuthMethod::WPA2Personal)
        }),
{
    let mut auth_method = AuthMethod::WPA2Personal;
    if ssid.is_empty() {
        return Err(WifiError::MissingName);
    }
    if pass.is_empty() {
        auth_method = AuthMethod::Open;
    }
    Ok(auth_method)
}

} // verus!
