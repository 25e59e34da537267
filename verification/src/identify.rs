//! The identities this client presents to the gateway when it connects.
//! Turning one into the wire-level identify payload is the surrounding
//! program's concern.

use vstd::prelude::*;

verus! {

/// An Android client identity.
#[derive(Clone, Copy, Debug)]
pub struct Android<'a> {
    pub version: &'a str,
    pub build_number: &'a str,
    pub device: &'a str,
    pub os_sdk_version: u8,
}

/// A Linux client identity.
#[derive(Clone, Copy, Debug)]
pub struct Linux<'a> {
    pub os_version: &'a str,
}

/// The Android identity: a beta client on a Pixel running Android 12.
pub fn android<'a>() -> (identity: Android<'a>)
    ensures
        identity.version@ == "115.4 - Beta"@,
        identity.build_number@ == "114104"@,
        identity.device@ == "Pixel, coral"@,
        identity.os_sdk_version == 31,
{
    Android {
        version: "115.4 - Beta",
        build_number: "114104",
        device: "Pixel, coral",
        os_sdk_version: 31,
    }
}

/// The Linux identity: a stable kernel.
pub fn linux<'a>() -> (identity: Linux<'a>)
    ensures
        identity.os_version@ == "5.18.5"@,
{
    Linux { os_version: "5.18.5" }
}

} // verus!
