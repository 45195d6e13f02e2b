//! The per-platform default mods directory under a given home directory.
//!
//! The home directory itself is an ambient value of the machine: the caller
//! resolves it once at startup and passes it in.

use vstd::prelude::*;
use vstd::string::*;

verus! {

/// The platform whose conventional layout the default path follows.
#[derive(Clone, Copy, Debug, PartialEq, Eq, Structural)]
pub enum Platform {
    Windows,
    Linux,
    MacOs,
}

/// The default mods directory for the given home directory, laid out by
/// platform convention.
pub fn default_mod_dir(home_dir: &str, platform: Platform) -> (r: String)
    ensures
        (match platform {
            Platform::Windows => r@ == home_dir@ + "\\AppData\\Roaming\\.minecraft\\mods"@,
            Platform::Linux => r@ == home_dir@ + "/.minecraft/mods"@,
            Platform::MacOs => r@ == home_dir@ + "/Library/ApplicationSupport/minecraft/mods"@,
        }),
{
    let mut path = String::from_str(home_dir);
    match platform {
        Platform::Windows => path.append("\\AppData\\Roaming\\.minecraft\\mods"),
        Platform::Linux => path.append("/.minecraft/mods"),
        Platform::MacOs => path.append("/Library/ApplicationSupport/minecraft/mods"),
    }
    path
}

} // verus!
