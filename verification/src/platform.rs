//! The fixed set of supported platform identifiers, shared verbatim by
//! client, coordinator and registry, and the mapping from a host's
//! OS/architecture to its identifier.

use vstd::prelude::*;
use vstd::string::StringExecFns;

use crate::strutil::str_eq;

verus! {

/// `p` names one of the platforms the registry and store understand. Any
/// operation naming a platform outside this set fails fast, without a
/// network call.
pub open spec fn supported_platform(p: Seq<char>) -> bool {
    ||| p == "macos-arm"@
    ||| p == "macos-intel"@
    ||| p == "windows-x86_64-gnu"@
}

pub fn is_supported_platform(p: &str) -> (r: bool)
    ensures
        r == supported_platform(p@),
{
    str_eq(p, "macos-arm") || str_eq(p, "macos-intel") || str_eq(p, "windows-x86_64-gnu")
}

/// The supported platform identifiers, in their canonical order.
pub fn supported_platforms() -> (r: Vec<String>)
    ensures
        r@.len() == 3,
        r@[0]@ == "macos-arm"@,
        r@[1]@ == "macos-intel"@,
        r@[2]@ == "windows-x86_64-gnu"@,
        forall|i: int| 0 <= i < r@.len() ==> supported_platform(#[trigger] r@[i]@),
{
    let mut v: Vec<String> = Vec::new();
    v.push(String::from_str("macos-arm"));
    v.push(String::from_str("macos-intel"));
    v.push(String::from_str("windows-x86_64-gnu"));
    v
}

/// Checks a platform name given on a command line, returning it unchanged
/// when it is supported.
pub fn validate_platform(platform: &str) -> (r: Result<String, String>)
    ensures
        r is Ok <==> supported_platform(platform@),
        r matches Ok(p) ==> p@ == platform@,
        r matches Err(m) ==> m@ == "Unsupported platform. Supported: macos-arm, macos-intel, windows-x86_64-gnu"@,
{
    if is_supported_platform(platform) {
        Ok(String::from_str(platform))
    } else {
        Err(String::from_str("Unsupported platform. Supported: macos-arm, macos-intel, windows-x86_64-gnu"))
    }
}

/// Every supported platform identifier is a usable key component:
/// non-empty and slash-free.
pub proof fn lemma_supported_platform_valid(p: Seq<char>)
    requires
        supported_platform(p),
    ensures
        crate::strutil::valid_component(p),
{
    reveal_strlit("macos-arm");
    reveal_strlit("macos-intel");
    reveal_strlit("windows-x86_64-gnu");
    if p == "macos-arm"@ {
        assert("macos-arm"@ =~= seq!['m', 'a', 'c', 'o', 's', '-', 'a', 'r', 'm']);
    } else if p == "macos-intel"@ {
        assert("macos-intel"@ =~= seq!['m', 'a', 'c', 'o', 's', '-', 'i', 'n', 't', 'e', 'l']);
    } else {
        assert("windows-x86_64-gnu"@ =~= seq![
            'w', 'i', 'n', 'd', 'o', 'w', 's', '-', 'x', '8', '6', '_', '6', '4', '-', 'g', 'n',
            'u',
        ]);
    }
}

/// The operating system a build runs on, as the updater distinguishes
/// hosts. `Other` stands for any OS that is neither Windows nor macOS.
#[derive(Clone, Copy, Debug, PartialEq, Eq, Structural)]
pub enum HostOs {
    Windows,
    Macos,
    Other,
}

/// The platform identifier the updater computes once from the running
/// OS/architecture and uses both for the registry lookup and for naming
/// the download asset.
pub open spec fn platform_string_spec(os: HostOs, aarch64: bool) -> Seq<char> {
    match os {
        HostOs::Windows => "windows-x86_64-gnu"@,
        HostOs::Macos => if aarch64 {
            "macos-arm"@
        } else {
            "macos-intel"@
        },
        HostOs::Other => "linux-x86_64-gnu"@,
    }
}

pub fn platform_string(os: HostOs, aarch64: bool) -> (r: String)
    ensures
        r@ == platform_string_spec(os, aarch64),
{
    match os {
        HostOs::Windows => String::from_str("windows-x86_64-gnu"),
        HostOs::Macos => if aarch64 {
            String::from_str("macos-arm")
        } else {
            String::from_str("macos-intel")
        },
        HostOs::Other => String::from_str("linux-x86_64-gnu"),
    }
}

} // verus!
