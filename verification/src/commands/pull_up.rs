//! Where the local client program lies, by platform.

use vstd::prelude::*;
use crate::text::{chars_ascii_lowercase, chars_order, ascii_lowercase, to_chars, trim_chars, trimmed, TextOrder, same_text};

verus! {

/// The directory that holds the program for an operating system and a
/// processor architecture, as the build names them.
pub open spec fn subdir_of(os: Seq<char>, arch: Seq<char>) -> Option<Seq<char>> {
    if os == "linux"@ {
        if arch == "x86_64"@ {
            Some("linux-amd64"@)
        } else if arch == "arm"@ || arch == "aarch64"@ {
            Some("linux-arm64"@)
        } else {
            None
        }
    } else if os == "macos"@ {
        if arch == "x86_64"@ {
            Some("darwin-amd64"@)
        } else if arch == "arm"@ || arch == "aarch64"@ {
            Some("darwin-arm64"@)
        } else {
            None
        }
    } else if os == "windows"@ {
        Some("windows"@)
    } else {
        None
    }
}

/// The directory of the program for this platform, if there is one.
pub fn platform_subdir(os: &str, arch: &str) -> (dir: Option<&'static str>)
    ensures
        match dir {
            Some(d) => subdir_of(os@, arch@) == Some(d@),
            None => subdir_of(os@, arch@) is None,
        },
{
    let arm = same_text(arch, "arm") || same_text(arch, "aarch64");
    let intel = same_text(arch, "x86_64");
    if same_text(os, "linux") {
        if intel {
            Some("linux-amd64")
        } else if arm {
            Some("linux-arm64")
        } else {
            None
        }
    } else if same_text(os, "macos") {
        if intel {
            Some("darwin-amd64")
        } else if arm {
            Some("darwin-arm64")
        } else {
            None
        }
    } else if same_text(os, "windows") {
        Some("windows")
    } else {
        None
    }
}

/// The file name of the program: with `.exe` on Windows.
pub fn executable_name(os: &str) -> (name: &'static str)
    ensures
        name@ == if os@ == "windows"@ {
            "JumpServerClient.exe"@
        } else {
            "JumpServerClient"@
        },
{
    if same_text(os, "windows") {
        "JumpServerClient.exe"
    } else {
        "JumpServerClient"
    }
}

/// Whether the value of the test switch turns it on: `1`, or `true` in any
/// mix of ASCII case.
pub fn is_test_switch(value: &str) -> (on: bool)
    ensures
        on == (value@ == "1"@ || ascii_lowercase(value@) == "true"@),
{
    if same_text(value, "1") {
        return true;
    }
    let lowered = chars_ascii_lowercase(&to_chars(value));
    let expected = to_chars("true");
    matches!(chars_order(&lowered, &expected), TextOrder::Equal)
}

/// Whether an address holds nothing but white space, in which case there
/// is nothing to launch.
pub fn is_blank(url: &str) -> (blank: bool)
    ensures
        blank == (trimmed(url@).len() == 0),
{
    trim_chars(&to_chars(url)).len() == 0
}

} // verus!
