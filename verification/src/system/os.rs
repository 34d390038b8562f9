//! The host platform and how it is recognised.

use vstd::prelude::*;
use crate::utils::text::{chars_of, contains_chars, contains_text, lower, lower_chars_of, same_text};

verus! {

/// The platform whose command variants apply.
#[derive(Debug, Clone, Copy, PartialEq, Eq, Structural)]
pub enum Platform {
    Linux,
    Wsl,
    Mac,
    Windows,
    Unknown,
}

/// Whether the probes indicate the Windows Subsystem for Linux: either of the two
/// marker variables is set, or the kernel version text mentions `microsoft` in any case.
pub open spec fn wsl_indicated(
    distro_name_set: bool,
    interop_set: bool,
    kernel_version: Option<Seq<char>>,
) -> bool {
    distro_name_set || interop_set || match kernel_version {
        Some(text) => contains_text(lower(text), "microsoft"@),
        None => false,
    }
}

/// The platform for an operating-system name and a subsystem probe. Windows and
/// macOS are recognised by name alone; any other host that shows the subsystem
/// markers counts as WSL; a remaining Linux host is Linux.
pub open spec fn platform_of(os_name: Seq<char>, wsl: bool) -> Platform {
    if os_name == "windows"@ {
        Platform::Windows
    } else if os_name == "macos"@ {
        Platform::Mac
    } else if wsl {
        Platform::Wsl
    } else if os_name == "linux"@ {
        Platform::Linux
    } else {
        Platform::Unknown
    }
}

/// The display name of a platform.
pub open spec fn label_text(platform: Platform) -> Seq<char> {
    match platform {
        Platform::Linux => "Linux"@,
        Platform::Wsl => "WSL"@,
        Platform::Mac => "macOS"@,
        Platform::Windows => "Windows"@,
        Platform::Unknown => "Unknown"@,
    }
}

impl Platform {
    /// Chooses the platform from the operating-system name of the build target
    /// (`windows`, `macos`, `linux`, ...) and the outcome of [`is_wsl`].
    pub fn detect(os_name: &str, wsl: bool) -> (platform: Platform)
        ensures
            platform == platform_of(os_name@, wsl),
    {
        if same_text(os_name, "windows") {
            Platform::Windows
        } else if same_text(os_name, "macos") {
            Platform::Mac
        } else if wsl {
            Platform::Wsl
        } else if same_text(os_name, "linux") {
            Platform::Linux
        } else {
            Platform::Unknown
        }
    }

    /// The display name of the platform.
    pub fn label(&self) -> (text: &'static str)
        ensures
            text@ == label_text(*self),
    {
        platform_label(*self)
    }
}

/// Decides from environment probes whether the host is the Windows Subsystem
/// for Linux. `kernel_version` is the content of the kernel version file, if readable.
pub fn is_wsl(distro_name_set: bool, interop_set: bool, kernel_version: Option<&str>) -> (wsl: bool)
    ensures
        wsl == wsl_indicated(
            distro_name_set,
            interop_set,
            match kernel_version {
                Some(text) => Some(text@),
                None => None,
            },
        ),
{
    if distro_name_set || interop_set {
        return true;
    }
    match kernel_version {
        Some(text) => {
            let hay = lower_chars_of(text);
            let needle = chars_of("microsoft");
            contains_chars(&hay, &needle)
        },
        None => false,
    }
}

/// The display name of a platform.
pub fn platform_label(platform: Platform) -> (text: &'static str)
    ensures
        text@ == label_text(platform),
{
    match platform {
        Platform::Linux => "Linux",
        Platform::Wsl => "WSL",
        Platform::Mac => "macOS",
        Platform::Windows => "Windows",
        Platform::Unknown => "Unknown",
    }
}

} // verus!
