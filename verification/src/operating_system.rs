use vstd::prelude::*;
use vstd::string::StringExecFns;

verus! {

/// The platforms the release feed publishes binaries for. The caller decides
/// which one it is running on and passes it in.
#[derive(Debug, Clone, Copy, PartialEq, Eq, Structural)]
pub enum OsKind {
    Windows,
    Linux,
    MacOs,
    Other,
}

/// A platform's display name and the file name of its published binary.
#[derive(Debug, Clone)]
pub struct OperatingSystem {
    pub os_name: String,
    pub bin_name: String,
}

impl OperatingSystem {
    /// The names belonging to a platform.
    pub fn get(kind: OsKind) -> (r: Self)
        ensures
            kind is Windows ==> r.os_name@ == "windows"@ && r.bin_name@ == "windows.exe"@,
            kind is Linux ==> r.os_name@ == "linux"@ && r.bin_name@ == "linux"@,
            kind is MacOs ==> r.os_name@ == "macos"@ && r.bin_name@ == "macos"@,
            kind is Other ==> r.os_name@ == "unsupported os"@ && r.bin_name@
                == "unsupported operating system"@,
    {
        match kind {
            OsKind::Windows => OperatingSystem {
                os_name: String::from_str("windows"),
                bin_name: String::from_str("windows.exe"),
            },
            OsKind::Linux => OperatingSystem {
                os_name: String::from_str("linux"),
                bin_name: String::from_str("linux"),
            },
            OsKind::MacOs => OperatingSystem {
                os_name: String::from_str("macos"),
                bin_name: String::from_str("macos"),
            },
            OsKind::Other => OperatingSystem {
                os_name: String::from_str("unsupported os"),
                bin_name: String::from_str("unsupported operating system"),
            },
        }
    }
}

} // verus!
