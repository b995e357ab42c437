use crate::operating_system::OperatingSystem;
use crate::version::spec_version_chars;
use crate::version::Version;
use vstd::prelude::*;
use vstd::string::StringExecFns;
use vstd::string::StringSliceAdditionalSpecFns;

verus! {

/// The update check: the running version against the latest published one,
/// with the platform whose binary would be downloaded.
#[derive(Debug)]
pub struct Updater {
    pub current_version: Version,
    pub latest_version: Version,
    pub operating_system: OperatingSystem,
}

impl Updater {
    /// Parse both version strings; the first one that does not parse decides
    /// the error.
    pub fn build(current: &str, latest: String, operating_system: OperatingSystem) -> (r: Result<
        Updater,
        String,
    >)
        ensures
            r is Ok <==> Version::spec_parse(current.spec_bytes()) is Some && Version::spec_parse(
                vstd::utf8::encode_utf8(latest@),
            ) is Some,
            r is Ok ==> r->Ok_0.current_version == Version::spec_parse(current.spec_bytes())->0
                && r->Ok_0.latest_version == Version::spec_parse(
                vstd::utf8::encode_utf8(latest@),
            )->0 && r->Ok_0.operating_system == operating_system,
    {
        let current_version: Version = match Version::from_str(current) {
            Ok(v) => v,
            Err(e) => {
                return Err(e);
            },
        };
        let latest_version: Version = match Version::from_string(latest) {
            Ok(v) => v,
            Err(e) => {
                return Err(e);
            },
        };
        Ok(Updater { current_version, latest_version, operating_system })
    }

    /// Whether an update is available: true exactly when the two versions
    /// differ in any part. `msg` receives either the short all-up-to-date
    /// notice or a sentence naming the platform and both versions.
    pub fn check_version(&self, msg: &mut String) -> (r: bool)
        ensures
            r == (self.current_version != self.latest_version),
            !r ==> final(msg)@ == "latest version"@,
            r ==> final(msg)@ == "new version for "@ + self.operating_system.os_name@ + ", from "@
                + spec_version_chars(self.current_version) + " to "@ + spec_version_chars(
                self.latest_version,
            ),
    {
        let same_major: bool = self.current_version.major == self.latest_version.major;
        let same_minor: bool = self.current_version.minor == self.latest_version.minor;
        let same_patch: bool = self.current_version.patch == self.latest_version.patch;
        if same_major && same_minor && same_patch {
            *msg = String::from_str("latest version");
            false
        } else {
            let mut m: String = String::from_str("new version for ");
            m.append(self.operating_system.os_name.as_str());
            m.append(", from ");
            let cur: String = self.current_version.to_text();
            m.append(cur.as_str());
            m.append(" to ");
            let latest: String = self.latest_version.to_text();
            m.append(latest.as_str());
            *msg = m;
            true
        }
    }

    /// The download address of the latest binary for this platform: the base
    /// address, the download path, and the binary's file name, joined.
    pub fn get_latest_version_download_url(&self, base_url: &str, download_path: &str) -> (r:
        String)
        ensures
            r@ == base_url@ + download_path@ + self.operating_system.bin_name@,
    {
        let mut url: String = String::new();
        url.append(base_url);
        url.append(download_path);
        url.append(self.operating_system.bin_name.as_str());
        url
    }
}

} // verus!
