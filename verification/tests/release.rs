use fish_shoal::LatestRelease;
use fish_shoal::OperatingSystem;
use fish_shoal::OsKind;
use fish_shoal::Updater;
use fish_shoal::Version;

#[test]
fn version_from_str_accepts_three_parts() {
    let v: Version = Version::from_str("1.2.3").unwrap();
    assert_eq!(v, Version { major: 1, minor: 2, patch: 3 });

    // A leading plus and leading zeros are what `usize` parsing accepts.
    let w: Version = Version::from_str("+1.02.0").unwrap();
    assert_eq!(w, Version { major: 1, minor: 2, patch: 0 });
}

#[test]
fn version_from_str_rejects_malformed_strings() {
    assert!(Version::from_str("").is_err());
    assert!(Version::from_str("1.2").is_err());
    assert!(Version::from_str("1.2.3.4").is_err());
    assert!(Version::from_str("a.b.c").is_err());
    assert!(Version::from_str("1..3").is_err());
    assert!(Version::from_str("1.2.").is_err());
    assert!(Version::from_str("99999999999999999999999999.0.0").is_err());

    let msg: String = Version::from_str("1-2-3").unwrap_err();
    assert_eq!(msg, "Invalid version: 1-2-3");
}

#[test]
fn version_from_string_matches_from_str() {
    let v: Version = Version::from_string(String::from("4.5.6")).unwrap();
    assert_eq!(v, Version { major: 4, minor: 5, patch: 6 });
}

#[test]
fn version_renders_in_decimal() {
    let v = Version { major: 10, minor: 0, patch: 234 };
    assert_eq!(v.to_text(), "10.0.234");
    assert_eq!(fish_shoal::dec_string(0), "0");
    assert_eq!(fish_shoal::dec_string(1234), "1234");
}

#[test]
fn check_version_on_equal_versions() {
    let updater = Updater {
        current_version: Version { major: 1, minor: 2, patch: 3 },
        latest_version: Version { major: 1, minor: 2, patch: 3 },
        operating_system: OperatingSystem::get(OsKind::Linux),
    };
    let mut msg: String = String::new();

    assert!(!updater.check_version(&mut msg));
    assert_eq!(msg, "latest version");
}

#[test]
fn check_version_on_newer_release() {
    let updater = Updater {
        current_version: Version { major: 1, minor: 2, patch: 3 },
        latest_version: Version { major: 1, minor: 3, patch: 0 },
        operating_system: OperatingSystem::get(OsKind::Linux),
    };
    let mut msg: String = String::new();

    assert!(updater.check_version(&mut msg));
    assert_eq!(msg, "new version for linux, from 1.2.3 to 1.3.0");
}

#[test]
fn updater_build_parses_both_versions() {
    let updater =
        Updater::build("1.2.3", String::from("2.0.1"), OperatingSystem::get(OsKind::MacOs))
            .unwrap();
    assert_eq!(updater.current_version, Version { major: 1, minor: 2, patch: 3 });
    assert_eq!(updater.latest_version, Version { major: 2, minor: 0, patch: 1 });

    assert!(Updater::build("oops", String::from("2.0.1"), OperatingSystem::get(OsKind::MacOs))
        .is_err());
}

#[test]
fn download_url_joins_parts() {
    let updater = Updater {
        current_version: Version { major: 1, minor: 0, patch: 0 },
        latest_version: Version { major: 1, minor: 0, patch: 0 },
        operating_system: OperatingSystem::get(OsKind::Windows),
    };
    let url: String =
        updater.get_latest_version_download_url("https://example.test", "/download/");
    assert_eq!(url, "https://example.test/download/windows.exe");

    let direct: String =
        LatestRelease::download_url("https://example.test", "/download/", "linux");
    assert_eq!(direct, "https://example.test/download/linux");
}

#[test]
fn version_from_path_takes_last_delimiter() {
    let path: Vec<u8> = b"/releases/tag/v1.2.3".to_vec();
    let delimiter: Vec<u8> = b"v".to_vec();
    let tail: Vec<u8> = LatestRelease::version_from_path(&path, &delimiter).unwrap();
    assert_eq!(tail, b"1.2.3".to_vec());

    let absent: Vec<u8> = b"x".to_vec();
    assert!(LatestRelease::version_from_path(&path, &absent).is_none());
}

#[test]
fn operating_system_names() {
    let linux = OperatingSystem::get(OsKind::Linux);
    assert_eq!(linux.os_name, "linux");
    assert_eq!(linux.bin_name, "linux");

    let windows = OperatingSystem::get(OsKind::Windows);
    assert_eq!(windows.bin_name, "windows.exe");

    let other = OperatingSystem::get(OsKind::Other);
    assert_eq!(other.os_name, "unsupported os");
}
