use openrouter_widget::update::{
    cached_update_for, check_requested_asset_name, check_update_size, current_version,
    is_safe_asset_name, platform_asset_tokens, release_update_info, select_asset, update_status,
    GithubAsset, GithubRelease, Platform, UpdateAssetMetadata, UpdateCache, MAX_UPDATE_BYTES,
};
use openrouter_widget::version::{is_newer, parse_semver};
use openrouter_widget::error::AppError;
use semver::Version;

#[test]
fn parse_valid_semver() {
    assert_eq!(parse_semver("1.2.3").map(|v| v.into_version()), Version::parse("1.2.3").ok());
    assert_eq!(parse_semver("v1.2.3").map(|v| v.into_version()), Version::parse("1.2.3").ok());
}

#[test]
fn parse_invalid_semver() {
    assert_eq!(parse_semver("abc"), None);
    assert_eq!(parse_semver("1.2"), None);
    assert_eq!(parse_semver(""), None);
}

#[test]
fn newer_version_detected() {
    assert!(is_newer("0.2.0", "0.1.0"));
    assert!(is_newer("1.0.0", "0.9.9"));
    assert!(is_newer("0.1.1", "0.1.0"));
    assert!(is_newer("v0.2.0", "0.1.0"));
}

#[test]
fn same_version_not_newer() {
    assert!(!is_newer("0.1.0", "0.1.0"));
}

#[test]
fn older_version_not_newer() {
    assert!(!is_newer("0.1.0", "0.2.0"));
}

#[test]
fn semver_prerelease_is_compared_correctly() {
    assert!(!is_newer("1.2.3-beta.1", "1.2.3"));
    assert!(is_newer("1.2.4-beta.1", "1.2.3"));
}

#[test]
fn malformed_or_extra_version_components_are_rejected() {
    assert!(!is_newer("1.2.3.4", "1.2.3"));
    assert!(!is_newer("1.2", "1.1.0"));
}

#[test]
fn unsafe_asset_names_are_rejected() {
    assert!(!is_safe_asset_name("../update.exe"));
    assert!(!is_safe_asset_name("nested/update.exe"));
    assert!(is_safe_asset_name("openrouter-widget_1.2.3_windows-x64.exe"));
}

#[test]
fn newer_is_asymmetric_and_ignores_surrounding_space() {
    assert!(is_newer("  v2.0.0  ", "1.9.9"));
    assert!(!is_newer("1.9.9", "  v2.0.0  "));
    assert!(!is_newer("not-a-version", "0.0.1"));
    assert!(!is_newer("0.0.1", "not-a-version"));
}

#[test]
fn current_version_is_package_version() {
    assert_eq!(current_version(), "0.1.0");
}

#[test]
fn platform_tokens_per_platform() {
    assert_eq!(platform_asset_tokens(Platform::WindowsX64), Some((".exe", "windows", "x64")));
    assert_eq!(platform_asset_tokens(Platform::LinuxX64), Some((".deb", "linux", "amd64")));
    assert_eq!(platform_asset_tokens(Platform::Other), None);
}

#[test]
fn dotted_and_empty_names_are_unsafe() {
    assert!(!is_safe_asset_name(""));
    assert!(!is_safe_asset_name(".."));
    assert!(!is_safe_asset_name("openrouter-widget..exe"));
    assert!(!is_safe_asset_name("."));
    assert!(check_requested_asset_name(".").is_err());
}

fn asset(name: &str, url: &str, size: u64) -> GithubAsset {
    GithubAsset { name: name.to_string(), browser_download_url: url.to_string(), size }
}

fn release(tag: &str, assets: Vec<GithubAsset>) -> GithubRelease {
    GithubRelease {
        tag_name: tag.to_string(),
        html_url: "https://example.org/release".to_string(),
        assets,
    }
}

#[test]
fn select_asset_picks_package_and_signature() {
    let r = release(
        "v1.0.0",
        vec![
            asset("openrouter-widget_1.0.0_linux-amd64.deb", "u-deb", 10),
            asset("openrouter-widget_1.0.0_windows-x64.exe", "u-exe", 20),
            asset("openrouter-widget_1.0.0_windows-x64.exe.sig", "u-sig", 1),
        ],
    );
    let chosen = select_asset(&r, Platform::WindowsX64).unwrap().unwrap();
    assert_eq!(chosen.name, "openrouter-widget_1.0.0_windows-x64.exe");
    assert_eq!(chosen.download_url, "u-exe");
    assert_eq!(chosen.size, 20);
    assert_eq!(chosen.signature_url, "u-sig");
    assert_eq!(chosen.sha256, None);
}

#[test]
fn select_asset_without_signature_is_not_found() {
    let r = release("v1.0.0", vec![asset("openrouter-widget_1.0.0_linux-amd64.deb", "u", 1)]);
    match select_asset(&r, Platform::LinuxX64) {
        Err(AppError::NotFound(m)) => assert_eq!(m, "No detached signature found for update package"),
        _ => panic!("expected NotFound"),
    }
}

#[test]
fn select_asset_with_two_packages_is_refused() {
    let r = release(
        "v1.0.0",
        vec![
            asset("openrouter-widget_1.0.0_linux-amd64.deb", "a", 1),
            asset("openrouter-widget_1.0.1_linux-amd64.deb", "b", 1),
        ],
    );
    match select_asset(&r, Platform::LinuxX64) {
        Err(AppError::InvalidInput(m)) => assert_eq!(m, "Multiple compatible update packages found"),
        _ => panic!("expected InvalidInput"),
    }
}

#[test]
fn select_asset_without_package_or_platform_is_none() {
    let r = release("v1.0.0", vec![asset("other_1.0.0_linux-amd64.deb", "a", 1)]);
    assert!(select_asset(&r, Platform::LinuxX64).unwrap().is_none());
    let r = release("v1.0.0", vec![asset("openrouter-widget_1.0.0_linux-amd64.deb", "a", 1)]);
    assert!(select_asset(&r, Platform::Other).unwrap().is_none());
}

#[test]
fn release_info_for_newer_release() {
    let r = release(
        " v0.2.0 ",
        vec![
            asset("openrouter-widget_0.2.0_linux-amd64.deb", "deb", 5),
            asset("openrouter-widget_0.2.0_linux-amd64.deb.sig", "sig", 1),
        ],
    );
    let info = release_update_info(&r, "0.1.0", Platform::LinuxX64).unwrap();
    assert_eq!(info.release_tag, "v0.2.0");
    assert_eq!(info.latest_version, "0.2.0");
    assert_eq!(info.current_version, "0.1.0");
    assert!(info.update_available);
    assert!(info.compatible_asset_available);
    assert_eq!(info.assets.len(), 1);
    assert_eq!(info.asset.unwrap().signature_url, "sig");
    assert_eq!(info.release_url, "https://example.org/release");
}

#[test]
fn release_info_for_same_release_has_no_asset() {
    let r = release("v0.1.0", vec![asset("openrouter-widget_0.1.0_linux-amd64.deb", "deb", 5)]);
    let info = release_update_info(&r, "0.1.0", Platform::LinuxX64).unwrap();
    assert!(!info.update_available);
    assert!(info.asset.is_none());
    assert!(info.assets.is_empty());
    assert!(!info.compatible_asset_available);
}

#[test]
fn release_info_with_bad_tag_is_refused() {
    let r = release("latest", vec![]);
    match release_update_info(&r, "0.1.0", Platform::LinuxX64) {
        Err(AppError::InvalidInput(m)) => assert_eq!(m, "Latest release has an invalid version tag"),
        _ => panic!("expected InvalidInput"),
    }
}

fn metadata(name: &str) -> UpdateAssetMetadata {
    UpdateAssetMetadata {
        name: name.to_string(),
        download_url: "d".to_string(),
        signature_url: "s".to_string(),
        size: 7,
        sha256: None,
    }
}

#[test]
fn update_status_from_cache() {
    let cache = UpdateCache {
        last_update_check_at: Some("2026-01-01T00:00:00Z".to_string()),
        last_notified_version: Some("0.3.0".to_string()),
        last_update_release_tag: Some("v0.3.0".to_string()),
        last_update_asset: Some(metadata("pkg.deb")),
    };
    let status = update_status(cache, "0.1.0");
    assert!(status.update_available);
    assert!(status.compatible_asset_available);
    assert_eq!(status.latest_version.as_deref(), Some("0.3.0"));
    assert_eq!(status.asset.unwrap().name, "pkg.deb");
    let empty = UpdateCache {
        last_update_check_at: None,
        last_notified_version: None,
        last_update_release_tag: None,
        last_update_asset: None,
    };
    let status = update_status(empty, "0.1.0");
    assert!(!status.update_available);
    assert!(status.asset.is_none());
}

#[test]
fn cached_update_must_match_request() {
    let cache = || UpdateCache {
        last_update_check_at: None,
        last_notified_version: Some("0.3.0".to_string()),
        last_update_release_tag: Some("v0.3.0".to_string()),
        last_update_asset: Some(metadata("pkg.deb")),
    };
    assert_eq!(cached_update_for("v0.3.0", "pkg.deb", cache()).unwrap().name, "pkg.deb");
    match cached_update_for("v0.4.0", "pkg.deb", cache()) {
        Err(AppError::InvalidInput(m)) => {
            assert_eq!(m, "Update package is no longer current; check for updates again")
        }
        _ => panic!("expected InvalidInput"),
    }
    let none = UpdateCache {
        last_update_check_at: None,
        last_notified_version: None,
        last_update_release_tag: None,
        last_update_asset: None,
    };
    match cached_update_for("v0.3.0", "pkg.deb", none) {
        Err(AppError::NotFound(m)) => assert_eq!(m, "No compatible cached update package"),
        _ => panic!("expected NotFound"),
    }
}

#[test]
fn update_size_limit() {
    assert!(check_update_size(MAX_UPDATE_BYTES).is_ok());
    assert!(check_update_size(200 * 1024 * 1024).is_ok());
    match check_update_size(MAX_UPDATE_BYTES + 1) {
        Err(AppError::InvalidInput(m)) => assert_eq!(m, "Update package exceeds the maximum size"),
        _ => panic!("expected InvalidInput"),
    }
}

#[test]
fn requested_asset_name_is_checked() {
    assert!(check_requested_asset_name("pkg.deb").is_ok());
    match check_requested_asset_name("../pkg.deb") {
        Err(AppError::InvalidInput(m)) => assert_eq!(m, "Invalid update asset name"),
        _ => panic!("expected InvalidInput"),
    }
}
