use relay_panel::semver::is_plain_semver;
use relay_panel::text::decimal_text;
use relay_panel::text::hex_text;
use relay_panel::text::same_text;
use relay_panel::updater::asset_arch;
use relay_panel::updater::install_method;
use relay_panel::updater::temp_extension_text;

#[test]
fn asset_arch_maps_known_targets() {
    assert_eq!(asset_arch("x86_64"), Some("amd64"));
    assert_eq!(asset_arch("aarch64"), Some("arm64"));
    // An unsupported architecture gives None rather than a panic.
    assert_eq!(asset_arch("riscv64"), None);
    assert_eq!(asset_arch(""), None);
}

#[test]
fn semver_validation() {
    assert!(is_plain_semver("1.0.10"));
    assert!(is_plain_semver("1.0.10-rc.1"));
    assert!(is_plain_semver("12.34.56"));
    // Rejects anything that could escape the URL path or isn't x.y.z.
    assert!(!is_plain_semver("1.0"));
    assert!(!is_plain_semver("1.0.10/../../etc"));
    assert!(!is_plain_semver("latest"));
    assert!(!is_plain_semver("1.0.x"));
    assert!(!is_plain_semver(""));
    assert!(!is_plain_semver("1.0.10-"));
}

#[test]
fn semver_edges() {
    assert!(is_plain_semver("0.0.0"));
    assert!(is_plain_semver("007.08.9"));
    assert!(is_plain_semver("1.2.3--"));
    assert!(is_plain_semver("1.2.3-a-b.C.9"));
    // A suffix may hold dots in a row; they stay behind the hyphen.
    assert!(is_plain_semver("1.2.3-.."));
    assert!(!is_plain_semver("1..2.3"));
    assert!(!is_plain_semver("1.2.3."));
    assert!(!is_plain_semver(".1.2.3"));
    assert!(!is_plain_semver("1.2.3.4"));
    assert!(!is_plain_semver("v1.2.3"));
    assert!(!is_plain_semver("-1.2.3"));
    assert!(!is_plain_semver("1.2-3.4"));
    assert!(!is_plain_semver("1.2.3-a/b"));
    assert!(!is_plain_semver("1.2.3-a b"));
    assert!(!is_plain_semver("1.2.3-é"));
    assert!(!is_plain_semver("1.2.٣"));
    assert!(!is_plain_semver("1.2.3+build"));
}

#[test]
fn install_methods() {
    assert_eq!(install_method(true, true), "docker");
    assert_eq!(install_method(true, false), "docker");
    assert_eq!(install_method(false, true), "systemd");
    assert_eq!(install_method(false, false), "manual");
}

#[test]
fn temp_extensions() {
    assert_eq!(temp_extension_text(1234, 98765), "upgrade.1234.98765.tmp");
    assert_eq!(temp_extension_text(0, 0), "upgrade.0.0.tmp");
    assert_ne!(temp_extension_text(12, 3), temp_extension_text(1, 23));
}

#[test]
fn decimal_numerals() {
    let numbers: Vec<u128> = vec![0, 9, 10, 11, 99, 100, 1_000_000_007, u64::MAX as u128, u128::MAX];
    for n in numbers {
        assert_eq!(decimal_text(n), n.to_string());
    }
}

#[test]
fn hexadecimal_numerals() {
    assert_eq!(hex_text(&[]), "");
    assert_eq!(hex_text(&[0x00, 0x0f, 0xf0, 0xab, 0xff]), "000ff0abff");
}

#[test]
fn texts_compare_by_characters() {
    assert!(same_text("", ""));
    assert!(same_text("余额不足", "余额不足"));
    assert!(!same_text("systemd", "Systemd"));
    assert!(!same_text("a", "ab"));
}
