use keyroost_piv::compat::{resolve, resolve_in, FeatureGate, FingerprintVerdicts, PivExtension, Verdict, VersionVerdict};
use keyroost_piv::fingerprint::AppletFingerprint;
use keyroost_piv::version::{version_eq, version_le};

fn verdict(version: &[u8], verdict: Verdict) -> VersionVerdict {
    VersionVerdict { version: version.to_vec(), verdict }
}

fn row(fingerprint: AppletFingerprint, verdicts: Vec<VersionVerdict>) -> FingerprintVerdicts {
    FingerprintVerdicts { fingerprint, verdicts }
}

#[test]
fn versions_order_as_byte_slices() {
    assert!(version_le(&[], &[5, 7]));
    assert!(version_le(&[5, 7], &[5, 7]));
    assert!(version_le(&[5, 7], &[5, 7, 0]));
    assert!(version_le(&[5, 7, 0], &[5, 8]));
    assert!(!version_le(&[5, 8], &[5, 7, 0]));
    assert!(!version_le(&[5, 7, 0], &[5, 7]));
    assert!(!version_le(&[1], &[]));
    assert!(version_le(&[4, 255], &[5]));
    for (a, b) in [(&[5u8, 7][..], &[5u8, 7, 0][..]), (&[][..], &[][..]), (&[9][..], &[1, 2][..])] {
        assert_eq!(version_le(a, b), a <= b);
    }
}

#[test]
fn versions_equal_only_when_identical() {
    assert!(version_eq(&[5, 7], &[5, 7]));
    assert!(version_eq(&[], &[]));
    assert!(!version_eq(&[5, 7], &[5, 7, 0]));
    assert!(!version_eq(&[5, 7], &[5, 8]));
}

#[test]
fn exact_version_whitelist_match_is_supported() {
    let rows = [row(
        AppletFingerprint::Generic,
        vec![verdict(&[5, 0], Verdict::Blacklisted), verdict(&[5, 7], Verdict::Whitelisted)],
    )];
    assert_eq!(resolve_in(&rows, AppletFingerprint::Generic, Some(&[5, 7])), FeatureGate::Supported);
}

#[test]
fn exact_version_blacklist_before_a_later_verdict_is_unsupported() {
    let rows = [row(
        AppletFingerprint::Generic,
        vec![verdict(&[5, 0], Verdict::Blacklisted), verdict(&[6], Verdict::Whitelisted)],
    )];
    assert_eq!(resolve_in(&rows, AppletFingerprint::Generic, Some(&[5, 0])), FeatureGate::Unsupported);
}

#[test]
fn empty_version_matches_only_the_sentinel() {
    assert_eq!(
        resolve(PivExtension::DeleteKey, AppletFingerprint::YubiKey, Some(&[])),
        FeatureGate::Unsupported
    );
    let rows = [row(AppletFingerprint::Generic, vec![verdict(&[1], Verdict::Whitelisted)])];
    assert_eq!(resolve_in(&rows, AppletFingerprint::Generic, Some(&[])), FeatureGate::Unverified);
}

#[test]
fn first_row_for_a_fingerprint_decides() {
    let rows = [
        row(AppletFingerprint::YubiKey, vec![verdict(&[1], Verdict::Whitelisted)]),
        row(AppletFingerprint::Token2, vec![verdict(&[1], Verdict::Blacklisted)]),
        row(AppletFingerprint::Token2, vec![verdict(&[1], Verdict::Whitelisted)]),
    ];
    assert_eq!(resolve_in(&rows, AppletFingerprint::Token2, Some(&[1])), FeatureGate::Unsupported);
    assert_eq!(resolve_in(&rows, AppletFingerprint::YubiKey, Some(&[2])), FeatureGate::Supported);
    assert_eq!(resolve_in(&rows, AppletFingerprint::Generic, Some(&[2])), FeatureGate::Unverified);
    assert_eq!(resolve_in(&[], AppletFingerprint::Generic, Some(&[2])), FeatureGate::Unverified);
}

#[test]
fn row_without_verdicts_is_unverified() {
    let rows = [row(AppletFingerprint::Generic, vec![])];
    assert_eq!(resolve_in(&rows, AppletFingerprint::Generic, Some(&[5, 7])), FeatureGate::Unverified);
}

#[test]
fn greatest_verdict_at_or_below_decides() {
    let rows = [row(
        AppletFingerprint::Generic,
        vec![
            verdict(&[1], Verdict::Whitelisted),
            verdict(&[2], Verdict::Blacklisted),
            verdict(&[3], Verdict::Whitelisted),
        ],
    )];
    assert_eq!(resolve_in(&rows, AppletFingerprint::Generic, Some(&[1, 9])), FeatureGate::Supported);
    assert_eq!(resolve_in(&rows, AppletFingerprint::Generic, Some(&[2, 5])), FeatureGate::Unsupported);
    assert_eq!(resolve_in(&rows, AppletFingerprint::Generic, Some(&[3])), FeatureGate::Supported);
    assert_eq!(resolve_in(&rows, AppletFingerprint::Generic, Some(&[0, 9])), FeatureGate::Unverified);
}

#[test]
fn newest_whitelist_does_not_regress() {
    for v in [&[5u8, 7][..], &[5, 7, 1][..], &[200][..]] {
        assert_eq!(resolve(PivExtension::MoveKey, AppletFingerprint::YubiKey, Some(v)), FeatureGate::Supported);
    }
}

#[test]
fn requirement_wording() {
    assert_eq!(
        PivExtension::MoveKey.requirement(),
        "Moving keys between slots needs YubiKey 5.7+ or a compatible third-party device."
    );
    assert_eq!(
        PivExtension::DeleteKey.requirement(),
        "Key deletion needs YubiKey 5.7+ or a compatible third-party device."
    );
    assert_eq!(FeatureGate::UNVERIFIED_SUFFIX, "This device is unverified; the operation may fail.");
    assert_eq!(FeatureGate::INCOMPATIBLE_SUFFIX, "This device is known to be incompatible.");
}
