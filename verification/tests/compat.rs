use keyroost_piv::compat::{
    resolve, resolve_in, FeatureGate, FingerprintVerdicts, PivExtension, Verdict, VersionVerdict,
};
use keyroost_piv::fingerprint::AppletFingerprint;

// --- User-facing wording: requirement() + a suffix -------------------

#[test]
fn requirement_is_distinct_per_extension_and_composes_with_a_suffix() {
    let move_req = PivExtension::MoveKey.requirement();
    let del_req = PivExtension::DeleteKey.requirement();
    assert_ne!(move_req, del_req);
    for req in [move_req, del_req] {
        // Ends a sentence, so "<req> <suffix>" reads as two.
        assert!(req.ends_with('.'), "{req:?}");
    }
    for suffix in [
        FeatureGate::UNVERIFIED_SUFFIX,
        FeatureGate::INCOMPATIBLE_SUFFIX,
    ] {
        assert!(suffix.ends_with('.'), "{suffix:?}");
        assert!(!suffix.is_empty());
    }
}

// --- YubiKey: the seeded 5.7 gate, both extensions -------------------

#[test]
fn yubikey_below_5_7_is_unsupported() {
    for ext in [PivExtension::MoveKey, PivExtension::DeleteKey] {
        // Matches the blacklist sentinel verdict (version `[]`), which is
        // not the last verdict, so the blacklist is authoritative.
        assert_eq!(
            resolve(ext, AppletFingerprint::YubiKey, Some(&[5, 6, 0])),
            FeatureGate::Unsupported
        );
        assert_eq!(
            resolve(ext, AppletFingerprint::YubiKey, Some(&[4, 3, 7])),
            FeatureGate::Unsupported
        );
    }
}

#[test]
fn yubikey_5_7_and_newer_is_supported() {
    for ext in [PivExtension::MoveKey, PivExtension::DeleteKey] {
        // Bare [5, 7] clears the bar: `[5, 7] <= [5, 7]`.
        assert_eq!(
            resolve(ext, AppletFingerprint::YubiKey, Some(&[5, 7])),
            FeatureGate::Supported
        );
        assert_eq!(
            resolve(ext, AppletFingerprint::YubiKey, Some(&[5, 7, 4])),
            FeatureGate::Supported
        );
        // A later version with no verdict of its own falls to the [5, 7]
        // whitelist, assumed not to have regressed.
        assert_eq!(
            resolve(ext, AppletFingerprint::YubiKey, Some(&[6, 0, 0])),
            FeatureGate::Supported
        );
    }
}

#[test]
fn yubikey_without_a_reported_version_is_unverified() {
    assert_eq!(
        resolve(PivExtension::MoveKey, AppletFingerprint::YubiKey, None),
        FeatureGate::Unverified
    );
}

// --- No row for the fingerprint -------------------------------------

#[test]
fn unknown_fingerprint_is_unverified_regardless_of_version() {
    for version in [None, Some(&[5, 7, 4][..]), Some(&[1, 0][..])] {
        assert_eq!(
            resolve(PivExtension::DeleteKey, AppletFingerprint::Generic, version),
            FeatureGate::Unverified
        );
        assert_eq!(
            resolve(PivExtension::MoveKey, AppletFingerprint::Token2, version),
            FeatureGate::Unverified
        );
    }
}

// --- The resolve() rules, exercised against a synthetic row ---------

fn verdict(version: &[u8], verdict: Verdict) -> VersionVerdict {
    VersionVerdict {
        version: version.to_vec(),
        verdict,
    }
}

fn gate(verdicts: Vec<VersionVerdict>, version: Option<&[u8]>) -> FeatureGate {
    let rows = [FingerprintVerdicts {
        fingerprint: AppletFingerprint::Generic,
        verdicts,
    }];
    resolve_in(&rows, AppletFingerprint::Generic, version)
}

#[test]
fn applet_older_than_every_verdict_is_unverified() {
    assert_eq!(
        gate(vec![verdict(&[5, 0], Verdict::Whitelisted)], Some(&[4, 9])),
        FeatureGate::Unverified
    );
}

#[test]
fn exact_version_blacklist_match_is_unsupported() {
    assert_eq!(
        gate(vec![verdict(&[5, 7], Verdict::Blacklisted)], Some(&[5, 7])),
        FeatureGate::Unsupported
    );
}

#[test]
fn trailing_stale_blacklist_is_unverified() {
    // Only a blacklist, from a version below the applet's, and it is the
    // newest entry, so the extension might have been added since.
    assert_eq!(
        gate(vec![verdict(&[5, 0], Verdict::Blacklisted)], Some(&[5, 4])),
        FeatureGate::Unverified
    );
}

#[test]
fn bracketed_blacklist_stays_authoritative() {
    // A blacklist below the applet's version, with a later verdict above it.
    assert_eq!(
        gate(
            vec![
                verdict(&[5, 0], Verdict::Blacklisted),
                verdict(&[6, 0], Verdict::Whitelisted),
            ],
            Some(&[5, 4]),
        ),
        FeatureGate::Unsupported
    );
}

#[test]
fn earlier_whitelist_is_assumed_not_to_regress() {
    assert_eq!(
        gate(vec![verdict(&[5, 7], Verdict::Whitelisted)], Some(&[9, 1, 2])),
        FeatureGate::Supported
    );
}
