//! What holds of the white/blacklist resolution as a whole.

use vstd::prelude::*;

use crate::compat::{
    FeatureGate, PivExtension, RowModel, Verdict, chosen_verdict, extension_table,
    gate_for_verdict, is_chosen_verdict, is_first_row, lemma_chosen_unique, lemma_first_row_unique,
    requirement_text, resolve_rows, row_well_formed, VerdictModel,
};
use crate::fingerprint::AppletFingerprint;
use crate::version::{
    lemma_lex_le_antisymmetric, lemma_lex_le_reflexive, lemma_lex_le_transitive, lex_le, lex_lt,
};

verus! {

/// Without a reported version, or without a row for the fingerprint, a
/// control is never blocked: it resolves to `Unverified`.
pub proof fn law_unverified_without_data(
    rows: Seq<RowModel>,
    fingerprint: AppletFingerprint,
    applet_version: Option<Seq<u8>>,
)
    ensures
        resolve_rows(rows, fingerprint, None) == FeatureGate::Unverified,
        (forall|i: int| 0 <= i < rows.len() ==> #[trigger] rows[i].fingerprint != fingerprint)
            ==> resolve_rows(rows, fingerprint, applet_version) == FeatureGate::Unverified,
{
    if forall|i: int| 0 <= i < rows.len() ==> #[trigger] rows[i].fingerprint != fingerprint {
        assert(!exists|i: int| is_first_row(rows, fingerprint, i));
    }
}

/// A control is only ever `Unsupported` when the first row for the
/// fingerprint holds a blacklist verdict at or below the reported version that
/// is the last such verdict and covers it: it is for exactly that version, or
/// a later verdict exists, for a version above the applet's.
pub proof fn law_only_a_covering_blacklist_disables(
    rows: Seq<RowModel>,
    fingerprint: AppletFingerprint,
    applet_version: Option<Seq<u8>>,
)
    ensures
        resolve_rows(rows, fingerprint, applet_version) == FeatureGate::Unsupported ==> {
            &&& applet_version is Some
            &&& exists|r: int, i: int| {
                &&& is_first_row(rows, fingerprint, r)
                &&& #[trigger] is_chosen_verdict(rows[r].verdicts, applet_version->0, i)
                &&& rows[r].verdicts[i].verdict == Verdict::Blacklisted
                &&& (rows[r].verdicts[i].version == applet_version->0 || (i + 1
                    < rows[r].verdicts.len() && !lex_le(
                    rows[r].verdicts[i + 1].version,
                    applet_version->0,
                )))
            }
        },
{
    if resolve_rows(rows, fingerprint, applet_version) == FeatureGate::Unsupported {
        let version = applet_version->0;
        let r = choose|r: int| is_first_row(rows, fingerprint, r);
        let vs = rows[r].verdicts;
        let i = choose|i: int| is_chosen_verdict(vs, version, i);
        assert(is_chosen_verdict(vs, version, i));
        if vs[i].version != version {
            assert(i + 1 < vs.len());
            assert(!lex_le(vs[i + 1].version, version));
        }
    }
}

/// A control is only ever `Supported` when the verdict that decides it is a
/// whitelist verdict at or below the reported version.
pub proof fn law_only_a_whitelist_enables(
    rows: Seq<RowModel>,
    fingerprint: AppletFingerprint,
    applet_version: Option<Seq<u8>>,
)
    ensures
        resolve_rows(rows, fingerprint, applet_version) == FeatureGate::Supported ==> {
            &&& applet_version is Some
            &&& exists|r: int, i: int| {
                &&& is_first_row(rows, fingerprint, r)
                &&& #[trigger] is_chosen_verdict(rows[r].verdicts, applet_version->0, i)
                &&& rows[r].verdicts[i].verdict == Verdict::Whitelisted
            }
        },
{
    if resolve_rows(rows, fingerprint, applet_version) == FeatureGate::Supported {
        let version = applet_version->0;
        let r = choose|r: int| is_first_row(rows, fingerprint, r);
        let i = choose|i: int| is_chosen_verdict(rows[r].verdicts, version, i);
        assert(is_chosen_verdict(rows[r].verdicts, version, i));
    }
}

/// In a well-formed row the verdict that decides is the one with the greatest
/// version at or below the reported version; when there is none, no verdict
/// is at or below it.
pub proof fn law_greatest_verdict_at_or_below_decides(row: RowModel, version: Seq<u8>)
    requires
        row_well_formed(row),
    ensures
        match chosen_verdict(row.verdicts, version) {
            Some(i) => {
                &&& 0 <= i < row.verdicts.len()
                &&& lex_le(row.verdicts[i].version, version)
                &&& forall|k: int|
                    0 <= k < row.verdicts.len() && lex_le(#[trigger] row.verdicts[k].version, version)
                        ==> lex_le(row.verdicts[k].version, row.verdicts[i].version)
            },
            None => forall|k: int|
                0 <= k < row.verdicts.len() ==> !lex_le(#[trigger] row.verdicts[k].version, version),
        },
{
    let vs = row.verdicts;
    if exists|i: int| is_chosen_verdict(vs, version, i) {
        let i = choose|i: int| is_chosen_verdict(vs, version, i);
        assert forall|k: int|
            0 <= k < vs.len() && lex_le(#[trigger] vs[k].version, version) implies lex_le(
            vs[k].version,
            vs[i].version,
        ) by {
            if k == i {
                lemma_lex_le_reflexive(vs[i].version);
            } else if k < i {
                assert(lex_lt(vs[k].version, vs[i].version));
            }
        }
    } else {
        assert forall|k: int| 0 <= k < vs.len() implies !lex_le(#[trigger] vs[k].version, version) by {
            if lex_le(vs[k].version, version) {
                lemma_verdict_at_or_below_gives_chosen(vs, version, k);
            }
        }
    }
}

/// A verdict at or below `version` means some verdict is the last one at or
/// below it.
proof fn lemma_verdict_at_or_below_gives_chosen(
    verdicts: Seq<VerdictModel>,
    version: Seq<u8>,
    k: int,
)
    requires
        0 <= k < verdicts.len(),
        lex_le(verdicts[k].version, version),
    ensures
        exists|i: int| is_chosen_verdict(verdicts, version, i),
    decreases verdicts.len() - k,
{
    if !is_chosen_verdict(verdicts, version, k) {
        let m = choose|m: int| k < m < verdicts.len() && lex_le(#[trigger] verdicts[m].version, version);
        lemma_verdict_at_or_below_gives_chosen(verdicts, version, m);
    }
}

/// In a well-formed row, a verdict at or below the reported version with no
/// later verdict at or below it (it is the last verdict, or the next one is
/// for a version above the applet's) decides: a whitelist enables; a
/// blacklist for exactly that version, or one bracketed by a later verdict,
/// disables; a blacklist below the version with nothing newer on record only
/// flags.
pub proof fn law_bracketing_verdict_decides(
    rows: Seq<RowModel>,
    fingerprint: AppletFingerprint,
    r: int,
    i: int,
    version: Seq<u8>,
)
    requires
        is_first_row(rows, fingerprint, r),
        row_well_formed(rows[r]),
        0 <= i < rows[r].verdicts.len(),
        lex_le(rows[r].verdicts[i].version, version),
        i + 1 == rows[r].verdicts.len() || !lex_le(rows[r].verdicts[i + 1].version, version),
    ensures
        resolve_rows(rows, fingerprint, Some(version)) == gate_for_verdict(
            rows[r].verdicts,
            i,
            version,
        ),
        resolve_rows(rows, fingerprint, Some(version)) == match rows[r].verdicts[i].verdict {
            Verdict::Whitelisted => FeatureGate::Supported,
            Verdict::Blacklisted => if rows[r].verdicts[i].version == version
                || i + 1 < rows[r].verdicts.len() {
                FeatureGate::Unsupported
            } else {
                FeatureGate::Unverified
            },
        },
{
    let vs = rows[r].verdicts;
    lemma_first_row_unique(rows, fingerprint, r);
    assert forall|k: int| i < k < vs.len() implies !lex_le(#[trigger] vs[k].version, version) by {
        if lex_le(vs[k].version, version) && k > i + 1 {
            assert(lex_lt(vs[i + 1].version, vs[k].version));
            lemma_lex_le_transitive(vs[i + 1].version, vs[k].version, version);
        }
    }
    lemma_chosen_unique(vs, version, i);
}

/// A verdict recorded for exactly the reported version decides it: a
/// whitelist verdict enables the control and a blacklist verdict disables it.
pub proof fn law_exact_version_verdict_decides(
    rows: Seq<RowModel>,
    fingerprint: AppletFingerprint,
    r: int,
    i: int,
)
    requires
        is_first_row(rows, fingerprint, r),
        row_well_formed(rows[r]),
        0 <= i < rows[r].verdicts.len(),
    ensures
        resolve_rows(rows, fingerprint, Some(rows[r].verdicts[i].version)) == match rows[r].verdicts[i].verdict {
            Verdict::Whitelisted => FeatureGate::Supported,
            Verdict::Blacklisted => FeatureGate::Unsupported,
        },
{
    let vs = rows[r].verdicts;
    let version = vs[i].version;
    lemma_lex_le_reflexive(version);
    if i + 1 < vs.len() && lex_le(vs[i + 1].version, version) {
        assert(lex_lt(vs[i].version, vs[i + 1].version));
        lemma_lex_le_antisymmetric(vs[i].version, vs[i + 1].version);
    }
    law_bracketing_verdict_decides(rows, fingerprint, r, i, version);
}

/// An applet older than every verdict of its well-formed row is only
/// flagged: it resolves to `Unverified`.
pub proof fn law_older_than_every_verdict_is_unverified(
    rows: Seq<RowModel>,
    fingerprint: AppletFingerprint,
    r: int,
    version: Seq<u8>,
)
    requires
        is_first_row(rows, fingerprint, r),
        row_well_formed(rows[r]),
        !lex_le(rows[r].verdicts[0].version, version),
    ensures
        resolve_rows(rows, fingerprint, Some(version)) == FeatureGate::Unverified,
{
    let vs = rows[r].verdicts;
    lemma_first_row_unique(rows, fingerprint, r);
    assert forall|i: int| !is_chosen_verdict(vs, version, i) by {
        if 0 < i < vs.len() && lex_le(vs[i].version, version) {
            assert(lex_lt(vs[0].version, vs[i].version));
            lemma_lex_le_transitive(vs[0].version, vs[i].version, version);
        }
    }
}

/// A whitelist verdict is assumed not to regress: when the newest verdict of
/// the row is a whitelist, every version at or above it is `Supported`.
pub proof fn law_newest_whitelist_does_not_regress(
    rows: Seq<RowModel>,
    fingerprint: AppletFingerprint,
    r: int,
    version: Seq<u8>,
)
    requires
        is_first_row(rows, fingerprint, r),
        rows[r].verdicts.len() > 0,
        rows[r].verdicts.last().verdict == Verdict::Whitelisted,
        lex_le(rows[r].verdicts.last().version, version),
    ensures
        resolve_rows(rows, fingerprint, Some(version)) == FeatureGate::Supported,
{
    lemma_first_row_unique(rows, fingerprint, r);
    lemma_chosen_unique(rows[r].verdicts, version, rows[r].verdicts.len() - 1);
}

/// Every row of every extension's table is well formed.
pub proof fn law_extension_tables_are_well_formed(extension: PivExtension)
    ensures
        forall|r: int|
            0 <= r < extension_table(extension).len() ==> row_well_formed(
                #[trigger] extension_table(extension)[r],
            ),
{
    let row = extension_table(extension)[0];
    assert(row.verdicts[0].version != row.verdicts[1].version) by {
        assert(row.verdicts[0].version.len() != row.verdicts[1].version.len());
    }
    assert(lex_lt(row.verdicts[0].version, row.verdicts[1].version));
}

/// MOVE KEY and DELETE KEY on a YubiKey are unsupported at every version
/// below 5.7 and supported from 5.7 on; on any other applet, or without a
/// reported version, they are unverified.
pub proof fn law_key_ops_gate_at_yubikey_5_7(
    extension: PivExtension,
    fingerprint: AppletFingerprint,
    applet_version: Option<Seq<u8>>,
)
    ensures
        resolve_rows(extension_table(extension), fingerprint, applet_version) == match applet_version {
            None => FeatureGate::Unverified,
            Some(version) => if fingerprint != AppletFingerprint::YubiKey {
                FeatureGate::Unverified
            } else if lex_le(seq![5u8, 7u8], version) {
                FeatureGate::Supported
            } else {
                FeatureGate::Unsupported
            },
        },
{
    let rows = extension_table(extension);
    if let Some(version) = applet_version {
        if fingerprint != AppletFingerprint::YubiKey {
            assert(!exists|i: int| is_first_row(rows, fingerprint, i));
        } else {
            let vs = rows[0].verdicts;
            assert(is_first_row(rows, fingerprint, 0));
            lemma_first_row_unique(rows, fingerprint, 0);
            if lex_le(seq![5u8, 7u8], version) {
                assert(vs[1].version =~= seq![5u8, 7u8]);
                lemma_chosen_unique(vs, version, 1);
            } else {
                assert(vs[1].version =~= seq![5u8, 7u8]);
                assert(lex_le(vs[0].version, version));
                lemma_chosen_unique(vs, version, 0);
            }
        }
    }
}

/// On a YubiKey, MOVE KEY and DELETE KEY are enabled exactly when the
/// reported firmware is 5.7 or newer, reading the version bytes as numbers:
/// a major version above 5, or major 5 with minor 7 or above. Every older
/// version (5.2.7, 5.1.2, a NEO on 3.x, a bare `[5]`, an empty version) is
/// disabled.
pub proof fn law_yubikey_key_ops_need_firmware_5_7(extension: PivExtension, version: Seq<u8>)
    ensures
        resolve_rows(extension_table(extension), AppletFingerprint::YubiKey, Some(version)) == if (
        version.len() >= 1 && version[0] > 5) || (version.len() >= 2 && version[0] == 5
            && version[1] >= 7) {
            FeatureGate::Supported
        } else {
            FeatureGate::Unsupported
        },
{
    law_key_ops_gate_at_yubikey_5_7(extension, AppletFingerprint::YubiKey, Some(version));
    let bar = seq![5u8, 7u8];
    let newer = (version.len() >= 1 && version[0] > 5) || (version.len() >= 2 && version[0] == 5
        && version[1] >= 7);
    if version.len() > 0 && version[0] == 5 {
        let rest = version.drop_first();
        assert(bar.drop_first() =~= seq![7u8]);
        let seven = seq![7u8];
        if rest.len() > 0 && rest[0] == 7 {
            assert(seven.drop_first() =~= Seq::<u8>::empty());
            assert(lex_le(seven.drop_first(), rest.drop_first()));
        }
        assert(lex_le(seven, rest) == newer);
    }
    assert(lex_le(bar, version) == newer);
}

/// The two requirement sentences differ, and each ends a sentence, as do the
/// two suffixes that follow them.
pub proof fn law_requirement_wording()
    ensures
        requirement_text(PivExtension::MoveKey) != requirement_text(PivExtension::DeleteKey),
        forall|e: PivExtension|
            #![trigger requirement_text(e)]
            requirement_text(e).len() > 0 && requirement_text(e).last() == '.',
        FeatureGate::UNVERIFIED_SUFFIX@.len() > 0,
        FeatureGate::UNVERIFIED_SUFFIX@.last() == '.',
        FeatureGate::INCOMPATIBLE_SUFFIX@.len() > 0,
        FeatureGate::INCOMPATIBLE_SUFFIX@.last() == '.',
{
    reveal_strlit("Moving keys between slots needs YubiKey 5.7+ or a compatible third-party device.");
    reveal_strlit("Key deletion needs YubiKey 5.7+ or a compatible third-party device.");
    reveal_strlit("This device is unverified; the operation may fail.");
    reveal_strlit("This device is known to be incompatible.");
    assert(requirement_text(PivExtension::MoveKey)[0] != requirement_text(PivExtension::DeleteKey)[0]);
}

} // verus!
