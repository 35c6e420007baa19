//! Per-fingerprint white/blacklist for the non-standard PIV commands keyroost
//! exposes.
//!
//! A handful of management operations are vendor extensions, not
//! SP 800-73-4: Yubico's MOVE KEY and DELETE KEY, which landed in YubiKey
//! firmware 5.7. This module records what has been observed about them, keyed
//! by [`AppletFingerprint`], as a combined white/blacklist: for each
//! fingerprint it knows about, a list of per-version verdicts, each either
//! whitelisted or blacklisted (see [`Verdict`]).
//!
//! [`resolve`] queries that table with the live applet's fingerprint and
//! version and returns a three-way [`FeatureGate`]. It is conservative about
//! disabling: a control is only ever [`FeatureGate::Unsupported`] when the
//! table has a blacklist verdict that actually covers the applet's version.

use vstd::prelude::*;

use crate::fingerprint::AppletFingerprint;
use crate::version::{lex_le, lex_lt, version_eq, version_le};

verus! {

/// One of the non-standard, vendor-extension PIV commands keyroost exposes;
/// support varies by applet and is gated by device fingerprint through
/// [`resolve`].
#[non_exhaustive]
#[derive(Debug, Clone, Copy, PartialEq, Eq, Structural)]
pub enum PivExtension {
    /// Yubico MOVE KEY: relocate a slot's private key into another slot.
    MoveKey,
    /// Yubico DELETE KEY: erase a slot's private key in place.
    DeleteKey,
}

/// One recorded white/blacklist verdict, carried by a [`VersionVerdict`].
#[derive(Debug, Clone, Copy, PartialEq, Eq, Structural)]
pub enum Verdict {
    /// Extension known to be supported at this version (and, assuming no
    /// regression, at every later one until a contrary verdict).
    Whitelisted,
    /// Extension known to be unsupported at this version.
    Blacklisted,
}

/// The UI-facing resolution of a [`PivExtension`] against a live applet,
/// produced by [`resolve`]: enable, enable and flag, or disable.
#[derive(Debug, Clone, Copy, PartialEq, Eq, Structural)]
pub enum FeatureGate {
    /// Enable the control, no warning.
    Supported,
    /// Enable the control, but flag it: support cannot be confirmed.
    Unverified,
    /// Disable the control: a blacklist verdict covers the reported version.
    Unsupported,
}

impl FeatureGate {
    /// Sentence that follows [`PivExtension::requirement`] when a control is
    /// gated [`FeatureGate::Unverified`].
    pub const UNVERIFIED_SUFFIX: &'static str = "This device is unverified; the operation may fail.";

    /// Sentence that follows [`PivExtension::requirement`] when a control is
    /// gated [`FeatureGate::Unsupported`].
    pub const INCOMPATIBLE_SUFFIX: &'static str = "This device is known to be incompatible.";
}

/// "At `version` (and, until the next one, above it) the extension's verdict
/// is `verdict`."
pub struct VersionVerdict {
    pub version: Vec<u8>,
    pub verdict: Verdict,
}

/// One fingerprint's row in an extension's white/blacklist. Its verdicts are
/// meant to be non-empty and strictly ascending by version
/// ([`row_well_formed`]).
pub struct FingerprintVerdicts {
    pub fingerprint: AppletFingerprint,
    pub verdicts: Vec<VersionVerdict>,
}

/// What a [`VersionVerdict`] says, as plain values.
pub struct VerdictModel {
    pub version: Seq<u8>,
    pub verdict: Verdict,
}

/// What a [`FingerprintVerdicts`] row says, as plain values.
pub struct RowModel {
    pub fingerprint: AppletFingerprint,
    pub verdicts: Seq<VerdictModel>,
}

impl View for VersionVerdict {
    type V = VerdictModel;

    open spec fn view(&self) -> VerdictModel {
        VerdictModel { version: self.version@, verdict: self.verdict }
    }
}

/// The verdicts of a row, as plain values.
pub open spec fn verdicts_view(verdicts: Seq<VersionVerdict>) -> Seq<VerdictModel> {
    verdicts.map_values(|v: VersionVerdict| v@)
}

impl View for FingerprintVerdicts {
    type V = RowModel;

    open spec fn view(&self) -> RowModel {
        RowModel { fingerprint: self.fingerprint, verdicts: verdicts_view(self.verdicts@) }
    }
}

/// A table of rows, as plain values.
pub open spec fn rows_view(rows: Seq<FingerprintVerdicts>) -> Seq<RowModel> {
    rows.map_values(|r: FingerprintVerdicts| r@)
}

/// The reported applet version, as plain values.
pub open spec fn applet_version_view(applet_version: Option<&[u8]>) -> Option<Seq<u8>> {
    match applet_version {
        Some(v) => Some(v@),
        None => None,
    }
}

/// A row is well formed when it holds at least one verdict and its versions
/// strictly ascend.
pub open spec fn row_well_formed(row: RowModel) -> bool {
    &&& row.verdicts.len() > 0
    &&& forall|i: int, j: int|
        0 <= i < j < row.verdicts.len() ==> lex_lt(
            #[trigger] row.verdicts[i].version,
            #[trigger] row.verdicts[j].version,
        )
}

/// Row `i` is the first row of `rows` for `fingerprint`.
pub open spec fn is_first_row(rows: Seq<RowModel>, fingerprint: AppletFingerprint, i: int) -> bool {
    &&& 0 <= i < rows.len()
    &&& rows[i].fingerprint == fingerprint
    &&& forall|k: int| 0 <= k < i ==> #[trigger] rows[k].fingerprint != fingerprint
}

/// The first row of `rows` for `fingerprint`, if there is one.
pub open spec fn row_for(rows: Seq<RowModel>, fingerprint: AppletFingerprint) -> Option<RowModel> {
    if exists|i: int| is_first_row(rows, fingerprint, i) {
        Some(rows[choose|i: int| is_first_row(rows, fingerprint, i)])
    } else {
        None
    }
}

/// Verdict `i` is the last verdict of `verdicts` whose version is at or below
/// `version`.
pub open spec fn is_chosen_verdict(verdicts: Seq<VerdictModel>, version: Seq<u8>, i: int) -> bool {
    &&& 0 <= i < verdicts.len()
    &&& lex_le(verdicts[i].version, version)
    &&& forall|k: int| i < k < verdicts.len() ==> !lex_le(#[trigger] verdicts[k].version, version)
}

/// The index of the last verdict at or below `version`, if there is one.
pub open spec fn chosen_verdict(verdicts: Seq<VerdictModel>, version: Seq<u8>) -> Option<int> {
    if exists|i: int| is_chosen_verdict(verdicts, version, i) {
        Some(choose|i: int| is_chosen_verdict(verdicts, version, i))
    } else {
        None
    }
}

/// The resolution that the chosen entry `i` of `verdicts` gives `version`.
pub open spec fn gate_for_verdict(verdicts: Seq<VerdictModel>, i: int, version: Seq<u8>) -> FeatureGate {
    match verdicts[i].verdict {
        Verdict::Whitelisted => FeatureGate::Supported,
        Verdict::Blacklisted => if verdicts[i].version == version {
            FeatureGate::Unsupported
        } else if i + 1 == verdicts.len() {
            FeatureGate::Unverified
        } else {
            FeatureGate::Unsupported
        },
    }
}

/// The resolution that the table `rows` gives an applet of `fingerprint` reporting
/// `applet_version`.
pub open spec fn resolve_rows(
    rows: Seq<RowModel>,
    fingerprint: AppletFingerprint,
    applet_version: Option<Seq<u8>>,
) -> FeatureGate {
    match applet_version {
        None => FeatureGate::Unverified,
        Some(version) => match row_for(rows, fingerprint) {
            None => FeatureGate::Unverified,
            Some(row) => match chosen_verdict(row.verdicts, version) {
                None => FeatureGate::Unverified,
                Some(i) => gate_for_verdict(row.verdicts, i, version),
            },
        },
    }
}

pub proof fn lemma_first_row_unique(rows: Seq<RowModel>, fingerprint: AppletFingerprint, i: int)
    requires
        is_first_row(rows, fingerprint, i),
    ensures
        row_for(rows, fingerprint) == Some(rows[i]),
{
    let c = choose|c: int| is_first_row(rows, fingerprint, c);
    assert(is_first_row(rows, fingerprint, c));
    if c < i {
        assert(rows[c].fingerprint != fingerprint);
    } else if i < c {
        assert(rows[i].fingerprint != fingerprint);
    }
}

pub proof fn lemma_chosen_unique(verdicts: Seq<VerdictModel>, version: Seq<u8>, i: int)
    requires
        is_chosen_verdict(verdicts, version, i),
    ensures
        chosen_verdict(verdicts, version) == Some(i),
{
    let c = choose|c: int| is_chosen_verdict(verdicts, version, c);
    assert(is_chosen_verdict(verdicts, version, c));
    if c < i {
        assert(!lex_le(verdicts[i].version, version));
    } else if i < c {
        assert(!lex_le(verdicts[c].version, version));
    }
}

/// The first row for `fingerprint`, as `Iterator::find` would find it.
fn find_row(rows: &[FingerprintVerdicts], fingerprint: AppletFingerprint) -> (found: Option<usize>)
    ensures
        match found {
            Some(i) => is_first_row(rows_view(rows@), fingerprint, i as int),
            None => forall|k: int|
                0 <= k < rows@.len() ==> #[trigger] rows@[k].fingerprint != fingerprint,
        },
{
    let mut i: usize = 0;
    while i < rows.len()
        invariant
            i <= rows.len(),
            forall|k: int| 0 <= k < i ==> #[trigger] rows@[k].fingerprint != fingerprint,
        decreases rows.len() - i,
    {
        if rows[i].fingerprint == fingerprint {
            proof {
                let model = rows_view(rows@);
                assert forall|k: int| 0 <= k < i implies #[trigger] model[k].fingerprint
                    != fingerprint by {
                    assert(model[k].fingerprint == rows@[k].fingerprint);
                }
            }
            return Some(i);
        }
        i = i + 1;
    }
    None
}

/// The last verdict at or below `version`, as `Iterator::rposition` would
/// find it.
fn last_at_or_below(verdicts: &Vec<VersionVerdict>, version: &[u8]) -> (found: Option<usize>)
    ensures
        match found {
            Some(i) => is_chosen_verdict(verdicts_view(verdicts@), version@, i as int),
            None => forall|k: int|
                0 <= k < verdicts@.len() ==> !lex_le(#[trigger] verdicts@[k].version@, version@),
        },
{
    let mut j: usize = verdicts.len();
    while j > 0
        invariant
            j <= verdicts.len(),
            forall|k: int|
                j <= k < verdicts@.len() ==> !lex_le(#[trigger] verdicts@[k].version@, version@),
        decreases j,
    {
        if version_le(verdicts[j - 1].version.as_slice(), version) {
            proof {
                let model = verdicts_view(verdicts@);
                assert forall|k: int| j - 1 < k < model.len() implies !lex_le(
                    #[trigger] model[k].version,
                    version@,
                ) by {
                    assert(model[k].version == verdicts@[k].version@);
                }
            }
            return Some(j - 1);
        }
        j = j - 1;
    }
    None
}

/// Resolve an extension against an explicit set of white/blacklist rows:
/// no version, no row for the fingerprint, or no verdict at or below the
/// version gives [`FeatureGate::Unverified`]; otherwise the last verdict at
/// or below the version decides (see [`gate_for_verdict`]).
pub fn resolve_in(
    rows: &[FingerprintVerdicts],
    fingerprint: AppletFingerprint,
    applet_version: Option<&[u8]>,
) -> (gate: FeatureGate)
    ensures
        gate == resolve_rows(rows_view(rows@), fingerprint, applet_version_view(applet_version)),
{
    let ghost model = rows_view(rows@);
    let version = match applet_version {
        Some(v) => v,
        None => return FeatureGate::Unverified,
    };
    let row_idx = match find_row(rows, fingerprint) {
        Some(r) => r,
        None => {
            proof {
                assert forall|i: int| !is_first_row(model, fingerprint, i) by {
                    if 0 <= i < model.len() {
                        assert(model[i].fingerprint == rows@[i].fingerprint);
                    }
                }
            }
            return FeatureGate::Unverified;
        },
    };
    proof {
        lemma_first_row_unique(model, fingerprint, row_idx as int);
    }
    let row = &rows[row_idx];
    assert(model[row_idx as int] == row@);
    let ghost vs = verdicts_view(row.verdicts@);
    let idx = match last_at_or_below(&row.verdicts, version) {
        Some(i) => i,
        None => {
            proof {
                assert forall|i: int| !is_chosen_verdict(vs, version@, i) by {
                    if 0 <= i < vs.len() {
                        assert(vs[i].version == row.verdicts@[i].version@);
                    }
                }
            }
            return FeatureGate::Unverified;
        },
    };
    proof {
        lemma_chosen_unique(vs, version@, idx as int);
    }
    let chosen = &row.verdicts[idx];
    assert(vs[idx as int] == chosen@);
    match chosen.verdict {
        Verdict::Whitelisted => FeatureGate::Supported,
        Verdict::Blacklisted => {
            if version_eq(chosen.version.as_slice(), version) {
                FeatureGate::Unsupported
            } else if idx == row.verdicts.len() - 1 {
                FeatureGate::Unverified
            } else {
                FeatureGate::Unsupported
            }
        },
    }
}

/// The white/blacklist of `extension`, as plain values.
pub open spec fn extension_table(extension: PivExtension) -> Seq<RowModel> {
    match extension {
        PivExtension::MoveKey | PivExtension::DeleteKey => yubico_5_7_key_ops(),
    }
}

/// The white/blacklist shared by MOVE KEY and DELETE KEY: on a YubiKey the
/// operation is unsupported before firmware 5.7 and supported from 5.7 on; no
/// data for any other applet. The empty version on the blacklist verdict
/// orders below every real version, so that verdict applies to anything older
/// than 5.7.
pub open spec fn yubico_5_7_key_ops() -> Seq<RowModel> {
    seq![
        RowModel {
            fingerprint: AppletFingerprint::YubiKey,
            verdicts: seq![
                VerdictModel { version: seq![], verdict: Verdict::Blacklisted },
                VerdictModel { version: seq![5u8, 7u8], verdict: Verdict::Whitelisted },
            ],
        },
    ]
}

/// The user-facing statement of what running `extension` needs.
pub open spec fn requirement_text(extension: PivExtension) -> Seq<char> {
    match extension {
        PivExtension::MoveKey => "Moving keys between slots needs YubiKey 5.7+ or a compatible third-party device."@,
        PivExtension::DeleteKey => "Key deletion needs YubiKey 5.7+ or a compatible third-party device."@,
    }
}

/// Builds the table that [`yubico_5_7_key_ops`] describes.
fn yubico_5_7_key_ops_rows() -> (rows: Vec<FingerprintVerdicts>)
    ensures
        rows_view(rows@) == yubico_5_7_key_ops(),
{
    let mut v5_7: Vec<u8> = Vec::new();
    v5_7.push(5);
    v5_7.push(7);
    let mut verdicts: Vec<VersionVerdict> = Vec::new();
    verdicts.push(VersionVerdict { version: Vec::new(), verdict: Verdict::Blacklisted });
    verdicts.push(VersionVerdict { version: v5_7, verdict: Verdict::Whitelisted });
    let ghost expected = yubico_5_7_key_ops();
    proof {
        assert(verdicts@[0].version@ =~= expected[0].verdicts[0].version);
        assert(verdicts@[1].version@ =~= expected[0].verdicts[1].version);
        assert(verdicts_view(verdicts@) =~= expected[0].verdicts);
    }
    let mut rows: Vec<FingerprintVerdicts> = Vec::new();
    rows.push(FingerprintVerdicts { fingerprint: AppletFingerprint::YubiKey, verdicts });
    proof {
        assert(rows_view(rows@)[0] == expected[0]);
        assert(rows_view(rows@) =~= expected);
    }
    rows
}

impl PivExtension {
    /// This extension's white/blacklist: one row per fingerprint keyroost
    /// has data for.
    fn verdicts(self) -> (rows: Vec<FingerprintVerdicts>)
        ensures
            rows_view(rows@) == extension_table(self),
    {
        match self {
            PivExtension::MoveKey | PivExtension::DeleteKey => yubico_5_7_key_ops_rows(),
        }
    }

    /// A one-sentence statement of what running this extension needs,
    /// phrased for the user; a UI follows it with
    /// [`FeatureGate::UNVERIFIED_SUFFIX`] or [`FeatureGate::INCOMPATIBLE_SUFFIX`].
    pub fn requirement(self) -> (text: &'static str)
        ensures
            text@ == requirement_text(self),
    {
        match self {
            PivExtension::MoveKey => "Moving keys between slots needs YubiKey 5.7+ or a compatible third-party device.",
            PivExtension::DeleteKey => "Key deletion needs YubiKey 5.7+ or a compatible third-party device.",
        }
    }
}

/// Resolve `extension` for an applet fingerprinted as `fingerprint` and
/// reporting `applet_version` (`None` when the card never reported one),
/// against the extension's own white/blacklist.
pub fn resolve(
    extension: PivExtension,
    fingerprint: AppletFingerprint,
    applet_version: Option<&[u8]>,
) -> (gate: FeatureGate)
    ensures
        gate == resolve_rows(extension_table(extension), fingerprint, applet_version_view(applet_version)),
{
    let rows = extension.verdicts();
    resolve_in(rows.as_slice(), fingerprint, applet_version)
}

} // verus!
