//! The macOS backend: maps the raw product-version string the host's
//! system configuration facility reports to the shared record. Querying
//! that facility is the surrounding program's task; a failed query arrives
//! here as `None` and yields absent fields.

use vstd::prelude::*;

use crate::strutil::str_starts_with;
use crate::{opt_view, OsInfo, OsInfoView, OsKind};

verus! {

/// The ordered prefix table from a raw product-version string to the
/// marketing name, most recent major version first; the first matching
/// prefix wins. Major version 11 and the legacy self-report "10.16" both
/// stand for Big Sur. A version below the table, or newer than its last
/// entry, yields no name: absence is surfaced rather than a guess.
pub open spec fn version_name(v: Seq<char>) -> Option<Seq<char>> {
    if "15"@.is_prefix_of(v) {
        Some("Sequoia"@)
    } else if "14"@.is_prefix_of(v) {
        Some("Sonoma"@)
    } else if "13"@.is_prefix_of(v) {
        Some("Ventura"@)
    } else if "12"@.is_prefix_of(v) {
        Some("Monterey"@)
    } else if "11"@.is_prefix_of(v) {
        Some("Big Sur"@)
    } else if "10.16"@.is_prefix_of(v) {
        Some("Big Sur"@)
    } else if "10.15"@.is_prefix_of(v) {
        Some("Catalina"@)
    } else if "10.14"@.is_prefix_of(v) {
        Some("Mojave"@)
    } else if "10.13"@.is_prefix_of(v) {
        Some("High Sierra"@)
    } else if "10.12"@.is_prefix_of(v) {
        Some("Sierra"@)
    } else {
        None
    }
}

/// The whole record the macOS backend produces from the raw version
/// string, or from its absence. The version is reported verbatim; the
/// name needs the version, so without one both are absent.
pub open spec fn macos_info(raw: Option<Seq<char>>) -> OsInfoView {
    match raw {
        Some(v) => OsInfoView { kind: OsKind::Macos, name: version_name(v), version: Some(v) },
        None => OsInfoView { kind: OsKind::Macos, name: None, version: None },
    }
}

/// Law: the kind is macOS whatever the facility answered — an unknown or
/// malformed version string never alters it.
pub proof fn lemma_kind_fixed(raw: Option<Seq<char>>)
    ensures
        macos_info(raw).kind == OsKind::Macos,
{
}

/// Law: repeated queries against unchanged OS state agree field for
/// field — the record is a function of the raw version string alone.
pub proof fn lemma_idempotent(r1: Option<Seq<char>>, r2: Option<Seq<char>>)
    requires
        r1 == r2,
    ensures
        macos_info(r1) == macos_info(r2),
{
}

/// Law: the version field, when the query answered at all, is the raw
/// string verbatim — whether or not the name table matched.
pub proof fn lemma_version_verbatim(v: Seq<char>)
    ensures
        macos_info(Some(v)).version == Some(v),
{
}

/// The marketing name for a raw product-version string, by the first
/// matching prefix of the table.
pub fn os_name(version: &str) -> (r: Option<String>)
    ensures
        opt_view(r) == version_name(version@),
{
    if str_starts_with(version, "15") {
        Some(String::from_str("Sequoia"))
    } else if str_starts_with(version, "14") {
        Some(String::from_str("Sonoma"))
    } else if str_starts_with(version, "13") {
        Some(String::from_str("Ventura"))
    } else if str_starts_with(version, "12") {
        Some(String::from_str("Monterey"))
    } else if str_starts_with(version, "11") {
        Some(String::from_str("Big Sur"))
    } else if str_starts_with(version, "10.16") {
        Some(String::from_str("Big Sur"))
    } else if str_starts_with(version, "10.15") {
        Some(String::from_str("Catalina"))
    } else if str_starts_with(version, "10.14") {
        Some(String::from_str("Mojave"))
    } else if str_starts_with(version, "10.13") {
        Some(String::from_str("High Sierra"))
    } else if str_starts_with(version, "10.12") {
        Some(String::from_str("Sierra"))
    } else {
        None
    }
}

/// The version the backend reports: the raw queried string, verbatim.
pub fn os_version(version: &str) -> (r: String)
    ensures
        r@ == version@,
{
    String::from_str(version)
}

/// The macOS backend's query: given the raw product-version string — or
/// nothing, when the facility query failed — it yields the record
/// [`macos_info`] describes. The kind is always macOS; the version is the
/// raw string verbatim and the name its first match in the prefix table,
/// both absent when no string came back.
pub fn get_os_info(raw: Option<&str>) -> (r: OsInfo)
    ensures
        r@ == macos_info(match raw {
            Some(v) => Some(v@),
            None => None,
        }),
{
    match raw {
        None => OsInfo { kind: OsKind::Macos, name: None, version: None },
        Some(v) => OsInfo { kind: OsKind::Macos, name: os_name(v), version: Some(os_version(v)) },
    }
}

} // verus!
