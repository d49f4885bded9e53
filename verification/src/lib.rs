//! Reports the running operating system's identity: a coarse platform kind,
//! a human-readable distribution or edition name, and a version string.
//!
//! The library holds the parsing and mapping logic of the three platform
//! backends, each a verified function from the raw data the host provides
//! (release-file text, a product-version string, version numbers and a
//! registry product name) to the shared [`OsInfo`] record. Reading those
//! data sources is left to the surrounding program, which hands the raw
//! values in; every failure to obtain them degrades to absent fields,
//! never to an error.

use vstd::prelude::*;

pub mod codec;
pub mod linux;
pub mod macos;
pub mod strutil;
pub mod windows;

verus! {

/// The coarse OS family that produced a result.
#[derive(Debug, Clone, Copy, PartialEq, Eq, Structural)]
pub enum OsKind {
    Linux,
    Macos,
    Windows,
}

/// The sole output record: which platform answered, and (where they could
/// be determined) its display name and version string.
#[derive(Debug, Clone)]
pub struct OsInfo {
    pub kind: OsKind,
    pub name: Option<String>,
    pub version: Option<String>,
}

/// Mathematical image of an [`OsInfo`]: the same fields with the strings
/// abstracted to character sequences.
pub struct OsInfoView {
    pub kind: OsKind,
    pub name: Option<Seq<char>>,
    pub version: Option<Seq<char>>,
}

/// The view of an optional string: the character sequence, if present.
pub open spec fn opt_view(o: Option<String>) -> Option<Seq<char>> {
    match o {
        Some(s) => Some(s@),
        None => None,
    }
}

impl View for OsInfo {
    type V = OsInfoView;

    open spec fn view(&self) -> OsInfoView {
        OsInfoView { kind: self.kind, name: opt_view(self.name), version: opt_view(self.version) }
    }
}

} // verus!
