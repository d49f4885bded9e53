//! The Windows backend: combines the numbers the OS version facility
//! reports with the registry's product-name string. Both queries are the
//! surrounding program's task; the numbers always arrive, a failed
//! registry lookup arrives as `None` and yields an absent name.

use vstd::prelude::*;

use crate::strutil::str_starts_with;
use crate::{opt_view, OsInfo, OsInfoView, OsKind};

verus! {

/// The disambiguation rule: Windows 11 keeps major version 10 at the
/// version-facility level, so the build number is the only reliable
/// discriminator — builds from the first public Windows 11 release on
/// (22000) mean Windows 11; a major version above 10 does unconditionally.
pub open spec fn spec_is_windows_11(major: u32, build: u32) -> bool {
    major > 10 || (major == 10 && build >= 22000)
}

/// The decimal digit character for `d`.
pub open spec fn dec_digit(d: int) -> char {
    if d == 0 {
        '0'
    } else if d == 1 {
        '1'
    } else if d == 2 {
        '2'
    } else if d == 3 {
        '3'
    } else if d == 4 {
        '4'
    } else if d == 5 {
        '5'
    } else if d == 6 {
        '6'
    } else if d == 7 {
        '7'
    } else if d == 8 {
        '8'
    } else {
        '9'
    }
}

/// The decimal text of `n`, most significant digit first.
pub open spec fn dec_str(n: int) -> Seq<char>
    decreases n,
{
    if n < 10 {
        seq![dec_digit(n)]
    } else {
        dec_str(n / 10).push(dec_digit(n % 10))
    }
}

/// The version string the backend reports: the literal "11" under the
/// Windows 11 disambiguation, otherwise the major version in decimal.
pub open spec fn version_text(major: u32, build: u32) -> Seq<char> {
    if spec_is_windows_11(major, build) {
        "11"@
    } else {
        dec_str(major as int)
    }
}

/// The name patch: under the Windows 11 disambiguation a stale registry
/// name beginning "Windows 10" has the character at index 9 (the '0')
/// replaced by '1'; any other name — localized or unusual — stands as-is.
pub open spec fn patched_name(major: u32, build: u32, name: Seq<char>) -> Seq<char> {
    if spec_is_windows_11(major, build) && "Windows 10"@.is_prefix_of(name) {
        name.update(9, '1')
    } else {
        name
    }
}

/// The whole record the Windows backend produces from the version numbers
/// and the registry's product name, or its absence.
pub open spec fn windows_info(major: u32, build: u32, product_name: Option<Seq<char>>) -> OsInfoView {
    OsInfoView {
        kind: OsKind::Windows,
        name: match product_name {
            Some(s) => Some(patched_name(major, build, s)),
            None => None,
        },
        version: Some(version_text(major, build)),
    }
}

/// Law: the kind is Windows whatever the queries answered — odd version
/// numbers or a missing registry value never alter it.
pub proof fn lemma_kind_fixed(major: u32, build: u32, product_name: Option<Seq<char>>)
    ensures
        windows_info(major, build, product_name).kind == OsKind::Windows,
{
}

/// Law: repeated queries against unchanged OS state agree field for
/// field — the record is a function of the two queries' answers alone.
pub proof fn lemma_idempotent(
    major1: u32,
    build1: u32,
    name1: Option<Seq<char>>,
    major2: u32,
    build2: u32,
    name2: Option<Seq<char>>,
)
    requires
        major1 == major2,
        build1 == build2,
        name1 == name2,
    ensures
        windows_info(major1, build1, name1) == windows_info(major2, build2, name2),
{
}

/// Whether the reported numbers denote Windows 11, by the build-number
/// disambiguation rule.
pub fn is_windows_11(major: u32, build: u32) -> (r: bool)
    ensures
        r == spec_is_windows_11(major, build),
{
    major > 10 || (major == 10 && build >= 22000)
}

/// The decimal text of `n`.
pub fn u32_to_string(n: u32) -> (s: String)
    ensures
        s@ == dec_str(n as int),
    decreases n,
{
    let d = n % 10;
    let digit: &str = if d == 0 {
        "0"
    } else if d == 1 {
        "1"
    } else if d == 2 {
        "2"
    } else if d == 3 {
        "3"
    } else if d == 4 {
        "4"
    } else if d == 5 {
        "5"
    } else if d == 6 {
        "6"
    } else if d == 7 {
        "7"
    } else if d == 8 {
        "8"
    } else {
        "9"
    };
    proof {
        reveal_strlit("0");
        reveal_strlit("1");
        reveal_strlit("2");
        reveal_strlit("3");
        reveal_strlit("4");
        reveal_strlit("5");
        reveal_strlit("6");
        reveal_strlit("7");
        reveal_strlit("8");
        reveal_strlit("9");
        assert(digit@ =~= seq![dec_digit(d as int)]);
    }
    if n < 10 {
        proof {
            assert(dec_str(n as int) == seq![dec_digit(n as int)]);
        }
        String::from_str(digit)
    } else {
        let mut s = u32_to_string(n / 10);
        s.append(digit);
        proof {
            assert(dec_str((n / 10) as int) + seq![dec_digit(d as int)] =~= dec_str(
                (n / 10) as int,
            ).push(dec_digit(d as int)));
            assert((n / 10) as int == n as int / 10);
            assert(d as int == n as int % 10);
        }
        s
    }
}

/// The version string for the reported numbers: "11" under the
/// disambiguation rule, the major version in decimal otherwise.
pub fn os_version(major: u32, build: u32) -> (r: String)
    ensures
        r@ == version_text(major, build),
{
    if is_windows_11(major, build) {
        String::from_str("11")
    } else {
        u32_to_string(major)
    }
}

/// The display name for the reported numbers and registry product name:
/// the registry string as-is, except that under the Windows 11
/// disambiguation a stale name beginning "Windows 10" has its '0' at
/// index 9 rewritten to '1'.
pub fn os_name(major: u32, build: u32, product_name: Option<String>) -> (r: Option<String>)
    ensures
        opt_view(r) == (match product_name {
            Some(s) => Some(patched_name(major, build, s@)),
            None => None,
        }),
{
    match product_name {
        None => None,
        Some(value) => {
            if is_windows_11(major, build) && str_starts_with(value.as_str(), "Windows 10") {
                proof {
                    reveal_strlit("Windows 10");
                    reveal_strlit("1");
                    assert(value@.len() >= 10);
                }
                let len = value.as_str().unicode_len();
                let head = value.as_str().substring_char(0, 9);
                let tail = value.as_str().substring_char(10, len);
                let mut out = String::from_str(head);
                out.append("1");
                out.append(tail);
                proof {
                    assert(out@ =~= value@.update(9, '1'));
                }
                Some(out)
            } else {
                Some(value)
            }
        },
    }
}

/// The Windows backend's query: given the version facility's numbers and
/// the registry's product name — or `None`, when the registry lookup
/// failed — it yields the record [`windows_info`] describes. The kind is
/// always Windows; the version is always present.
pub fn get_os_info(major: u32, build: u32, product_name: Option<String>) -> (r: OsInfo)
    ensures
        r@ == windows_info(major, build, opt_view(product_name)),
{
    let name = os_name(major, build, product_name);
    let version = os_version(major, build);
    OsInfo { kind: OsKind::Windows, name, version: Some(version) }
}

} // verus!
