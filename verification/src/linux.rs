//! The Linux backend: parses the text of the system release file
//! (`KEY=VALUE` lines) into the shared record. Reading the file itself is
//! the surrounding program's task; a missing or unreadable file arrives
//! here as `None` and yields absent fields.

use vstd::prelude::*;

use crate::strutil::str_starts_with;
use crate::{opt_view, OsInfo, OsInfoView, OsKind};

verus! {

/// A completed line with a trailing carriage return removed, as happens
/// when the line ended in `\r\n`.
pub open spec fn strip_cr(l: Seq<char>) -> Seq<char> {
    if l.len() > 0 && l.last() == '\r' {
        l.drop_last()
    } else {
        l
    }
}

/// The lines of `s`: split at `'\n'`, each completed line losing a
/// trailing `'\r'`; a final line without a line ending still counts, and a
/// bare carriage return at the very end is kept. `cur` is the part of the
/// current line already read and `acc` the lines already complete.
pub open spec fn lines_rec(s: Seq<char>, cur: Seq<char>, acc: Seq<Seq<char>>) -> Seq<Seq<char>>
    decreases s.len(),
{
    if s.len() == 0 {
        if cur.len() == 0 {
            acc
        } else {
            acc.push(cur)
        }
    } else if s[0] == '\n' {
        lines_rec(s.skip(1), Seq::empty(), acc.push(strip_cr(cur)))
    } else {
        lines_rec(s.skip(1), cur.push(s[0]), acc)
    }
}

/// The lines of a release file's text.
pub open spec fn lines_of(s: Seq<char>) -> Seq<Seq<char>> {
    lines_rec(s, Seq::empty(), Seq::empty())
}

/// The value with every double-quote character removed, wherever it
/// stands — deliberately simpler than strict key-value-file parsing, so a
/// value holding escaped quotes loses them all.
pub open spec fn without_quotes(s: Seq<char>) -> Seq<char>
    decreases s.len(),
{
    if s.len() == 0 {
        Seq::empty()
    } else if s.last() == '"' {
        without_quotes(s.drop_last())
    } else {
        without_quotes(s.drop_last()).push(s.last())
    }
}

/// What one line contributes for `marker`: the rest of the line, quotes
/// stripped, when the line begins with the marker.
pub open spec fn line_value(line: Seq<char>, marker: Seq<char>) -> Option<Seq<char>> {
    if marker.is_prefix_of(line) {
        Some(without_quotes(line.skip(marker.len() as int)))
    } else {
        None
    }
}

/// The value of the last line that begins with `marker`: when a marker
/// occurs on several lines, the last one wins.
pub open spec fn last_value(lines: Seq<Seq<char>>, marker: Seq<char>) -> Option<Seq<char>>
    decreases lines.len(),
{
    if lines.len() == 0 {
        None
    } else {
        match line_value(lines.last(), marker) {
            Some(v) => Some(v),
            None => last_value(lines.drop_last(), marker),
        }
    }
}

/// The distribution name the release text yields.
pub open spec fn release_name(data: Seq<char>) -> Option<Seq<char>> {
    last_value(lines_of(data), "NAME="@)
}

/// The version id the release text yields.
pub open spec fn release_version(data: Seq<char>) -> Option<Seq<char>> {
    last_value(lines_of(data), "VERSION_ID="@)
}

/// The whole record the Linux backend produces from the release text, or
/// from its absence.
pub open spec fn linux_info(data: Option<Seq<char>>) -> OsInfoView {
    match data {
        Some(d) => OsInfoView {
            kind: OsKind::Linux,
            name: release_name(d),
            version: release_version(d),
        },
        None => OsInfoView { kind: OsKind::Linux, name: None, version: None },
    }
}

/// Law: the kind is Linux whatever the release file holds — malformed
/// text, or no file at all, never alters it.
pub proof fn lemma_kind_fixed(data: Option<Seq<char>>)
    ensures
        linux_info(data).kind == OsKind::Linux,
{
}

/// Law: repeated queries against unchanged OS state agree field for
/// field — the record is a function of the release text alone.
pub proof fn lemma_idempotent(d1: Option<Seq<char>>, d2: Option<Seq<char>>)
    requires
        d1 == d2,
    ensures
        linux_info(d1) == linux_info(d2),
{
}

/// Removes every `"` from `s`.
fn strip_quotes(s: &str) -> (r: String)
    ensures
        r@ == without_quotes(s@),
{
    let n = s.unicode_len();
    let mut out = String::new();
    let mut i: usize = 0;
    while i < n
        invariant
            n == s@.len(),
            i <= n,
            out@ == without_quotes(s@.take(i as int)),
        decreases n - i,
    {
        let c = s.get_char(i);
        proof {
            assert(s@.take(i + 1).drop_last() =~= s@.take(i as int));
            assert(s@.take(i + 1).last() == s@[i as int]);
        }
        if c != '"' {
            let piece = s.substring_char(i, i + 1);
            proof {
                assert(piece@ =~= seq![s@[i as int]]);
                assert(without_quotes(s@.take(i as int)).push(s@[i as int]) =~= without_quotes(
                    s@.take(i as int),
                ) + seq![s@[i as int]]);
            }
            out.append(piece);
        }
        i += 1;
    }
    proof {
        assert(s@.take(n as int) =~= s@);
    }
    out
}

/// Applies one line to the running name and version: the value of a
/// `NAME=` line replaces the name, that of a `VERSION_ID=` line the
/// version, and any other line changes nothing.
fn line_update(line: &str, name: Option<String>, version: Option<String>) -> (r: (
    Option<String>,
    Option<String>,
))
    ensures
        opt_view(r.0) == (match line_value(line@, "NAME="@) {
            Some(v) => Some(v),
            None => opt_view(name),
        }),
        opt_view(r.1) == (match line_value(line@, "VERSION_ID="@) {
            Some(v) => Some(v),
            None => opt_view(version),
        }),
{
    proof {
        reveal_strlit("NAME=");
        reveal_strlit("VERSION_ID=");
    }
    if str_starts_with(line, "NAME=") {
        proof {
            assert(!"VERSION_ID="@.is_prefix_of(line@)) by {
                if "VERSION_ID="@.is_prefix_of(line@) {
                    assert(line@.subrange(0, 11) == "VERSION_ID="@);
                    assert(line@[0] == line@.subrange(0, 11)[0]);
                    assert(line@.subrange(0, 5) == "NAME="@);
                    assert(line@[0] == line@.subrange(0, 5)[0]);
                    assert('N' == 'V');
                }
            }
        }
        let rest = line.substring_char(5, line.unicode_len());
        proof {
            assert(rest@ =~= line@.skip(5));
        }
        let val = strip_quotes(rest);
        (Some(val), version)
    } else if str_starts_with(line, "VERSION_ID=") {
        let rest = line.substring_char(11, line.unicode_len());
        proof {
            assert(rest@ =~= line@.skip(11));
        }
        let val = strip_quotes(rest);
        (name, Some(val))
    } else {
        (name, version)
    }
}

/// Scans release text line by line for the last `NAME=` and `VERSION_ID=`
/// values, quotes stripped.
pub fn parse_release(data: &str) -> (r: (Option<String>, Option<String>))
    ensures
        opt_view(r.0) == release_name(data@),
        opt_view(r.1) == release_version(data@),
{
    let n = data.unicode_len();
    let mut name: Option<String> = None;
    let mut version: Option<String> = None;
    let mut start: usize = 0;
    let mut i: usize = 0;
    let ghost mut acc: Seq<Seq<char>> = Seq::empty();
    proof {
        assert(data@.skip(0) =~= data@);
        assert(data@.subrange(0, 0) =~= Seq::<char>::empty());
    }
    while i < n
        invariant
            n == data@.len(),
            start <= i <= n,
            lines_of(data@) == lines_rec(
                data@.skip(i as int),
                data@.subrange(start as int, i as int),
                acc,
            ),
            opt_view(name) == last_value(acc, "NAME="@),
            opt_view(version) == last_value(acc, "VERSION_ID="@),
        decreases n - i,
    {
        let ghost cur = data@.subrange(start as int, i as int);
        let c = data.get_char(i);
        if c == '\n' {
            let line_end = if i > start && data.get_char(i - 1) == '\r' {
                i - 1
            } else {
                i
            };
            let line = data.substring_char(start, line_end);
            proof {
                if i > start && data@[i - 1] == '\r' {
                    assert(cur.len() > 0 && cur.last() == '\r');
                    assert(cur.drop_last() =~= data@.subrange(start as int, i - 1));
                    assert(line@ == strip_cr(cur));
                } else {
                    if cur.len() > 0 {
                        assert(cur.last() == data@[i - 1]);
                    }
                    assert(line@ == strip_cr(cur));
                }
            }
            let updated = line_update(line, name, version);
            name = updated.0;
            version = updated.1;
            proof {
                let pushed = acc.push(strip_cr(cur));
                assert(pushed.drop_last() =~= acc);
                assert(pushed.last() == strip_cr(cur));
                acc = pushed;
                assert(data@.skip(i as int).skip(1) =~= data@.skip(i + 1));
                assert(data@.subrange(i + 1, i + 1) =~= Seq::<char>::empty());
                assert(data@.skip(i as int)[0] == '\n');
            }
            start = i + 1;
        } else {
            proof {
                assert(data@.skip(i as int).skip(1) =~= data@.skip(i + 1));
                assert(cur.push(data@[i as int]) =~= data@.subrange(start as int, i + 1));
                assert(data@.skip(i as int)[0] != '\n');
            }
        }
        i += 1;
    }
    proof {
        assert(data@.skip(n as int) =~= Seq::<char>::empty());
    }
    if start < n {
        let ghost cur = data@.subrange(start as int, n as int);
        let line = data.substring_char(start, n);
        let updated = line_update(line, name, version);
        name = updated.0;
        version = updated.1;
        proof {
            let pushed = acc.push(cur);
            assert(pushed.drop_last() =~= acc);
            assert(pushed.last() == cur);
            assert(lines_of(data@) == pushed);
        }
    } else {
        proof {
            assert(data@.subrange(start as int, n as int).len() == 0);
        }
    }
    (name, version)
}

/// The Linux backend's query: given the release file's text — or nothing,
/// when reading it failed — it yields the record [`linux_info`] describes.
/// The kind is always Linux; name and version are the values of the last
/// `NAME=` and `VERSION_ID=` lines, quotes stripped, each absent when its
/// marker (or the whole file) is missing.
pub fn get_os_info(data: Option<&str>) -> (r: OsInfo)
    ensures
        r@ == linux_info(match data {
            Some(d) => Some(d@),
            None => None,
        }),
{
    match data {
        None => OsInfo { kind: OsKind::Linux, name: None, version: None },
        Some(d) => {
            let parsed = parse_release(d);
            OsInfo { kind: OsKind::Linux, name: parsed.0, version: parsed.1 }
        },
    }
}

} // verus!
