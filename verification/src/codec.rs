//! Structured serialization of the result record, with stable snake-case
//! keys `kind`, `name` and `version`. The encoder and the decoder are both
//! verified against the same spec-level text, and decoding a previously
//! encoded record provably yields that record back.

use vstd::prelude::*;

use crate::{opt_view, OsInfo, OsInfoView, OsKind};

verus! {

/// The stable label a kind is encoded as.
pub open spec fn kind_label(k: OsKind) -> Seq<char> {
    match k {
        OsKind::Linux => "linux"@,
        OsKind::Macos => "macos"@,
        OsKind::Windows => "windows"@,
    }
}

/// How one character stands in an encoded string: quote and backslash are
/// escaped with a backslash, every other character stands as itself.
pub open spec fn esc_char(c: char) -> Seq<char> {
    if c == '"' || c == '\\' {
        seq!['\\', c]
    } else {
        seq![c]
    }
}

/// The escaped text of a string value.
pub open spec fn escaped(s: Seq<char>) -> Seq<char>
    decreases s.len(),
{
    if s.len() == 0 {
        Seq::empty()
    } else {
        esc_char(s[0]) + escaped(s.skip(1))
    }
}

/// An optional string field: `null`, or the escaped text in quotes.
pub open spec fn field_text(v: Option<Seq<char>>) -> Seq<char> {
    match v {
        None => "null"@,
        Some(s) => seq!['"'] + escaped(s) + seq!['"'],
    }
}

/// The full encoded text of a record.
pub open spec fn encoded(v: OsInfoView) -> Seq<char> {
    "{\"kind\":\""@ + kind_label(v.kind) + "\",\"name\":"@ + field_text(v.name) + ",\"version\":"@
        + field_text(v.version) + "}"@
}

/// Escaping distributes over concatenation.
proof fn lemma_escaped_concat(a: Seq<char>, b: Seq<char>)
    ensures
        escaped(a + b) == escaped(a) + escaped(b),
    decreases a.len(),
{
    if a.len() == 0 {
        assert(a + b =~= b);
        assert(escaped(a) + escaped(b) =~= escaped(b));
    } else {
        assert((a + b).len() > 0);
        assert((a + b)[0] == a[0]);
        assert((a + b).skip(1) =~= a.skip(1) + b);
        lemma_escaped_concat(a.skip(1), b);
        assert(escaped(a + b) =~= escaped(a) + escaped(b));
    }
}

/// The remainder after the literal `lit`, when `t` begins with it.
pub open spec fn drop_lit(t: Seq<char>, lit: Seq<char>) -> Option<Seq<char>> {
    if lit.len() <= t.len() && t.take(lit.len() as int) == lit {
        Some(t.skip(lit.len() as int))
    } else {
        None
    }
}

/// The scanner for a quoted string's body: given the text after the
/// opening quote, yields the decoded content and how many characters the
/// body and the closing quote took, or nothing when no well-formed body
/// starts here.
pub open spec fn scan_string(t: Seq<char>) -> Option<(Seq<char>, int)>
    decreases t.len(),
{
    if t.len() == 0 {
        None
    } else if t[0] == '"' {
        Some((Seq::empty(), 1))
    } else if t[0] == '\\' {
        if t.len() >= 2 && (t[1] == '"' || t[1] == '\\') {
            match scan_string(t.skip(2)) {
                Some(p) => Some((seq![t[1]] + p.0, p.1 + 2)),
                None => None,
            }
        } else {
            None
        }
    } else {
        match scan_string(t.skip(1)) {
            Some(p) => Some((seq![t[0]] + p.0, p.1 + 1)),
            None => None,
        }
    }
}

/// The scanner for one field: `null`, or a quoted string.
pub open spec fn scan_field(t: Seq<char>) -> Option<(Option<Seq<char>>, Seq<char>)> {
    match drop_lit(t, "null"@) {
        Some(rest) => Some((None, rest)),
        None => if t.len() > 0 && t[0] == '"' {
            match scan_string(t.skip(1)) {
                Some(p) => Some((Some(p.0), t.skip(1 + p.1))),
                None => None,
            }
        } else {
            None
        },
    }
}

/// The scanner for the kind label together with the text up to the name
/// field, tried most specific label first (their first characters differ,
/// so the order does not matter).
pub open spec fn scan_kind(t: Seq<char>) -> Option<(OsKind, Seq<char>)> {
    match drop_lit(t, "linux\",\"name\":"@) {
        Some(rest) => Some((OsKind::Linux, rest)),
        None => match drop_lit(t, "macos\",\"name\":"@) {
            Some(rest) => Some((OsKind::Macos, rest)),
            None => match drop_lit(t, "windows\",\"name\":"@) {
                Some(rest) => Some((OsKind::Windows, rest)),
                None => None,
            },
        },
    }
}

/// What decoding yields for any text: the record, when the text is laid
/// out exactly as the encoder writes it, and nothing otherwise.
pub open spec fn decode_spec(s: Seq<char>) -> Option<OsInfoView> {
    match drop_lit(s, "{\"kind\":\""@) {
        None => None,
        Some(t1) => match scan_kind(t1) {
            None => None,
            Some((kind, t2)) => match scan_field(t2) {
                None => None,
                Some((name, t3)) => match drop_lit(t3, ",\"version\":"@) {
                    None => None,
                    Some(t4) => match scan_field(t4) {
                        None => None,
                        Some((version, t5)) => if t5 == "}"@ {
                            Some(OsInfoView { kind, name, version })
                        } else {
                            None
                        },
                    },
                },
            },
        },
    }
}

/// Dropping a literal off a text that begins with it leaves the rest.
proof fn lemma_drop_lit_concat(lit: Seq<char>, rest: Seq<char>)
    ensures
        drop_lit(lit + rest, lit) == Some(rest),
{
    assert((lit + rest).take(lit.len() as int) =~= lit);
    assert((lit + rest).skip(lit.len() as int) =~= rest);
}

/// A well-formed string body scans back to exactly the string it encodes.
proof fn lemma_scan_escaped(v: Seq<char>, rest: Seq<char>)
    ensures
        scan_string(escaped(v) + seq!['"'] + rest) == Some((v, escaped(v).len() + 1 as int)),
    decreases v.len(),
{
    let t = escaped(v) + seq!['"'] + rest;
    if v.len() == 0 {
        assert(escaped(v) =~= Seq::<char>::empty());
        assert(t =~= seq!['"'] + rest);
        assert(t[0] == '"');
    } else {
        let c = v[0];
        assert(escaped(v) == esc_char(c) + escaped(v.skip(1)));
        lemma_scan_escaped(v.skip(1), rest);
        if c == '"' || c == '\\' {
            assert(t[0] == '\\');
            assert(t[1] == c);
            assert(t.len() >= 2);
            assert(t.skip(2) =~= escaped(v.skip(1)) + seq!['"'] + rest);
            assert(seq![c] + v.skip(1) =~= v);
            assert(escaped(v).len() == 2 + escaped(v.skip(1)).len());
        } else {
            assert(t[0] == c);
            assert(t.skip(1) =~= escaped(v.skip(1)) + seq!['"'] + rest);
            assert(seq![c] + v.skip(1) =~= v);
            assert(escaped(v).len() == 1 + escaped(v.skip(1)).len());
        }
    }
}

/// A well-formed field scans back to exactly the value it encodes.
proof fn lemma_scan_field(v: Option<Seq<char>>, rest: Seq<char>)
    ensures
        scan_field(field_text(v) + rest) == Some((v, rest)),
{
    reveal_strlit("null");
    let t = field_text(v) + rest;
    match v {
        None => {
            assert(t =~= "null"@ + rest);
            lemma_drop_lit_concat("null"@, rest);
        },
        Some(s) => {
            assert(t =~= seq!['"'] + (escaped(s) + seq!['"'] + rest));
            assert(t[0] == '"');
            assert(drop_lit(t, "null"@) is None) by {
                if drop_lit(t, "null"@) is Some {
                    assert(t.take(4)[0] == t[0]);
                    assert("null"@[0] == 'n');
                }
            }
            assert(t.skip(1) =~= escaped(s) + seq!['"'] + rest);
            lemma_scan_escaped(s, rest);
            assert(1 + (escaped(s).len() + 1 as int) == 2 + escaped(s).len());
            assert(t.skip(2 + escaped(s).len() as int) =~= rest);
        },
    }
}

/// A well-formed kind label scans back to exactly the kind it encodes.
proof fn lemma_scan_kind(k: OsKind, rest: Seq<char>)
    ensures
        scan_kind(kind_label(k) + "\",\"name\":"@ + rest) == Some((k, rest)),
{
    reveal_strlit("linux");
    reveal_strlit("macos");
    reveal_strlit("windows");
    reveal_strlit("\",\"name\":");
    reveal_strlit("linux\",\"name\":");
    reveal_strlit("macos\",\"name\":");
    reveal_strlit("windows\",\"name\":");
    let t = kind_label(k) + "\",\"name\":"@ + rest;
    match k {
        OsKind::Linux => {
            assert(t =~= "linux\",\"name\":"@ + rest);
            lemma_drop_lit_concat("linux\",\"name\":"@, rest);
        },
        OsKind::Macos => {
            assert(t =~= "macos\",\"name\":"@ + rest);
            assert(t[0] == 'm');
            assert(drop_lit(t, "linux\",\"name\":"@) is None) by {
                if drop_lit(t, "linux\",\"name\":"@) is Some {
                    assert(t.take(14)[0] == t[0]);
                }
            }
            lemma_drop_lit_concat("macos\",\"name\":"@, rest);
        },
        OsKind::Windows => {
            assert(t =~= "windows\",\"name\":"@ + rest);
            assert(t[0] == 'w');
            assert(drop_lit(t, "linux\",\"name\":"@) is None) by {
                if drop_lit(t, "linux\",\"name\":"@) is Some {
                    assert(t.take(14)[0] == t[0]);
                }
            }
            assert(drop_lit(t, "macos\",\"name\":"@) is None) by {
                if drop_lit(t, "macos\",\"name\":"@) is Some {
                    assert(t.take(14)[0] == t[0]);
                }
            }
            lemma_drop_lit_concat("windows\",\"name\":"@, rest);
        },
    }
}

/// Law: decoding a previously encoded record yields that record back,
/// field for field, whatever the record held.
#[verifier::rlimit(100)]
pub proof fn lemma_round_trip(v: OsInfoView)
    ensures
        decode_spec(encoded(v)) == Some(v),
{
    reveal_strlit("{\"kind\":\"");
    reveal_strlit(",\"version\":");
    reveal_strlit("}");
    let pre = "{\"kind\":\""@;
    let mid1 = "\",\"name\":"@;
    let mid2 = ",\"version\":"@;
    let end = "}"@;
    let s = encoded(v);
    let t1 = kind_label(v.kind) + mid1 + field_text(v.name) + mid2 + field_text(v.version) + end;
    assert(s =~= pre + t1);
    lemma_drop_lit_concat(pre, t1);
    let t2 = field_text(v.name) + (mid2 + field_text(v.version) + end);
    assert(t1 =~= kind_label(v.kind) + mid1 + (t2));
    lemma_scan_kind(v.kind, t2);
    let t3 = mid2 + field_text(v.version) + end;
    assert(t2 =~= field_text(v.name) + t3);
    lemma_scan_field(v.name, t3);
    let t4 = field_text(v.version) + end;
    assert(t3 =~= mid2 + t4);
    lemma_drop_lit_concat(mid2, t4);
    lemma_scan_field(v.version, end);
}

/// Appends the escaped text of `s`.
fn append_escaped(out: &mut String, s: &str)
    ensures
        final(out)@ == old(out)@ + escaped(s@),
{
    let n = s.unicode_len();
    let mut i: usize = 0;
    proof {
        assert(escaped(s@.take(0)) =~= Seq::<char>::empty());
        assert(out@ + escaped(s@.take(0)) =~= out@);
    }
    while i < n
        invariant
            n == s@.len(),
            i <= n,
            out@ == old(out)@ + escaped(s@.take(i as int)),
        decreases n - i,
    {
        let c = s.get_char(i);
        proof {
            assert(s@.take(i + 1) =~= s@.take(i as int) + seq![s@[i as int]]);
            lemma_escaped_concat(s@.take(i as int), seq![s@[i as int]]);
            assert(seq![s@[i as int]].skip(1) =~= Seq::<char>::empty());
            assert(escaped(Seq::<char>::empty()) == Seq::<char>::empty());
            assert(escaped(seq![s@[i as int]]) == esc_char(s@[i as int]) + escaped(
                Seq::<char>::empty(),
            ));
            assert(esc_char(s@[i as int]) + Seq::<char>::empty() =~= esc_char(s@[i as int]));
        }
        if c == '"' {
            out.append("\\\"");
            proof {
                reveal_strlit("\\\"");
                assert("\\\""@ =~= esc_char(c));
            }
        } else if c == '\\' {
            out.append("\\\\");
            proof {
                reveal_strlit("\\\\");
                assert("\\\\"@ =~= esc_char(c));
            }
        } else {
            let piece = s.substring_char(i, i + 1);
            proof {
                assert(piece@ =~= esc_char(c));
            }
            out.append(piece);
        }
        proof {
            assert(out@ =~= old(out)@ + escaped(s@.take(i + 1)));
        }
        i += 1;
    }
    proof {
        assert(s@.take(n as int) =~= s@);
    }
}

/// Appends one optional string field.
fn append_field(out: &mut String, v: &Option<String>)
    ensures
        final(out)@ == old(out)@ + field_text(opt_view(*v)),
{
    match v {
        None => {
            out.append("null");
        },
        Some(s) => {
            out.append("\"");
            append_escaped(out, s.as_str());
            out.append("\"");
            proof {
                reveal_strlit("\"");
                assert(out@ =~= old(out)@ + field_text(opt_view(*v)));
            }
        },
    }
}

/// Encodes the record as text with the stable keys `kind`, `name` and
/// `version`.
pub fn encode(info: &OsInfo) -> (r: String)
    ensures
        r@ == encoded(info@),
{
    let mut out = String::from_str("{\"kind\":\"");
    match info.kind {
        OsKind::Linux => out.append("linux"),
        OsKind::Macos => out.append("macos"),
        OsKind::Windows => out.append("windows"),
    }
    out.append("\",\"name\":");
    append_field(&mut out, &info.name);
    out.append(",\"version\":");
    append_field(&mut out, &info.version);
    out.append("}");
    proof {
        assert(out@ =~= encoded(info@));
    }
    out
}

/// Matches the literal `lit` at position `from`, yielding the position
/// just after it.
fn match_lit(s: &str, from: usize, lit: &str) -> (r: Option<usize>)
    requires
        from <= s@.len(),
    ensures
        match r {
            Some(end) => from <= end <= s@.len() && end as int == from + lit@.len() && drop_lit(
                s@.skip(from as int),
                lit@,
            ) == Some(s@.skip(end as int)),
            None => drop_lit(s@.skip(from as int), lit@) is None,
        },
{
    let n = s.unicode_len();
    let m = lit.unicode_len();
    if m > n - from {
        return None;
    }
    let mut k: usize = 0;
    while k < m
        invariant
            n == s@.len(),
            m == lit@.len(),
            from + m <= n,
            k <= m,
            forall|j: int| 0 <= j < k ==> s@[from + j] == lit@[j],
        decreases m - k,
    {
        if s.get_char(from + k) != lit.get_char(k) {
            proof {
                let t = s@.skip(from as int);
                assert(t[k as int] == s@[from + k]);
                assert(drop_lit(t, lit@) is None) by {
                    if drop_lit(t, lit@) is Some {
                        assert(t.take(m as int)[k as int] == t[k as int]);
                    }
                }
            }
            return None;
        }
        k += 1;
    }
    proof {
        let t = s@.skip(from as int);
        assert(t.take(m as int) =~= lit@);
        assert(t.skip(m as int) =~= s@.skip(from + m));
    }
    Some(from + m)
}

/// Reads a quoted string's body beginning at `from` (just after the
/// opening quote), yielding the content and the position just after the
/// closing quote.
fn parse_string(s: &str, from: usize) -> (r: Option<(String, usize)>)
    requires
        from <= s@.len(),
    ensures
        match r {
            Some(p) => from < p.1 <= s@.len() && scan_string(s@.skip(from as int)) == Some(
                (p.0@, p.1 - from as int),
            ),
            None => scan_string(s@.skip(from as int)) is None,
        },
{
    let n = s.unicode_len();
    let mut out = String::new();
    let mut i: usize = from;
    loop
        invariant
            n == s@.len(),
            from <= i <= n,
            match scan_string(s@.skip(i as int)) {
                Some(p) => scan_string(s@.skip(from as int)) == Some(
                    (out@ + p.0, (i - from) + p.1),
                ),
                None => scan_string(s@.skip(from as int)) is None,
            },
        decreases n - i,
    {
        if i == n {
            proof {
                assert(s@.skip(i as int).len() == 0);
            }
            return None;
        }
        let ghost t = s@.skip(i as int);
        let c = s.get_char(i);
        proof {
            assert(t[0] == c);
            assert(t.len() > 0);
        }
        if c == '"' {
            proof {
                assert(scan_string(t) == Some((Seq::<char>::empty(), 1 as int)));
                assert(out@ + Seq::<char>::empty() =~= out@);
            }
            return Some((out, i + 1));
        } else if c == '\\' {
            if i + 1 == n {
                proof {
                    assert(t.len() == 1);
                    assert(scan_string(t) is None);
                }
                return None;
            }
            let c2 = s.get_char(i + 1);
            proof {
                assert(t[1] == c2);
            }
            if c2 == '"' || c2 == '\\' {
                let piece = s.substring_char(i + 1, i + 2);
                proof {
                    assert(piece@ =~= seq![c2]);
                    assert(t.skip(2) =~= s@.skip(i + 2));
                    match scan_string(s@.skip(i + 2)) {
                        Some(q) => {
                            assert(scan_string(t) == Some((seq![c2] + q.0, q.1 + 2)));
                            assert((out@ + piece@) + q.0 =~= out@ + (seq![c2] + q.0));
                        },
                        None => {
                            assert(scan_string(t) is None);
                        },
                    }
                }
                out.append(piece);
                i += 2;
            } else {
                proof {
                    assert(scan_string(t) is None);
                }
                return None;
            }
        } else {
            let piece = s.substring_char(i, i + 1);
            proof {
                assert(piece@ =~= seq![c]);
                assert(t.skip(1) =~= s@.skip(i + 1));
                match scan_string(s@.skip(i + 1)) {
                    Some(q) => {
                        assert(scan_string(t) == Some((seq![c] + q.0, q.1 + 1)));
                        assert((out@ + piece@) + q.0 =~= out@ + (seq![c] + q.0));
                    },
                    None => {
                        assert(scan_string(t) is None);
                    },
                }
            }
            out.append(piece);
            i += 1;
        }
    }
}

/// Reads one optional string field beginning at `from`.
fn parse_field(s: &str, from: usize) -> (r: Option<(Option<String>, usize)>)
    requires
        from <= s@.len(),
    ensures
        match r {
            Some(p) => from <= p.1 <= s@.len() && scan_field(s@.skip(from as int)) == Some(
                (opt_view(p.0), s@.skip(p.1 as int)),
            ),
            None => scan_field(s@.skip(from as int)) is None,
        },
{
    let ghost t = s@.skip(from as int);
    if let Some(end) = match_lit(s, from, "null") {
        return Some((None, end));
    }
    proof {
        reveal_strlit("\"");
    }
    if let Some(body) = match_lit(s, from, "\"") {
        proof {
            assert(t.take(1)[0] == t[0]);
            assert(t.len() > 0 && t[0] == '"');
            assert(t.skip(1) =~= s@.skip(from + 1));
            assert(body as int == from + 1);
        }
        match parse_string(s, body) {
            Some(p) => {
                proof {
                    let q = scan_string(s@.skip(body as int))->Some_0;
                    assert(t.skip(1 + q.1) =~= s@.skip(from + 1 + q.1));
                    assert(from + 1 + q.1 == p.1);
                }
                Some((Some(p.0), p.1))
            },
            None => None,
        }
    } else {
        proof {
            assert(!(t.len() > 0 && t[0] == '"')) by {
                if t.len() > 0 && t[0] == '"' {
                    assert(t.take(1) =~= "\""@);
                }
            }
        }
        None
    }
}

/// Decodes text the encoder wrote back into a record: the layout must be
/// exactly the encoder's, else nothing comes back.
pub fn decode(s: &str) -> (r: Option<OsInfo>)
    ensures
        decode_spec(s@) == (match r {
            Some(info) => Some(info@),
            None => None,
        }),
{
    let n = s.unicode_len();
    let p1 = match match_lit(s, 0, "{\"kind\":\"") {
        Some(p) => p,
        None => {
            proof {
                assert(s@.skip(0) =~= s@);
            }
            return None;
        },
    };
    proof {
        assert(s@.skip(0) =~= s@);
    }
    let (kind, p2) = if let Some(p) = match_lit(s, p1, "linux\",\"name\":") {
        (OsKind::Linux, p)
    } else if let Some(p) = match_lit(s, p1, "macos\",\"name\":") {
        (OsKind::Macos, p)
    } else if let Some(p) = match_lit(s, p1, "windows\",\"name\":") {
        (OsKind::Windows, p)
    } else {
        return None;
    };
    let (name, p3) = match parse_field(s, p2) {
        Some(p) => p,
        None => {
            return None;
        },
    };
    let p4 = match match_lit(s, p3, ",\"version\":") {
        Some(p) => p,
        None => {
            return None;
        },
    };
    let (version, p5) = match parse_field(s, p4) {
        Some(p) => p,
        None => {
            return None;
        },
    };
    let p6 = match match_lit(s, p5, "}") {
        Some(p) => p,
        None => {
            proof {
                reveal_strlit("}");
                let t5 = s@.skip(p5 as int);
                if t5 == "}"@ {
                    assert(t5.take(1) =~= "}"@);
                }
            }
            return None;
        },
    };
    proof {
        reveal_strlit("}");
    }
    if p6 == n {
        proof {
            let t5 = s@.skip(p5 as int);
            assert(t5.take(1) =~= "}"@);
            assert(t5 =~= "}"@);
        }
        Some(OsInfo { kind, name, version })
    } else {
        proof {
            let t5 = s@.skip(p5 as int);
            assert(t5.len() > 1);
            assert(t5 != "}"@);
        }
        None
    }
}

} // verus!
