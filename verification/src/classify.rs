use vstd::prelude::*;

use crate::text::{chars_of, str_eq};

verus! {

/// The three container formats a report attachment may use.
#[derive(Clone, Copy, Debug, PartialEq, Eq, Structural)]
pub enum ReportFormat {
    Zip,
    Gzip,
    Xml,
}

pub open spec fn spec_from_mimetype(m: Seq<char>) -> Option<ReportFormat> {
    if m == "application/zip"@ || m == "application/x-zip-compressed"@ {
        Some(ReportFormat::Zip)
    } else if m == "application/gzip"@ || m == "application/x-gzip"@ {
        Some(ReportFormat::Gzip)
    } else if m == "application/xml"@ || m == "text/xml"@ {
        Some(ReportFormat::Xml)
    } else {
        Option::None
    }
}

pub open spec fn spec_from_extension(e: Seq<char>) -> Option<ReportFormat> {
    if e == "zip"@ {
        Some(ReportFormat::Zip)
    } else if e == "gz"@ {
        Some(ReportFormat::Gzip)
    } else if e == "xml"@ {
        Some(ReportFormat::Xml)
    } else {
        Option::None
    }
}

pub open spec fn is_space(c: char) -> bool {
    c == ' ' || c == '\t' || c == '\n' || c == '\r' || c == '\u{b}' || c == '\u{c}'
}

pub open spec fn is_quote(c: char) -> bool {
    c == '"' || c == '\''
}

pub open spec fn is_name_char(c: char) -> bool {
    !is_space(c) && !is_quote(c)
}

/// The maximal run of filename characters beginning at `p`.
pub open spec fn name_run(s: Seq<char>, p: int) -> Seq<char>
    decreases s.len() - p,
    when 0 <= p <= s.len()
{
    if p < s.len() && is_name_char(s[p]) {
        seq![s[p]] + name_run(s, p + 1)
    } else {
        Seq::<char>::empty()
    }
}

/// The filename captured when the disposition value matches at
/// position `p`: the text `filename=`, an optional single quote
/// character, and at least one filename character.
pub open spec fn match_at(s: Seq<char>, p: int) -> Option<Seq<char>> {
    if 0 <= p && p + 9 <= s.len() && s.subrange(p, p + 9) == "filename="@ {
        let q = p + 9;
        if q < s.len() && is_name_char(s[q]) {
            Some(name_run(s, q))
        } else if q + 1 < s.len() && is_quote(s[q]) && is_name_char(s[q + 1]) {
            Some(name_run(s, q + 1))
        } else {
            Option::None
        }
    } else {
        Option::None
    }
}

/// The filename of the leftmost match at or after position `p`.
pub open spec fn first_match(s: Seq<char>, p: int) -> Option<Seq<char>>
    decreases s.len() - p,
    when 0 <= p
{
    if p + 9 > s.len() {
        Option::None
    } else {
        match match_at(s, p) {
            Option::Some(nm) => Some(nm),
            Option::None => first_match(s, p + 1),
        }
    }
}

/// The extension of a filename: what follows the last dot, or the
/// whole name when it has no dot.
pub open spec fn spec_ext(name: Seq<char>) -> Seq<char>
    decreases name.len(),
{
    if name.len() == 0 {
        name
    } else if name.last() == '.' {
        Seq::<char>::empty()
    } else {
        spec_ext(name.drop_last()).push(name.last())
    }
}

/// The format a disposition header value implies through its filename.
pub open spec fn spec_sniff(d: Seq<char>) -> Option<ReportFormat> {
    match first_match(d, 0) {
        Option::None => Option::None,
        Option::Some(nm) => spec_from_extension(spec_ext(nm)),
    }
}

/// How one part is classified: the MIME type decides when it matches
/// the fixed table, and only otherwise is the disposition header's
/// filename consulted.
pub open spec fn spec_classify(m: Seq<char>, d: Option<Seq<char>>) -> Option<ReportFormat> {
    match spec_from_mimetype(m) {
        Option::Some(f) => Some(f),
        Option::None => match d {
            Option::Some(dd) => spec_sniff(dd),
            Option::None => Option::None,
        },
    }
}

/// When the MIME type matches the fixed table, classification does not
/// depend on the disposition header at all, even if its filename would
/// imply a different format.
pub proof fn lemma_mimetype_wins(m: Seq<char>, d1: Option<Seq<char>>, d2: Option<Seq<char>>)
    requires
        spec_from_mimetype(m) is Some,
    ensures
        spec_classify(m, d1) == spec_from_mimetype(m),
        spec_classify(m, d1) == spec_classify(m, d2),
{
}

impl ReportFormat {
    /// The format the declared MIME type implies, by the fixed table.
    pub fn from_mimetype(s: &str) -> (r: Option<Self>)
        ensures
            r == spec_from_mimetype(s@),
    {
        if str_eq(s, "application/zip") || str_eq(s, "application/x-zip-compressed") {
            Some(ReportFormat::Zip)
        } else if str_eq(s, "application/gzip") || str_eq(s, "application/x-gzip") {
            Some(ReportFormat::Gzip)
        } else if str_eq(s, "application/xml") || str_eq(s, "text/xml") {
            Some(ReportFormat::Xml)
        } else {
            None
        }
    }

    /// The format a filename extension implies, matched exactly.
    pub fn from_extension(s: &str) -> (r: Option<Self>)
        ensures
            r == spec_from_extension(s@),
    {
        if str_eq(s, "zip") {
            Some(ReportFormat::Zip)
        } else if str_eq(s, "gz") {
            Some(ReportFormat::Gzip)
        } else if str_eq(s, "xml") {
            Some(ReportFormat::Xml)
        } else {
            None
        }
    }
}

fn is_name_char_x(c: char) -> (b: bool)
    ensures
        b == is_name_char(c),
{
    !(c == ' ' || c == '\t' || c == '\n' || c == '\r' || c == '\u{b}' || c == '\u{c}' || c == '"'
        || c == '\'')
}

proof fn lemma_first_match_skip(s: Seq<char>, a: int, b: int)
    requires
        0 <= a <= b,
        forall|q: int| a <= q < b ==> match_at(s, q) is None,
    ensures
        first_match(s, a) == first_match(s, b),
    decreases b - a,
{
    if a < b {
        if a + 9 > s.len() {
            assert(first_match(s, a) is None);
            assert(b + 9 > s.len());
            assert(first_match(s, b) is None);
        } else {
            lemma_first_match_skip(s, a + 1, b);
        }
    }
}

/// The extension of a filename held as characters.
fn ext_chars(name: &Vec<char>) -> (r: Vec<char>)
    ensures
        r@ == spec_ext(name@),
{
    let mut i: usize = name.len();
    while i > 0 && name[i - 1] != '.'
        invariant
            i <= name@.len(),
            forall|j: int| i <= j < name@.len() ==> name@[j] != '.',
        decreases i,
    {
        i = i - 1;
    }
    let mut out: Vec<char> = Vec::new();
    let mut j: usize = i;
    while j < name.len()
        invariant
            i <= j <= name@.len(),
            out@ =~= name@.subrange(i as int, j as int),
        decreases name@.len() - j,
    {
        out.push(name[j]);
        j = j + 1;
    }
    proof {
        if i == 0 {
            lemma_ext_no_dot(name@);
            assert(out@ =~= name@);
        } else {
            lemma_ext_last_dot(name@, i - 1);
            assert(out@ =~= name@.subrange(i as int, name@.len() as int));
        }
    }
    out
}

proof fn lemma_ext_no_dot(name: Seq<char>)
    requires
        forall|j: int| 0 <= j < name.len() ==> name[j] != '.',
    ensures
        spec_ext(name) == name,
    decreases name.len(),
{
    if name.len() > 0 {
        lemma_ext_no_dot(name.drop_last());
        assert(spec_ext(name) =~= name);
    } else {
        assert(spec_ext(name) =~= name);
    }
}

proof fn lemma_ext_last_dot(name: Seq<char>, ld: int)
    requires
        0 <= ld < name.len(),
        name[ld] == '.',
        forall|j: int| ld < j < name.len() ==> name[j] != '.',
    ensures
        spec_ext(name) == name.subrange(ld + 1, name.len() as int),
    decreases name.len(),
{
    if ld == name.len() - 1 {
        assert(spec_ext(name) =~= name.subrange(ld + 1, name.len() as int));
    } else {
        assert(name.drop_last()[ld] == '.');
        lemma_ext_last_dot(name.drop_last(), ld);
        assert(spec_ext(name) =~= name.subrange(ld + 1, name.len() as int));
    }
}

fn format_from_ext_chars(e: &Vec<char>) -> (r: Option<ReportFormat>)
    ensures
        r == spec_from_extension(e@),
{
    proof {
        reveal_strlit("zip");
        reveal_strlit("gz");
        reveal_strlit("xml");
    }
    if e.len() == 3 && e[0] == 'z' && e[1] == 'i' && e[2] == 'p' {
        proof {
            assert(e@ =~= "zip"@);
        }
        Some(ReportFormat::Zip)
    } else if e.len() == 2 && e[0] == 'g' && e[1] == 'z' {
        proof {
            assert(e@ =~= "gz"@);
        }
        Some(ReportFormat::Gzip)
    } else if e.len() == 3 && e[0] == 'x' && e[1] == 'm' && e[2] == 'l' {
        proof {
            assert(e@ =~= "xml"@);
        }
        Some(ReportFormat::Xml)
    } else {
        proof {
            if e@ == "zip"@ {
                assert(e@.len() == 3 && e@[0] == 'z' && e@[1] == 'i' && e@[2] == 'p');
            }
            if e@ == "gz"@ {
                assert(e@.len() == 2 && e@[0] == 'g' && e@[1] == 'z');
            }
            if e@ == "xml"@ {
                assert(e@.len() == 3 && e@[0] == 'x' && e@[1] == 'm' && e@[2] == 'l');
            }
        }
        None
    }
}

/// The format the disposition header value implies: the first
/// `filename=` token's value, quoted with `"`, `'`, or unquoted, has
/// its extension matched against the fixed table.
pub fn guess_format_from_name(disposition: &str) -> (r: Option<ReportFormat>)
    ensures
        r == spec_sniff(disposition@),
{
    let v = chars_of(disposition);
    let n = v.len();
    proof {
        reveal_strlit("filename=");
    }
    let mut p: usize = 0;
    while p < n && n - p >= 9
        invariant
            n == v@.len(),
            v@ == disposition@,
            p <= n,
            forall|q: int| 0 <= q < p ==> match_at(v@, q) is None,
        decreases n - p,
    {
        proof {
            reveal_strlit("filename=");
        }
        let m = v[p] == 'f' && v[p + 1] == 'i' && v[p + 2] == 'l' && v[p + 3] == 'e' && v[p + 4]
            == 'n' && v[p + 5] == 'a' && v[p + 6] == 'm' && v[p + 7] == 'e' && v[p + 8] == '=';
        if m {
            proof {
                assert(v@.subrange(p as int, p as int + 9) =~= "filename="@);
            }
            let q = p + 9;
            let start: usize;
            if q < n && is_name_char_x(v[q]) {
                start = q;
            } else if n - q >= 2 && (v[q] == '"' || v[q] == '\'') && is_name_char_x(v[q + 1]) {
                start = q + 1;
            } else {
                proof {
                    assert(match_at(v@, p as int) is None);
                }
                p = p + 1;
                continue;
            }
            let mut name: Vec<char> = Vec::new();
            let mut j = start;
            while j < n && is_name_char_x(v[j])
                invariant
                    n == v@.len(),
                    start <= j <= n,
                    start < n && is_name_char(v@[start as int]),
                    name_run(v@, start as int) == name@ + name_run(v@, j as int),
                decreases n - j,
            {
                proof {
                    assert(name_run(v@, j as int) == seq![v@[j as int]] + name_run(v@, j + 1));
                    assert(name@ + name_run(v@, j as int) =~= name@.push(v@[j as int]) + name_run(
                        v@,
                        j + 1,
                    ));
                }
                name.push(v[j]);
                j = j + 1;
            }
            proof {
                assert(name_run(v@, j as int) =~= Seq::<char>::empty());
                assert(name@ + name_run(v@, j as int) =~= name@);
                assert(name_run(v@, start as int) == name@);
                assert(match_at(v@, p as int) == Some(name@));
                lemma_first_match_skip(v@, 0, p as int);
                assert(first_match(v@, 0) == Some(name@));
            }
            let ext = ext_chars(&name);
            return format_from_ext_chars(&ext);
        } else {
            proof {
                let lit = "filename="@;
                let sub = v@.subrange(p as int, p as int + 9);
                if sub == lit {
                    assert(sub[0] == lit[0] && sub[1] == lit[1] && sub[2] == lit[2] && sub[3]
                        == lit[3] && sub[4] == lit[4] && sub[5] == lit[5] && sub[6] == lit[6]
                        && sub[7] == lit[7] && sub[8] == lit[8]);
                    assert(v@[p as int] == 'f');
                    assert(v@[p as int + 1] == 'i');
                    assert(v@[p as int + 2] == 'l');
                    assert(v@[p as int + 3] == 'e');
                    assert(v@[p as int + 4] == 'n');
                    assert(v@[p as int + 5] == 'a');
                    assert(v@[p as int + 6] == 'm');
                    assert(v@[p as int + 7] == 'e');
                    assert(v@[p as int + 8] == '=');
                }
                assert(match_at(v@, p as int) is None);
            }
            p = p + 1;
        }
    }
    proof {
        assert(p + 9 > n);
        assert(first_match(v@, p as int) is None);
        lemma_first_match_skip(v@, 0, p as int);
    }
    None
}

/// How one part is classified: MIME type first, filename second.
pub fn classify_part(mimetype: &str, disposition: Option<&String>) -> (r: Option<ReportFormat>)
    ensures
        r == spec_classify(
            mimetype@,
            match disposition {
                Option::Some(d) => Some(d@),
                Option::None => Option::None::<Seq<char>>,
            },
        ),
{
    match ReportFormat::from_mimetype(mimetype) {
        Some(f) => Some(f),
        None => match disposition {
            Some(d) => guess_format_from_name(d.as_str()),
            None => None,
        },
    }
}

} // verus!
