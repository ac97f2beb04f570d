use vstd::prelude::*;

pub mod classify;
pub mod decode;
pub mod ip;
pub mod mail;
pub mod report;
pub mod schema;
pub mod text;
pub mod xmltree;

pub use classify::ReportFormat;

use crate::classify::spec_classify;
use crate::classify::classify_part;
use crate::decode::decode_part;
use crate::decode::gunzip_of;
use crate::decode::utf8_of;
use crate::decode::zip_entry_of;
use crate::mail::mail_parts_of;
use crate::mail::parse_mail_parts;
use crate::mail::MailPart;
use crate::mail::MailPartView;
use crate::report::Feedback;

verus! {

/// A decode failure, carrying a descriptive message.
#[derive(Clone, Debug)]
pub struct ParseError(pub String);

impl View for ParseError {
    type V = Seq<char>;

    open spec fn view(&self) -> Seq<char> {
        self.0@
    }
}

impl ParseError {
    /// The failure's message.
    pub fn message(&self) -> (m: &String)
        ensures
            m@ == self@,
    {
        &self.0
    }
}

/// The candidate parts of an email: the top-level part alone when it
/// has no subparts, else exactly its immediate subparts.
pub open spec fn spec_candidates(top: MailPartView, subs: Seq<MailPartView>) -> Seq<MailPartView> {
    if subs.len() == 0 {
        seq![top]
    } else {
        subs
    }
}

/// The first candidate that the classifier accepts, with its format.
pub open spec fn spec_locate(s: Seq<MailPartView>) -> Option<(MailPartView, ReportFormat)>
    decreases s.len(),
{
    if s.len() == 0 {
        Option::None
    } else {
        match spec_classify(s[0].mimetype, s[0].disposition) {
            Option::Some(f) => Some((s[0], f)),
            Option::None => spec_locate(s.drop_first()),
        }
    }
}

/// Candidates none of which classifies yield no attachment at all: the
/// locator fails exactly then.
pub proof fn lemma_no_candidate(cands: Seq<MailPartView>)
    requires
        forall|i: int|
            0 <= i < cands.len() ==> spec_classify(cands[i].mimetype, cands[i].disposition)
                is None,
    ensures
        spec_locate(cands) is None,
    decreases cands.len(),
{
    if cands.len() > 0 {
        lemma_no_candidate(cands.drop_first());
    }
}

/// A top-level part without subparts that itself classifies is
/// selected as the attachment, whatever its format.
pub proof fn lemma_sole_part_selected(top: MailPartView, subs: Seq<MailPartView>, f: ReportFormat)
    requires
        subs.len() == 0,
        spec_classify(top.mimetype, top.disposition) == Some(f),
    ensures
        spec_locate(spec_candidates(top, subs)) == Some((top, f)),
{
    assert(spec_candidates(top, subs)[0] == top);
}

proof fn lemma_locate_skip(s: Seq<MailPartView>, i: int)
    requires
        0 <= i <= s.len(),
        forall|j: int| 0 <= j < i ==> spec_classify(s[j].mimetype, s[j].disposition) is None,
    ensures
        spec_locate(s) == spec_locate(s.skip(i)),
    decreases i,
{
    if i > 0 {
        lemma_locate_skip(s, i - 1);
        assert(s.skip(i - 1)[0] == s[i - 1]);
        assert(s.skip(i - 1).drop_first() =~= s.skip(i));
    } else {
        assert(s.skip(0) =~= s);
    }
}

/// Finds the first candidate the classifier accepts.
fn locate_attachment(candidates: &Vec<MailPart>) -> (r: Option<(usize, ReportFormat)>)
    ensures
        match r {
            Option::Some(sel) => sel.0 < candidates@.len() && spec_locate(candidates.deep_view())
                == Some((candidates.deep_view()[sel.0 as int], sel.1)),
            Option::None => spec_locate(candidates.deep_view()) is None,
        },
{
    let ghost cands = candidates.deep_view();
    let mut i: usize = 0;
    while i < candidates.len()
        invariant
            i <= candidates@.len(),
            cands == candidates.deep_view(),
            cands.len() == candidates@.len(),
            forall|j: int|
                0 <= j < i ==> spec_classify(cands[j].mimetype, cands[j].disposition) is None,
        decreases candidates@.len() - i,
    {
        let part = &candidates[i];
        proof {
            assert(cands[i as int] == candidates@[i as int]@);
        }
        let disp: Option<&String> = match &part.disposition {
            Option::Some(d) => Some(d),
            Option::None => None,
        };
        match classify_part(part.mimetype.as_str(), disp) {
            Option::Some(f) => {
                proof {
                    lemma_locate_skip(cands, i as int);
                    assert(cands.skip(i as int)[0] == cands[i as int]);
                }
                return Some((i, f));
            },
            Option::None => {
                i = i + 1;
            },
        }
    }
    proof {
        lemma_locate_skip(cands, i as int);
        assert(cands.skip(i as int) =~= Seq::<MailPartView>::empty());
    }
    None
}

/// How one decoded XML text must relate to the call's result: the
/// schema mapping of the text's parse is returned exactly, and any
/// text that is no well-formed document or violates the schema is an
/// error.
pub open spec fn spec_decode_outcome(xml: Seq<char>, r: Result<Feedback, ParseError>) -> bool {
    match crate::schema::spec_feedback_of_text(xml) {
        Option::Some(fv) => r matches Ok(f) && f.deep_view() == fv,
        Option::None => r is Err,
    }
}

/// Decodes one raw email message into its DMARC aggregate report:
/// parses the message, selects the first classifiable attachment,
/// turns its bytes into XML text, and maps that onto the report
/// schema. Fails with "No suitable attachment found" exactly when no
/// part classifies, and with "Invalid UTF-8 document" when a raw XML
/// attachment is not UTF-8; when the selected attachment's bytes
/// decode to XML text, the result is exactly the schema mapping of
/// that text.
pub fn parse_report_message(raw_message: &str) -> (r: Result<Feedback, ParseError>)
    ensures
        match mail_parts_of(raw_message@) {
            Option::None => r is Err,
            Option::Some(parts) => {
                let cands = spec_candidates(parts.0, parts.1);
                match spec_locate(cands) {
                    Option::None => r matches Err(e) && e@ == "No suitable attachment found"@,
                    Option::Some(sel) => match sel.1 {
                        ReportFormat::Zip => match zip_entry_of(sel.0.body, 0) {
                            Option::None => r is Err,
                            Option::Some(x) => spec_decode_outcome(x, r),
                        },
                        ReportFormat::Gzip => match gunzip_of(sel.0.body) {
                            Option::None => r is Err,
                            Option::Some(x) => spec_decode_outcome(x, r),
                        },
                        ReportFormat::Xml => match utf8_of(sel.0.body) {
                            Option::None => r matches Err(e) && e@ == "Invalid UTF-8 document"@,
                            Option::Some(x) => spec_decode_outcome(x, r),
                        },
                    },
                }
            },
        },
{
    let (top, subs) = match parse_mail_parts(raw_message) {
        Result::Ok(p) => p,
        Result::Err(e) => {
            return Err(ParseError(e));
        },
    };
    let ghost gtop = top@;
    let ghost gsubs = subs.deep_view();
    let candidates: Vec<MailPart> = if subs.len() == 0 {
        let mut v: Vec<MailPart> = Vec::new();
        v.push(top);
        v
    } else {
        subs
    };
    proof {
        assert(candidates.deep_view() =~= spec_candidates(gtop, gsubs));
    }
    let sel = match locate_attachment(&candidates) {
        Option::Some(sel) => sel,
        Option::None => {
            return Err(ParseError("No suitable attachment found".to_owned()));
        },
    };
    let part = &candidates[sel.0];
    proof {
        assert(candidates.deep_view()[sel.0 as int] == candidates@[sel.0 as int]@);
    }
    let xml_text = match decode_part(part, sel.1) {
        Result::Ok(s) => s,
        Result::Err(e) => {
            return Err(e);
        },
    };
    crate::schema::feedback_from_xml(xml_text.as_str())
}

} // verus!
