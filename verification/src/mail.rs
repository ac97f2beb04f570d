use vstd::prelude::*;

verus! {

/// One candidate attachment: its declared MIME type, its
/// `Content-Disposition` header value if any, and its decoded body
/// bytes.
#[derive(Debug, Clone)]
pub struct MailPart {
    pub mimetype: String,
    pub disposition: Option<String>,
    pub body: Vec<u8>,
}

#[verifier::ext_equal]
pub ghost struct MailPartView {
    pub mimetype: Seq<char>,
    pub disposition: Option<Seq<char>>,
    pub body: Seq<u8>,
}

impl View for MailPart {
    type V = MailPartView;

    open spec fn view(&self) -> MailPartView {
        MailPartView {
            mimetype: self.mimetype@,
            disposition: match self.disposition {
                Option::Some(d) => Some(d@),
                Option::None => Option::None,
            },
            body: self.body@,
        }
    }
}

impl DeepView for MailPart {
    type V = MailPartView;

    open spec fn deep_view(&self) -> MailPartView {
        self.view()
    }
}

/// The parsed surface of an email message: its top-level part, and
/// that part's immediate subparts in order; `None` when the message
/// cannot be parsed or a part's body cannot be decoded.
pub uninterp spec fn mail_parts_of(raw: Seq<char>) -> Option<(MailPartView, Seq<MailPartView>)>;

#[verifier::external_type_specification]
#[verifier::external_body]
pub struct ExParsedMail<'a>(mailparse::ParsedMail<'a>);

/// Relies on mailparse::ParsedMail::get_body_raw and
/// mailparse::MailHeaderMap::get_first_value: one part's declared MIME
/// type, first Content-Disposition value and decoded body bytes are
/// moved over one for one.
#[verifier::external_body]
fn convert_part(p: &mailparse::ParsedMail<'_>) -> (r: Result<MailPart, String>) {
    let body = match p.get_body_raw() {
        Ok(b) => b,
        Err(e) => return Err(format!("{}", e)),
    };
    Ok(MailPart {
        mimetype: p.ctype.mimetype.clone(),
        disposition: mailparse::MailHeaderMap::get_first_value(
            p.headers.as_slice(),
            "Content-Disposition",
        ),
        body,
    })
}

/// Relies on mailparse::parse_mail: the parsed part tree is a function
/// of the message text alone; the top-level part and its immediate
/// subparts are converted one for one, and any parse or body-decode
/// failure becomes the error.
#[verifier::external_body]
pub(crate) fn parse_mail_parts(raw: &str) -> (r: Result<(MailPart, Vec<MailPart>), String>)
    ensures
        match r {
            Result::Ok(parts) => mail_parts_of(raw@) == Some((parts.0@, parts.1.deep_view())),
            Result::Err(_) => mail_parts_of(raw@) is None,
        },
{
    let mail = match mailparse::parse_mail(raw.as_bytes()) {
        Ok(m) => m,
        Err(e) => return Err(format!("{}", e)),
    };
    let mut subs: Vec<MailPart> = Vec::with_capacity(mail.subparts.len());
    for p in &mail.subparts {
        subs.push(convert_part(p)?);
    }
    let top = convert_part(&mail)?;
    Ok((top, subs))
}

} // verus!
