use vstd::prelude::*;

use crate::classify::ReportFormat;
use crate::mail::MailPart;
use crate::ParseError;

verus! {

/// What entry `index` of a zip archive holds, read as UTF-8 text;
/// `None` when the bytes are no archive, the entry is missing, or its
/// contents are not UTF-8.
pub uninterp spec fn zip_entry_of(data: Seq<u8>, index: usize) -> Option<Seq<char>>;

/// What a gzip stream decompresses to, read as UTF-8 text; `None` when
/// the bytes are no such stream or the result is not UTF-8.
pub uninterp spec fn gunzip_of(data: Seq<u8>) -> Option<Seq<char>>;

/// What a byte sequence denotes as UTF-8 text; `None` when it is not
/// valid UTF-8.
pub uninterp spec fn utf8_of(data: Seq<u8>) -> Option<Seq<char>>;

/// Relies on zip::ZipArchive::new and ZipArchive::by_index, and on
/// std::io::Read::read_to_string: what an entry of an archive holds is
/// a function of the archive's bytes and the entry's index alone.
#[verifier::external_body]
pub(crate) fn read_zip_entry(data: &[u8], index: usize) -> (r: Result<String, String>)
    ensures
        match r {
            Result::Ok(s) => zip_entry_of(data@, index) == Some(s@),
            Result::Err(_) => zip_entry_of(data@, index) is None,
        },
{
    let cursor = std::io::Cursor::new(data.to_vec());
    let mut archive = match zip::ZipArchive::new(cursor) {
        Ok(a) => a,
        Err(e) => return Err(format!("{:?}", e)),
    };
    let mut entry = match archive.by_index(index) {
        Ok(f) => f,
        Err(e) => return Err(format!("{:?}", e)),
    };
    let mut out = String::new();
    match std::io::Read::read_to_string(&mut entry, &mut out) {
        Ok(_) => Ok(out),
        Err(e) => Err(format!("{}", e)),
    }
}

/// Relies on flate2::read::GzDecoder and std::io::Read::read_to_string:
/// what a gzip stream decompresses to is a function of its bytes alone.
#[verifier::external_body]
pub(crate) fn gunzip(data: &[u8]) -> (r: Result<String, String>)
    ensures
        match r {
            Result::Ok(s) => gunzip_of(data@) == Some(s@),
            Result::Err(_) => gunzip_of(data@) is None,
        },
{
    let mut decoder = flate2::read::GzDecoder::new(data);
    let mut out = String::new();
    match std::io::Read::read_to_string(&mut decoder, &mut out) {
        Ok(_) => Ok(out),
        Err(e) => Err(format!("{}", e)),
    }
}

/// Relies on String::from_utf8: whether bytes are valid UTF-8, and
/// what text they then denote, is a function of the bytes alone.
#[verifier::external_body]
pub(crate) fn utf8_string(data: &[u8]) -> (r: Option<String>)
    ensures
        match r {
            Option::Some(s) => utf8_of(data@) == Some(s@),
            Option::None => utf8_of(data@) is None,
        },
{
    match String::from_utf8(data.to_vec()) {
        Ok(s) => Some(s),
        Err(_) => None,
    }
}

/// Turns a classified part's raw bytes into the report's XML text:
/// reads the first zip entry, decompresses the gzip stream, or takes
/// the bytes as UTF-8 text directly.
pub fn decode_part(part: &MailPart, format: ReportFormat) -> (r: Result<String, ParseError>)
    ensures
        match format {
            ReportFormat::Zip => match zip_entry_of(part@.body, 0) {
                Option::Some(x) => r matches Ok(s) && s@ == x,
                Option::None => r is Err,
            },
            ReportFormat::Gzip => match gunzip_of(part@.body) {
                Option::Some(x) => r matches Ok(s) && s@ == x,
                Option::None => r is Err,
            },
            ReportFormat::Xml => match utf8_of(part@.body) {
                Option::Some(x) => r matches Ok(s) && s@ == x,
                Option::None => r matches Err(e) && e@ == "Invalid UTF-8 document"@,
            },
        },
{
    match format {
        ReportFormat::Zip => match read_zip_entry(part.body.as_slice(), 0) {
            Result::Ok(s) => Ok(s),
            Result::Err(e) => Err(ParseError(e)),
        },
        ReportFormat::Gzip => match gunzip(part.body.as_slice()) {
            Result::Ok(s) => Ok(s),
            Result::Err(e) => Err(ParseError(e)),
        },
        ReportFormat::Xml => match utf8_string(part.body.as_slice()) {
            Option::Some(s) => Ok(s),
            Option::None => Err(ParseError("Invalid UTF-8 document".to_owned())),
        },
    }
}

} // verus!
