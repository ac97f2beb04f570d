use dmarc_parser::classify::{classify_part, guess_format_from_name};
use dmarc_parser::ip::{parse_ip, IpAddress};
use dmarc_parser::schema::timestamp_from_token;
use dmarc_parser::report::UtcInstant;
use dmarc_parser::text::{parse_u64_str, parse_u8_str};
use dmarc_parser::ReportFormat;

#[test]
fn test_from_mimetype_table() {
    assert_eq!(ReportFormat::from_mimetype("application/zip"), Some(ReportFormat::Zip));
    assert_eq!(
        ReportFormat::from_mimetype("application/x-zip-compressed"),
        Some(ReportFormat::Zip)
    );
    assert_eq!(ReportFormat::from_mimetype("application/gzip"), Some(ReportFormat::Gzip));
    assert_eq!(ReportFormat::from_mimetype("application/x-gzip"), Some(ReportFormat::Gzip));
    assert_eq!(ReportFormat::from_mimetype("application/xml"), Some(ReportFormat::Xml));
    assert_eq!(ReportFormat::from_mimetype("text/xml"), Some(ReportFormat::Xml));
    assert_eq!(ReportFormat::from_mimetype("text/plain"), None);
    assert_eq!(ReportFormat::from_mimetype("APPLICATION/ZIP"), None);
}

#[test]
fn test_from_extension_table() {
    assert_eq!(ReportFormat::from_extension("zip"), Some(ReportFormat::Zip));
    assert_eq!(ReportFormat::from_extension("gz"), Some(ReportFormat::Gzip));
    assert_eq!(ReportFormat::from_extension("xml"), Some(ReportFormat::Xml));
    assert_eq!(ReportFormat::from_extension("ZIP"), None);
    assert_eq!(ReportFormat::from_extension("tar"), None);
}

#[test]
fn test_guess_format_quote_styles() {
    let a = guess_format_from_name("attachment; filename=\"report.xml\"");
    let b = guess_format_from_name("attachment; filename=report.xml");
    let c = guess_format_from_name("attachment; filename='report.xml'");
    assert_eq!(a, Some(ReportFormat::Xml));
    assert_eq!(a, b);
    assert_eq!(b, c);
}

#[test]
fn test_guess_format_details() {
    assert_eq!(
        guess_format_from_name("attachment; filename=\"a.b.zip\""),
        Some(ReportFormat::Zip)
    );
    assert_eq!(
        guess_format_from_name("attachment; filename=report.xml.gz"),
        Some(ReportFormat::Gzip)
    );
    // no dot: the whole name is the extension
    assert_eq!(guess_format_from_name("attachment; filename=xml"), Some(ReportFormat::Xml));
    assert_eq!(guess_format_from_name("attachment; filename=report-xml"), None);
    assert_eq!(guess_format_from_name("attachment"), None);
    assert_eq!(guess_format_from_name("attachment; filename=\"\""), None);
    // extensions match case-sensitively
    assert_eq!(guess_format_from_name("attachment; filename=report.XML"), None);
}

#[test]
fn test_classify_prefers_mimetype() {
    let disp = String::from("attachment; filename=\"report.zip\"");
    assert_eq!(classify_part("application/xml", Some(&disp)), Some(ReportFormat::Xml));
    assert_eq!(classify_part("application/octet-stream", Some(&disp)), Some(ReportFormat::Zip));
    assert_eq!(classify_part("application/octet-stream", None), None);
}

#[test]
fn test_parse_ipv4() {
    assert_eq!(parse_ip("192.168.1.43"), Some(IpAddress::V4(192, 168, 1, 43)));
    assert_eq!(parse_ip("0.0.0.0"), Some(IpAddress::V4(0, 0, 0, 0)));
    assert_eq!(parse_ip("255.255.255.255"), Some(IpAddress::V4(255, 255, 255, 255)));
    assert_eq!(parse_ip("256.1.1.1"), None);
    assert_eq!(parse_ip("01.2.3.4"), None);
    assert_eq!(parse_ip("1.2.3"), None);
    assert_eq!(parse_ip("1.2.3.4.5"), None);
    assert_eq!(parse_ip(""), None);
}

#[test]
fn test_parse_ipv6() {
    assert_eq!(
        parse_ip("2001:db8:0:0:0:0:0:43"),
        Some(IpAddress::V6(0x2001, 0xdb8, 0, 0, 0, 0, 0, 0x43))
    );
    assert_eq!(parse_ip("2001:db8::43"), Some(IpAddress::V6(0x2001, 0xdb8, 0, 0, 0, 0, 0, 0x43)));
    assert_eq!(parse_ip("::1"), Some(IpAddress::V6(0, 0, 0, 0, 0, 0, 0, 1)));
    assert_eq!(parse_ip("1::"), Some(IpAddress::V6(1, 0, 0, 0, 0, 0, 0, 0)));
    assert_eq!(parse_ip("::"), Some(IpAddress::V6(0, 0, 0, 0, 0, 0, 0, 0)));
    assert_eq!(
        parse_ip("::ffff:192.168.1.1"),
        Some(IpAddress::V6(0, 0, 0, 0, 0, 0xffff, 0xc0a8, 0x0101))
    );
    assert_eq!(
        parse_ip("1:2:3:4:5:6:7.8.9.10"),
        Some(IpAddress::V6(1, 2, 3, 4, 5, 6, 0x0708, 0x090a))
    );
    assert_eq!(parse_ip("ABCD::ef01"), Some(IpAddress::V6(0xabcd, 0, 0, 0, 0, 0, 0, 0xef01)));
    assert_eq!(parse_ip(":"), None);
    assert_eq!(parse_ip(":::"), None);
    assert_eq!(parse_ip("1::2::3"), None);
    assert_eq!(parse_ip("1:2:3:4:5:6:7"), None);
    assert_eq!(parse_ip("1:2:3:4:5:6:7:8:9"), None);
    assert_eq!(parse_ip("1:2:3:4:5:6:7:8::"), None);
    assert_eq!(parse_ip("12345::1"), None);
    assert_eq!(parse_ip("g::1"), None);
}

#[test]
fn test_parse_u64_tokens() {
    assert_eq!(parse_u64_str("0"), Some(0));
    assert_eq!(parse_u64_str("8"), Some(8));
    assert_eq!(parse_u64_str("+123"), Some(123));
    assert_eq!(parse_u64_str("18446744073709551615"), Some(u64::MAX));
    assert_eq!(parse_u64_str("18446744073709551616"), None);
    assert_eq!(parse_u64_str(""), None);
    assert_eq!(parse_u64_str("+"), None);
    assert_eq!(parse_u64_str("-1"), None);
    assert_eq!(parse_u64_str("12a"), None);
    assert_eq!(parse_u64_str(" 12"), None);
}

#[test]
fn test_parse_u8_tokens() {
    assert_eq!(parse_u8_str("0"), Some(0));
    assert_eq!(parse_u8_str("100"), Some(100));
    assert_eq!(parse_u8_str("255"), Some(255));
    assert_eq!(parse_u8_str("256"), None);
}

#[test]
fn test_timestamp_token() {
    assert_eq!(
        timestamp_from_token("1491782400"),
        Some(UtcInstant { epoch_seconds: 1491782400 })
    );
    assert_eq!(timestamp_from_token("last tuesday"), None);
}
