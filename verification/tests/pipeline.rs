use base64::engine::Engine;
use dmarc_parser::parse_report_message;
use dmarc_parser::report::{
    Alignment, AuthResults, DateRange, Disposition, DkimAuthResult, DkimResult, DmarcResult,
    Feedback, Identifier, PolicyEvaluated, PolicyPublished, Record, ReportMetadata, Row,
    SpfAuthResult, SpfResult, UtcInstant,
};
use dmarc_parser::ip::IpAddress;
use std::io::Write;

fn b64(data: &[u8]) -> String {
    base64::engine::general_purpose::STANDARD.encode(data)
}

fn zip_bytes(name: &str, content: &str) -> Vec<u8> {
    let cursor = std::io::Cursor::new(Vec::new());
    let mut writer = zip::ZipWriter::new(cursor);
    writer
        .start_file(name, zip::write::SimpleFileOptions::default())
        .unwrap();
    writer.write_all(content.as_bytes()).unwrap();
    writer.finish().unwrap().into_inner()
}

fn gzip_bytes(content: &str) -> Vec<u8> {
    let mut encoder = flate2::write::GzEncoder::new(Vec::new(), flate2::Compression::default());
    encoder.write_all(content.as_bytes()).unwrap();
    encoder.finish().unwrap()
}

fn email_with_attachment(mime: &str, disposition: Option<&str>, body: &[u8]) -> String {
    let mut msg = String::new();
    msg.push_str("From: reporter@example.com\r\n");
    msg.push_str("To: dmarc@example.org\r\n");
    msg.push_str("Subject: Report\r\n");
    msg.push_str("MIME-Version: 1.0\r\n");
    msg.push_str("Content-Type: multipart/mixed; boundary=\"XBOUND\"\r\n");
    msg.push_str("\r\n");
    msg.push_str("--XBOUND\r\n");
    msg.push_str("Content-Type: text/plain\r\n");
    msg.push_str("\r\n");
    msg.push_str("Report attached.\r\n");
    msg.push_str("--XBOUND\r\n");
    msg.push_str(&format!("Content-Type: {}\r\n", mime));
    if let Some(d) = disposition {
        msg.push_str(&format!("Content-Disposition: {}\r\n", d));
    }
    msg.push_str("Content-Transfer-Encoding: base64\r\n");
    msg.push_str("\r\n");
    msg.push_str(&b64(body));
    msg.push_str("\r\n--XBOUND--\r\n");
    msg
}

fn sample_xml() -> String {
    let mut x = String::new();
    x.push_str("<?xml version=\"1.0\" encoding=\"UTF-8\"?>\n");
    x.push_str("<feedback>\n");
    x.push_str("  <report_metadata>\n");
    x.push_str("    <org_name>Test org</org_name>\n");
    x.push_str("    <email>noreply@example.com</email>\n");
    x.push_str("    <extra_contact_info>https://example.org/dmarc</extra_contact_info>\n");
    x.push_str("    <report_id>123456</report_id>\n");
    x.push_str("    <date_range><begin>1491782400</begin><end>1491868799</end></date_range>\n");
    x.push_str("  </report_metadata>\n");
    x.push_str("  <policy_published>\n");
    x.push_str("    <domain>patrickkerrigan.uk</domain>\n");
    x.push_str("    <adkim>s</adkim>\n");
    x.push_str("    <aspf>r</aspf>\n");
    x.push_str("    <p>reject</p>\n");
    x.push_str("    <sp>none</sp>\n");
    x.push_str("    <pct>100</pct>\n");
    x.push_str("  </policy_published>\n");
    x.push_str("  <record>\n");
    x.push_str("    <row>\n");
    x.push_str("      <source_ip>192.168.1.43</source_ip>\n");
    x.push_str("      <count>8</count>\n");
    x.push_str("      <policy_evaluated>\n");
    x.push_str("        <disposition>reject</disposition>\n");
    x.push_str("        <dkim>fail</dkim>\n");
    x.push_str("        <spf>fail</spf>\n");
    x.push_str("      </policy_evaluated>\n");
    x.push_str("    </row>\n");
    x.push_str("    <identifiers>\n");
    x.push_str("      <header_from>patrickkerrigan.uk</header_from>\n");
    x.push_str("    </identifiers>\n");
    x.push_str("    <auth_results>\n");
    x.push_str("      <spf><domain>patrickkerrigan.uk</domain><result>fail</result></spf>\n");
    x.push_str("    </auth_results>\n");
    x.push_str("  </record>\n");
    x.push_str("  <record>\n");
    x.push_str("    <row>\n");
    x.push_str("      <source_ip>192.168.34.78</source_ip>\n");
    x.push_str("      <count>1</count>\n");
    x.push_str("      <policy_evaluated>\n");
    x.push_str("        <disposition>none</disposition>\n");
    x.push_str("        <dkim>pass</dkim>\n");
    x.push_str("        <spf>pass</spf>\n");
    x.push_str("      </policy_evaluated>\n");
    x.push_str("    </row>\n");
    x.push_str("    <identifiers>\n");
    x.push_str("      <header_from>patrickkerrigan.uk</header_from>\n");
    x.push_str("    </identifiers>\n");
    x.push_str("    <auth_results>\n");
    x.push_str("      <spf><domain>patrickkerrigan.uk</domain><result>pass</result></spf>\n");
    x.push_str("      <dkim><domain>patrickkerrigan.uk</domain><selector>mail</selector><result>pass</result></dkim>\n");
    x.push_str("    </auth_results>\n");
    x.push_str("  </record>\n");
    x.push_str("  <record>\n");
    x.push_str("    <row>\n");
    x.push_str("      <source_ip>192.168.23.53</source_ip>\n");
    x.push_str("      <count>1</count>\n");
    x.push_str("      <policy_evaluated>\n");
    x.push_str("        <disposition>none</disposition>\n");
    x.push_str("        <dkim>pass</dkim>\n");
    x.push_str("        <spf>pass</spf>\n");
    x.push_str("      </policy_evaluated>\n");
    x.push_str("    </row>\n");
    x.push_str("    <identifiers>\n");
    x.push_str("      <header_from>patrickkerrigan.uk</header_from>\n");
    x.push_str("    </identifiers>\n");
    x.push_str("    <auth_results>\n");
    x.push_str("      <spf><domain>patrickkerrigan.uk</domain><result>pass</result></spf>\n");
    x.push_str("      <dkim><domain>patrickkerrigan.uk</domain><selector>mail</selector><result>pass</result></dkim>\n");
    x.push_str("    </auth_results>\n");
    x.push_str("  </record>\n");
    x.push_str("</feedback>\n");
    x
}

fn expected_feedback() -> Feedback {
    Feedback {
        report_metadata: ReportMetadata {
            org_name: "Test org".into(),
            email: "noreply@example.com".into(),
            extra_contact_info: Some("https://example.org/dmarc".into()),
            report_id: "123456".into(),
            date_range: DateRange {
                begin: UtcInstant { epoch_seconds: 1491782400 },
                end: UtcInstant { epoch_seconds: 1491868799 },
            },
            errors: vec![],
        },
        policy_published: PolicyPublished {
            domain: "patrickkerrigan.uk".into(),
            dkim_alignment: Alignment::Strict,
            spf_alignment: Alignment::Relaxed,
            domain_policy: Disposition::Reject,
            subdomain_policy: Disposition::NoAction,
            percentage: 100,
            failure_reporting: None,
        },
        records: vec![
            Record {
                row: Row {
                    source_ip: IpAddress::V4(192, 168, 1, 43),
                    count: 8,
                    policy_evaluated: PolicyEvaluated {
                        disposition: Disposition::Reject,
                        dkim: DmarcResult::Fail,
                        spf: DmarcResult::Fail,
                        reasons: vec![],
                    },
                },
                identifiers: Identifier {
                    envelope_to: None,
                    envelope_from: None,
                    header_from: "patrickkerrigan.uk".into(),
                },
                auth_results: AuthResults {
                    spf: vec![SpfAuthResult {
                        domain: "patrickkerrigan.uk".into(),
                        result: SpfResult::Fail,
                    }],
                    dkim: vec![],
                },
            },
            Record {
                row: Row {
                    source_ip: IpAddress::V4(192, 168, 34, 78),
                    count: 1,
                    policy_evaluated: PolicyEvaluated {
                        disposition: Disposition::NoAction,
                        dkim: DmarcResult::Pass,
                        spf: DmarcResult::Pass,
                        reasons: vec![],
                    },
                },
                identifiers: Identifier {
                    envelope_to: None,
                    envelope_from: None,
                    header_from: "patrickkerrigan.uk".into(),
                },
                auth_results: AuthResults {
                    spf: vec![SpfAuthResult {
                        domain: "patrickkerrigan.uk".into(),
                        result: SpfResult::Pass,
                    }],
                    dkim: vec![DkimAuthResult {
                        domain: "patrickkerrigan.uk".into(),
                        selector: "mail".into(),
                        result: DkimResult::Pass,
                    }],
                },
            },
            Record {
                row: Row {
                    source_ip: IpAddress::V4(192, 168, 23, 53),
                    count: 1,
                    policy_evaluated: PolicyEvaluated {
                        disposition: Disposition::NoAction,
                        dkim: DmarcResult::Pass,
                        spf: DmarcResult::Pass,
                        reasons: vec![],
                    },
                },
                identifiers: Identifier {
                    envelope_to: None,
                    envelope_from: None,
                    header_from: "patrickkerrigan.uk".into(),
                },
                auth_results: AuthResults {
                    spf: vec![SpfAuthResult {
                        domain: "patrickkerrigan.uk".into(),
                        result: SpfResult::Pass,
                    }],
                    dkim: vec![DkimAuthResult {
                        domain: "patrickkerrigan.uk".into(),
                        selector: "mail".into(),
                        result: DkimResult::Pass,
                    }],
                },
            },
        ],
    }
}

#[test]
fn test_zip_decode() {
    let email = email_with_attachment(
        "application/zip",
        Some("attachment; filename=\"report.xml.zip\""),
        &zip_bytes("report.xml", &sample_xml()),
    );
    let x = parse_report_message(&email).unwrap();
    assert_eq!(expected_feedback(), x);
}

#[test]
fn test_gzip_decode() {
    let email = email_with_attachment(
        "application/gzip",
        Some("attachment; filename=\"report.xml.gz\""),
        &gzip_bytes(&sample_xml()),
    );
    let x = parse_report_message(&email).unwrap();
    assert_eq!(expected_feedback(), x);
}

#[test]
fn test_raw_xml_decode() {
    let email = email_with_attachment("application/xml", None, sample_xml().as_bytes());
    let x = parse_report_message(&email).unwrap();
    assert_eq!(expected_feedback(), x);
}

#[test]
fn test_round_trip_all_formats_equal() {
    let xml = sample_xml();
    let from_zip = parse_report_message(&email_with_attachment(
        "application/zip",
        None,
        &zip_bytes("a.xml", &xml),
    ))
    .unwrap();
    let from_gz =
        parse_report_message(&email_with_attachment("application/gzip", None, &gzip_bytes(&xml)))
            .unwrap();
    let from_xml =
        parse_report_message(&email_with_attachment("application/xml", None, xml.as_bytes()))
            .unwrap();
    assert_eq!(from_zip, from_gz);
    assert_eq!(from_gz, from_xml);
    assert_eq!(from_xml, expected_feedback());
}

#[test]
fn test_no_candidate_error() {
    let email = email_with_attachment("application/pdf", None, b"not a report");
    let err = parse_report_message(&email).unwrap_err();
    assert_eq!(err.message().as_str(), "No suitable attachment found");
}

#[test]
fn test_single_part_email_is_sole_candidate() {
    let mut msg = String::new();
    msg.push_str("From: reporter@example.com\r\n");
    msg.push_str("To: dmarc@example.org\r\n");
    msg.push_str("Subject: Report\r\n");
    msg.push_str("MIME-Version: 1.0\r\n");
    msg.push_str("Content-Type: application/xml\r\n");
    msg.push_str("\r\n");
    msg.push_str(&sample_xml());
    let x = parse_report_message(&msg).unwrap();
    assert_eq!(expected_feedback(), x);
}

#[test]
fn test_filename_sniffing_quote_styles() {
    let xml = sample_xml();
    let a = parse_report_message(&email_with_attachment(
        "application/octet-stream",
        Some("attachment; filename=\"report.xml\""),
        xml.as_bytes(),
    ))
    .unwrap();
    let b = parse_report_message(&email_with_attachment(
        "application/octet-stream",
        Some("attachment; filename=report.xml"),
        xml.as_bytes(),
    ))
    .unwrap();
    let c = parse_report_message(&email_with_attachment(
        "application/octet-stream",
        Some("attachment; filename='report.xml'"),
        xml.as_bytes(),
    ))
    .unwrap();
    assert_eq!(a, b);
    assert_eq!(b, c);
    assert_eq!(c, expected_feedback());
}

#[test]
fn test_mimetype_wins_over_filename() {
    // The declared type says XML; the filename alone would say zip. The
    // body is XML text, so only MIME-first classification decodes it.
    let email = email_with_attachment(
        "application/xml",
        Some("attachment; filename=\"report.zip\""),
        sample_xml().as_bytes(),
    );
    let x = parse_report_message(&email).unwrap();
    assert_eq!(expected_feedback(), x);
}

#[test]
fn test_first_candidate_wins() {
    let first = sample_xml();
    let second = first.replace("<count>8</count>", "<count>9</count>");
    let mut msg = String::new();
    msg.push_str("From: reporter@example.com\r\n");
    msg.push_str("MIME-Version: 1.0\r\n");
    msg.push_str("Content-Type: multipart/mixed; boundary=\"XBOUND\"\r\n");
    msg.push_str("\r\n");
    for xml in [&first, &second] {
        msg.push_str("--XBOUND\r\n");
        msg.push_str("Content-Type: application/xml\r\n");
        msg.push_str("Content-Transfer-Encoding: base64\r\n");
        msg.push_str("\r\n");
        msg.push_str(&b64(xml.as_bytes()));
        msg.push_str("\r\n");
    }
    msg.push_str("--XBOUND--\r\n");
    let x = parse_report_message(&msg).unwrap();
    assert_eq!(x.records[0].row.count, 8);
}

#[test]
fn test_dkim_alias_tokens() {
    let base = sample_xml();
    let with = |token: &str| {
        base.replace(
            "<selector>mail</selector><result>pass</result>",
            &format!("<selector>mail</selector><result>{}</result>", token),
        )
    };
    let unknown = parse_report_message(&email_with_attachment(
        "application/xml",
        None,
        with("unknown").as_bytes(),
    ))
    .unwrap();
    let temperror = parse_report_message(&email_with_attachment(
        "application/xml",
        None,
        with("temperror").as_bytes(),
    ))
    .unwrap();
    assert_eq!(unknown, temperror);
    assert_eq!(unknown.records[1].auth_results.dkim[0].result, DkimResult::TempError);
    let error = parse_report_message(&email_with_attachment(
        "application/xml",
        None,
        with("error").as_bytes(),
    ))
    .unwrap();
    let permerror = parse_report_message(&email_with_attachment(
        "application/xml",
        None,
        with("permerror").as_bytes(),
    ))
    .unwrap();
    assert_eq!(error, permerror);
    assert_eq!(error.records[1].auth_results.dkim[0].result, DkimResult::PermError);
}

#[test]
fn test_unknown_result_token_fails() {
    let xml = sample_xml().replace("<result>fail</result>", "<result>bogus</result>");
    let r = parse_report_message(&email_with_attachment("application/xml", None, xml.as_bytes()));
    assert!(r.is_err());
}

#[test]
fn test_missing_records_decode_to_empty_list() {
    let xml = sample_xml();
    let start = xml.find("  <record>").unwrap();
    let end = xml.rfind("</feedback>").unwrap();
    let without = format!("{}{}", &xml[..start], &xml[end..]);
    let x = parse_report_message(&email_with_attachment(
        "application/xml",
        None,
        without.as_bytes(),
    ))
    .unwrap();
    assert_eq!(x.records, vec![]);
}

#[test]
fn test_timestamp_decodes_to_utc_instant() {
    let x = parse_report_message(&email_with_attachment(
        "application/xml",
        None,
        sample_xml().as_bytes(),
    ))
    .unwrap();
    assert_eq!(x.report_metadata.date_range.begin, UtcInstant { epoch_seconds: 1491782400 });
    let chrono_instant = chrono::DateTime::<chrono::Utc>::from_timestamp(
        x.report_metadata.date_range.begin.epoch_seconds as i64,
        0,
    )
    .unwrap();
    assert_eq!(chrono_instant.to_rfc3339(), "2017-04-10T00:00:00+00:00");
}

#[test]
fn test_non_numeric_timestamp_fails() {
    let xml = sample_xml().replace("<begin>1491782400</begin>", "<begin>soon</begin>");
    let r = parse_report_message(&email_with_attachment("application/xml", None, xml.as_bytes()));
    assert!(r.is_err());
}

#[test]
fn test_non_utf8_xml_attachment_fails_with_encoding_error() {
    let body: Vec<u8> = vec![0xff, 0xfe, 0x3c, 0x66, 0x65];
    let email = email_with_attachment("application/xml", None, &body);
    let err = parse_report_message(&email).unwrap_err();
    assert_eq!(err.message().as_str(), "Invalid UTF-8 document");
}

#[test]
fn test_percentage_above_byte_range_fails() {
    let xml = sample_xml().replace("<pct>100</pct>", "<pct>300</pct>");
    let r = parse_report_message(&email_with_attachment("application/xml", None, xml.as_bytes()));
    assert!(r.is_err());
}

#[test]
fn test_errors_and_reasons_lists() {
    let xml = sample_xml()
        .replace(
            "    <report_id>123456</report_id>\n",
            "    <report_id>123456</report_id>\n    <errors>first</errors>\n    <errors>second</errors>\n",
        )
        .replace(
            "        <spf>fail</spf>\n",
            "        <spf>fail</spf>\n        <reasons><override_type>forwarded</override_type><comment>fwd</comment></reasons>\n",
        );
    let x = parse_report_message(&email_with_attachment("application/xml", None, xml.as_bytes()))
        .unwrap();
    assert_eq!(
        x.report_metadata.errors,
        vec!["first".to_string(), "second".to_string()]
    );
    let reasons = &x.records[0].row.policy_evaluated.reasons;
    assert_eq!(reasons.len(), 1);
    assert_eq!(
        reasons[0].override_type,
        dmarc_parser::report::PolicyOverride::Forwarded
    );
    assert_eq!(reasons[0].comment, Some("fwd".to_string()));
}

#[test]
fn test_missing_required_field_fails() {
    let xml = sample_xml().replace("    <org_name>Test org</org_name>\n", "");
    let r = parse_report_message(&email_with_attachment("application/xml", None, xml.as_bytes()));
    assert!(r.is_err());
}

#[test]
fn test_plain_text_message_has_no_candidate() {
    // mailparse treats nearly anything as an email; a text-only body
    // has no classifiable part, so decoding fails with the
    // no-candidate error.
    let err = parse_report_message("just some text\r\n").unwrap_err();
    assert_eq!(err.message().as_str(), "No suitable attachment found");
}

#[test]
fn test_ipv6_source_address() {
    let xml = sample_xml().replace(
        "<source_ip>192.168.1.43</source_ip>",
        "<source_ip>2001:db8::43</source_ip>",
    );
    let x = parse_report_message(&email_with_attachment("application/xml", None, xml.as_bytes()))
        .unwrap();
    assert_eq!(
        x.records[0].row.source_ip,
        IpAddress::V6(0x2001, 0xdb8, 0, 0, 0, 0, 0, 0x43)
    );
}

#[test]
fn test_invalid_source_address_fails() {
    let xml = sample_xml().replace(
        "<source_ip>192.168.1.43</source_ip>",
        "<source_ip>not-an-address</source_ip>",
    );
    let r = parse_report_message(&email_with_attachment("application/xml", None, xml.as_bytes()));
    assert!(r.is_err());
}
