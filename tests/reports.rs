use dmarc_reports::decode::parse_report;
use dmarc_reports::dmarc_report::{
    AlignmentType, DKIMAuthResultType, DKIMResultType, DMARCResultType, DispositionType,
    IpAddress, PolicyOverrideReason, PolicyOverrideType, Report, SPFAuthResultType,
    SPFDomainScope, SPFResultType,
};

fn read(xml: &str) -> Report {
    parse_report(xml.as_bytes()).unwrap()
}

const AOL: &str = r#"<?xml version="1.0" encoding="UTF-8"?>
<feedback>
  <report_metadata>
    <org_name>AOL</org_name>
    <email>postmaster@aol.com</email>
    <report_id>website.com_1504828800</report_id>
    <date_range>
      <begin>1504742400</begin>
      <end>1504828800</end>
    </date_range>
  </report_metadata>
  <policy_published>
    <domain>website.com</domain>
    <adkim>r</adkim>
    <aspf>r</aspf>
    <p>reject</p>
    <sp>reject</sp>
    <pct>100</pct>
  </policy_published>
  <record>
    <row>
      <source_ip>125.125.125.125</source_ip>
      <count>1</count>
      <policy_evaluated>
        <disposition>none</disposition>
        <dkim>pass</dkim>
        <spf>pass</spf>
      </policy_evaluated>
    </row>
    <identifiers>
      <header_from>website.com</header_from>
    </identifiers>
    <auth_results>
      <dkim>
        <domain>website.com</domain>
        <result>pass</result>
      </dkim>
      <spf>
        <domain>website.com</domain>
        <scope>mfrom</scope>
        <result>pass</result>
      </spf>
    </auth_results>
  </record>
</feedback>
"#;

#[test]
fn aol_report() {
    let report = read(AOL);

    // Check metadata
    assert_eq!(report.report_metadata.org_name, "AOL");
    assert_eq!(report.report_metadata.email, "postmaster@aol.com");
    assert_eq!(report.report_metadata.report_id, "website.com_1504828800");
    assert_eq!(report.report_metadata.date_range.begin, 1504742400);
    assert_eq!(report.report_metadata.date_range.end, 1504828800);

    // Check policy
    assert_eq!(report.policy_published.domain, "website.com");
    assert_eq!(report.policy_published.adkim, Some(AlignmentType::Relaxed));
    assert_eq!(report.policy_published.aspf, Some(AlignmentType::Relaxed));
    assert_eq!(report.policy_published.p, DispositionType::Reject);
    assert_eq!(report.policy_published.sp, Some(DispositionType::Reject));
    assert_eq!(report.policy_published.pct, 100);

    // Check record
    assert_eq!(report.record.len(), 1);
    let record = report.record.first().unwrap();
    assert_eq!(record.row.source_ip, IpAddress::V4(125, 125, 125, 125));
    assert_eq!(record.row.count, 1);
    assert_eq!(record.row.policy_evaluated.disposition, DispositionType::NoPolicy);
    assert_eq!(record.row.policy_evaluated.dkim, Some(DMARCResultType::Pass));
    assert_eq!(record.row.policy_evaluated.spf, Some(DMARCResultType::Pass));
    assert_eq!(record.identifiers.header_from, "website.com");
    assert_eq!(
        record.auth_results.dkim,
        Some(vec![DKIMAuthResultType {
            domain: String::from("website.com"),
            selector: None,
            result: DKIMResultType::Pass,
            human_result: None
        }])
    );
    assert_eq!(
        record.auth_results.spf,
        vec![SPFAuthResultType {
            domain: String::from("website.com"),
            scope: Some(SPFDomainScope::Mfrom),
            result: SPFResultType::Pass,
        }]
    );
}

const ACME: &str = r#"<?xml version="1.0" encoding="UTF-8" ?>
<feedback>
  <report_metadata>
    <org_name>acme.com</org_name>
    <email>noreply-dmarc-support@acme.com</email>
    <extra_contact_info>http://acme.com/dmarc/support</extra_contact_info>
    <report_id>9391651994964116463</report_id>
    <date_range>
      <begin>1335571200</begin>
      <end>1335657599</end>
    </date_range>
    <error>There was a sample error.</error>
  </report_metadata>
  <policy_published>
    <domain>example.com</domain>
    <adkim>r</adkim>
    <aspf>r</aspf>
    <p>none</p>
    <sp>none</sp>
    <pct>100</pct>
    <fo>1</fo>
  </policy_published>
  <record>
    <row>
      <source_ip>72.150.241.94</source_ip>
      <count>2</count>
      <policy_evaluated>
        <disposition>none</disposition>
        <dkim>fail</dkim>
        <spf>pass</spf>
        <reason>
          <type>other</type>
          <comment>DMARC Policy overridden for incoherent example.</comment>
        </reason>
      </policy_evaluated>
    </row>
    <identifiers>
      <envelope_to>acme.com</envelope_to>
      <envelope_from>example.com</envelope_from>
      <header_from>example.com</header_from>
    </identifiers>
    <auth_results>
      <dkim>
        <domain>example.com</domain>
        <selector>ExamplesSelector</selector>
        <result>fail</result>
        <human_result>Incoherent example</human_result>
      </dkim>
      <spf>
        <domain>example.com</domain>
        <scope>helo</scope>
        <result>pass</result>
      </spf>
    </auth_results>
  </record>
</feedback>
"#;

#[test]
fn acme_report() {
    let report = read(ACME);

    // Check metadata
    assert_eq!(report.report_metadata.org_name, "acme.com");
    assert_eq!(report.report_metadata.email, "noreply-dmarc-support@acme.com");
    assert_eq!(
        report.report_metadata.extra_contact_info.as_deref(),
        Some("http://acme.com/dmarc/support")
    );
    assert_eq!(report.report_metadata.report_id, "9391651994964116463");
    assert_eq!(
        report.report_metadata.error,
        Some(vec![String::from("There was a sample error.")])
    );
    assert_eq!(report.report_metadata.date_range.begin, 1335571200);
    assert_eq!(report.report_metadata.date_range.end, 1335657599);

    // Check policy
    assert_eq!(report.policy_published.domain, "example.com");
    assert_eq!(report.policy_published.adkim, Some(AlignmentType::Relaxed));
    assert_eq!(report.policy_published.aspf, Some(AlignmentType::Relaxed));
    assert_eq!(report.policy_published.p, DispositionType::NoPolicy);
    assert_eq!(report.policy_published.sp, Some(DispositionType::NoPolicy));
    assert_eq!(report.policy_published.pct, 100);
    assert_eq!(report.policy_published.fo, Some(String::from("1")));

    // Check record
    assert_eq!(report.record.len(), 1);
    let record = report.record.first().unwrap();
    assert_eq!(record.row.source_ip, IpAddress::V4(72, 150, 241, 94));
    assert_eq!(record.row.count, 2);
    assert_eq!(record.row.policy_evaluated.disposition, DispositionType::NoPolicy);
    assert_eq!(record.row.policy_evaluated.dkim, Some(DMARCResultType::Fail));
    assert_eq!(record.row.policy_evaluated.spf, Some(DMARCResultType::Pass));
    assert_eq!(
        record.row.policy_evaluated.reason,
        Some(vec![PolicyOverrideReason {
            kind: PolicyOverrideType::Other,
            comment: Some(String::from("DMARC Policy overridden for incoherent example."))
        }])
    );
    assert_eq!(record.identifiers.header_from, "example.com");
    assert_eq!(record.identifiers.envelope_from, Some(String::from("example.com")));
    assert_eq!(record.identifiers.envelope_to, Some(String::from("acme.com")));
    assert_eq!(
        record.auth_results.dkim,
        Some(vec![DKIMAuthResultType {
            domain: String::from("example.com"),
            selector: Some(String::from("ExamplesSelector")),
            result: DKIMResultType::Fail,
            human_result: Some(String::from("Incoherent example"))
        }])
    );
    assert_eq!(
        record.auth_results.spf,
        vec![SPFAuthResultType {
            domain: String::from("example.com"),
            scope: Some(SPFDomainScope::Helo),
            result: SPFResultType::Pass,
        }]
    );
}

const SOLAMORA: &str = r#"<?xml version="1.0" encoding="UTF-8" ?>
<feedback>
  <report_metadata>
    <org_name>solarmora.com</org_name>
    <email>noreply-dmarc-support@solarmora.com</email>
    <extra_contact_info>http://solarmora.com/dmarc/support</extra_contact_info>
    <report_id>9391651994964116463</report_id>
    <date_range>
      <begin>1335571200</begin>
      <end>1335657599</end>
    </date_range>
  </report_metadata>
  <policy_published>
    <domain>bix-business.com</domain>
    <adkim>r</adkim>
    <aspf>r</aspf>
    <p>none</p>
    <sp>none</sp>
    <pct>100</pct>
  </policy_published>
  <record>
    <row>
      <source_ip>203.0.113.209</source_ip>
      <count>2</count>
      <policy_evaluated>
        <disposition>none</disposition>
        <dkim>fail</dkim>
        <spf>pass</spf>
      </policy_evaluated>
    </row>
    <identifiers>
      <header_from>bix-business.com</header_from>
    </identifiers>
    <auth_results>
      <dkim>
        <domain>bix-business.com</domain>
        <result>fail</result>
        <human_result></human_result>
      </dkim>
      <spf>
        <domain>bix-business.com</domain>
        <result>pass</result>
      </spf>
    </auth_results>
  </record>
</feedback>
"#;

#[test]
fn solamora_report() {
    let report = read(SOLAMORA);

    // Check metadata
    assert_eq!(report.report_metadata.org_name, "solarmora.com");
    assert_eq!(report.report_metadata.email, "noreply-dmarc-support@solarmora.com");
    assert_eq!(
        report.report_metadata.extra_contact_info.as_deref(),
        Some("http://solarmora.com/dmarc/support")
    );
    assert_eq!(report.report_metadata.report_id, "9391651994964116463");
    assert_eq!(report.report_metadata.date_range.begin, 1335571200);
    assert_eq!(report.report_metadata.date_range.end, 1335657599);

    // Check policy
    assert_eq!(report.policy_published.domain, "bix-business.com");
    assert_eq!(report.policy_published.adkim, Some(AlignmentType::Relaxed));
    assert_eq!(report.policy_published.aspf, Some(AlignmentType::Relaxed));
    assert_eq!(report.policy_published.p, DispositionType::NoPolicy);
    assert_eq!(report.policy_published.sp, Some(DispositionType::NoPolicy));
    assert_eq!(report.policy_published.pct, 100);

    // Check record
    assert_eq!(report.record.len(), 1);
    let record = report.record.first().unwrap();
    assert_eq!(record.row.source_ip, IpAddress::V4(203, 0, 113, 209));
    assert_eq!(record.row.count, 2);
    assert_eq!(record.row.policy_evaluated.disposition, DispositionType::NoPolicy);
    assert_eq!(record.row.policy_evaluated.dkim, Some(DMARCResultType::Fail));
    assert_eq!(record.row.policy_evaluated.spf, Some(DMARCResultType::Pass));
    assert_eq!(record.identifiers.header_from, "bix-business.com");
    assert_eq!(
        record.auth_results.dkim,
        Some(vec![DKIMAuthResultType {
            domain: String::from("bix-business.com"),
            selector: None,
            result: DKIMResultType::Fail,
            human_result: Some(String::new())
        }])
    );
    assert_eq!(
        record.auth_results.spf,
        vec![SPFAuthResultType {
            domain: String::from("bix-business.com"),
            scope: None,
            result: SPFResultType::Pass,
        }]
    );
}

const YAHOO: &str = r#"<?xml version="1.0"?>
<feedback>
  <version>1.0</version>
  <report_metadata>
    <org_name>Yahoo</org_name>
    <email>dmarchelp@yahooinc.com</email>
    <report_id>1709600619.487850</report_id>
    <date_range>
      <begin>1709510400</begin>
      <end>1709596799</end>
    </date_range>
  </report_metadata>
  <policy_published>
    <domain>random.org</domain>
    <adkim>r</adkim>
    <aspf>r</aspf>
    <p>reject</p>
    <pct>100</pct>
  </policy_published>
  <record>
    <row>
      <source_ip>1.2.3.4</source_ip>
      <count>1</count>
      <policy_evaluated>
        <disposition>none</disposition>
        <dkim>pass</dkim>
        <spf>pass</spf>
      </policy_evaluated>
    </row>
    <identifiers>
      <header_from>random.org</header_from>
    </identifiers>
    <auth_results>
      <dkim>
        <domain>random.org</domain>
        <selector>abc</selector>
        <result>pass</result>
      </dkim>
      <spf>
        <domain>random.org</domain>
        <result>pass</result>
      </spf>
    </auth_results>
  </record>
</feedback>
"#;

#[test]
fn yahoo_report() {
    let report = read(YAHOO);

    // Check metadata
    assert_eq!(report.report_metadata.org_name, "Yahoo");
    assert_eq!(report.report_metadata.email, "dmarchelp@yahooinc.com");
    assert_eq!(report.report_metadata.report_id, "1709600619.487850");
    assert_eq!(report.report_metadata.date_range.begin, 1709510400);
    assert_eq!(report.report_metadata.date_range.end, 1709596799);

    // Check policy
    assert_eq!(report.policy_published.domain, "random.org");
    assert_eq!(report.policy_published.adkim, Some(AlignmentType::Relaxed));
    assert_eq!(report.policy_published.aspf, Some(AlignmentType::Relaxed));
    assert_eq!(report.policy_published.p, DispositionType::Reject);
    assert_eq!(report.policy_published.pct, 100);

    // Check record
    assert_eq!(report.record.len(), 1);
    let record = report.record.first().unwrap();
    assert_eq!(record.row.source_ip, IpAddress::V4(1, 2, 3, 4));
    assert_eq!(record.row.count, 1);
    assert_eq!(record.row.policy_evaluated.disposition, DispositionType::NoPolicy);
    assert_eq!(record.row.policy_evaluated.dkim, Some(DMARCResultType::Pass));
    assert_eq!(record.row.policy_evaluated.spf, Some(DMARCResultType::Pass));
    assert_eq!(record.identifiers.header_from, "random.org");
    assert_eq!(
        record.auth_results.dkim,
        Some(vec![DKIMAuthResultType {
            domain: String::from("random.org"),
            selector: Some(String::from("abc")),
            result: DKIMResultType::Pass,
            human_result: None
        }])
    );
    assert_eq!(
        record.auth_results.spf,
        vec![SPFAuthResultType {
            domain: String::from("random.org"),
            scope: None,
            result: SPFResultType::Pass,
        }]
    );
}

const GOOGLE: &str = r#"<?xml version="1.0" encoding="UTF-8" ?>
<feedback>
  <report_metadata>
    <org_name>google.com</org_name>
    <email>noreply-dmarc-support@google.com</email>
    <extra_contact_info>https://support.google.com/a/answer/2466580</extra_contact_info>
    <report_id>3166094538684628578</report_id>
    <date_range>
      <begin>1709683200</begin>
      <end>1709769599</end>
    </date_range>
  </report_metadata>
  <policy_published>
    <domain>foo-bar.io</domain>
    <adkim>r</adkim>
    <aspf>r</aspf>
    <p>reject</p>
    <sp>reject</sp>
    <pct>100</pct>
    <np>reject</np>
  </policy_published>
  <record>
    <row>
      <source_ip>1.2.3.4</source_ip>
      <count>1</count>
      <policy_evaluated>
        <disposition>none</disposition>
        <dkim>pass</dkim>
        <spf>pass</spf>
      </policy_evaluated>
    </row>
    <identifiers>
      <header_from>foo-bar.io</header_from>
    </identifiers>
    <auth_results>
      <dkim>
        <domain>foo-bar.io</domain>
        <result>pass</result>
        <selector>krs</selector>
      </dkim>
      <spf>
        <domain>foo-bar.io</domain>
        <result>pass</result>
      </spf>
    </auth_results>
  </record>
</feedback>
"#;

#[test]
fn google_report() {
    let report = read(GOOGLE);

    // Check metadata
    assert_eq!(report.report_metadata.org_name, "google.com");
    assert_eq!(report.report_metadata.email, "noreply-dmarc-support@google.com");
    assert_eq!(
        report.report_metadata.extra_contact_info,
        Some(String::from("https://support.google.com/a/answer/2466580"))
    );
    assert_eq!(report.report_metadata.report_id, "3166094538684628578");
    assert_eq!(report.report_metadata.date_range.begin, 1709683200);
    assert_eq!(report.report_metadata.date_range.end, 1709769599);

    // Check policy
    assert_eq!(report.policy_published.domain, "foo-bar.io");
    assert_eq!(report.policy_published.adkim, Some(AlignmentType::Relaxed));
    assert_eq!(report.policy_published.aspf, Some(AlignmentType::Relaxed));
    assert_eq!(report.policy_published.p, DispositionType::Reject);
    assert_eq!(report.policy_published.sp, Some(DispositionType::Reject));
    assert_eq!(report.policy_published.pct, 100);

    // Check record
    assert_eq!(report.record.len(), 1);
    let record = report.record.first().unwrap();
    assert_eq!(record.row.source_ip, IpAddress::V4(1, 2, 3, 4));
    assert_eq!(record.row.count, 1);
    assert_eq!(record.row.policy_evaluated.disposition, DispositionType::NoPolicy);
    assert_eq!(record.row.policy_evaluated.dkim, Some(DMARCResultType::Pass));
    assert_eq!(record.row.policy_evaluated.spf, Some(DMARCResultType::Pass));
    assert_eq!(record.identifiers.header_from, "foo-bar.io");
    assert_eq!(
        record.auth_results.dkim,
        Some(vec![DKIMAuthResultType {
            domain: String::from("foo-bar.io"),
            selector: Some(String::from("krs")),
            result: DKIMResultType::Pass,
            human_result: None
        }])
    );
    assert_eq!(
        record.auth_results.spf,
        vec![SPFAuthResultType {
            domain: String::from("foo-bar.io"),
            scope: None,
            result: SPFResultType::Pass,
        }]
    );
}

const OUTLOOK: &str = r#"<?xml version="1.0"?>
<feedback xmlns:xsd="http://www.w3.org/2001/XMLSchema" xmlns:xsi="http://www.w3.org/2001/XMLSchema-instance">
  <version>1.0</version>
  <report_metadata>
    <org_name>Outlook.com</org_name>
    <email>dmarcreport@microsoft.com</email>
    <report_id>a4f4ef0654474d3faa5dca167a34a86a</report_id>
    <date_range>
      <begin>1709683200</begin>
      <end>1709769600</end>
    </date_range>
  </report_metadata>
  <policy_published>
    <domain>random.net</domain>
    <adkim>r</adkim>
    <aspf>r</aspf>
    <p>reject</p>
    <sp>reject</sp>
    <pct>100</pct>
    <fo>0</fo>
  </policy_published>
  <record>
    <row>
      <source_ip>1.2.3.4</source_ip>
      <count>1</count>
      <policy_evaluated>
        <disposition>none</disposition>
        <dkim>pass</dkim>
        <spf>pass</spf>
      </policy_evaluated>
    </row>
    <identifiers>
      <envelope_to>live.de</envelope_to>
      <envelope_from>random.net</envelope_from>
      <header_from>random.net</header_from>
    </identifiers>
    <auth_results>
      <dkim>
        <domain>random.net</domain>
        <selector>def</selector>
        <result>pass</result>
      </dkim>
      <spf>
        <domain>random.net</domain>
        <scope>mfrom</scope>
        <result>pass</result>
      </spf>
    </auth_results>
  </record>
  <record>
    <row>
      <source_ip>1.2.3.4</source_ip>
      <count>2</count>
      <policy_evaluated>
        <disposition>none</disposition>
        <dkim>pass</dkim>
        <spf>pass</spf>
      </policy_evaluated>
    </row>
    <identifiers>
      <envelope_to>outlook.de</envelope_to>
      <envelope_from>random.net</envelope_from>
      <header_from>random.net</header_from>
    </identifiers>
    <auth_results>
      <dkim>
        <domain>random.net</domain>
        <selector>def</selector>
        <result>pass</result>
      </dkim>
      <spf>
        <domain>random.net</domain>
        <scope>mfrom</scope>
        <result>pass</result>
      </spf>
    </auth_results>
  </record>
</feedback>
"#;

#[test]
fn outlook_report() {
    let report = read(OUTLOOK);

    // Check metadata
    assert_eq!(report.report_metadata.org_name, "Outlook.com");
    assert_eq!(report.report_metadata.email, "dmarcreport@microsoft.com");
    assert_eq!(report.report_metadata.report_id, "a4f4ef0654474d3faa5dca167a34a86a");
    assert_eq!(report.report_metadata.date_range.begin, 1709683200);
    assert_eq!(report.report_metadata.date_range.end, 1709769600);

    // Check policy
    assert_eq!(report.policy_published.domain, "random.net");
    assert_eq!(report.policy_published.adkim, Some(AlignmentType::Relaxed));
    assert_eq!(report.policy_published.aspf, Some(AlignmentType::Relaxed));
    assert_eq!(report.policy_published.p, DispositionType::Reject);
    assert_eq!(report.policy_published.sp, Some(DispositionType::Reject));
    assert_eq!(report.policy_published.pct, 100);
    assert_eq!(report.policy_published.fo, Some(String::from("0")));

    // Check record #1
    assert_eq!(report.record.len(), 2);
    let record = report.record.first().unwrap();
    assert_eq!(record.row.source_ip, IpAddress::V4(1, 2, 3, 4));
    assert_eq!(record.row.count, 1);
    assert_eq!(record.row.policy_evaluated.disposition, DispositionType::NoPolicy);
    assert_eq!(record.row.policy_evaluated.dkim, Some(DMARCResultType::Pass));
    assert_eq!(record.row.policy_evaluated.spf, Some(DMARCResultType::Pass));
    assert_eq!(record.identifiers.envelope_to, Some(String::from("live.de")));
    assert_eq!(record.identifiers.envelope_from, Some(String::from("random.net")));
    assert_eq!(record.identifiers.header_from, "random.net");
    assert_eq!(
        record.auth_results.dkim,
        Some(vec![DKIMAuthResultType {
            domain: String::from("random.net"),
            selector: Some(String::from("def")),
            result: DKIMResultType::Pass,
            human_result: None
        }])
    );
    assert_eq!(
        record.auth_results.spf,
        vec![SPFAuthResultType {
            domain: String::from("random.net"),
            scope: Some(SPFDomainScope::Mfrom),
            result: SPFResultType::Pass,
        }]
    );

    // Check record #2
    let record = report.record.last().unwrap();
    assert_eq!(record.row.source_ip, IpAddress::V4(1, 2, 3, 4));
    assert_eq!(record.row.count, 2);
    assert_eq!(record.row.policy_evaluated.disposition, DispositionType::NoPolicy);
    assert_eq!(record.row.policy_evaluated.dkim, Some(DMARCResultType::Pass));
    assert_eq!(record.row.policy_evaluated.spf, Some(DMARCResultType::Pass));
    assert_eq!(record.identifiers.envelope_to, Some(String::from("outlook.de")));
    assert_eq!(record.identifiers.envelope_from, Some(String::from("random.net")));
    assert_eq!(record.identifiers.header_from, "random.net");
    assert_eq!(
        record.auth_results.dkim,
        Some(vec![DKIMAuthResultType {
            domain: String::from("random.net"),
            selector: Some(String::from("def")),
            result: DKIMResultType::Pass,
            human_result: None
        }])
    );
    assert_eq!(
        record.auth_results.spf,
        vec![SPFAuthResultType {
            domain: String::from("random.net"),
            scope: Some(SPFDomainScope::Mfrom),
            result: SPFResultType::Pass,
        }]
    );
}
