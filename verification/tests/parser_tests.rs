use orgncf_generator::parser::{parser, ParseError, ScalarKey, Section};

fn scalars() -> String {
    String::from(
        "domain foo.net\n\
         dns_file_name db.foo\n\
         reverse_dns_file_name db.0.0.10\n\
         dhcp_file_name reservations.conf\n",
    )
}

#[test]
fn test_no_ip_with_mac_present() {
    let s = format!("10:00:00:00:00:cc host3.net\n{}", scalars());
    let err = parser(&s).expect_err("parsing should fail");
    assert_eq!(err, ParseError::NoIpAddress { line: 1 });
    assert_eq!("✗ No IP address on line 1", err.message());
}

#[test]
fn test_no_mac_and_no_ip() {
    let s = format!("host3.net more.net\n{}", scalars());
    let err = parser(&s).expect_err("parsing should fail");
    assert_eq!(err, ParseError::NoMacOrIp { line: 1 });
    assert_eq!("✗ No MAC or IP address on line 1", err.message());
}

#[test]
fn test_no_server_names() {
    let s = format!("{}10:00:00:00:00:aa 10.0.0.1\n", scalars());
    let err = parser(&s).expect_err("parsing should fail");
    assert_eq!(err, ParseError::NoServerNames { line: 5 });
    assert_eq!("✗ No server names on line 5", err.message());
}

#[test]
fn test_unterminated_dns_prefix_section() {
    let s = format!("{}DNS_PREFIX_START\n; this section never ends\n", scalars());
    let err = parser(&s).expect_err("parsing should fail");
    assert_eq!(err, ParseError::UnterminatedSection { section: Section::DnsPrefix });
    assert_eq!("✗ DNS prefix section not terminated", err.message());
}

#[test]
fn test_unterminated_dhcp_prefix_section() {
    let s = format!("{}DHCP_PREFIX_START\n", scalars());
    let err = parser(&s).expect_err("parsing should fail");
    assert_eq!(err, ParseError::UnterminatedSection { section: Section::DhcpPrefix });
    assert_eq!("✗ DHCP prefix section not terminated", err.message());
}

#[test]
fn test_missing_scalar_reported() {
    let s = "domain foo.net\n";
    let err = parser(s).expect_err("parsing should fail");
    assert_eq!(err, ParseError::MissingScalar { key: ScalarKey::DnsFileName });
    assert_eq!(
        "✗ No DNS file specified in the configuration (dns_file_name)",
        err.message()
    );
}

#[test]
fn test_missing_domain_scalar() {
    let s = "dns_file_name db.foo\nreverse_dns_file_name db.0.0.10\ndhcp_file_name r.conf\n";
    let err = parser(s).expect_err("parsing should fail");
    assert_eq!(err, ParseError::MissingScalar { key: ScalarKey::Domain });
}

#[test]
fn test_scalar_with_extra_token() {
    let s = format!("domain foo.net bar.net\n{}", scalars());
    let err = parser(&s).expect_err("parsing should fail");
    assert_eq!(err, ParseError::ScalarArity { key: ScalarKey::Domain, line: 1 });
    assert_eq!(
        "✗ Expected exactly one value for domain on line 1",
        err.message()
    );
}

#[test]
fn test_scalar_with_no_value() {
    let s = format!("dns_file_name\n{}", scalars());
    let err = parser(&s).expect_err("parsing should fail");
    assert_eq!(err, ParseError::ScalarArity { key: ScalarKey::DnsFileName, line: 1 });
}

#[test]
fn test_records_and_fields() {
    let s = format!(
        "\n; a comment-only line\n\
         10:00:00:00:00:aa 10.0.0.5 a.net b.net ; trailing comment\n\
         10.0.0.7 c.net\n\
         {}",
        scalars()
    );
    let parsed = parser(&s).expect("the input should parse");
    assert_eq!(parsed.domain, "foo.net");
    assert_eq!(parsed.dns_file_name, "db.foo");
    assert_eq!(parsed.reverse_dns_file_name, "db.0.0.10");
    assert_eq!(parsed.dhcp_file_name, "reservations.conf");
    assert_eq!(parsed.ip_lines.len(), 2);

    let first = &parsed.ip_lines[0];
    assert_eq!(first.number, 3);
    assert_eq!(first.mac.as_deref(), Some("10:00:00:00:00:aa"));
    assert_eq!(first.ip, "10.0.0.5");
    assert_eq!(first.names, vec!["a.net", "b.net"]);

    let second = &parsed.ip_lines[1];
    assert_eq!(second.number, 4);
    assert_eq!(second.mac, None);
    assert_eq!(second.ip, "10.0.0.7");
    assert_eq!(second.names, vec!["c.net"]);
}

#[test]
fn test_sections_captured_verbatim() {
    let s = format!(
        "DNS_PREFIX_START\n; zone header\n\n$TTL 2d\nDNS_PREFIX_END\n\
         DNS_SUFFIX_START\n; end of zone\nDNS_SUFFIX_END\n\
         DHCP_PREFIX_START\ndefault-lease-time 600;\nDHCP_PREFIX_END\n\
         {}",
        scalars()
    );
    let parsed = parser(&s).expect("the input should parse");
    assert_eq!(parsed.dns_prefix, "; zone header\n\n$TTL 2d\n");
    assert_eq!(parsed.dns_suffix, "; end of zone\n");
    assert_eq!(parsed.dhcp_prefix, "default-lease-time 600;\n");
    assert!(parsed.ip_lines.is_empty());
}

#[test]
fn test_uppercase_mac_is_not_a_mac_token() {
    // The hardware-address shape asks for lowercase hex, so this first token
    // is no address at all and the line fails as having neither MAC nor IP.
    let s = format!("10:00:00:00:00:AA 10.0.0.1 host1.net\n{}", scalars());
    let err = parser(&s).expect_err("parsing should fail");
    assert_eq!(err, ParseError::NoMacOrIp { line: 1 });
}

#[test]
fn test_bad_ip_octet_rejected() {
    let s = format!("256.0.0.1 host1.net\n{}", scalars());
    let err = parser(&s).expect_err("parsing should fail");
    assert_eq!(err, ParseError::NoMacOrIp { line: 1 });
}

#[test]
fn test_ip_leading_zero_rejected() {
    let s = format!("10.0.0.01 host1.net\n{}", scalars());
    let err = parser(&s).expect_err("parsing should fail");
    assert_eq!(err, ParseError::NoMacOrIp { line: 1 });
}

#[test]
fn test_ip_too_few_octets_rejected() {
    let s = format!("10.0.1 host1.net\n{}", scalars());
    let err = parser(&s).expect_err("parsing should fail");
    assert_eq!(err, ParseError::NoMacOrIp { line: 1 });
}

#[test]
fn test_boundary_octets_accepted() {
    let s = format!("0.255.0.255 edge.net\n{}", scalars());
    let parsed = parser(&s).expect("the input should parse");
    assert_eq!(parsed.ip_lines[0].ip, "0.255.0.255");
}

#[test]
fn test_blank_and_comment_lines_are_no_ops() {
    let s = format!("\n\n   \n; only a comment\n\t\n{}", scalars());
    let parsed = parser(&s).expect("the input should parse");
    assert!(parsed.ip_lines.is_empty());
}
