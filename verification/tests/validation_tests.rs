use orgncf_generator::parser::parser;
use orgncf_generator::parser::{Line, ParsedInfo};
use orgncf_generator::validation::{validate, ValidationError};

fn epilogue() -> String {
    String::from(
        "domain foo.net\n\
         dns_file_name db.foo\n\
         reverse_dns_file_name db.0.0.10\n\
         dhcp_file_name reservations.conf\n",
    )
}

fn check_validation(input: &str, expected: &str) {
    let parsed = parser(input).expect("the input should parse");
    let err = validate(&parsed).expect_err("validation should fail");
    assert_eq!(expected, err.message());
}

#[test]
fn test_duplicate_ip() {
    let s = format!(
        "10:00:00:00:00:aa 10.0.0.1 host1.net ; Comment\n\
         10:00:00:00:00:bb 10.0.0.1 host2.net\n\
         10:00:00:00:00:cc 10.0.0.3 host3.net\n\
         \n\
         {}",
        epilogue()
    );
    check_validation(&s, "✗ Ip address 10.0.0.1 on line 2 is duplicate of line 1");
}

#[test]
fn test_duplicate_mac() {
    let s = format!(
        "10:00:00:00:00:aa 10.0.0.1 host1.net ; Comment\n\
         10:00:00:00:00:aa 10.0.0.2 host2.net\n\
         10:00:00:00:00:cc 10.0.0.3 host3.net\n\
         \n\
         {}",
        epilogue()
    );
    check_validation(&s, "✗ Mac address 10:00:00:00:00:aa on line 2 is duplicate of line 1");
}

#[test]
fn test_duplicate_hostname() {
    let s = format!(
        "10:00:00:00:00:aa 10.0.0.1 host1.net ; Comment\n\
         10:00:00:00:00:bb 10.0.0.2 host1.net\n\
         10:00:00:00:00:cc 10.0.0.3 host3.net\n\
         \n\
         {}",
        epilogue()
    );
    check_validation(&s, "✗ Host name host1.net on line 2 is duplicate of line 1");
}

#[test]
fn test_duplicate_alias_across_records() {
    let s = format!(
        "10.0.0.1 host1.net shared.net\n\
         10.0.0.2 host2.net shared.net\n\
         {}",
        epilogue()
    );
    check_validation(&s, "✗ Host name shared.net on line 2 is duplicate of line 1");
}

#[test]
fn test_duplicate_name_within_one_record() {
    let s = format!("10.0.0.1 twice.net twice.net\n{}", epilogue());
    check_validation(&s, "✗ Host name twice.net on line 1 is duplicate of line 1");
}

#[test]
fn test_validation_passes_on_distinct_records() {
    let s = format!(
        "10:00:00:00:00:aa 10.0.0.1 host1.net alias1.net\n\
         10:00:00:00:00:bb 10.0.0.2 host2.net\n\
         {}",
        epilogue()
    );
    let parsed = parser(&s).expect("the input should parse");
    assert!(validate(&parsed).is_ok());
}

fn bare_registry(lines: Vec<Line>) -> ParsedInfo {
    ParsedInfo {
        ip_lines: lines,
        domain: String::from("foo.net"),
        dns_prefix: String::new(),
        dns_suffix: String::new(),
        dhcp_prefix: String::new(),
        dns_file_name: String::from("db.foo"),
        reverse_dns_file_name: String::from("db.0.0.10"),
        dhcp_file_name: String::from("reservations.conf"),
    }
}

fn host(number: usize, mac: Option<&str>, ip: &str, names: &[&str]) -> Line {
    Line {
        number,
        _text: String::new(),
        mac: mac.map(String::from),
        ip: String::from(ip),
        names: names.iter().map(|n| String::from(*n)).collect(),
    }
}

#[test]
fn test_mac_uniqueness_is_case_insensitive() {
    let registry = bare_registry(vec![
        host(1, Some("10:00:00:00:00:AA"), "10.0.0.1", &["host1.net"]),
        host(2, Some("10:00:00:00:00:aa"), "10.0.0.2", &["host2.net"]),
    ]);
    let err = validate(&registry).expect_err("validation should fail");
    assert_eq!(
        "✗ Mac address 10:00:00:00:00:aa on line 2 is duplicate of line 1",
        err.message()
    );
}

#[test]
fn test_missing_domain_reported_first() {
    let registry = ParsedInfo {
        domain: String::new(),
        ..bare_registry(vec![host(1, None, "10.0.0.1", &["host1.net"])])
    };
    let err = validate(&registry).expect_err("validation should fail");
    assert_eq!(err, ValidationError::MissingDomain());
    assert_eq!(
        "✗ No domain specified in the configuration (domain)",
        err.message()
    );
}

#[test]
fn test_missing_file_name_fields() {
    let registry = ParsedInfo {
        dns_file_name: String::new(),
        ..bare_registry(vec![])
    };
    let err = validate(&registry).expect_err("validation should fail");
    assert_eq!(
        "✗ No DNS file specified in the configuration (dns_file_name)",
        err.message()
    );

    let registry = ParsedInfo {
        reverse_dns_file_name: String::new(),
        ..bare_registry(vec![])
    };
    let err = validate(&registry).expect_err("validation should fail");
    assert_eq!(
        "✗ No reverse DNS file specified in the configuration (reverse_dns_file_name)",
        err.message()
    );

    let registry = ParsedInfo {
        dhcp_file_name: String::new(),
        ..bare_registry(vec![])
    };
    let err = validate(&registry).expect_err("validation should fail");
    assert_eq!(
        "✗ No DHCP file specified in the configuration (dhcp_file_name)",
        err.message()
    );
}

#[test]
fn test_check_order_mac_before_ip_before_host() {
    // One pair of records violating all three uniqueness invariants at once:
    // the hardware-address conflict must be the one reported.
    let registry = bare_registry(vec![
        host(1, Some("10:00:00:00:00:aa"), "10.0.0.1", &["host1.net"]),
        host(2, Some("10:00:00:00:00:aa"), "10.0.0.1", &["host1.net"]),
    ]);
    let err = validate(&registry).expect_err("validation should fail");
    assert_eq!(
        "✗ Mac address 10:00:00:00:00:aa on line 2 is duplicate of line 1",
        err.message()
    );
}
