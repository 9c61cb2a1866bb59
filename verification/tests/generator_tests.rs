use orgncf_generator::create_dhcp_config::render_dhcp_config;
use orgncf_generator::create_dns_config::{compute_max_name_lenght, render_dns_config};
use orgncf_generator::create_reverse_dns_config::render_reverse_dns_config;
use orgncf_generator::generate_configs;
use orgncf_generator::parser::parser;
use orgncf_generator::text::usize_to_string;

fn full_input() -> String {
    String::from(
        "DNS_PREFIX_START\n\
         ; zone header\n\
         \n\
         DNS_PREFIX_END\n\
         DNS_SUFFIX_START\n\
         ; end of zone\n\
         DNS_SUFFIX_END\n\
         DHCP_PREFIX_START\n\
         default-lease-time 600;\n\
         DHCP_PREFIX_END\n\
         domain foo.net\n\
         dns_file_name db.foo\n\
         reverse_dns_file_name db.0.0.10\n\
         dhcp_file_name reservations.conf\n\
         10:00:00:00:00:aa 10.0.0.1 host1.net alias1.net\n\
         10.0.0.22 host2.net\n\
         10:00:00:00:00:bb 10.0.0.5 @\n",
    )
}

#[test]
fn test_forward_zone_rendering() {
    let configs = generate_configs(&full_input()).expect("the pipeline should succeed");
    assert_eq!(configs.dns_file_name, "db.foo");
    // The longest name is alias1.net (ten characters), so every name field
    // is eleven columns wide.
    assert_eq!(
        configs.dns_config,
        "; zone header\n\
         \n\
         host1.net   IN A     10.0.0.1\n\
         alias1.net  IN CNAME host1.net\n\
         host2.net   IN A     10.0.0.22\n\
         @           IN A     10.0.0.5\n\
         \n\
         ; end of zone\n"
    );
}

#[test]
fn test_reverse_zone_rendering() {
    let configs = generate_configs(&full_input()).expect("the pipeline should succeed");
    assert_eq!(configs.reverse_dns_file_name, "db.0.0.10");
    assert_eq!(
        configs.reverse_dns_config,
        "; zone header\n\
         \n\
         1   IN PTR host1.net.foo.net.\n\
         22  IN PTR host2.net.foo.net.\n\
         5   IN PTR foo.net.\n"
    );
}

#[test]
fn test_dhcp_rendering() {
    let configs = generate_configs(&full_input()).expect("the pipeline should succeed");
    assert_eq!(configs.dhcp_file_name, "reservations.conf");
    // host2.net has no hardware address and is skipped; the apex record is
    // keyed by the bare domain.
    assert_eq!(
        configs.dhcp_config,
        "default-lease-time 600;\n\
         \n\
         host host1.net {\n\
        \x20 hardware ethernet 10:00:00:00:00:aa;\n\
        \x20 fixed-address host1.net.foo.net;\n\
         }\n\
         \n\
         host foo.net {\n\
        \x20 hardware ethernet 10:00:00:00:00:bb;\n\
        \x20 fixed-address foo.net;\n\
         }\n"
    );
}

#[test]
fn test_pipeline_is_deterministic() {
    let input = full_input();
    let first = generate_configs(&input).expect("the pipeline should succeed");
    let second = generate_configs(&input).expect("the pipeline should succeed");
    assert_eq!(first.dns_config, second.dns_config);
    assert_eq!(first.reverse_dns_config, second.reverse_dns_config);
    assert_eq!(first.dhcp_config, second.dhcp_config);
    assert_eq!(first.dns_file_name, second.dns_file_name);
    assert_eq!(first.reverse_dns_file_name, second.reverse_dns_file_name);
    assert_eq!(first.dhcp_file_name, second.dhcp_file_name);
}

#[test]
fn test_blocks_pass_through_byte_identical() {
    let configs = generate_configs(&full_input()).expect("the pipeline should succeed");
    let dns_prefix = "; zone header\n\n";
    let dns_suffix = "; end of zone\n";
    let dhcp_prefix = "default-lease-time 600;\n";
    assert!(configs.dns_config.starts_with(dns_prefix));
    assert!(configs.dns_config.ends_with(dns_suffix));
    assert!(configs.reverse_dns_config.starts_with(dns_prefix));
    assert!(configs.dhcp_config.starts_with(dhcp_prefix));
}

#[test]
fn test_reverse_zone_apex_sentinel() {
    let input = "domain foo.net\n\
                 dns_file_name db.foo\n\
                 reverse_dns_file_name db.0.0.10\n\
                 dhcp_file_name reservations.conf\n\
                 10:00:00:00:00:ee 10.0.0.5 @\n";
    let configs = generate_configs(&input).expect("the pipeline should succeed");
    assert_eq!(configs.reverse_dns_config, "5   IN PTR foo.net.\n");
    assert_eq!(
        configs.dhcp_config,
        "\nhost foo.net {\n  hardware ethernet 10:00:00:00:00:ee;\n  fixed-address foo.net;\n}\n"
    );
}

#[test]
fn test_generation_without_blocks_or_records() {
    let input = "domain foo.net\n\
                 dns_file_name db.foo\n\
                 reverse_dns_file_name db.0.0.10\n\
                 dhcp_file_name reservations.conf\n";
    let configs = generate_configs(input).expect("the pipeline should succeed");
    assert_eq!(configs.dns_config, "");
    assert_eq!(configs.reverse_dns_config, "");
    assert_eq!(configs.dhcp_config, "");
}

#[test]
fn test_pipeline_surfaces_parse_error() {
    let err = generate_configs("10:00:00:00:00:cc host3.net\n")
        .expect_err("the pipeline should fail");
    assert_eq!("✗ No IP address on line 1", err.message());
}

#[test]
fn test_pipeline_surfaces_validation_error() {
    let input = "domain foo.net\n\
                 dns_file_name db.foo\n\
                 reverse_dns_file_name db.0.0.10\n\
                 dhcp_file_name reservations.conf\n\
                 10:00:00:00:00:aa 10.0.0.1 host1.net\n\
                 10:00:00:00:00:bb 10.0.0.1 host2.net\n";
    let err = generate_configs(input).expect_err("the pipeline should fail");
    assert_eq!(
        "✗ Ip address 10.0.0.1 on line 6 is duplicate of line 5",
        err.message()
    );
}

#[test]
fn test_render_functions_match_pipeline() {
    let input = full_input();
    let parsed = parser(&input).expect("the input should parse");
    let configs = generate_configs(&input).expect("the pipeline should succeed");
    assert_eq!(render_dns_config(&parsed), configs.dns_config);
    assert_eq!(render_reverse_dns_config(&parsed), configs.reverse_dns_config);
    assert_eq!(render_dhcp_config(&parsed), configs.dhcp_config);
}

#[test]
fn test_compute_max_name_lenght() {
    let parsed = parser(&full_input()).expect("the input should parse");
    assert_eq!(compute_max_name_lenght(&parsed.ip_lines), 10);
    assert_eq!(compute_max_name_lenght(&Vec::new()), 0);
}

#[test]
fn test_usize_to_string() {
    assert_eq!(usize_to_string(0), "0");
    assert_eq!(usize_to_string(7), "7");
    assert_eq!(usize_to_string(10), "10");
    assert_eq!(usize_to_string(12345), "12345");
}
