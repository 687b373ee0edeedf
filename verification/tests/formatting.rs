use doh_hosts::format_host;
use doh_hosts::build_query_url;

#[test]
fn pads_address_to_column_eighteen() {
    let line = format_host("93.184.216.34", "example.com");
    assert_eq!(line, "93.184.216.34     example.com");
    assert_eq!(&line[..18], "93.184.216.34     ");
}

#[test]
fn short_address_gets_long_padding() {
    let line = format_host("1.2.3.4", "github.io");
    assert_eq!(line, "1.2.3.4           github.io");
}

#[test]
fn address_at_column_width_gets_no_padding() {
    let addr = "123456789012345678";
    assert_eq!(addr.len(), 18);
    let line = format_host(addr, "h");
    assert_eq!(line, "123456789012345678h");
}

#[test]
fn over_length_address_gets_no_padding_and_no_crash() {
    let addr = "12345678901234567890";
    assert_eq!(addr.len(), 20);
    let line = format_host(addr, "host.example");
    assert_eq!(line, "12345678901234567890host.example");
}

#[test]
fn query_url_holds_fixed_parameters() {
    let url = build_query_url("https://1.0.0.1/dns-query", "github.com");
    assert_eq!(
        url,
        "https://1.0.0.1/dns-query?ct=application/dns-json&name=github.com&type=A&do=false&cd=false"
    );
}
