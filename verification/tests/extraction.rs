use doh_hosts::is_ipv4_literal;
use doh_hosts::Hosts;
use doh_hosts::Resp;

#[test]
fn accepts_plain_dotted_quads() {
    assert!(is_ipv4_literal("1.2.3.4"));
    assert!(is_ipv4_literal("0.0.0.0"));
    assert!(is_ipv4_literal("255.255.255.255"));
    assert!(is_ipv4_literal("93.184.216.34"));
    assert!(is_ipv4_literal("10.0.200.9"));
}

#[test]
fn rejects_non_addresses() {
    assert!(!is_ipv4_literal(""));
    assert!(!is_ipv4_literal("example.com"));
    assert!(!is_ipv4_literal("cname.example.com"));
    assert!(!is_ipv4_literal("1.2.3"));
    assert!(!is_ipv4_literal("1.2.3.4.5"));
    assert!(!is_ipv4_literal("256.1.1.1"));
    assert!(!is_ipv4_literal("1.2.3.256"));
    assert!(!is_ipv4_literal("01.2.3.4"));
    assert!(!is_ipv4_literal("1.2.3.04"));
    assert!(!is_ipv4_literal("1..2.3"));
    assert!(!is_ipv4_literal(".1.2.3"));
    assert!(!is_ipv4_literal("1.2.3."));
    assert!(!is_ipv4_literal("1.2.3.4 "));
    assert!(!is_ipv4_literal("1.2.3.x"));
    assert!(!is_ipv4_literal("1.2.3.1000"));
}

fn answer(name: &str, data: &str) -> Hosts {
    Hosts { name: String::from(name), data: String::from(data) }
}

#[test]
fn skips_cname_and_pairs_address_with_queried_name() {
    let resp = Resp {
        status: 0,
        answer: vec![
            answer("a.b.com", "cname.example.com"),
            answer("cname.example.com", "93.184.216.34"),
        ],
    };
    let rec = resp.first_ipv4().expect("an address is present");
    assert_eq!(rec.address, "93.184.216.34");
    assert_eq!(rec.hostname, "a.b.com");
}

#[test]
fn picks_the_first_of_several_addresses() {
    let resp = Resp {
        status: 0,
        answer: vec![
            answer("h.example", "10.0.0.1"),
            answer("h.example", "10.0.0.2"),
        ],
    };
    let rec = resp.first_ipv4().expect("an address is present");
    assert_eq!(rec.address, "10.0.0.1");
    assert_eq!(rec.hostname, "h.example");
}

#[test]
fn reports_exhaustion_when_no_answer_parses() {
    let resp = Resp {
        status: 0,
        answer: vec![
            answer("a.b.com", "cname.example.com"),
            answer("cname.example.com", "another.alias.net"),
        ],
    };
    assert!(resp.first_ipv4().is_none());
}

#[test]
fn reports_exhaustion_on_empty_answer_list() {
    let resp = Resp { status: 3, answer: vec![] };
    assert!(resp.first_ipv4().is_none());
}
