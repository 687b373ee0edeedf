use doh_hosts::build_hosts_output;
use doh_hosts::decode_doh;
use doh_hosts::Hosts;
use doh_hosts::Resp;

fn answer(name: &str, data: &str) -> Hosts {
    Hosts { name: String::from(name), data: String::from(data) }
}

#[test]
fn renders_one_line_per_reply_in_order() {
    let resps = vec![
        Resp {
            status: 0,
            answer: vec![
                answer("github.io", "185.199.108.153"),
            ],
        },
        Resp {
            status: 0,
            answer: vec![
                answer("github.com", "github.map.fastly.net"),
                answer("github.map.fastly.net", "140.82.112.3"),
            ],
        },
    ];
    let out = build_hosts_output(&resps).expect("all replies hold an address");
    assert_eq!(
        out,
        "185.199.108.153   github.io\n140.82.112.3      github.com\n"
    );
}

#[test]
fn renders_nothing_for_an_empty_batch() {
    let out = build_hosts_output(&vec![]).expect("nothing to fail on");
    assert_eq!(out, "");
}

#[test]
fn a_decoded_reply_flows_to_a_formatted_line() {
    let body = "{\"Status\":0,\"Answer\":[\
        {\"name\":\"a.b.com\",\"type\":5,\"TTL\":60,\"data\":\"cname.example.com\"},\
        {\"name\":\"cname.example.com\",\"type\":1,\"TTL\":60,\"data\":\"93.184.216.34\"}\
    ]}"
        .as_bytes()
        .to_vec();
    let resp = decode_doh(&body).expect("well-formed reply");
    let out = build_hosts_output(&vec![resp]).expect("an address is present");
    assert_eq!(out, "93.184.216.34     a.b.com\n");
}

#[test]
fn fails_when_some_reply_has_no_address() {
    let resps = vec![
        Resp { status: 0, answer: vec![answer("a", "1.2.3.4")] },
        Resp { status: 0, answer: vec![answer("b", "only.a.cname.net")] },
    ];
    assert!(build_hosts_output(&resps).is_none());
}
