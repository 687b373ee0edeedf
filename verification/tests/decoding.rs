use doh_hosts::decode_doh;

fn bytes(s: &str) -> Vec<u8> {
    s.as_bytes().to_vec()
}

#[test]
fn decodes_a_full_reply_with_extra_members() {
    let body = bytes(
        "{\"Status\":0,\"TC\":false,\"RD\":true,\"RA\":true,\"AD\":true,\"CD\":false,\
         \"Question\":[{\"name\":\"a.b.com\",\"type\":1}],\
         \"Answer\":[\
           {\"name\":\"a.b.com\",\"type\":5,\"TTL\":300,\"data\":\"cname.example.com\"},\
           {\"name\":\"cname.example.com\",\"type\":1,\"TTL\":300,\"data\":\"93.184.216.34\"}\
         ]}",
    );
    let resp = decode_doh(&body).expect("well-formed reply");
    assert_eq!(resp.status, 0);
    assert_eq!(resp.answer.len(), 2);
    assert_eq!(resp.answer[0].name, "a.b.com");
    assert_eq!(resp.answer[0].data, "cname.example.com");
    assert_eq!(resp.answer[1].name, "cname.example.com");
    assert_eq!(resp.answer[1].data, "93.184.216.34");
}

#[test]
fn decodes_with_whitespace_and_reordered_members() {
    let body = bytes(
        " { \"Answer\" : [ { \"data\" : \"1.2.3.4\" , \"name\" : \"h.example\" } ] , \"Status\" : 2 } ",
    );
    let resp = decode_doh(&body).expect("well-formed reply");
    assert_eq!(resp.status, 2);
    assert_eq!(resp.answer.len(), 1);
    assert_eq!(resp.answer[0].name, "h.example");
    assert_eq!(resp.answer[0].data, "1.2.3.4");
}

#[test]
fn decodes_an_empty_answer_array() {
    let body = bytes("{\"Status\":3,\"Answer\":[]}");
    let resp = decode_doh(&body).expect("well-formed reply");
    assert_eq!(resp.status, 3);
    assert!(resp.answer.is_empty());
}

#[test]
fn rejects_a_reply_without_status() {
    assert!(decode_doh(&bytes("{\"Answer\":[]}")).is_none());
}

#[test]
fn rejects_a_reply_without_answer() {
    assert!(decode_doh(&bytes("{\"Status\":0}")).is_none());
}

#[test]
fn rejects_a_duplicated_member() {
    assert!(decode_doh(&bytes("{\"Status\":0,\"Status\":1,\"Answer\":[]}")).is_none());
}

#[test]
fn rejects_a_duplicated_answer_field() {
    let body = bytes(
        "{\"Status\":0,\"Answer\":[{\"name\":\"a\",\"name\":\"b\",\"data\":\"1.2.3.4\"}]}",
    );
    assert!(decode_doh(&body).is_none());
}

#[test]
fn rejects_an_answer_without_data() {
    assert!(decode_doh(&bytes("{\"Status\":0,\"Answer\":[{\"name\":\"a\"}]}")).is_none());
}

#[test]
fn rejects_trailing_content() {
    assert!(decode_doh(&bytes("{\"Status\":0,\"Answer\":[]}x")).is_none());
}

#[test]
fn rejects_malformed_json() {
    assert!(decode_doh(&bytes("")).is_none());
    assert!(decode_doh(&bytes("{")).is_none());
    assert!(decode_doh(&bytes("{\"Status\":0,\"Answer\":[}")).is_none());
    assert!(decode_doh(&bytes("[0]")).is_none());
    assert!(decode_doh(&bytes("{\"Status\":00,\"Answer\":[]}")).is_none());
    assert!(decode_doh(&bytes("{\"Status\":,\"Answer\":[]}")).is_none());
}

#[test]
fn rejects_an_escape_sequence_in_a_string() {
    assert!(decode_doh(&bytes("{\"Status\":0,\"Answer\":[{\"name\":\"a\\\"b\",\"data\":\"x\"}]}")).is_none());
}

#[test]
fn rejects_a_status_beyond_thirty_two_bits() {
    assert!(decode_doh(&bytes("{\"Status\":4294967296,\"Answer\":[]}")).is_none());
}

#[test]
fn accepts_the_largest_thirty_two_bit_status() {
    let resp = decode_doh(&bytes("{\"Status\":4294967295,\"Answer\":[]}")).expect("fits");
    assert_eq!(resp.status, 4294967295);
}
