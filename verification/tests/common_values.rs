use rdns::dns::{create_error_response, DnsMessage, DnsQuery, Header, MessageType, RCODE_NO_ERROR, RCODE_REFUSED};
use rdns::names::{ends_with, ends_with_char, lower_chars, names_match, starts_with, trim_start_matches};

#[test]
fn names_compare_ignoring_ascii_case() {
    assert!(names_match("WWW.Example.COM.", "www.example.com."));
    assert!(!names_match("www.example.com.", "www.example.com"));
    assert!(!names_match("a.example.", "b.example."));
}

#[test]
fn lower_chars_only_lowers_ascii_letters() {
    let v = lower_chars("AbC-9.Ü");
    let s: String = v.into_iter().collect();
    assert_eq!(s, "abc-9.Ü");
}

#[test]
fn prefix_suffix_and_trim() {
    assert!(starts_with("https://dns.google/dns-query", "https://"));
    assert!(!starts_with("http://x", "https://"));
    assert!(ends_with("8.8.8.8:53", ":53"));
    assert!(!ends_with("8.8.8.8:5353", ":53"));
    assert!(ends_with_char("example.com.", '.'));
    assert!(!ends_with_char("", '.'));
    assert_eq!(trim_start_matches("tls://tls://dns.google", "tls://"), "dns.google");
    assert_eq!(trim_start_matches("dns.google", "tls://"), "dns.google");
    assert_eq!(trim_start_matches("abc", ""), "abc");
}

#[test]
fn response_header_keeps_id_opcode_rd_cd() {
    let h = Header {
        id: 4242,
        message_type: MessageType::Query,
        op_code: 0,
        authoritative: true,
        truncation: true,
        recursion_desired: true,
        recursion_available: true,
        authentic_data: true,
        checking_disabled: true,
        response_code: 5,
    };
    let r = Header::response_from_request(&h);
    assert_eq!(r.id, 4242);
    assert_eq!(r.message_type, MessageType::Response);
    assert!(r.recursion_desired && r.checking_disabled);
    assert!(!r.authoritative && !r.truncation && !r.recursion_available && !r.authentic_data);
    assert_eq!(r.response_code, RCODE_NO_ERROR);
    let d = Header::new();
    assert_eq!(d.id, 0);
    assert_eq!(d.message_type, MessageType::Query);
}

#[test]
fn error_response_has_code_and_request_header() {
    let mut h = Header::new();
    h.id = 7;
    h.recursion_desired = true;
    let req = DnsMessage { header: h, queries: vec![DnsQuery::query("a.example.".to_string(), 1)] };
    let e = create_error_response(&req, RCODE_REFUSED);
    assert_eq!(e.header.id, 7);
    assert!(e.header.recursion_desired);
    assert_eq!(e.header.response_code, RCODE_REFUSED);
    assert_eq!(e.header.message_type, MessageType::Response);
    assert!(e.queries.is_empty());
}
