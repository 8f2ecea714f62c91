use rdns::config::config::{Config, RecordConfig};
use rdns::dns::{
    DnsQuery, DnsRecord, Header, MessageType, RecordData, RCODE_NOT_IMP, RCODE_NO_ERROR, RCODE_NX_DOMAIN,
    RCODE_SERV_FAIL, RECORD_TYPE_A, RECORD_TYPE_AAAA, RECORD_TYPE_CNAME, RECORD_TYPE_TXT,
};
use rdns::handler::request_handler::{load_records, LoadError, LocalError, LocalRecords, MyRequestHandler};

fn rc(t: &str, v: &str) -> RecordConfig {
    RecordConfig { record_type: t.to_string(), value: v.to_string() }
}

fn config(records: Vec<(&str, RecordConfig)>) -> Config {
    Config {
        port: 4325,
        upstream_servers: vec!["223.5.5.5:53".to_string()],
        records: records.into_iter().map(|(n, r)| (n.to_string(), r)).collect(),
    }
}

fn handler() -> MyRequestHandler {
    let c = config(vec![
        ("example.com.", rc("A", "127.0.0.1")),
        ("www.example.com.", rc("cname", "example.com.")),
        ("loop1.", rc("CNAME", "loop2.")),
        ("loop2.", rc("CNAME", "loop1.")),
        ("dangling.", rc("CNAME", "nowhere.")),
        ("ipv6.example.com.", rc("AAAA", "::1")),
    ]);
    let records = load_records(&c).unwrap();
    MyRequestHandler::new(records, c.upstream_servers).unwrap()
}

#[test]
fn local_record_is_answered() {
    let h = handler();
    let v = h.handle_local_record(&DnsQuery::query("EXAMPLE.com.".to_string(), RECORD_TYPE_A)).unwrap();
    assert_eq!(v.len(), 1);
    assert_eq!(v[0].name, "EXAMPLE.com.");
    assert_eq!(v[0].ttl, 3600);
    assert!(matches!(v[0].data, RecordData::A(0x7f00_0001)));
}

#[test]
fn local_alias_is_followed_for_address_questions() {
    let h = handler();
    let v = h.handle_local_record(&DnsQuery::query("www.example.com.".to_string(), RECORD_TYPE_A)).unwrap();
    assert_eq!(v.len(), 2);
    assert_eq!(v[0].record_type(), RECORD_TYPE_CNAME);
    assert_eq!(v[1].name, "example.com.");
    let c = h.handle_local_record(&DnsQuery::query("www.example.com.".to_string(), RECORD_TYPE_CNAME)).unwrap();
    assert_eq!(c.len(), 1);
}

#[test]
fn local_errors() {
    let h = handler();
    let q = |n: &str, t: u16| DnsQuery::query(n.to_string(), t);
    assert_eq!(h.handle_local_record(&q("loop1.", RECORD_TYPE_A)).err(), Some(LocalError::RecursionLimit));
    assert_eq!(h.handle_local_record(&q("dangling.", RECORD_TYPE_A)).err(), Some(LocalError::NotFound));
    assert_eq!(h.handle_local_record(&q("missing.", RECORD_TYPE_A)).err(), Some(LocalError::NotFound));
    assert_eq!(h.handle_local_record(&q("example.com.", RECORD_TYPE_TXT)).err(), Some(LocalError::TypeMismatch));
    assert_eq!(h.handle_local_record(&q("ipv6.example.com.", RECORD_TYPE_A)).err(), Some(LocalError::TypeMismatch));
}

#[test]
fn local_ipv6_record_is_answered() {
    let h = handler();
    let v = h.handle_local_record(&DnsQuery::query("ipv6.example.com.".to_string(), RECORD_TYPE_AAAA)).unwrap();
    assert_eq!(v.len(), 1);
    assert!(matches!(v[0].data, RecordData::Aaaa(1)));
}

#[test]
fn later_record_replaces_earlier() {
    let c = config(vec![("a.example.", rc("A", "1.1.1.1")), ("A.Example.", rc("A", "2.2.2.2"))]);
    let h = MyRequestHandler::new(load_records(&c).unwrap(), vec!["x:53".to_string()]).unwrap();
    let v = h.handle_local_record(&DnsQuery::query("a.example.".to_string(), RECORD_TYPE_A)).unwrap();
    assert!(matches!(v[0].data, RecordData::A(0x0202_0202)));
}

#[test]
fn load_errors() {
    assert_eq!(load_records(&config(vec![("a.", rc("A", "1.2.3"))])).err(), Some(LoadError::InvalidIpv4));
    assert_eq!(load_records(&config(vec![("a.", rc("CNAME", "bad name."))])).err(), Some(LoadError::InvalidCname));
    assert_eq!(load_records(&config(vec![("a.", rc("aaaa", "1.2.3.4"))])).err(), Some(LoadError::InvalidIpv6));
    assert_eq!(load_records(&config(vec![("bad name.", rc("A", "1.2.3.4"))])).err(), Some(LoadError::InvalidName));
    assert!(MyRequestHandler::new(LocalRecords::new(), vec![]).is_err());
}

#[test]
fn responses_to_lookups() {
    let mut h = Header::new();
    h.id = 9;
    let (hd, rs) = MyRequestHandler::respond(&h, Ok(vec![]));
    assert_eq!(hd.response_code, RCODE_NX_DOMAIN);
    assert_eq!(hd.id, 9);
    assert!(rs.is_empty());
    let one = vec![DnsRecord::from_rdata("x.".to_string(), 1, RecordData::A(1))];
    let (hd, rs) = MyRequestHandler::respond(&h, Ok(one));
    assert_eq!(hd.response_code, RCODE_NO_ERROR);
    assert_eq!(hd.message_type, MessageType::Response);
    assert_eq!(rs.len(), 1);
    let (hd, rs) = MyRequestHandler::respond(&h, Err(RCODE_SERV_FAIL));
    assert_eq!(hd.response_code, RCODE_SERV_FAIL);
    assert!(rs.is_empty());
}

#[test]
fn only_standard_queries_are_served() {
    let mut h = Header::new();
    assert!(MyRequestHandler::unsupported_header(&h).is_none());
    h.op_code = 2;
    assert_eq!(MyRequestHandler::unsupported_header(&h).unwrap().response_code, RCODE_NOT_IMP);
    let mut r = Header::new();
    r.message_type = MessageType::Response;
    assert_eq!(MyRequestHandler::unsupported_header(&r).unwrap().message_type, MessageType::Response);
}

#[test]
fn lookup_prefers_local_then_upstream() {
    let local = vec![DnsRecord::from_rdata("x.".to_string(), 1, RecordData::A(1))];
    assert_eq!(MyRequestHandler::lookup(Ok(local), vec![]).unwrap().len(), 1);
    let up = vec![DnsRecord::from_rdata("x.".to_string(), 1, RecordData::A(2)), DnsRecord::from_rdata("x.".to_string(), 1, RecordData::A(3))];
    assert_eq!(MyRequestHandler::lookup(Err(LocalError::NotFound), vec![None, Some(Err(())), Some(Ok(up))]).unwrap().len(), 2);
    assert_eq!(MyRequestHandler::lookup(Err(LocalError::NotFound), vec![Some(Err(())), None]).err(), Some(RCODE_SERV_FAIL));
    assert_eq!(MyRequestHandler::lookup(Err(LocalError::TypeMismatch), vec![]).err(), Some(RCODE_SERV_FAIL));
}

#[test]
fn record_names_and_alias_targets_are_parsed() {
    let c = config(vec![
        ("\\142ook.example.", rc("A", "1.2.3.4")),
        ("alias.", rc("CNAME", "\\115ixed.Case.")),
    ]);
    let h = MyRequestHandler::new(load_records(&c).unwrap(), c.upstream_servers).unwrap();
    let v = h.handle_local_record(&DnsQuery::query("BOOK.example.".to_string(), RECORD_TYPE_A)).unwrap();
    assert_eq!(v.len(), 1);
    assert!(matches!(v[0].data, RecordData::A(0x0102_0304)));
    let a = h.handle_local_record(&DnsQuery::query("alias.".to_string(), RECORD_TYPE_CNAME)).unwrap();
    assert_eq!(a.len(), 1);
    assert!(matches!(&a[0].data, RecordData::Cname(t) if t == "Mixed.Case."));
}
