use rdns::config::new_config::{
    Arbitrary, ArbitraryRule, Blackhole, BlackholeStrategy, Cache, CacheBackend, ClientLimiter as ClientLimiterConfig,
    FastForward, ForwardStrategy, HostRecord, Hosts,
};
use rdns::dns::{
    DnsMessage, DnsQuery, DnsRecord, Header, RecordData, DNS_CLASS_IN, RCODE_NO_ERROR, RCODE_NX_DOMAIN, RCODE_REFUSED,
    RCODE_SERV_FAIL, RECORD_TYPE_A, RECORD_TYPE_AAAA, RECORD_TYPE_CNAME, RECORD_TYPE_TXT,
};
use rdns::plugins::arbitrary::{build_rdata, parse_qtype, ArbitraryPlugin, RdataError};
use rdns::plugins::blackhole::BlackholePlugin;
use rdns::plugins::cache::CachePlugin;
use rdns::plugins::client_limiter::ClientLimiter;
use rdns::plugins::fast_forward::{plan_upstream, FastForwardPlugin, ForwardError, UpstreamPlan};
use rdns::plugins::hosts::HostsPlugin;
use rdns::plugins::plugin::{Plugin, PluginAction};
use rdns::plugins::table::RecordTable;

fn request(name: &str, qtype: u16) -> DnsMessage {
    DnsMessage { header: Header::new(), queries: vec![DnsQuery::query(name.to_string(), qtype)] }
}

fn answer(r: Result<PluginAction, u16>) -> Vec<DnsRecord> {
    match r {
        Ok(PluginAction::Response(v)) => v,
        other => panic!("expected an answer, got {:?}", other),
    }
}

fn continues(r: &Result<PluginAction, u16>) -> bool {
    matches!(r, Ok(PluginAction::Continue(_)))
}

fn hosts_config() -> Hosts {
    Hosts {
        enabled: true,
        records: vec![
            (
                "Example.COM.".to_string(),
                HostRecord::Multiple(vec!["127.0.0.1".to_string(), "::1".to_string(), "not-an-ip".to_string()]),
            ),
            ("local.".to_string(), HostRecord::Single("10.0.0.1".to_string())),
            ("second.".to_string(), HostRecord::Multiple(vec!["10.0.0.2".to_string(), "10.0.0.3".to_string()])),
        ],
    }
}

#[test]
fn hosts_answer_by_name_and_family() {
    let p = HostsPlugin::new(hosts_config());
    assert_eq!(p.name(), "hosts");
    let a = answer(p.handle_request(request("EXAMPLE.com.", RECORD_TYPE_A)));
    assert_eq!(a.len(), 1);
    assert_eq!(a[0].name, "example.com.");
    assert_eq!(a[0].ttl, 300);
    assert_eq!(a[0].dns_class, DNS_CLASS_IN);
    assert!(matches!(a[0].data, RecordData::A(0x7f00_0001)));
    let aaaa = answer(p.handle_request(request("example.com.", RECORD_TYPE_AAAA)));
    assert_eq!(aaaa.len(), 1);
    assert!(matches!(aaaa[0].data, RecordData::Aaaa(1)));
    let two = answer(p.handle_request(request("second.", RECORD_TYPE_A)));
    assert!(matches!(two[0].data, RecordData::A(0x0a00_0002)));
    assert!(matches!(two[1].data, RecordData::A(0x0a00_0003)));
}

#[test]
fn hosts_pass_on_unknown_questions() {
    let p = HostsPlugin::new(hosts_config());
    assert!(continues(&p.handle_request(request("local.", RECORD_TYPE_AAAA))));
    assert!(continues(&p.handle_request(request("other.", RECORD_TYPE_A))));
    let empty = DnsMessage { header: Header::new(), queries: vec![] };
    assert!(continues(&p.handle_request(empty)));
}

#[test]
fn blackhole_blocks_listed_names_exactly() {
    let p = BlackholePlugin::new(Blackhole {
        enabled: true,
        strategy: BlackholeStrategy::Drop,
        custom_ips: None,
        domains: vec!["ads.example.".to_string(), "ads.example.".to_string()],
    });
    assert_eq!(p.name(), "blackhole");
    assert!(matches!(p.handle_request(request("ads.example.", 1)), Err(RCODE_REFUSED)));
    assert!(continues(&p.handle_request(request("ADS.example.", 1))));
    assert!(continues(&p.handle_request(request("news.example.", 1))));
    let empty = DnsMessage { header: Header::new(), queries: vec![] };
    assert!(matches!(p.handle_request(empty), Err(RCODE_SERV_FAIL)));
}

#[test]
fn blackhole_strategy_codes() {
    for (strategy, code) in [
        (BlackholeStrategy::Drop, RCODE_REFUSED),
        (BlackholeStrategy::Empty, RCODE_NO_ERROR),
        (BlackholeStrategy::CustomIp, RCODE_NX_DOMAIN),
    ] {
        let p = BlackholePlugin::new(Blackhole {
            enabled: true,
            strategy,
            custom_ips: Some(vec!["0.0.0.0".to_string()]),
            domains: vec!["x.example.".to_string()],
        });
        assert_eq!(p.handle_request(request("x.example.", 1)).err(), Some(code));
    }
}

fn rule(domain: &str, qtype: &str, value: &str, ttl: u32) -> ArbitraryRule {
    ArbitraryRule { domain: domain.to_string(), qtype: qtype.to_string(), value: value.to_string(), ttl }
}

fn arbitrary_plugin() -> ArbitraryPlugin {
    ArbitraryPlugin::new(Arbitrary {
        enabled: true,
        rules: vec![
            rule("alias.example.", "cname", "target.example.", 60),
            rule("target.example.", "a", "1.2.3.4", 120),
            rule("txt.example.", "TXT", "hello", 30),
            rule("mx.example.", "MX", "mail.example.", 30),
            rule("bad.example.", "A", "not-an-ip", 30),
            rule("bad.example.", "bogus", "1.1.1.1", 30),
        ],
    })
}

#[test]
fn arbitrary_direct_answers() {
    let p = arbitrary_plugin();
    assert_eq!(p.name(), "arbitrary");
    let a = answer(p.handle_request(request("target.example.", RECORD_TYPE_A)));
    assert_eq!(a.len(), 1);
    assert_eq!(a[0].ttl, 120);
    assert!(matches!(a[0].data, RecordData::A(0x0102_0304)));
    let t = answer(p.handle_request(request("TXT.example.", RECORD_TYPE_TXT)));
    assert!(matches!(&t[0].data, RecordData::Txt(s) if s == "hello"));
}

#[test]
fn arbitrary_falls_back_to_alias_for_address_questions() {
    let p = arbitrary_plugin();
    let a = answer(p.handle_request(request("alias.example.", RECORD_TYPE_AAAA)));
    assert_eq!(a.len(), 1);
    assert_eq!(a[0].record_type(), RECORD_TYPE_CNAME);
    assert!(matches!(&a[0].data, RecordData::Cname(t) if t == "target.example."));
    assert!(continues(&p.handle_request(request("alias.example.", RECORD_TYPE_TXT))));
    assert!(continues(&p.handle_request(request("mx.example.", 15))));
    assert!(continues(&p.handle_request(request("bad.example.", RECORD_TYPE_A))));
}

#[test]
fn build_rdata_by_type() {
    assert!(matches!(build_rdata(RECORD_TYPE_A, "10.1.2.3"), Ok(RecordData::A(0x0a01_0203))));
    assert!(matches!(build_rdata(RECORD_TYPE_A, "10.1.2"), Err(RdataError::InvalidIpv4)));
    assert!(matches!(build_rdata(RECORD_TYPE_AAAA, "2001:db8::1"), Ok(RecordData::Aaaa(v)) if v == 0x2001_0db8_0000_0000_0000_0000_0000_0001));
    assert!(matches!(build_rdata(RECORD_TYPE_AAAA, "1.2.3.4"), Err(RdataError::InvalidIpv6)));
    assert!(matches!(build_rdata(RECORD_TYPE_CNAME, "Target.Example."), Ok(RecordData::Cname(n)) if n == "target.example."));
    assert!(matches!(build_rdata(RECORD_TYPE_CNAME, "bad name."), Err(RdataError::InvalidCname)));
    assert!(matches!(build_rdata(RECORD_TYPE_TXT, "any text"), Ok(RecordData::Txt(t)) if t == "any text"));
    assert!(matches!(build_rdata(15, "mail."), Err(RdataError::UnsupportedType(15))));
}

#[test]
fn qtype_mnemonics_in_any_case() {
    assert_eq!(parse_qtype("a"), Some(1));
    assert_eq!(parse_qtype("Aaaa"), Some(28));
    assert_eq!(parse_qtype("cname"), Some(5));
    assert_eq!(parse_qtype("mx"), Some(15));
    assert_eq!(parse_qtype("nope"), None);
}

#[test]
fn record_table_groups_by_name_and_type() {
    let mut t = RecordTable::new();
    t.insert(DnsRecord::from_rdata("A.example.".to_string(), 1, RecordData::A(1)));
    t.insert(DnsRecord::from_rdata("b.example.".to_string(), 1, RecordData::A(2)));
    t.insert(DnsRecord::from_rdata("a.EXAMPLE.".to_string(), 2, RecordData::A(3)));
    t.insert(DnsRecord::from_rdata("a.example.".to_string(), 3, RecordData::Aaaa(4)));
    assert_eq!(t.len(), 3);
    let v = t.get("a.example.", RECORD_TYPE_A).unwrap();
    assert_eq!(v.len(), 2);
    assert!(matches!(v[0].data, RecordData::A(1)));
    assert!(matches!(v[1].data, RecordData::A(3)));
    assert!(t.get("c.example.", RECORD_TYPE_A).is_none());
}

fn cache_config(min_ttl: u32, max_ttl: u32) -> Cache {
    Cache {
        enabled: true,
        backend: CacheBackend::Memory,
        max_size: 100,
        ttl_override: false,
        min_ttl,
        max_ttl,
        redis: None,
    }
}

const SEC: u128 = 1_000_000_000;

#[test]
fn cache_serves_until_lifetime_ends() {
    let mut c = CachePlugin::new(cache_config(10, 60));
    assert_eq!(c.name(), "cache");
    let q = DnsQuery::query("www.example.".to_string(), RECORD_TYPE_A);
    let records = vec![
        DnsRecord::from_rdata("www.example.".to_string(), 300, RecordData::A(1)),
        DnsRecord::from_rdata("www.example.".to_string(), 5, RecordData::A(2)),
    ];
    c.store_at(q, records, 100 * SEC);
    // smallest TTL 5 is raised to min_ttl 10
    let hit = answer(c.handle_request_at(request("WWW.example.", RECORD_TYPE_A), 109 * SEC));
    assert_eq!(hit.len(), 2);
    assert!(continues(&c.handle_request_at(request("www.example.", RECORD_TYPE_A), 110 * SEC)));
    // the expired entry was discarded
    assert!(continues(&c.handle_request_at(request("www.example.", RECORD_TYPE_A), 101 * SEC)));
    assert!(continues(&c.handle_request_at(request("www.example.", RECORD_TYPE_AAAA), 101 * SEC)));
}

#[test]
fn cache_lifetime_capped_and_empty_not_stored() {
    let mut c = CachePlugin::new(cache_config(10, 60));
    let q = DnsQuery::query("long.example.".to_string(), RECORD_TYPE_A);
    c.store_at(q, vec![DnsRecord::from_rdata("long.example.".to_string(), 3600, RecordData::A(9))], 0);
    assert!(!continues(&c.handle_request_at(request("long.example.", RECORD_TYPE_A), 59 * SEC)));
    assert!(continues(&c.handle_request_at(request("long.example.", RECORD_TYPE_A), 60 * SEC)));
    let q2 = DnsQuery::query("empty.example.".to_string(), RECORD_TYPE_A);
    c.store_at(q2, vec![], 0);
    assert!(continues(&c.handle_request_at(request("empty.example.", RECORD_TYPE_A), 1)));
    let empty = DnsMessage { header: Header::new(), queries: vec![] };
    assert!(matches!(c.handle_request_at(empty, 0), Err(RCODE_SERV_FAIL)));
}

#[test]
fn cache_store_replaces_held_answer() {
    let mut c = CachePlugin::new(cache_config(10, 60));
    c.store_at(DnsQuery::query("r.example.".to_string(), RECORD_TYPE_A), vec![DnsRecord::from_rdata("r.example.".to_string(), 30, RecordData::A(1))], 0);
    c.store_at(DnsQuery::query("R.example.".to_string(), RECORD_TYPE_A), vec![DnsRecord::from_rdata("r.example.".to_string(), 30, RecordData::A(2))], 0);
    let hit = answer(c.handle_request_at(request("r.example.", RECORD_TYPE_A), 1));
    assert_eq!(hit.len(), 1);
    assert!(matches!(hit[0].data, RecordData::A(2)));
}

#[test]
fn cache_with_unordered_bounds_accepts_empty_answers() {
    let mut c = CachePlugin::new(cache_config(100, 10));
    assert!(!c.bounds_ordered());
    let q = DnsQuery::query("e.example.".to_string(), RECORD_TYPE_A);
    c.store_at(q, vec![], 0);
    assert!(continues(&c.handle_request_at(request("e.example.", RECORD_TYPE_A), 1)));
}

#[test]
fn cache_with_the_system_clock() {
    let mut c = CachePlugin::new(cache_config(30, 60));
    let q = DnsQuery::query("now.example.".to_string(), RECORD_TYPE_A);
    c.store(q, vec![DnsRecord::from_rdata("now.example.".to_string(), 40, RecordData::A(3))]);
    let hit = answer(c.handle_request(request("now.example.", RECORD_TYPE_A)));
    assert!(matches!(hit[0].data, RecordData::A(3)));
}

#[test]
fn upstream_plans() {
    match plan_upstream("https://dns.google/dns-query").unwrap() {
        UpstreamPlan::Https { server_name, path } => {
            assert_eq!(server_name, "dns.google");
            assert_eq!(path, "/dns-query");
        }
        other => panic!("{:?}", other),
    }
    assert!(matches!(plan_upstream("tls://one.one.one.one").unwrap(), UpstreamPlan::Tls { server_name } if server_name == "one.one.one.one"));
    assert!(matches!(plan_upstream("8.8.8.8:53").unwrap(), UpstreamPlan::Udp { address } if address == "8.8.8.8:53"));
    assert_eq!(plan_upstream("8.8.8.8").err(), Some(ForwardError::UnsupportedUpstream));
    assert_eq!(plan_upstream("https://").err(), Some(ForwardError::InvalidUrl));
    assert!(matches!(plan_upstream("[2001:db8::1]:53").unwrap(), UpstreamPlan::Udp { .. }));
    assert!(matches!(plan_upstream("[fe80::1%2]:53").unwrap(), UpstreamPlan::Udp { .. }));
    assert_eq!(plan_upstream("dns.google:53").err(), Some(ForwardError::InvalidAddress));
    assert_eq!(plan_upstream("[fe80::1%]:53").err(), Some(ForwardError::InvalidAddress));
    assert_eq!(plan_upstream("[fe80::1%99999999999]:53").err(), Some(ForwardError::InvalidAddress));
    assert_eq!(plan_upstream("1.2.3.4:5:53").err(), Some(ForwardError::InvalidAddress));
    assert_eq!(plan_upstream("2001:db8::1:53").err(), Some(ForwardError::InvalidAddress));
}

#[test]
fn udp_upstreams_are_socket_addresses() {
    assert!(matches!(
        FastForwardPlugin::new(FastForward { upstreams: vec!["dns.google:53".to_string()], strategy: ForwardStrategy::Random }),
        Err(ForwardError::InvalidAddress)
    ));
}

#[test]
fn fast_forward_setup_and_answers() {
    let f = FastForwardPlugin::new(FastForward {
        upstreams: vec!["223.5.5.5:53".to_string(), "tls://dns.example".to_string()],
        strategy: ForwardStrategy::Fastest,
    })
    .unwrap();
    assert_eq!(f.name(), "FastForward");
    assert_eq!(f.forwarders.len(), 2);
    assert_eq!(f.forwarders[1].0, "tls://dns.example");
    assert!(matches!(
        FastForwardPlugin::new(FastForward { upstreams: vec![], strategy: ForwardStrategy::Random }),
        Err(ForwardError::NoUpstreams)
    ));
    assert!(matches!(
        FastForwardPlugin::new(FastForward { upstreams: vec!["1.1.1.1:53".to_string(), "udp://x".to_string()], strategy: ForwardStrategy::RoundRobin }),
        Err(ForwardError::UnsupportedUpstream)
    ));
    assert!(matches!(f.answer_from(vec![]), Err(RCODE_SERV_FAIL)));
    assert!(matches!(f.answer_from(vec![None, Some(Err(()))]), Err(RCODE_SERV_FAIL)));
    let a = answer(f.answer_from(vec![
        Some(Err(())),
        Some(Ok(vec![DnsRecord::from_rdata("x.".to_string(), 5, RecordData::A(7))])),
        Some(Ok(vec![])),
    ]));
    assert_eq!(a.len(), 1);
    assert!(matches!(a[0].data, RecordData::A(7)));
}

#[test]
fn client_limiter_keeps_settings() {
    let _ = ClientLimiter::new(ClientLimiterConfig { enabled: true, max_qps: 10, burst_size: 20 });
}

#[test]
fn alias_targets_are_parsed_names() {
    assert!(matches!(build_rdata(RECORD_TYPE_CNAME, "Bücher.Example."), Ok(RecordData::Cname(n)) if n == "bücher.example."));
    assert!(matches!(build_rdata(RECORD_TYPE_CNAME, "\\142ook.example."), Ok(RecordData::Cname(n)) if n == "book.example."));
}
