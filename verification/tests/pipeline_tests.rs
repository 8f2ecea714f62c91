use rdns::config::new_config::{
    Arbitrary, ArbitraryRule, Blackhole, BlackholeStrategy, Cache, CacheBackend, ClientLimiter, Config, FastForward,
    ForwardStrategy, Global, HostRecord, Hosts, LogLevel, PreferIpv6, ReverseLookup,
};
use rdns::dns::{
    DnsMessage, DnsQuery, DnsRecord, Header, MessageType, RecordData, RCODE_NO_ERROR, RCODE_NX_DOMAIN, RCODE_REFUSED,
    RCODE_SERV_FAIL, RECORD_TYPE_A, RECORD_TYPE_CNAME,
};
use rdns::handler::pipline_handler::{PipelineHandler, PipelineRun, Progress, MAX_CNAME_HOPS};
use rdns::plugins::arbitrary::ArbitraryPlugin;
use rdns::plugins::fast_forward::ForwardError;
use rdns::plugins::plugin::{create_plugins, forward_setup_error, PipelinePlugin};

fn config(pipeline: &[&str]) -> Config {
    Config {
        global: Global { listen_address: "0.0.0.0:5353".to_string(), log_level: LogLevel::Info },
        pipeline: pipeline.iter().map(|s| s.to_string()).collect(),
        client_limiter: ClientLimiter { enabled: false, max_qps: 0, burst_size: 0 },
        cache: Some(Cache {
            enabled: true,
            backend: CacheBackend::Memory,
            max_size: 1000,
            ttl_override: false,
            min_ttl: 30,
            max_ttl: 3600,
            redis: None,
        }),
        hosts: Some(Hosts {
            enabled: true,
            records: vec![("home.local.".to_string(), HostRecord::Single("192.168.1.10".to_string()))],
        }),
        blackhole: Some(Blackhole {
            enabled: true,
            strategy: BlackholeStrategy::Drop,
            custom_ips: None,
            domains: vec!["ads.example.".to_string()],
        }),
        redirect: None,
        prefer_ipv4: None,
        ecs: None,
        padding: None,
        bufsize: None,
        ttl: None,
        fast_forward: Some(FastForward { upstreams: vec!["8.8.8.8:53".to_string()], strategy: ForwardStrategy::Fastest }),
        arbitrary: Arbitrary::default_value(),
        reverse_lookup: ReverseLookup::default_value(),
        prefer_ipv6: PreferIpv6::default_value(),
    }
}

fn header(id: u16) -> Header {
    let mut h = Header::new();
    h.id = id;
    h.recursion_desired = true;
    h
}

/// Runs the pipeline to its end; forwarded messages are answered by `upstream`.
fn run(
    handler: &mut PipelineHandler,
    name: &str,
    qtype: u16,
    upstream: &dyn Fn(&DnsMessage) -> Vec<Option<Result<Vec<DnsRecord>, ()>>>,
    forwards: &mut usize,
) -> Progress {
    let mut r = PipelineRun::start(header(77), DnsQuery::query(name.to_string(), qtype));
    loop {
        let progress = match handler.step(&mut r) {
            Progress::Forward { plugin: _, message } => {
                *forwards += 1;
                handler.resume(&mut r, upstream(&message))
            }
            other => other,
        };
        match progress {
            Progress::Running => {}
            done => {
                if let Progress::Respond { records, store: true, .. } = &done {
                    assert!(records.is_empty() || handler.first_cache_bounds_ordered());
                    handler.store_cache(&r.query, records);
                }
                return done;
            }
        }
    }
}

fn a(name: &str, ttl: u32, v: u32) -> DnsRecord {
    DnsRecord::from_rdata(name.to_string(), ttl, RecordData::A(v))
}

fn cname(name: &str, target: &str) -> DnsRecord {
    DnsRecord::from_rdata(name.to_string(), 60, RecordData::Cname(target.to_string()))
}

#[test]
fn plugins_follow_the_pipeline_order() {
    let ps = create_plugins(config(&["blackhole", "unknown", "hosts", "cache", "fast_forward"]));
    let names: Vec<&str> = ps.iter().map(|p| p.name()).collect();
    assert_eq!(names, vec!["blackhole", "hosts", "cache", "FastForward"]);
    let mut c = config(&["hosts", "cache"]);
    c.hosts.as_mut().unwrap().enabled = false;
    c.cache = None;
    assert!(create_plugins(c).is_empty());
}

#[test]
fn bad_upstream_fails_plugin_creation() {
    let mut c = config(&["fast_forward"]);
    c.fast_forward = Some(FastForward { upstreams: vec!["1.1.1.1".to_string()], strategy: ForwardStrategy::Fastest });
    assert_eq!(forward_setup_error(&c), Some(ForwardError::UnsupportedUpstream));
    c.pipeline.clear();
    assert_eq!(forward_setup_error(&c), None);
    let mut c2 = config(&["hosts"]);
    c2.fast_forward = Some(FastForward { upstreams: vec![], strategy: ForwardStrategy::Fastest });
    assert_eq!(forward_setup_error(&c2), None);
    assert_eq!(create_plugins(c2).len(), 1);
}

#[test]
fn hosts_answer_ends_the_run() {
    let mut h = PipelineHandler::new(config(&["blackhole", "hosts", "fast_forward"]));
    let mut forwards = 0;
    match run(&mut h, "home.local.", RECORD_TYPE_A, &|_| panic!("no forwarding expected"), &mut forwards) {
        Progress::Respond { header, records, .. } => {
            assert_eq!(header.id, 77);
            assert_eq!(header.message_type, MessageType::Response);
            assert!(header.recursion_desired);
            assert_eq!(header.response_code, RCODE_NO_ERROR);
            assert_eq!(records.len(), 1);
            assert!(matches!(records[0].data, RecordData::A(0xc0a8_010a)));
        }
        _ => panic!("expected a response"),
    }
}

#[test]
fn blocked_name_is_refused() {
    let mut h = PipelineHandler::new(config(&["blackhole", "hosts", "fast_forward"]));
    let mut forwards = 0;
    match run(&mut h, "ads.example.", RECORD_TYPE_A, &|_| panic!("no forwarding expected"), &mut forwards) {
        Progress::Respond { header, records, .. } => {
            assert_eq!(header.response_code, RCODE_REFUSED);
            assert!(records.is_empty());
        }
        _ => panic!("expected a response"),
    }
}

#[test]
fn forwarded_answer_is_cached() {
    let mut h = PipelineHandler::new(config(&["cache", "hosts", "fast_forward"]));
    let mut forwards = 0;
    let upstream = |m: &DnsMessage| vec![Some(Ok(vec![a(&m.queries[0].name, 300, 0x0808_0808)]))];
    for _ in 0..2 {
        match run(&mut h, "dns.example.", RECORD_TYPE_A, &upstream, &mut forwards) {
            Progress::Respond { header, records, .. } => {
                assert_eq!(header.response_code, RCODE_NO_ERROR);
                assert_eq!(records.len(), 1);
            }
            _ => panic!("expected a response"),
        }
    }
    // the second answer came from the cache
    assert_eq!(forwards, 1);
}

#[test]
fn upstream_failures_and_empty_answers() {
    let mut h = PipelineHandler::new(config(&["fast_forward"]));
    let mut forwards = 0;
    match run(&mut h, "down.example.", RECORD_TYPE_A, &|_| vec![Some(Err(()))], &mut forwards) {
        Progress::Respond { header, records, .. } => {
            assert_eq!(header.response_code, RCODE_SERV_FAIL);
            assert!(records.is_empty());
        }
        _ => panic!("expected a response"),
    }
    match run(&mut h, "none.example.", RECORD_TYPE_A, &|_| vec![None], &mut forwards) {
        Progress::Respond { header, .. } => assert_eq!(header.response_code, RCODE_SERV_FAIL),
        _ => panic!("expected a response"),
    }
    match run(&mut h, "empty.example.", RECORD_TYPE_A, &|_| vec![Some(Ok(vec![]))], &mut forwards) {
        Progress::Respond { header, records, .. } => {
            assert_eq!(header.response_code, RCODE_NX_DOMAIN);
            assert!(records.is_empty());
        }
        _ => panic!("expected a response"),
    }
}

fn handler_with_rules(rules: Vec<ArbitraryRule>, forward: bool) -> PipelineHandler {
    let mut plugins = vec![PipelinePlugin::Arbitrary(ArbitraryPlugin::new(Arbitrary { enabled: true, rules }))];
    let mut h = PipelineHandler::new(config(if forward { &["fast_forward"] } else { &[] }));
    plugins.append(&mut h.plugins);
    h.plugins = plugins;
    h
}

fn rule(domain: &str, qtype: &str, value: &str) -> ArbitraryRule {
    ArbitraryRule { domain: domain.to_string(), qtype: qtype.to_string(), value: value.to_string(), ttl: 60 }
}

#[test]
fn alias_is_chased_through_hops() {
    let mut h = handler_with_rules(
        vec![rule("www.example.", "CNAME", "web.example."), rule("web.example.", "A", "10.9.8.7")],
        true,
    );
    let mut forwards = 0;
    match run(&mut h, "www.example.", RECORD_TYPE_A, &|_| panic!("no forwarding expected"), &mut forwards) {
        Progress::Respond { header, records, .. } => {
            assert_eq!(header.response_code, RCODE_NO_ERROR);
            assert_eq!(records.len(), 2);
            assert_eq!(records[0].record_type(), RECORD_TYPE_CNAME);
            assert_eq!(records[1].name, "web.example.");
            assert!(matches!(records[1].data, RecordData::A(0x0a09_0807)));
        }
        _ => panic!("expected a response"),
    }
}

#[test]
fn alias_target_is_forwarded() {
    let mut h = handler_with_rules(vec![rule("www.example.", "CNAME", "cdn.example.")], true);
    let mut forwards = 0;
    let upstream = |m: &DnsMessage| {
        assert_eq!(m.queries[0].name, "cdn.example.");
        vec![Some(Ok(vec![a("cdn.example.", 20, 5)]))]
    };
    match run(&mut h, "www.example.", RECORD_TYPE_A, &upstream, &mut forwards) {
        Progress::Respond { records, .. } => {
            assert_eq!(records.len(), 2);
            assert!(matches!(&records[0].data, RecordData::Cname(t) if t == "cdn.example."));
        }
        _ => panic!("expected a response"),
    }
    assert_eq!(forwards, 1);
}

#[test]
fn answer_holding_its_target_is_not_chased() {
    let mut h = PipelineHandler::new(config(&["fast_forward"]));
    let mut forwards = 0;
    let upstream = |_: &DnsMessage| vec![Some(Ok(vec![cname("www.example.", "web.example."), a("web.example.", 20, 5)]))];
    match run(&mut h, "www.example.", RECORD_TYPE_A, &upstream, &mut forwards) {
        Progress::Respond { records, .. } => assert_eq!(records.len(), 2),
        _ => panic!("expected a response"),
    }
    assert_eq!(forwards, 1);
}

#[test]
fn alias_loop_gives_up_after_ten_hops() {
    let mut h = handler_with_rules(
        vec![rule("a.example.", "CNAME", "b.example."), rule("b.example.", "CNAME", "a.example.")],
        false,
    );
    let mut forwards = 0;
    assert!(matches!(run(&mut h, "a.example.", RECORD_TYPE_A, &|_| vec![None], &mut forwards), Progress::GiveUp));
    assert_eq!(MAX_CNAME_HOPS, 10);
}

#[test]
fn unanswered_query_gives_up() {
    let mut h = PipelineHandler::new(config(&["blackhole"]));
    let mut forwards = 0;
    assert!(matches!(run(&mut h, "free.example.", RECORD_TYPE_A, &|_| vec![None], &mut forwards), Progress::GiveUp));
    let mut empty = PipelineHandler::new(config(&[]));
    assert!(matches!(run(&mut empty, "x.", RECORD_TYPE_A, &|_| vec![None], &mut forwards), Progress::GiveUp));
}

#[test]
fn step_on_a_message_without_question_fails() {
    let mut h = PipelineHandler::new(config(&["hosts"]));
    let mut r = PipelineRun::start(header(1), DnsQuery::query("x.".to_string(), 1));
    r.message.queries.clear();
    assert!(matches!(h.step(&mut r), Progress::Fail));
}

#[test]
fn first_valid_upstream_reply_answers() {
    let mut h = PipelineHandler::new(config(&["fast_forward"]));
    let mut forwards = 0;
    let upstream = |_: &DnsMessage| {
        vec![Some(Err(())), None, Some(Ok(vec![a("ok.example.", 20, 9)])), Some(Ok(vec![a("ok.example.", 20, 10)]))]
    };
    match run(&mut h, "ok.example.", RECORD_TYPE_A, &upstream, &mut forwards) {
        Progress::Respond { header, records, store } => {
            assert_eq!(header.response_code, RCODE_NO_ERROR);
            assert_eq!(records.len(), 1);
            assert!(matches!(records[0].data, RecordData::A(9)));
            assert!(store);
        }
        _ => panic!("expected a response"),
    }
    match run(&mut h, "none.example.", RECORD_TYPE_A, &|_| vec![], &mut forwards) {
        Progress::Respond { header, .. } => assert_eq!(header.response_code, RCODE_SERV_FAIL),
        _ => panic!("expected a response"),
    }
}

#[test]
fn cache_with_unordered_bounds_is_created_and_serves_empty_answers() {
    let mut c = config(&["cache", "fast_forward"]);
    c.cache.as_mut().unwrap().min_ttl = 100;
    c.cache.as_mut().unwrap().max_ttl = 10;
    let mut h = PipelineHandler::new(c);
    assert!(!h.first_cache_bounds_ordered());
    let mut forwards = 0;
    match run(&mut h, "empty.example.", RECORD_TYPE_A, &|_| vec![Some(Ok(vec![]))], &mut forwards) {
        Progress::Respond { header, records, store } => {
            assert_eq!(header.response_code, RCODE_NX_DOMAIN);
            assert!(records.is_empty());
            assert!(store);
        }
        _ => panic!("expected a response"),
    }
}

#[test]
fn stored_answer_is_kept_and_served_from_the_cache() {
    let mut h = PipelineHandler::new(config(&["cache", "fast_forward"]));
    assert!(h.first_cache_bounds_ordered());
    h.store_cache(&DnsQuery::query("kept.example.".to_string(), RECORD_TYPE_A), &vec![a("kept.example.", 300, 4)]);
    let mut forwards = 0;
    match run(&mut h, "KEPT.example.", RECORD_TYPE_A, &|_| panic!("no forwarding expected"), &mut forwards) {
        Progress::Respond { records, store, .. } => {
            assert_eq!(records.len(), 1);
            assert!(!store);
        }
        _ => panic!("expected a response"),
    }
}
