//! Configuration of the plugin pipeline: the global settings, the order of
//! the plugins and each plugin's settings.
use vstd::prelude::*;

verus! {

/// The values of a list of strings.
pub open spec fn strings_view(v: Seq<String>) -> Seq<Seq<char>> {
    v.map_values(|s: String| s@)
}

/// A copy of a list of strings.
pub fn copy_strings(v: &Vec<String>) -> (r: Vec<String>)
    ensures
        strings_view(r@) == strings_view(v@),
{
    let mut out: Vec<String> = Vec::new();
    let mut i: usize = 0;
    while i < v.len()
        invariant
            i <= v.len(),
            strings_view(out@) == strings_view(v@).take(i as int),
        decreases v.len() - i,
    {
        let ghost prev = out@;
        let s = v[i].clone();
        out.push(s);
        assert(strings_view(out@) =~= strings_view(prev).push(s@));
        i = i + 1;
        assert(strings_view(out@) =~= strings_view(v@).take(i as int));
    }
    assert(strings_view(v@).take(v@.len() as int) =~= strings_view(v@));
    out
}

/// Top-level configuration: the whole configuration file.
#[derive(Debug)]
pub struct Config {
    pub global: Global,
    /// Plugin names, in the order in which requests pass through them.
    pub pipeline: Vec<String>,
    pub client_limiter: ClientLimiter,
    pub cache: Option<Cache>,
    pub hosts: Option<Hosts>,
    pub blackhole: Option<Blackhole>,
    pub redirect: Option<Redirect>,
    pub prefer_ipv4: Option<PreferIpv4>,
    pub ecs: Option<Ecs>,
    pub padding: Option<Padding>,
    pub bufsize: Option<Bufsize>,
    pub ttl: Option<Ttl>,
    pub fast_forward: Option<FastForward>,
    /// Settings of plugins that the pipeline does not enable; default when absent.
    pub arbitrary: Arbitrary,
    pub reverse_lookup: ReverseLookup,
    pub prefer_ipv6: PreferIpv6,
}

impl Config {
    /// A copy of this configuration.
    pub fn duplicate(&self) -> (r: Config)
        ensures
            strings_view(r.pipeline@) == strings_view(self.pipeline@),
            r.cache is Some == self.cache is Some,
            r.cache is Some ==> r.cache->0@ == self.cache->0@,
            r.hosts is Some == self.hosts is Some,
            r.hosts is Some ==> r.hosts->0@ == self.hosts->0@,
            r.blackhole is Some == self.blackhole is Some,
            r.blackhole is Some ==> r.blackhole->0@ == self.blackhole->0@,
            r.fast_forward is Some == self.fast_forward is Some,
            r.fast_forward is Some ==> r.fast_forward->0@ == self.fast_forward->0@,
    {
        Config {
            global: self.global.clone(),
            pipeline: copy_strings(&self.pipeline),
            client_limiter: self.client_limiter.clone(),
            cache: match &self.cache {
                Some(c) => Some(c.duplicate()),
                None => None,
            },
            hosts: match &self.hosts {
                Some(h) => Some(h.duplicate()),
                None => None,
            },
            blackhole: match &self.blackhole {
                Some(b) => Some(b.duplicate()),
                None => None,
            },
            redirect: self.redirect.clone(),
            prefer_ipv4: self.prefer_ipv4.clone(),
            ecs: self.ecs.clone(),
            padding: self.padding.clone(),
            bufsize: self.bufsize.clone(),
            ttl: self.ttl.clone(),
            fast_forward: match &self.fast_forward {
                Some(f) => Some(f.duplicate()),
                None => None,
            },
            arbitrary: self.arbitrary.clone(),
            reverse_lookup: self.reverse_lookup.clone(),
            prefer_ipv6: self.prefer_ipv6.clone(),
        }
    }
}

/// Global settings.
#[derive(Debug, Clone)]
pub struct Global {
    pub listen_address: String,
    pub log_level: LogLevel,
}

/// Log level.
#[derive(Debug, Clone, Copy, PartialEq, Eq, Structural)]
pub enum LogLevel {
    Trace,
    Debug,
    Info,
    Warn,
    Error,
}

/// fast_forward: forwarding to upstream servers.
#[derive(Debug)]
pub struct FastForward {
    /// Upstreams: `https://...` (DNS over HTTPS), `tls://host` (DNS over TLS)
    /// or `address:53` (plain UDP).
    pub upstreams: Vec<String>,
    pub strategy: ForwardStrategy,
}

/// The mathematical value of a [`FastForward`] configuration.
pub struct FastForwardView {
    pub upstreams: Seq<Seq<char>>,
    pub strategy: ForwardStrategy,
}

impl View for FastForward {
    type V = FastForwardView;

    open spec fn view(&self) -> FastForwardView {
        FastForwardView { upstreams: strings_view(self.upstreams@), strategy: self.strategy }
    }
}

impl FastForward {
    /// A copy of this configuration.
    pub fn duplicate(&self) -> (r: FastForward)
        ensures
            r@ == self@,
    {
        FastForward { upstreams: copy_strings(&self.upstreams), strategy: self.strategy }
    }
}

/// Forwarding strategy.
#[derive(Debug, Clone, Copy, PartialEq, Eq, Structural)]
pub enum ForwardStrategy {
    Random,
    RoundRobin,
    Fastest,
}

/// cache: the answer cache.
#[derive(Debug)]
pub struct Cache {
    pub enabled: bool,
    pub backend: CacheBackend,
    /// Capacity of the cache, in entries.
    pub max_size: u64,
    pub ttl_override: bool,
    /// Lower bound of a cached answer's lifetime, in seconds.
    pub min_ttl: u32,
    /// Upper bound of a cached answer's lifetime, in seconds.
    pub max_ttl: u32,
    pub redis: Option<RedisConfig>,
}

/// The mathematical value of a [`Cache`] configuration.
pub struct CacheView {
    pub enabled: bool,
    pub backend: CacheBackend,
    pub max_size: u64,
    pub ttl_override: bool,
    pub min_ttl: u32,
    pub max_ttl: u32,
    pub redis_url: Option<Seq<char>>,
}

impl View for Cache {
    type V = CacheView;

    open spec fn view(&self) -> CacheView {
        CacheView {
            enabled: self.enabled,
            backend: self.backend,
            max_size: self.max_size,
            ttl_override: self.ttl_override,
            min_ttl: self.min_ttl,
            max_ttl: self.max_ttl,
            redis_url: match self.redis {
                Some(r) => Some(r.url@),
                None => None,
            },
        }
    }
}

impl Cache {
    /// A copy of this configuration.
    pub fn duplicate(&self) -> (r: Cache)
        ensures
            r@ == self@,
    {
        let redis = match &self.redis {
            Some(r) => Some(RedisConfig { url: r.url.clone() }),
            None => None,
        };
        Cache {
            enabled: self.enabled,
            backend: self.backend,
            max_size: self.max_size,
            ttl_override: self.ttl_override,
            min_ttl: self.min_ttl,
            max_ttl: self.max_ttl,
            redis,
        }
    }
}

/// Cache backend.
#[derive(Debug, Clone, Copy, PartialEq, Eq, Structural)]
pub enum CacheBackend {
    Memory,
    Redis,
}

/// Redis settings.
#[derive(Debug)]
pub struct RedisConfig {
    pub url: String,
}

/// _prefer_ipv4: IPv4 preference.
#[derive(Debug, Clone)]
pub struct PreferIpv4 {
    pub enabled: bool,
}

/// _prefer_ipv6: IPv6 preference.
#[derive(Debug, Clone)]
pub struct PreferIpv6 {
    pub enabled: bool,
}

impl PreferIpv6 {
    /// The setting used when the file has none: disabled.
    pub fn default_value() -> (r: PreferIpv6)
        ensures
            !r.enabled,
    {
        PreferIpv6 { enabled: false }
    }
}

/// ecs: EDNS Client Subnet.
#[derive(Debug, Clone)]
pub struct Ecs {
    pub enabled: bool,
    pub strategy: EcsStrategy,
    pub preset_ip: Option<String>,
    pub subnet_mask_ipv4: u8,
    pub subnet_mask_ipv6: u8,
}

/// How the client subnet is chosen.
#[derive(Debug, Clone, Copy, PartialEq, Eq, Structural)]
pub enum EcsStrategy {
    Auto,
    Preset,
}

/// hosts: static address records.
#[derive(Debug)]
pub struct Hosts {
    pub enabled: bool,
    /// Addresses by domain name (empty when absent); no domain name occurs twice.
    pub records: Vec<(String, HostRecord)>,
}

/// One address, or a list of addresses, of a hosts entry.
#[derive(Debug)]
pub enum HostRecord {
    Single(String),
    Multiple(Vec<String>),
}

/// The mathematical value of a [`HostRecord`].
pub enum HostRecordView {
    Single(Seq<char>),
    Multiple(Seq<Seq<char>>),
}

impl View for HostRecord {
    type V = HostRecordView;

    open spec fn view(&self) -> HostRecordView {
        match self {
            HostRecord::Single(s) => HostRecordView::Single(s@),
            HostRecord::Multiple(v) => HostRecordView::Multiple(strings_view(v@)),
        }
    }
}

impl HostRecordView {
    /// The address texts of the entry, in order.
    pub open spec fn ips(self) -> Seq<Seq<char>> {
        match self {
            HostRecordView::Single(s) => seq![s],
            HostRecordView::Multiple(v) => v,
        }
    }
}

impl HostRecord {
    /// A copy of this entry.
    pub fn duplicate(&self) -> (r: HostRecord)
        ensures
            r@ == self@,
    {
        match self {
            HostRecord::Single(s) => HostRecord::Single(s.clone()),
            HostRecord::Multiple(v) => HostRecord::Multiple(copy_strings(v)),
        }
    }

    /// The address texts of the entry, in order.
    pub fn ips(&self) -> (r: Vec<String>)
        ensures
            strings_view(r@) == self@.ips(),
    {
        match self {
            HostRecord::Single(s) => {
                let mut v: Vec<String> = Vec::new();
                let t = s.clone();
                v.push(t);
                assert(strings_view(v@) =~= seq![s@]);
                v
            },
            HostRecord::Multiple(ips) => copy_strings(ips),
        }
    }
}

/// The values of the entries of a hosts table.
pub open spec fn host_entries_view(v: Seq<(String, HostRecord)>) -> Seq<(Seq<char>, HostRecordView)> {
    v.map_values(|e: (String, HostRecord)| (e.0@, e.1@))
}

/// The mathematical value of a [`Hosts`] configuration.
pub struct HostsView {
    pub enabled: bool,
    pub records: Seq<(Seq<char>, HostRecordView)>,
}

impl View for Hosts {
    type V = HostsView;

    open spec fn view(&self) -> HostsView {
        HostsView { enabled: self.enabled, records: host_entries_view(self.records@) }
    }
}

impl Hosts {
    /// A copy of this configuration.
    pub fn duplicate(&self) -> (r: Hosts)
        ensures
            r@ == self@,
    {
        let mut out: Vec<(String, HostRecord)> = Vec::new();
        let mut i: usize = 0;
        while i < self.records.len()
            invariant
                i <= self.records.len(),
                host_entries_view(out@) == host_entries_view(self.records@).take(i as int),
            decreases self.records.len() - i,
        {
            let ghost prev = out@;
            let e = (self.records[i].0.clone(), self.records[i].1.duplicate());
            out.push(e);
            assert(host_entries_view(out@) =~= host_entries_view(prev).push((e.0@, e.1@)));
            i = i + 1;
            assert(host_entries_view(out@) =~= host_entries_view(self.records@).take(i as int));
        }
        assert(host_entries_view(self.records@).take(self.records@.len() as int)
            =~= host_entries_view(self.records@));
        Hosts { enabled: self.enabled, records: out }
    }
}

/// blackhole: blocking of listed domains.
#[derive(Debug)]
pub struct Blackhole {
    pub enabled: bool,
    pub strategy: BlackholeStrategy,
    pub custom_ips: Option<Vec<String>>,
    /// Blocked domain names, compared with the query name as written (empty when absent).
    pub domains: Vec<String>,
}

/// The mathematical value of a [`Blackhole`] configuration.
pub struct BlackholeView {
    pub enabled: bool,
    pub strategy: BlackholeStrategy,
    pub custom_ips: Option<Seq<Seq<char>>>,
    pub domains: Seq<Seq<char>>,
}

impl View for Blackhole {
    type V = BlackholeView;

    open spec fn view(&self) -> BlackholeView {
        BlackholeView {
            enabled: self.enabled,
            strategy: self.strategy,
            custom_ips: match self.custom_ips {
                Some(v) => Some(strings_view(v@)),
                None => None,
            },
            domains: strings_view(self.domains@),
        }
    }
}

impl Blackhole {
    /// A copy of this configuration.
    pub fn duplicate(&self) -> (r: Blackhole)
        ensures
            r@ == self@,
    {
        let custom_ips = match &self.custom_ips {
            Some(v) => Some(copy_strings(v)),
            None => None,
        };
        Blackhole {
            enabled: self.enabled,
            strategy: self.strategy,
            custom_ips,
            domains: copy_strings(&self.domains),
        }
    }
}

/// How a blocked query is answered.
#[derive(Debug, Clone, Copy, PartialEq, Eq, Structural)]
pub enum BlackholeStrategy {
    Drop,
    Empty,
    CustomIp,
}

/// ttl: TTL rewriting.
#[derive(Debug, Clone)]
pub struct Ttl {
    pub enabled: bool,
    /// TTL by domain name; no domain name occurs twice.
    pub rules: Vec<(String, u32)>,
}

/// redirect: request redirection.
#[derive(Debug, Clone)]
pub struct Redirect {
    pub enabled: bool,
    /// Target by domain name; no domain name occurs twice.
    pub rules: Vec<(String, String)>,
}

/// padding: EDNS(0) padding.
#[derive(Debug, Clone)]
pub struct Padding {
    pub enabled: bool,
    pub block_size: u16,
}

/// bufsize: EDNS(0) UDP buffer size.
#[derive(Debug, Clone)]
pub struct Bufsize {
    pub enabled: bool,
    pub size: u16,
}

/// arbitrary: custom answers.
#[derive(Debug, Clone)]
pub struct Arbitrary {
    pub enabled: bool,
    /// Rules, in order (empty when absent).
    pub rules: Vec<ArbitraryRule>,
}

/// One custom answer: a domain, a record type mnemonic, a value and a TTL.
#[derive(Debug, Clone)]
pub struct ArbitraryRule {
    pub domain: String,
    pub qtype: String,
    pub value: String,
    pub ttl: u32,
}

/// The mathematical value of an [`ArbitraryRule`].
pub struct ArbitraryRuleView {
    pub domain: Seq<char>,
    pub qtype: Seq<char>,
    pub value: Seq<char>,
    pub ttl: u32,
}

impl View for ArbitraryRule {
    type V = ArbitraryRuleView;

    open spec fn view(&self) -> ArbitraryRuleView {
        ArbitraryRuleView { domain: self.domain@, qtype: self.qtype@, value: self.value@, ttl: self.ttl }
    }
}

/// The values of a list of rules.
pub open spec fn rules_view(v: Seq<ArbitraryRule>) -> Seq<ArbitraryRuleView> {
    v.map_values(|r: ArbitraryRule| r@)
}

/// The mathematical value of an [`Arbitrary`] configuration.
pub struct ArbitraryView {
    pub enabled: bool,
    pub rules: Seq<ArbitraryRuleView>,
}

impl View for Arbitrary {
    type V = ArbitraryView;

    open spec fn view(&self) -> ArbitraryView {
        ArbitraryView { enabled: self.enabled, rules: rules_view(self.rules@) }
    }
}

impl Arbitrary {
    /// The setting used when the file has none: disabled, with no rules.
    pub fn default_value() -> (r: Arbitrary)
        ensures
            !r.enabled,
            r.rules@.len() == 0,
    {
        Arbitrary { enabled: false, rules: Vec::new() }
    }
}

/// reverse_lookup: reverse lookups.
#[derive(Debug, Clone)]
pub struct ReverseLookup {
    pub enabled: bool,
    pub http_api: HttpApiConfig,
    pub ptr_lookup: PtrLookupConfig,
}

impl ReverseLookup {
    /// The setting used when the file has none: everything disabled.
    pub fn default_value() -> (r: ReverseLookup)
        ensures
            !r.enabled,
            !r.http_api.enabled,
            r.http_api.listen_address@.len() == 0,
            !r.ptr_lookup.enabled,
    {
        ReverseLookup {
            enabled: false,
            http_api: HttpApiConfig { enabled: false, listen_address: String::new() },
            ptr_lookup: PtrLookupConfig { enabled: false },
        }
    }
}

/// HTTP API of reverse lookups.
#[derive(Debug, Clone)]
pub struct HttpApiConfig {
    pub enabled: bool,
    pub listen_address: String,
}

/// PTR lookups of reverse lookups.
#[derive(Debug, Clone)]
pub struct PtrLookupConfig {
    pub enabled: bool,
}

/// client_limiter: per-client rate limits.
#[derive(Debug, Clone)]
pub struct ClientLimiter {
    pub enabled: bool,
    pub max_qps: u32,
    pub burst_size: u32,
}

} // verus!
