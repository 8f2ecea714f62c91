//! hosts: answers address queries from static host entries.
use vstd::prelude::*;
use crate::config::new_config::{Hosts, HostRecordView, HostsView, strings_view};
use crate::dns::{DNS_CLASS_IN, DnsMessage, DnsMessageView, DnsRecord, DnsRecordView, RecordData, RecordDataView};
use crate::names::ends_with_char;
use crate::plugins::plugin::{Plugin, PluginAction, PluginActionView, outcome_view};
use crate::plugins::table::{RecordTable, table_answer};
use crate::textparse::{parse_ipv4, parse_ipv6, parse_name, spec_name_from_str, spec_parse_ipv4, spec_parse_ipv6};

verus! {

/// TTL of the records that hosts entries produce, in seconds.
pub const DEFAULT_HOSTS_TTL: u32 = 300;

/// The record that the address text `ip` produces for owner `name`: an A
/// record when it is an IPv4 address, else an AAAA record when it is an IPv6
/// address, else none.
pub open spec fn ip_record(name: Seq<char>, ip: Seq<char>) -> Option<DnsRecordView> {
    match spec_parse_ipv4(ip) {
        Some(a) => Some(DnsRecordView { name, dns_class: DNS_CLASS_IN, ttl: DEFAULT_HOSTS_TTL, data: RecordDataView::A(a) }),
        None => match spec_parse_ipv6(ip) {
            Some(b) => Some(DnsRecordView { name, dns_class: DNS_CLASS_IN, ttl: DEFAULT_HOSTS_TTL, data: RecordDataView::Aaaa(b) }),
            None => None,
        },
    }
}

/// The records that a list of address texts produces for owner `name`, in order.
pub open spec fn ips_records(name: Seq<char>, ips: Seq<Seq<char>>) -> Seq<DnsRecordView>
    decreases ips.len(),
{
    if ips.len() == 0 {
        Seq::empty()
    } else {
        let rest = ips_records(name, ips.drop_last());
        match ip_record(name, ips.last()) {
            Some(r) => rest.push(r),
            None => rest,
        }
    }
}

/// The records that one hosts entry produces: none when the domain is not a
/// valid name, else one per valid address.
pub open spec fn entry_records(domain: Seq<char>, hr: HostRecordView) -> Seq<DnsRecordView> {
    match spec_name_from_str(domain) {
        Some(n) => ips_records(n, hr.ips()),
        None => Seq::empty(),
    }
}

/// The records that a list of hosts entries produces, in order.
pub open spec fn hosts_records(entries: Seq<(Seq<char>, HostRecordView)>) -> Seq<DnsRecordView>
    decreases entries.len(),
{
    if entries.len() == 0 {
        Seq::empty()
    } else {
        hosts_records(entries.drop_last()) + entry_records(entries.last().0, entries.last().1)
    }
}

/// Every record that hosts entries produce is an A or AAAA record of the
/// Internet class with TTL 300.
pub proof fn lemma_hosts_records_shape(entries: Seq<(Seq<char>, HostRecordView)>)
    ensures
        forall|i: int| 0 <= i < hosts_records(entries).len() ==> {
            let r = #[trigger] hosts_records(entries)[i];
            &&& r.ttl == DEFAULT_HOSTS_TTL
            &&& r.dns_class == DNS_CLASS_IN
            &&& (r.record_type() == crate::dns::RECORD_TYPE_A || r.record_type() == crate::dns::RECORD_TYPE_AAAA)
        },
    decreases entries.len(),
{
    if entries.len() > 0 {
        lemma_hosts_records_shape(entries.drop_last());
        let e = entries.last();
        match spec_name_from_str(e.0) {
            Some(n) => lemma_ips_records_shape(n, e.1.ips()),
            None => {},
        }
        let a = hosts_records(entries.drop_last());
        let b = entry_records(e.0, e.1);
        assert forall|i: int| 0 <= i < (a + b).len() implies {
            let r = #[trigger] (a + b)[i];
            &&& r.ttl == DEFAULT_HOSTS_TTL
            &&& r.dns_class == DNS_CLASS_IN
            &&& (r.record_type() == crate::dns::RECORD_TYPE_A || r.record_type() == crate::dns::RECORD_TYPE_AAAA)
        } by {
            if i < a.len() {
                assert((a + b)[i] == a[i]);
            } else {
                assert((a + b)[i] == b[i - a.len()]);
            }
        }
    }
}

proof fn lemma_ips_records_shape(name: Seq<char>, ips: Seq<Seq<char>>)
    ensures
        forall|i: int| 0 <= i < ips_records(name, ips).len() ==> {
            let r = #[trigger] ips_records(name, ips)[i];
            &&& r.ttl == DEFAULT_HOSTS_TTL
            &&& r.dns_class == DNS_CLASS_IN
            &&& r.name == name
            &&& (r.record_type() == crate::dns::RECORD_TYPE_A || r.record_type() == crate::dns::RECORD_TYPE_AAAA)
        },
    decreases ips.len(),
{
    if ips.len() > 0 {
        lemma_ips_records_shape(name, ips.drop_last());
    }
}

/// Every domain of the entries is fully qualified (ends with a dot).
pub open spec fn all_fully_qualified(entries: Seq<(Seq<char>, HostRecordView)>) -> bool {
    forall|i: int| 0 <= i < entries.len() ==> (#[trigger] entries[i]).0.len() > 0 && entries[i].0.last() == '.'
}

/// The answer of a table holding `records` to `request`: the records of the
/// first question's name and type when there are some; otherwise the request
/// goes on unchanged (also when it has no question).
pub open spec fn lookup_action(records: Seq<DnsRecordView>, request: DnsMessageView) -> Result<PluginActionView, u16> {
    if request.queries.len() == 0 {
        Ok(PluginActionView::Continue(request))
    } else {
        match table_answer(records, request.queries[0].name, request.queries[0].query_type) {
            Some(v) => Ok(PluginActionView::Response(v)),
            None => Ok(PluginActionView::Continue(request)),
        }
    }
}

/// The hosts plugin: its configuration and the table of the records it produces.
pub struct HostsPlugin {
    config: Hosts,
    host_map: RecordTable,
}

impl HostsPlugin {
    /// The configuration the plugin was made from.
    pub closed spec fn config_view(&self) -> HostsView {
        self.config@
    }

    /// Every record the plugin holds, in the order of the entries and their addresses.
    pub closed spec fn records(&self) -> Seq<DnsRecordView> {
        self.host_map@
    }

    /// The plugin's invariant.
    pub closed spec fn wf(&self) -> bool {
        self.host_map.wf()
    }

    /// Builds the table from the entries: for each entry, in order, the domain
    /// is parsed as a name (an invalid one is skipped) and each address gives
    /// an A or AAAA record with TTL 300 (an invalid one is skipped).  Every
    /// domain must end with a dot.
    pub fn new(config: Hosts) -> (r: HostsPlugin)
        requires
            all_fully_qualified(config@.records),
        ensures
            r.wf(),
            r.config_view() == config@,
            r.records() == hosts_records(config@.records),
    {
        let mut host_map = RecordTable::new();
        let mut i: usize = 0;
        while i < config.records.len()
            invariant
                i <= config.records.len(),
                host_map.wf(),
                all_fully_qualified(config@.records),
                host_map@ == hosts_records(config@.records.take(i as int)),
            decreases config.records.len() - i,
        {
            let ghost entries = config@.records;
            assert(entries.take(i + 1).drop_last() =~= entries.take(i as int));
            let domain_str = &config.records[i].0;
            let host_record = &config.records[i].1;
            assert(entries[i as int] == (domain_str@, host_record@));
            let fqdn = ends_with_char(domain_str, '.');
            assert(fqdn) by {
                assert(entries[i as int].0.len() > 0 && entries[i as int].0.last() == '.');
            }
            let parsed = parse_name(domain_str);
            match parsed {
                None => {
                    assert(entry_records(domain_str@, host_record@) =~= Seq::<DnsRecordView>::empty());
                    assert(host_map@ =~= host_map@ + Seq::<DnsRecordView>::empty());
                },
                Some(name) => {
                    let ips = host_record.ips();
                    let ghost base = host_map@;
                    let mut k: usize = 0;
                    while k < ips.len()
                        invariant
                            k <= ips.len(),
                            host_map.wf(),
                            strings_view(ips@) == host_record@.ips(),
                            host_map@ == base + ips_records(name@, strings_view(ips@).take(k as int)),
                        decreases ips.len() - k,
                    {
                        let ghost ipsv = strings_view(ips@);
                        assert(ipsv.take(k + 1).drop_last() =~= ipsv.take(k as int));
                        assert(ipsv[k as int] == ips@[k as int]@);
                        let ip_str = &ips[k];
                        if let Some(v4) = parse_ipv4(ip_str) {
                            let record = DnsRecord::from_rdata(name.clone(), DEFAULT_HOSTS_TTL, RecordData::A(v4));
                            host_map.insert(record);
                            assert(host_map@ =~= base + ips_records(name@, ipsv.take(k + 1)));
                        } else if let Some(v6) = parse_ipv6(ip_str) {
                            let record = DnsRecord::from_rdata(name.clone(), DEFAULT_HOSTS_TTL, RecordData::Aaaa(v6));
                            host_map.insert(record);
                            assert(host_map@ =~= base + ips_records(name@, ipsv.take(k + 1)));
                        } else {
                            assert(ips_records(name@, ipsv.take(k + 1)) == ips_records(name@, ipsv.take(k as int)));
                        }
                        k = k + 1;
                    }
                    assert(strings_view(ips@).take(ips@.len() as int) =~= strings_view(ips@));
                },
            }
            i = i + 1;
        }
        assert(config@.records.take(config.records.len() as int) =~= config@.records);
        HostsPlugin { config, host_map }
    }

    /// Answers the first question from the table: its records when there are
    /// some for the question's name (up to ASCII case) and type; otherwise the
    /// request continues unchanged, as it does when it has no question.
    pub fn handle_request(&self, request: DnsMessage) -> (r: Result<PluginAction, u16>)
        requires
            self.wf(),
        ensures
            outcome_view(r) == lookup_action(self.records(), request@),
    {
        if request.queries.len() == 0 {
            return Ok(PluginAction::Continue(request));
        }
        let found = self.host_map.get(&request.queries[0].name, request.queries[0].query_type);
        match found {
            Some(records) => Ok(PluginAction::Response(records)),
            None => Ok(PluginAction::Continue(request)),
        }
    }
}

impl Plugin for HostsPlugin {
    fn name(&self) -> (r: &'static str)
        ensures
            r@ == "hosts"@,
    {
        "hosts"
    }
}

} // verus!
