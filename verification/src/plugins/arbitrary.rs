//! arbitrary: answers queries from custom rules, falling back to an alias
//! record for address queries.
use vstd::prelude::*;
use crate::config::new_config::{Arbitrary, ArbitraryRuleView, ArbitraryView};
use crate::dns::{
    DNS_CLASS_IN, RECORD_TYPE_A, RECORD_TYPE_AAAA, RECORD_TYPE_CNAME, RECORD_TYPE_TXT, DnsMessage,
    DnsMessageView, DnsRecord, DnsRecordView, RecordData, RecordDataView,
};
use crate::names::{contains_ascii_lowercase, ends_with_char, has_ascii_lowercase};
use crate::plugins::plugin::{Plugin, PluginAction, PluginActionView, outcome_view};
use crate::plugins::table::{RecordTable, table_answer};
use crate::textparse::{
    parse_ipv4, parse_ipv6, parse_name, record_type_from_str, spec_name_from_str, spec_parse_ipv4,
    spec_parse_ipv6, spec_record_type_from_str, spec_to_uppercase, to_uppercase,
};

verus! {

/// Why a rule's value gives no record data.
#[derive(Debug, Clone, Copy, PartialEq, Eq, Structural)]
pub enum RdataError {
    /// The value of an A rule is not an IPv4 address.
    InvalidIpv4,
    /// The value of an AAAA rule is not an IPv6 address.
    InvalidIpv6,
    /// The value of a CNAME rule is not a domain name.
    InvalidCname,
    /// Rules of this record type are not supported.
    UnsupportedType(u16),
}

/// The record data that `value` gives for record type `qtype`: an address for
/// A and AAAA, a name for CNAME, the text itself for TXT; other types are
/// not supported.
pub open spec fn rdata_for(qtype: u16, value: Seq<char>) -> Result<RecordDataView, RdataError> {
    if qtype == RECORD_TYPE_A {
        match spec_parse_ipv4(value) {
            Some(a) => Ok(RecordDataView::A(a)),
            None => Err(RdataError::InvalidIpv4),
        }
    } else if qtype == RECORD_TYPE_AAAA {
        match spec_parse_ipv6(value) {
            Some(a) => Ok(RecordDataView::Aaaa(a)),
            None => Err(RdataError::InvalidIpv6),
        }
    } else if qtype == RECORD_TYPE_CNAME {
        match spec_name_from_str(value) {
            Some(n) => Ok(RecordDataView::Cname(n)),
            None => Err(RdataError::InvalidCname),
        }
    } else if qtype == RECORD_TYPE_TXT {
        Ok(RecordDataView::Txt(value))
    } else {
        Err(RdataError::UnsupportedType(qtype))
    }
}

/// Builds the record data that `value` gives for record type `qtype`.
pub fn build_rdata(qtype: u16, value: &str) -> (r: Result<RecordData, RdataError>)
    ensures
        match r {
            Ok(d) => rdata_for(qtype, value@) == Ok::<RecordDataView, RdataError>(d@),
            Err(e) => rdata_for(qtype, value@) == Err::<RecordDataView, RdataError>(e),
        },
{
    if qtype == RECORD_TYPE_A {
        match parse_ipv4(value) {
            Some(a) => Ok(RecordData::A(a)),
            None => Err(RdataError::InvalidIpv4),
        }
    } else if qtype == RECORD_TYPE_AAAA {
        match parse_ipv6(value) {
            Some(a) => Ok(RecordData::Aaaa(a)),
            None => Err(RdataError::InvalidIpv6),
        }
    } else if qtype == RECORD_TYPE_CNAME {
        match parse_name(value) {
            Some(n) => Ok(RecordData::Cname(n)),
            None => Err(RdataError::InvalidCname),
        }
    } else if qtype == RECORD_TYPE_TXT {
        Ok(RecordData::Txt(value.to_owned()))
    } else {
        Err(RdataError::UnsupportedType(qtype))
    }
}

/// The record type code of a mnemonic in any case: the mnemonic is
/// upper-cased and looked up; an upper-cased text that still holds an ASCII
/// lower-case letter names no type.
pub open spec fn qtype_code(s: Seq<char>) -> Option<u16> {
    let u = spec_to_uppercase(s);
    if has_ascii_lowercase(u) {
        None
    } else {
        spec_record_type_from_str(u)
    }
}

/// Parses a record type mnemonic in any case.
pub fn parse_qtype(s: &str) -> (r: Option<u16>)
    ensures
        r == qtype_code(s@),
{
    let upper = to_uppercase(s);
    if contains_ascii_lowercase(&upper) {
        return None;
    }
    record_type_from_str(&upper)
}

/// The record that a rule gives: its domain must be a name, its type
/// mnemonic a record type and its value valid for that type; the record has
/// the rule's TTL.
pub open spec fn rule_record(rule: ArbitraryRuleView) -> Option<DnsRecordView> {
    match spec_name_from_str(rule.domain) {
        None => None,
        Some(n) => match qtype_code(rule.qtype) {
            None => None,
            Some(t) => match rdata_for(t, rule.value) {
                Ok(d) => Some(DnsRecordView { name: n, dns_class: DNS_CLASS_IN, ttl: rule.ttl, data: d }),
                Err(_) => None,
            },
        },
    }
}

/// The records that a list of rules gives, in order; rules that give none are skipped.
pub open spec fn rules_records(rules: Seq<ArbitraryRuleView>) -> Seq<DnsRecordView>
    decreases rules.len(),
{
    if rules.len() == 0 {
        Seq::empty()
    } else {
        let rest = rules_records(rules.drop_last());
        match rule_record(rules.last()) {
            Some(r) => rest.push(r),
            None => rest,
        }
    }
}

/// Every rule's domain is fully qualified (ends with a dot).
pub open spec fn rules_fully_qualified(rules: Seq<ArbitraryRuleView>) -> bool {
    forall|i: int| 0 <= i < rules.len() ==> (#[trigger] rules[i]).domain.len() > 0 && rules[i].domain.last() == '.'
}

/// The answer of the rules' records to `request`: the records of the first
/// question's name and type; for an A or AAAA question without such records,
/// the alias records of the name; otherwise the request continues unchanged.
pub open spec fn arbitrary_action(records: Seq<DnsRecordView>, request: DnsMessageView) -> Result<PluginActionView, u16> {
    if request.queries.len() == 0 {
        Ok(PluginActionView::Continue(request))
    } else {
        let q = request.queries[0];
        match table_answer(records, q.name, q.query_type) {
            Some(v) => Ok(PluginActionView::Response(v)),
            None => if q.query_type == RECORD_TYPE_A || q.query_type == RECORD_TYPE_AAAA {
                match table_answer(records, q.name, RECORD_TYPE_CNAME) {
                    Some(v) => Ok(PluginActionView::Response(v)),
                    None => Ok(PluginActionView::Continue(request)),
                }
            } else {
                Ok(PluginActionView::Continue(request))
            },
        }
    }
}

/// The arbitrary plugin: its configuration and the table of its rules' records.
pub struct ArbitraryPlugin {
    config: Arbitrary,
    arbitrary_map: RecordTable,
}

impl ArbitraryPlugin {
    /// The configuration the plugin was made from.
    pub closed spec fn config_view(&self) -> ArbitraryView {
        self.config@
    }

    /// Every record the plugin holds, in the order of the rules.
    pub closed spec fn records(&self) -> Seq<DnsRecordView> {
        self.arbitrary_map@
    }

    /// The plugin's invariant.
    pub closed spec fn wf(&self) -> bool {
        self.arbitrary_map.wf()
    }

    /// Builds the table from the rules, in order; a rule whose domain, type or
    /// value is invalid is skipped.  Every rule's domain must end with a dot.
    pub fn new(config: Arbitrary) -> (r: ArbitraryPlugin)
        requires
            rules_fully_qualified(config@.rules),
        ensures
            r.wf(),
            r.config_view() == config@,
            r.records() == rules_records(config@.rules),
    {
        let mut arbitrary_map = RecordTable::new();
        let mut i: usize = 0;
        while i < config.rules.len()
            invariant
                i <= config.rules.len(),
                arbitrary_map.wf(),
                rules_fully_qualified(config@.rules),
                arbitrary_map@ == rules_records(config@.rules.take(i as int)),
            decreases config.rules.len() - i,
        {
            let ghost rules = config@.rules;
            assert(rules.take(i + 1).drop_last() =~= rules.take(i as int));
            let rule = &config.rules[i];
            assert(rules[i as int] == rule@);
            let fqdn = ends_with_char(&rule.domain, '.');
            assert(fqdn) by {
                assert(rules[i as int].domain.len() > 0 && rules[i as int].domain.last() == '.');
            }
            i = i + 1;
            let name = match parse_name(&rule.domain) {
                Some(n) => n,
                None => {
                    continue;
                },
            };
            let qtype = match parse_qtype(&rule.qtype) {
                Some(t) => t,
                None => {
                    continue;
                },
            };
            let rdata = match build_rdata(qtype, &rule.value) {
                Ok(d) => d,
                Err(_) => {
                    continue;
                },
            };
            let record = DnsRecord::from_rdata(name, rule.ttl, rdata);
            arbitrary_map.insert(record);
        }
        assert(config@.rules.take(config.rules.len() as int) =~= config@.rules);
        ArbitraryPlugin { config, arbitrary_map }
    }

    /// Answers the first question from the rules' records, falling back to
    /// the name's alias records for an A or AAAA question.
    pub fn handle_request(&self, request: DnsMessage) -> (r: Result<PluginAction, u16>)
        requires
            self.wf(),
        ensures
            outcome_view(r) == arbitrary_action(self.records(), request@),
    {
        if request.queries.len() == 0 {
            return Ok(PluginAction::Continue(request));
        }
        let qtype = request.queries[0].query_type;
        if let Some(records) = self.arbitrary_map.get(&request.queries[0].name, qtype) {
            return Ok(PluginAction::Response(records));
        }
        if qtype == RECORD_TYPE_A || qtype == RECORD_TYPE_AAAA {
            if let Some(records) = self.arbitrary_map.get(&request.queries[0].name, RECORD_TYPE_CNAME) {
                return Ok(PluginAction::Response(records));
            }
        }
        Ok(PluginAction::Continue(request))
    }
}

impl Plugin for ArbitraryPlugin {
    fn name(&self) -> (r: &'static str)
        ensures
            r@ == "arbitrary"@,
    {
        "arbitrary"
    }
}

} // verus!
