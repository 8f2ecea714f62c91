//! The record-table server: local records by name, with alias chasing, and
//! forwarding of what the table cannot answer.
use vstd::prelude::*;
use crate::config::config::Config;
use crate::dns::{
    DNS_CLASS_IN, OPCODE_QUERY, RCODE_NOT_IMP, RCODE_NO_ERROR, RCODE_NX_DOMAIN, RCODE_SERV_FAIL,
    RECORD_TYPE_A, RECORD_TYPE_AAAA, DnsQuery, DnsRecord, DnsRecordView, Header, MessageType, RecordData,
    RecordDataView, records_view, response_header_for,
};
use crate::names::{ascii_lower, lower_chars};
use crate::plugins::fast_forward::{first_success, first_valid_reply, lemma_first_success_is_earliest, replies_view};
use crate::textparse::{
    parse_ipv4, parse_ipv6, parse_name_ascii, parse_name_utf8, spec_name_from_ascii, spec_name_from_utf8,
    spec_parse_ipv4, spec_parse_ipv6, spec_to_uppercase, to_uppercase,
};

verus! {

/// TTL of the records answered from the local table, in seconds.
pub const LOCAL_RECORD_TTL: u32 = 3600;

/// How many records an alias chain may reach.
pub const LOCAL_RECURSION_LIMIT: u32 = 10;

/// Why the configuration's records cannot be loaded.
#[derive(Debug, Clone, Copy, PartialEq, Eq, Structural)]
pub enum LoadError {
    /// A record's domain is not a valid name.
    InvalidName,
    /// The value of an A record is not an IPv4 address.
    InvalidIpv4,
    /// The value of an AAAA record is not an IPv6 address.
    InvalidIpv6,
    /// The value of a CNAME record is not a domain name.
    InvalidCname,
    /// No upstream server is configured.
    NoUpstreams,
}

/// Why the local table cannot answer a question.
#[derive(Debug, Clone, Copy, PartialEq, Eq, Structural)]
pub enum LocalError {
    /// The alias chain reached the limit.
    RecursionLimit,
    /// A name of the chain has no record.
    NotFound,
    /// The chain ends in a record of another type than the question's.
    TypeMismatch,
}

/// The data that a record's type mnemonic and value give: an IPv4 address
/// for `A`, an IPv6 address for `AAAA`, a name for `CNAME` (any case); None
/// for other types, which are skipped.
pub open spec fn config_record_data(record_type: Seq<char>, value: Seq<char>) -> Option<Result<RecordDataView, LoadError>> {
    let t = spec_to_uppercase(record_type);
    if t == "A"@ {
        Some(match spec_parse_ipv4(value) {
            Some(a) => Ok(RecordDataView::A(a)),
            None => Err(LoadError::InvalidIpv4),
        })
    } else if t == "AAAA"@ {
        Some(match spec_parse_ipv6(value) {
            Some(a) => Ok(RecordDataView::Aaaa(a)),
            None => Err(LoadError::InvalidIpv6),
        })
    } else if t == "CNAME"@ {
        Some(match spec_name_from_ascii(value) {
            Some(n) => Ok(RecordDataView::Cname(n)),
            None => Err(LoadError::InvalidCname),
        })
    } else {
        None
    }
}

/// The local table that the configuration's records give, keyed by the
/// lower-cased name: records in order, a later one for the same name
/// replacing an earlier one; the first invalid record is the error.
pub open spec fn load_table(entries: Seq<(Seq<char>, (Seq<char>, Seq<char>))>) -> Result<Map<Seq<char>, RecordDataView>, LoadError>
    decreases entries.len(),
{
    if entries.len() == 0 {
        Ok(Map::empty())
    } else {
        match load_table(entries.drop_last()) {
            Err(e) => Err(e),
            Ok(m) => {
                let (name_str, (rt, value)) = entries.last();
                match spec_name_from_utf8(name_str) {
                    None => Err(LoadError::InvalidName),
                    Some(n) => match config_record_data(rt, value) {
                        None => Ok(m),
                        Some(Err(e)) => Err(e),
                        Some(Ok(d)) => Ok(m.insert(ascii_lower(n), d)),
                    },
                }
            },
        }
    }
}

/// The values of the configuration's records.
pub open spec fn config_entries(c: &Config) -> Seq<(Seq<char>, (Seq<char>, Seq<char>))> {
    c.records@.map_values(|e: (String, crate::config::config::RecordConfig)| (e.0@, (e.1.record_type@, e.1.value@)))
}

/// The answer of the local table to a question for `name` of type `t`, with
/// `fuel` records left: the name's record (owner `name`, TTL 3600); for an
/// A or AAAA question an alias is followed to its target; a record of the
/// question's type ends the chain; any other record is a type mismatch.
pub open spec fn local_chain(table: Map<Seq<char>, RecordDataView>, name: Seq<char>, t: u16, fuel: nat) -> Result<Seq<DnsRecordView>, LocalError>
    decreases fuel,
{
    if fuel == 0 {
        Err(LocalError::RecursionLimit)
    } else if !table.contains_key(ascii_lower(name)) {
        Err(LocalError::NotFound)
    } else {
        let d = table[ascii_lower(name)];
        let r = DnsRecordView { name, dns_class: DNS_CLASS_IN, ttl: LOCAL_RECORD_TTL, data: d };
        match d {
            RecordDataView::Cname(target) => if t == RECORD_TYPE_A || t == RECORD_TYPE_AAAA {
                match local_chain(table, target, t, (fuel - 1) as nat) {
                    Ok(rest) => Ok(seq![r] + rest),
                    Err(e) => Err(e),
                }
            } else if d.record_type() == t {
                Ok(seq![r])
            } else {
                Err(LocalError::TypeMismatch)
            },
            _ => if d.record_type() == t {
                Ok(seq![r])
            } else {
                Err(LocalError::TypeMismatch)
            },
        }
    }
}

/// A local answer is an alias chain: it starts at the queried name, has at
/// most `fuel` records, all of the Internet class with TTL 3600, each record
/// but the last is an alias (followed only for A and AAAA questions) to the
/// owner of the next, and the last record has the question's type.
pub proof fn lemma_local_chain_shape(table: Map<Seq<char>, RecordDataView>, name: Seq<char>, t: u16, fuel: nat)
    ensures
        local_chain(table, name, t, fuel) matches Ok(rs) ==> {
            &&& 1 <= rs.len() <= fuel
            &&& rs[0].name == name
            &&& rs.last().record_type() == t
            &&& forall|i: int| 0 <= i < rs.len() ==> (#[trigger] rs[i]).ttl == LOCAL_RECORD_TTL && rs[i].dns_class == DNS_CLASS_IN
            &&& forall|i: int| 0 <= i < rs.len() - 1 ==> (#[trigger] rs[i]).data == RecordDataView::Cname(rs[i + 1].name)
                && (t == RECORD_TYPE_A || t == RECORD_TYPE_AAAA)
        },
    decreases fuel,
{
    if fuel > 0 && table.contains_key(ascii_lower(name)) {
        let d = table[ascii_lower(name)];
        match d {
            RecordDataView::Cname(target) => {
                if t == RECORD_TYPE_A || t == RECORD_TYPE_AAAA {
                    lemma_local_chain_shape(table, target, t, (fuel - 1) as nat);
                    if let Ok(rest) = local_chain(table, target, t, (fuel - 1) as nat) {
                        let r = DnsRecordView { name, dns_class: DNS_CLASS_IN, ttl: LOCAL_RECORD_TTL, data: d };
                        let rs = seq![r] + rest;
                        assert(rs.last() == rest.last());
                        assert forall|i: int| 0 <= i < rs.len() implies (#[trigger] rs[i]).ttl == LOCAL_RECORD_TTL && rs[i].dns_class == DNS_CLASS_IN by {
                            if i > 0 {
                                assert(rs[i] == rest[i - 1]);
                            }
                        }
                        assert forall|i: int| 0 <= i < rs.len() - 1 implies (#[trigger] rs[i]).data == RecordDataView::Cname(rs[i + 1].name)
                            && (t == RECORD_TYPE_A || t == RECORD_TYPE_AAAA) by {
                            if i > 0 {
                                assert(rs[i] == rest[i - 1]);
                                assert(rs[i + 1] == rest[i]);
                            } else {
                                assert(rs[1] == rest[0]);
                            }
                        }
                    }
                }
            },
            _ => {},
        }
    }
}

/// The local records, by lower-cased name.
pub struct LocalRecords {
    entries: Vec<(Vec<char>, RecordData)>,
}

impl LocalRecords {
    /// The table: record data by lower-cased name.
    pub closed spec fn table(&self) -> Map<Seq<char>, RecordDataView> {
        Map::new(
            |k: Seq<char>| exists|i: int| 0 <= i < self.entries@.len() && (#[trigger] self.entries@[i]).0@ == k,
            |k: Seq<char>| self.entries@[choose|i: int| 0 <= i < self.entries@.len() && (#[trigger] self.entries@[i]).0@ == k].1@,
        )
    }

    /// No name occurs twice.
    pub closed spec fn wf(&self) -> bool {
        forall|i: int, j: int| 0 <= i < j < self.entries@.len() ==> (#[trigger] self.entries@[i]).0@ != (#[trigger] self.entries@[j]).0@
    }

    /// An empty table.
    pub fn new() -> (r: LocalRecords)
        ensures
            r.wf(),
            r.table() == Map::<Seq<char>, RecordDataView>::empty(),
    {
        let r = LocalRecords { entries: Vec::new() };
        assert(r.table() =~= Map::<Seq<char>, RecordDataView>::empty());
        r
    }

    fn find(&self, key: &Vec<char>) -> (r: usize)
        ensures
            r <= self.entries@.len(),
            r < self.entries@.len() ==> self.entries@[r as int].0@ == key@,
            r == self.entries@.len() ==> forall|j: int| 0 <= j < self.entries@.len() ==> (#[trigger] self.entries@[j]).0@ != key@,
    {
        let mut i: usize = 0;
        while i < self.entries.len()
            invariant
                i <= self.entries@.len(),
                forall|j: int| 0 <= j < i ==> (#[trigger] self.entries@[j]).0@ != key@,
            decreases self.entries.len() - i,
        {
            if chars_eq(&self.entries[i].0, key) {
                return i;
            }
            i = i + 1;
        }
        i
    }

    /// Sets the record data of a name, replacing the name's earlier data.
    pub fn insert(&mut self, name: &str, data: RecordData)
        requires
            old(self).wf(),
        ensures
            final(self).wf(),
            final(self).table() == old(self).table().insert(ascii_lower(name@), data@),
    {
        let key = lower_chars(name);
        let ghost kv = key@;
        let ghost dv = data@;
        let ghost old_entries = self.entries@;
        let i = self.find(&key);
        if i < self.entries.len() {
            self.entries.set(i, (key, data));
            proof {
                assert forall|a: int, b: int| 0 <= a < b < self.entries@.len() implies (#[trigger] self.entries@[a]).0@ != (#[trigger] self.entries@[b]).0@ by {
                    assert(old_entries[a].0@ != old_entries[b].0@);
                }
                assert(self.table() =~= old(self).table().insert(kv, dv)) by {
                    assert forall|k: Seq<char>| #[trigger] self.table().contains_key(k) == old(self).table().insert(kv, dv).contains_key(k) by {
                        if k == kv {
                            assert(self.entries@[i as int].0@ == k);
                        } else if old(self).table().contains_key(k) {
                            let j = choose|j: int| 0 <= j < old_entries.len() && (#[trigger] old_entries[j]).0@ == k;
                            assert(self.entries@[j].0@ == k);
                        } else if self.table().contains_key(k) {
                            let j = choose|j: int| 0 <= j < self.entries@.len() && (#[trigger] self.entries@[j]).0@ == k;
                            assert(old_entries[j].0@ == k);
                        }
                    }
                    assert forall|k: Seq<char>| #[trigger] self.table().contains_key(k) implies self.table()[k] == old(self).table().insert(kv, dv)[k] by {
                        let j = choose|j: int| 0 <= j < self.entries@.len() && (#[trigger] self.entries@[j]).0@ == k;
                        if k == kv {
                            assert(j == i);
                        } else {
                            assert(old_entries[j].0@ == k);
                            let j2 = choose|j2: int| 0 <= j2 < old_entries.len() && (#[trigger] old_entries[j2]).0@ == k;
                            assert(j2 == j);
                        }
                    }
                }
            }
        } else {
            self.entries.push((key, data));
            proof {
                let n = old_entries.len() as int;
                assert forall|a: int, b: int| 0 <= a < b < self.entries@.len() implies (#[trigger] self.entries@[a]).0@ != (#[trigger] self.entries@[b]).0@ by {
                    if b < n {
                        assert(old_entries[a].0@ != old_entries[b].0@);
                    } else {
                        assert(self.entries@[a] == old_entries[a]);
                    }
                }
                assert(self.table() =~= old(self).table().insert(kv, dv)) by {
                    assert forall|k: Seq<char>| #[trigger] self.table().contains_key(k) == old(self).table().insert(kv, dv).contains_key(k) by {
                        if k == kv {
                            assert(self.entries@[n].0@ == k);
                        } else if old(self).table().contains_key(k) {
                            let j = choose|j: int| 0 <= j < old_entries.len() && (#[trigger] old_entries[j]).0@ == k;
                            assert(self.entries@[j].0@ == k);
                        } else if self.table().contains_key(k) {
                            let j = choose|j: int| 0 <= j < self.entries@.len() && (#[trigger] self.entries@[j]).0@ == k;
                            assert(old_entries[j].0@ == k);
                        }
                    }
                    assert forall|k: Seq<char>| #[trigger] self.table().contains_key(k) implies self.table()[k] == old(self).table().insert(kv, dv)[k] by {
                        let j = choose|j: int| 0 <= j < self.entries@.len() && (#[trigger] self.entries@[j]).0@ == k;
                        if k == kv {
                            assert(j == n);
                        } else {
                            assert(old_entries[j].0@ == k);
                            let j2 = choose|j2: int| 0 <= j2 < old_entries.len() && (#[trigger] old_entries[j2]).0@ == k;
                            assert(j2 == j);
                        }
                    }
                }
            }
        }
    }

    /// The record data of a name (up to ASCII case), if any.
    pub fn get(&self, name: &str) -> (r: Option<RecordData>)
        requires
            self.wf(),
        ensures
            match r {
                Some(d) => self.table().contains_key(ascii_lower(name@)) && self.table()[ascii_lower(name@)] == d@,
                None => !self.table().contains_key(ascii_lower(name@)),
            },
    {
        let key = lower_chars(name);
        let i = self.find(&key);
        if i < self.entries.len() {
            let d = self.entries[i].1.duplicate();
            proof {
                assert(self.table().contains_key(key@));
                let j = choose|j: int| 0 <= j < self.entries@.len() && (#[trigger] self.entries@[j]).0@ == key@;
                assert(j == i as int);
            }
            Some(d)
        } else {
            proof {
                if self.table().contains_key(key@) {
                    let j = choose|j: int| 0 <= j < self.entries@.len() && (#[trigger] self.entries@[j]).0@ == key@;
                    assert(self.entries@[j].0@ != key@);
                }
            }
            None
        }
    }
}

/// Whether a text is `A`.
fn is_a(s: &String) -> (r: bool)
    ensures
        r == (s@ == "A"@),
{
    proof {
        reveal_strlit("A");
    }
    let cs = crate::names::chars_of(s.as_str());
    let r = cs.len() == 1 && cs[0] == 'A';
    if r {
        assert(s@ =~= "A"@);
    }
    r
}

/// Whether a text is `AAAA`.
fn is_aaaa(s: &String) -> (r: bool)
    ensures
        r == (s@ == "AAAA"@),
{
    proof {
        reveal_strlit("AAAA");
    }
    let cs = crate::names::chars_of(s.as_str());
    let r = cs.len() == 4 && cs[0] == 'A' && cs[1] == 'A' && cs[2] == 'A' && cs[3] == 'A';
    if r {
        assert(s@ =~= "AAAA"@);
    }
    r
}

/// Whether a text is `CNAME`.
fn is_cname(s: &String) -> (r: bool)
    ensures
        r == (s@ == "CNAME"@),
{
    proof {
        reveal_strlit("CNAME");
    }
    let cs = crate::names::chars_of(s.as_str());
    let r = cs.len() == 5 && cs[0] == 'C' && cs[1] == 'N' && cs[2] == 'A' && cs[3] == 'M' && cs[4] == 'E';
    if r {
        assert(s@ =~= "CNAME"@);
    }
    r
}

/// Builds the local table from the configuration's records, in order: each
/// domain is parsed as a name (IDNA/UTF-8), its type mnemonic upper-cased;
/// `A` values are IPv4 addresses, `AAAA` values IPv6 addresses and `CNAME`
/// values names; other types are
/// skipped; a later record for a name replaces an earlier one.  The first
/// invalid record fails the load.
pub fn load_records(config: &Config) -> (r: Result<LocalRecords, LoadError>)
    ensures
        match r {
            Ok(t) => t.wf() && load_table(config_entries(config)) == Ok::<Map<Seq<char>, RecordDataView>, LoadError>(t.table()),
            Err(e) => load_table(config_entries(config)) == Err::<Map<Seq<char>, RecordDataView>, LoadError>(e),
        },
{
    let ghost entries = config_entries(config);
    let mut table = LocalRecords::new();
    let mut i: usize = 0;
    assert(entries.take(0) =~= Seq::<(Seq<char>, (Seq<char>, Seq<char>))>::empty());
    while i < config.records.len()
        invariant
            i <= config.records.len(),
            entries == config_entries(config),
            table.wf(),
            load_table(entries.take(i as int)) == Ok::<Map<Seq<char>, RecordDataView>, LoadError>(table.table()),
        decreases config.records.len() - i,
    {
        assert(entries.take(i + 1).drop_last() =~= entries.take(i as int));
        let name_str = &config.records[i].0;
        let record_config = &config.records[i].1;
        assert(entries.take(i + 1).last() == (name_str@, (record_config.record_type@, record_config.value@)));
        let name = match parse_name_utf8(name_str) {
            Some(n) => n,
            None => {
                proof {
                    lemma_load_error_persists(entries, i as int + 1);
                }
                return Err(LoadError::InvalidName);
            },
        };
        let t = to_uppercase(&record_config.record_type);
        if is_a(&t) {
            match parse_ipv4(&record_config.value) {
                Some(a) => {
                    table.insert(&name, RecordData::A(a));
                },
                None => {
                    proof {
                        lemma_load_error_persists(entries, i as int + 1);
                    }
                    return Err(LoadError::InvalidIpv4);
                },
            }
        } else if is_aaaa(&t) {
            match parse_ipv6(&record_config.value) {
                Some(a) => {
                    table.insert(&name, RecordData::Aaaa(a));
                },
                None => {
                    proof {
                        lemma_load_error_persists(entries, i as int + 1);
                    }
                    return Err(LoadError::InvalidIpv6);
                },
            }
        } else if is_cname(&t) {
            match parse_name_ascii(&record_config.value) {
                Some(n) => {
                    table.insert(&name, RecordData::Cname(n));
                },
                None => {
                    proof {
                        lemma_load_error_persists(entries, i as int + 1);
                    }
                    return Err(LoadError::InvalidCname);
                },
            }
        }
        i = i + 1;
    }
    assert(entries.take(config.records.len() as int) =~= entries);
    Ok(table)
}

/// Once a prefix of the records fails to load, every longer prefix does, with the same error.
proof fn lemma_load_error_persists(entries: Seq<(Seq<char>, (Seq<char>, Seq<char>))>, n: int)
    requires
        0 < n <= entries.len(),
        load_table(entries.take(n)) is Err,
    ensures
        load_table(entries) == load_table(entries.take(n)),
    decreases entries.len() - n,
{
    if n < entries.len() {
        assert(entries.take(n + 1).drop_last() =~= entries.take(n));
        lemma_load_error_persists(entries, n + 1);
    } else {
        assert(entries.take(n) =~= entries);
    }
}

/// The record-table server: the local records and the upstream servers.
pub struct MyRequestHandler {
    pub records: LocalRecords,
    /// Upstream servers, as written.
    pub forwarders: Vec<String>,
}

/// The header with which a request is refused when it is not a standard
/// query, if it is not one: a response header with code "not implemented".
pub open spec fn unsupported_response(h: Header) -> Option<Header> {
    if h.message_type != MessageType::Query || h.op_code != OPCODE_QUERY {
        Some(Header { response_code: RCODE_NOT_IMP, ..response_header_for(h) })
    } else {
        None
    }
}

/// The response to a request with header `h` once its lookup gave `result`:
/// the records found, with code "no such domain" when there is none; or the
/// lookup's error code and no record.
pub open spec fn lookup_response(h: Header, result: Result<Seq<DnsRecordView>, u16>) -> (Header, Seq<DnsRecordView>) {
    match result {
        Ok(rs) => (
            Header { response_code: if rs.len() == 0 { RCODE_NX_DOMAIN } else { RCODE_NO_ERROR }, ..response_header_for(h) },
            rs,
        ),
        Err(code) => (Header { response_code: code, ..response_header_for(h) }, Seq::empty()),
    }
}

/// What a lookup gives: the local answer when there is one; otherwise the
/// answers of the first valid upstream reply, in the order in which the
/// lookups completed, or a server failure when no lookup gave a reply.
pub open spec fn lookup_result(
    local: Result<Seq<DnsRecordView>, LocalError>,
    replies: Seq<Option<Result<Seq<DnsRecordView>, ()>>>,
) -> Result<Seq<DnsRecordView>, u16> {
    match local {
        Ok(rs) => Ok(rs),
        Err(_) => match first_success(replies) {
            Some(rs) => Ok(rs),
            None => Err(RCODE_SERV_FAIL),
        },
    }
}

/// A local miss of any kind (no record, a type mismatch, an alias chain too
/// long) is answered from the upstream replies, the same way: with the
/// answers of the earliest reply that succeeded, or a server failure when no
/// lookup succeeded.  A local answer is given as it is, whatever the replies.
pub proof fn lemma_local_miss_forwarded(
    e: LocalError,
    local: Seq<DnsRecordView>,
    rs: Seq<Option<Result<Seq<DnsRecordView>, ()>>>,
)
    ensures
        lookup_result(Err(e), rs) == lookup_result(Err(LocalError::NotFound), rs),
        lookup_result(Ok(local), rs) == Ok::<Seq<DnsRecordView>, u16>(local),
        forall|i: int|
            #![trigger rs[i]]
            0 <= i < rs.len() && (forall|j: int| 0 <= j < i ==> !(#[trigger] rs[j] matches Some(Ok(_))))
                ==> (rs[i] matches Some(Ok(a)) ==> lookup_result(Err(e), rs) == Ok::<Seq<DnsRecordView>, u16>(a)),
        (forall|i: int| 0 <= i < rs.len() ==> !(#[trigger] rs[i] matches Some(Ok(_))))
            ==> lookup_result(Err(e), rs) == Err::<Seq<DnsRecordView>, u16>(RCODE_SERV_FAIL),
{
    lemma_first_success_is_earliest(rs);
}

/// A record whose type is neither A, AAAA nor CNAME (in any case) under a
/// valid name is skipped: the load gives what it gives without that record,
/// whatever its value.
pub proof fn lemma_unsupported_record_skipped(
    entries: Seq<(Seq<char>, (Seq<char>, Seq<char>))>,
    name: Seq<char>,
    record_type: Seq<char>,
    value: Seq<char>,
)
    requires
        spec_name_from_utf8(name) is Some,
        spec_to_uppercase(record_type) != "A"@,
        spec_to_uppercase(record_type) != "AAAA"@,
        spec_to_uppercase(record_type) != "CNAME"@,
    ensures
        load_table(entries.push((name, (record_type, value)))) == load_table(entries),
{
    assert(entries.push((name, (record_type, value))).drop_last() =~= entries);
}

/// A supported record under a valid name sets the data of that name (compared
/// up to ASCII case), replacing earlier data: an IPv4 address for A, an IPv6
/// address for AAAA, a name for CNAME; an invalid value fails the load with
/// its own error.  A record with an invalid name fails the load.
pub proof fn lemma_supported_record_loaded(
    entries: Seq<(Seq<char>, (Seq<char>, Seq<char>))>,
    name: Seq<char>,
    record_type: Seq<char>,
    value: Seq<char>,
    m: Map<Seq<char>, RecordDataView>,
)
    requires
        load_table(entries) == Ok::<Map<Seq<char>, RecordDataView>, LoadError>(m),
    ensures
        ({
            let r = load_table(entries.push((name, (record_type, value))));
            let t = spec_to_uppercase(record_type);
            &&& spec_name_from_utf8(name) is None ==> r == Err::<Map<Seq<char>, RecordDataView>, LoadError>(LoadError::InvalidName)
            &&& spec_name_from_utf8(name) matches Some(n) ==> {
                &&& t == "A"@ ==> r == match spec_parse_ipv4(value) {
                    Some(a) => Ok(m.insert(ascii_lower(n), RecordDataView::A(a))),
                    None => Err(LoadError::InvalidIpv4),
                }
                &&& t == "AAAA"@ ==> r == match spec_parse_ipv6(value) {
                    Some(a) => Ok(m.insert(ascii_lower(n), RecordDataView::Aaaa(a))),
                    None => Err(LoadError::InvalidIpv6),
                }
                &&& t == "CNAME"@ ==> r == match spec_name_from_ascii(value) {
                    Some(c) => Ok(m.insert(ascii_lower(n), RecordDataView::Cname(c))),
                    None => Err(LoadError::InvalidCname),
                }
            }
        }),
{
    assert(entries.push((name, (record_type, value))).drop_last() =~= entries);
    reveal_strlit("A");
    reveal_strlit("AAAA");
    reveal_strlit("CNAME");
    assert("A"@.len() == 1 && "AAAA"@.len() == 4 && "CNAME"@.len() == 5);
    assert("AAAA"@ != "A"@);
    assert("CNAME"@ != "A"@ && "CNAME"@ != "AAAA"@);
}

impl MyRequestHandler {
    /// A server over these records and upstreams; there must be an upstream.
    pub fn new(records: LocalRecords, forwarders: Vec<String>) -> (r: Result<MyRequestHandler, LoadError>)
        ensures
            forwarders@.len() == 0 <==> r == Err::<MyRequestHandler, LoadError>(LoadError::NoUpstreams),
            r matches Ok(h) ==> h.records == records && h.forwarders == forwarders,
    {
        if forwarders.len() == 0 {
            return Err(LoadError::NoUpstreams);
        }
        Ok(MyRequestHandler { records, forwarders })
    }

    /// Answers a question from the local table, following aliases for A and
    /// AAAA questions, through at most ten records (see [`local_chain`]).
    pub fn handle_local_record(&self, query: &DnsQuery) -> (r: Result<Vec<DnsRecord>, LocalError>)
        requires
            self.records.wf(),
        ensures
            match r {
                Ok(v) => local_chain(self.records.table(), query@.name, query@.query_type, LOCAL_RECURSION_LIMIT as nat)
                    == Ok::<Seq<DnsRecordView>, LocalError>(records_view(v@)),
                Err(e) => local_chain(self.records.table(), query@.name, query@.query_type, LOCAL_RECURSION_LIMIT as nat)
                    == Err::<Seq<DnsRecordView>, LocalError>(e),
            },
    {
        let ghost table = self.records.table();
        let ghost t = query.query_type;
        let mut final_records: Vec<DnsRecord> = Vec::new();
        let mut current_name = query.name.clone();
        let mut recursion_limit: u32 = LOCAL_RECURSION_LIMIT;
        assert(records_view(final_records@) =~= Seq::<DnsRecordView>::empty());
        assert(local_chain(table, query@.name, t, LOCAL_RECURSION_LIMIT as nat)
            == prepend(Seq::<DnsRecordView>::empty(), local_chain(table, query@.name, t, LOCAL_RECURSION_LIMIT as nat))) by {
            match local_chain(table, query@.name, t, LOCAL_RECURSION_LIMIT as nat) {
                Ok(rest) => {
                    assert(Seq::<DnsRecordView>::empty() + rest =~= rest);
                },
                Err(_) => {},
            }
        }
        loop
            invariant
                self.records.wf(),
                table == self.records.table(),
                t == query.query_type,
                recursion_limit <= LOCAL_RECURSION_LIMIT,
                local_chain(table, query@.name, t, LOCAL_RECURSION_LIMIT as nat)
                    == prepend(records_view(final_records@), local_chain(table, current_name@, t, recursion_limit as nat)),
            decreases recursion_limit,
        {
            if recursion_limit == 0 {
                return Err(LocalError::RecursionLimit);
            }
            let ghost limit_before = recursion_limit as nat;
            let ghost name_before = current_name@;
            recursion_limit = recursion_limit - 1;
            let rdata = match self.records.get(&current_name) {
                Some(d) => d,
                None => {
                    return Err(LocalError::NotFound);
                },
            };
            let record = DnsRecord::from_rdata(current_name.clone(), LOCAL_RECORD_TTL, rdata.duplicate());
            let ghost rv = record@;
            let ghost prev = records_view(final_records@);
            final_records.push(record);
            assert(records_view(final_records@) =~= prev.push(rv));
            let data_type = rdata.record_type();
            match rdata {
                RecordData::Cname(cname) => {
                    if query.query_type == RECORD_TYPE_A || query.query_type == RECORD_TYPE_AAAA {
                        proof {
                            let rest = local_chain(table, cname@, t, recursion_limit as nat);
                            assert(local_chain(table, name_before, t, limit_before) == prepend(seq![rv], rest));
                            lemma_prepend_push(prev, rv, rest);
                        }
                        current_name = cname;
                        continue;
                    }
                },
                _ => {},
            }
            if data_type == query.query_type {
                assert(prev + seq![rv] =~= prev.push(rv));
                return Ok(final_records);
            }
            return Err(LocalError::TypeMismatch);
        }
    }

    /// The header with which a request that is not a standard query is
    /// refused, if it is not one.
    pub fn unsupported_header(h: &Header) -> (r: Option<Header>)
        ensures
            r == unsupported_response(*h),
    {
        if h.message_type != MessageType::Query || h.op_code != OPCODE_QUERY {
            let mut header = Header::response_from_request(h);
            header.message_type = MessageType::Response;
            header.response_code = RCODE_NOT_IMP;
            Some(header)
        } else {
            None
        }
    }

    /// What a lookup gives (see [`lookup_result`]); `replies` are the upstream
    /// replies in the order in which the lookups completed (`None`: no reply;
    /// `Err`: the lookup failed).
    pub fn lookup(
        local: Result<Vec<DnsRecord>, LocalError>,
        replies: Vec<Option<Result<Vec<DnsRecord>, ()>>>,
    ) -> (r: Result<Vec<DnsRecord>, u16>)
        ensures
            match r {
                Ok(v) => lookup_result(local_view(local), replies_view(replies@)) == Ok::<Seq<DnsRecordView>, u16>(records_view(v@)),
                Err(c) => lookup_result(local_view(local), replies_view(replies@)) == Err::<Seq<DnsRecordView>, u16>(c),
            },
    {
        match local {
            Ok(rs) => Ok(rs),
            Err(_) => match first_valid_reply(&replies) {
                Some(rs) => Ok(rs),
                None => Err(RCODE_SERV_FAIL),
            },
        }
    }

    /// The response to a request with header `h` once its lookup gave
    /// `result` (see [`lookup_response`]).
    pub fn respond(h: &Header, result: Result<Vec<DnsRecord>, u16>) -> (r: (Header, Vec<DnsRecord>))
        ensures
            (r.0, records_view(r.1@)) == lookup_response(*h, match result {
                Ok(v) => Ok(records_view(v@)),
                Err(c) => Err(c),
            }),
    {
        let mut header = Header::response_from_request(h);
        header.message_type = MessageType::Response;
        match result {
            Ok(records) => {
                if records.len() == 0 {
                    header.response_code = RCODE_NX_DOMAIN;
                }
                (header, records)
            },
            Err(code) => {
                header.response_code = code;
                let empty: Vec<DnsRecord> = Vec::new();
                assert(records_view(empty@) =~= Seq::<DnsRecordView>::empty());
                (header, empty)
            },
        }
    }
}

/// `pre` followed by the records of `r`, or `r`'s error.
pub open spec fn prepend(pre: Seq<DnsRecordView>, r: Result<Seq<DnsRecordView>, LocalError>) -> Result<Seq<DnsRecordView>, LocalError> {
    match r {
        Ok(rest) => Ok(pre + rest),
        Err(e) => Err(e),
    }
}

proof fn lemma_prepend_push(pre: Seq<DnsRecordView>, x: DnsRecordView, r: Result<Seq<DnsRecordView>, LocalError>)
    ensures
        prepend(pre, prepend(seq![x], r)) == prepend(pre.push(x), r),
{
    match r {
        Ok(rest) => {
            assert(pre + (seq![x] + rest) =~= pre.push(x) + rest);
        },
        Err(_) => {},
    }
}

/// The value of a local answer.
pub open spec fn local_view(local: Result<Vec<DnsRecord>, LocalError>) -> Result<Seq<DnsRecordView>, LocalError> {
    match local {
        Ok(v) => Ok(records_view(v@)),
        Err(e) => Err(e),
    }
}

fn chars_eq(a: &Vec<char>, b: &Vec<char>) -> (r: bool)
    ensures
        r == (a@ == b@),
{
    if a.len() != b.len() {
        return false;
    }
    let mut i: usize = 0;
    while i < a.len()
        invariant
            i <= a.len(),
            a.len() == b.len(),
            forall|j: int| 0 <= j < i ==> a@[j] == b@[j],
        decreases a.len() - i,
    {
        if a[i] != b[i] {
            return false;
        }
        i = i + 1;
    }
    assert(a@ =~= b@);
    true
}

} // verus!
