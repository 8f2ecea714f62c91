//! The DNS values that the pipeline reads and writes: record types, response
//! codes, records, queries, headers and messages, held as plain values.
use vstd::prelude::*;

verus! {

/// Record type code of an IPv4 address record.
pub const RECORD_TYPE_A: u16 = 1;

/// Record type code of a name server record.
pub const RECORD_TYPE_NS: u16 = 2;

/// Record type code of a canonical-name (alias) record.
pub const RECORD_TYPE_CNAME: u16 = 5;

/// Record type code of a text record.
pub const RECORD_TYPE_TXT: u16 = 16;

/// Record type code of an IPv6 address record.
pub const RECORD_TYPE_AAAA: u16 = 28;

/// The Internet class.
pub const DNS_CLASS_IN: u16 = 1;

/// Response code: no error.
pub const RCODE_NO_ERROR: u16 = 0;

/// Response code: server failure.
pub const RCODE_SERV_FAIL: u16 = 2;

/// Response code: the name does not exist.
pub const RCODE_NX_DOMAIN: u16 = 3;

/// Response code: not implemented.
pub const RCODE_NOT_IMP: u16 = 4;

/// Response code: refused.
pub const RCODE_REFUSED: u16 = 5;

/// Operation code of a standard query.
pub const OPCODE_QUERY: u8 = 0;

/// The data of a resource record.
#[derive(Debug, Clone)]
pub enum RecordData {
    /// An IPv4 address, as its 32-bit value.
    A(u32),
    /// An IPv6 address, as its 128-bit value.
    Aaaa(u128),
    /// The target name of an alias.
    Cname(String),
    /// A text record holding one character string.
    Txt(String),
    /// Any other record, by its type code and its wire-format data.
    Other { record_type: u16, bytes: Vec<u8> },
}

/// The mathematical value of [`RecordData`].
pub enum RecordDataView {
    A(u32),
    Aaaa(u128),
    Cname(Seq<char>),
    Txt(Seq<char>),
    Other(u16, Seq<u8>),
}

impl View for RecordData {
    type V = RecordDataView;

    open spec fn view(&self) -> RecordDataView {
        match self {
            RecordData::A(a) => RecordDataView::A(*a),
            RecordData::Aaaa(a) => RecordDataView::Aaaa(*a),
            RecordData::Cname(n) => RecordDataView::Cname(n@),
            RecordData::Txt(t) => RecordDataView::Txt(t@),
            RecordData::Other { record_type, bytes } => RecordDataView::Other(*record_type, bytes@),
        }
    }
}

impl RecordDataView {
    /// The record type code that this data belongs to.
    pub open spec fn record_type(self) -> u16 {
        match self {
            RecordDataView::A(_) => RECORD_TYPE_A,
            RecordDataView::Aaaa(_) => RECORD_TYPE_AAAA,
            RecordDataView::Cname(_) => RECORD_TYPE_CNAME,
            RecordDataView::Txt(_) => RECORD_TYPE_TXT,
            RecordDataView::Other(t, _) => t,
        }
    }
}

impl RecordData {
    /// The record type code that this data belongs to.
    pub fn record_type(&self) -> (r: u16)
        ensures
            r == self@.record_type(),
    {
        match self {
            RecordData::A(_) => RECORD_TYPE_A,
            RecordData::Aaaa(_) => RECORD_TYPE_AAAA,
            RecordData::Cname(_) => RECORD_TYPE_CNAME,
            RecordData::Txt(_) => RECORD_TYPE_TXT,
            RecordData::Other { record_type, .. } => *record_type,
        }
    }

    /// A copy of this data.
    pub fn duplicate(&self) -> (r: RecordData)
        ensures
            r@ == self@,
    {
        match self {
            RecordData::A(a) => RecordData::A(*a),
            RecordData::Aaaa(a) => RecordData::Aaaa(*a),
            RecordData::Cname(n) => RecordData::Cname(n.clone()),
            RecordData::Txt(t) => RecordData::Txt(t.clone()),
            RecordData::Other { record_type, bytes } => {
                let b = copy_bytes(bytes);
                RecordData::Other { record_type: *record_type, bytes: b }
            },
        }
    }
}

fn copy_bytes(v: &Vec<u8>) -> (r: Vec<u8>)
    ensures
        r@ == v@,
{
    let mut out: Vec<u8> = Vec::new();
    let mut i: usize = 0;
    while i < v.len()
        invariant
            i <= v.len(),
            out@ == v@.take(i as int),
        decreases v.len() - i,
    {
        out.push(v[i]);
        i = i + 1;
        assert(out@ =~= v@.take(i as int));
    }
    assert(v@.take(v@.len() as int) =~= v@);
    out
}

/// A resource record.
#[derive(Debug, Clone)]
pub struct DnsRecord {
    /// Owner name, in presentation form.
    pub name: String,
    /// Class code.
    pub dns_class: u16,
    /// Time to live, in seconds.
    pub ttl: u32,
    /// Record data.
    pub data: RecordData,
}

/// The mathematical value of a [`DnsRecord`].
pub struct DnsRecordView {
    pub name: Seq<char>,
    pub dns_class: u16,
    pub ttl: u32,
    pub data: RecordDataView,
}

impl View for DnsRecord {
    type V = DnsRecordView;

    open spec fn view(&self) -> DnsRecordView {
        DnsRecordView { name: self.name@, dns_class: self.dns_class, ttl: self.ttl, data: self.data@ }
    }
}

impl DnsRecordView {
    /// The record's type code.
    pub open spec fn record_type(self) -> u16 {
        self.data.record_type()
    }
}

/// The values of a sequence of records.
pub open spec fn records_view(rs: Seq<DnsRecord>) -> Seq<DnsRecordView> {
    rs.map_values(|r: DnsRecord| r@)
}

impl DnsRecord {
    /// A record of the Internet class with the given owner, TTL and data.
    pub fn from_rdata(name: String, ttl: u32, data: RecordData) -> (r: DnsRecord)
        ensures
            r@ == (DnsRecordView { name: name@, dns_class: DNS_CLASS_IN, ttl, data: data@ }),
    {
        DnsRecord { name, dns_class: DNS_CLASS_IN, ttl, data }
    }

    /// The record's type code.
    pub fn record_type(&self) -> (r: u16)
        ensures
            r == self@.record_type(),
    {
        self.data.record_type()
    }

    /// A copy of this record.
    pub fn duplicate(&self) -> (r: DnsRecord)
        ensures
            r@ == self@,
    {
        DnsRecord {
            name: self.name.clone(),
            dns_class: self.dns_class,
            ttl: self.ttl,
            data: self.data.duplicate(),
        }
    }
}

proof fn lemma_records_view_push(s: Seq<DnsRecord>, r: DnsRecord)
    ensures
        records_view(s.push(r)) == records_view(s).push(r@),
{
    assert(records_view(s.push(r)) =~= records_view(s).push(r@));
}

/// A copy of a list of records.
pub fn copy_records(v: &Vec<DnsRecord>) -> (r: Vec<DnsRecord>)
    ensures
        records_view(r@) == records_view(v@),
{
    let mut out: Vec<DnsRecord> = Vec::new();
    let mut i: usize = 0;
    while i < v.len()
        invariant
            i <= v.len(),
            records_view(out@) == records_view(v@).take(i as int),
        decreases v.len() - i,
    {
        let ghost prev = out@;
        let d = v[i].duplicate();
        out.push(d);
        proof {
            lemma_records_view_push(prev, d);
        }
        i = i + 1;
        assert(records_view(out@) =~= records_view(v@).take(i as int));
    }
    assert(records_view(v@).take(v@.len() as int) =~= records_view(v@));
    out
}

/// Appends copies of `extra` to `out`.
pub fn extend_records(out: &mut Vec<DnsRecord>, extra: &Vec<DnsRecord>)
    ensures
        records_view(final(out)@) == records_view(old(out)@) + records_view(extra@),
{
    let ghost start = records_view(out@);
    let mut i: usize = 0;
    while i < extra.len()
        invariant
            i <= extra.len(),
            records_view(out@) == start + records_view(extra@).take(i as int),
        decreases extra.len() - i,
    {
        let ghost prev = out@;
        let d = extra[i].duplicate();
        out.push(d);
        proof {
            lemma_records_view_push(prev, d);
        }
        i = i + 1;
        assert(records_view(out@) =~= start + records_view(extra@).take(i as int));
    }
    assert(records_view(extra@).take(extra@.len() as int) =~= records_view(extra@));
}

/// A question: a name, a record type and a class.
#[derive(Debug)]
pub struct DnsQuery {
    /// Queried name, in presentation form.
    pub name: String,
    /// Queried record type code.
    pub query_type: u16,
    /// Queried class code.
    pub query_class: u16,
}

/// The mathematical value of a [`DnsQuery`].
pub struct DnsQueryView {
    pub name: Seq<char>,
    pub query_type: u16,
    pub query_class: u16,
}

impl View for DnsQuery {
    type V = DnsQueryView;

    open spec fn view(&self) -> DnsQueryView {
        DnsQueryView { name: self.name@, query_type: self.query_type, query_class: self.query_class }
    }
}

impl DnsQuery {
    /// A question of the Internet class.
    pub fn query(name: String, query_type: u16) -> (r: DnsQuery)
        ensures
            r@ == (DnsQueryView { name: name@, query_type, query_class: DNS_CLASS_IN }),
    {
        DnsQuery { name, query_type, query_class: DNS_CLASS_IN }
    }

    /// A copy of this question.
    pub fn duplicate(&self) -> (r: DnsQuery)
        ensures
            r@ == self@,
    {
        DnsQuery { name: self.name.clone(), query_type: self.query_type, query_class: self.query_class }
    }
}

/// Whether a message is a query or a response.
#[derive(Debug, Clone, Copy, PartialEq, Eq, Structural)]
pub enum MessageType {
    Query,
    Response,
}

/// The fixed header of a DNS message (without its section counts).
#[derive(Debug, Clone, Copy, PartialEq, Eq, Structural)]
pub struct Header {
    pub id: u16,
    pub message_type: MessageType,
    pub op_code: u8,
    pub authoritative: bool,
    pub truncation: bool,
    pub recursion_desired: bool,
    pub recursion_available: bool,
    pub authentic_data: bool,
    pub checking_disabled: bool,
    pub response_code: u16,
}

/// A header with every field at its default: id 0, a standard query, no flags, no error.
pub open spec fn default_header() -> Header {
    Header {
        id: 0,
        message_type: MessageType::Query,
        op_code: OPCODE_QUERY,
        authoritative: false,
        truncation: false,
        recursion_desired: false,
        recursion_available: false,
        authentic_data: false,
        checking_disabled: false,
        response_code: RCODE_NO_ERROR,
    }
}

/// The header of a response to a request with header `h`: it keeps the id,
/// the operation code and the RD and CD bits, and is otherwise at its default.
pub open spec fn response_header_for(h: Header) -> Header {
    Header {
        id: h.id,
        message_type: MessageType::Response,
        op_code: h.op_code,
        authoritative: false,
        truncation: false,
        recursion_desired: h.recursion_desired,
        recursion_available: false,
        authentic_data: false,
        checking_disabled: h.checking_disabled,
        response_code: RCODE_NO_ERROR,
    }
}

impl Header {
    /// A header with every field at its default.
    pub fn new() -> (r: Header)
        ensures
            r == default_header(),
    {
        Header {
            id: 0,
            message_type: MessageType::Query,
            op_code: OPCODE_QUERY,
            authoritative: false,
            truncation: false,
            recursion_desired: false,
            recursion_available: false,
            authentic_data: false,
            checking_disabled: false,
            response_code: RCODE_NO_ERROR,
        }
    }

    /// The header of a response to a request with this header.
    pub fn response_from_request(h: &Header) -> (r: Header)
        ensures
            r == response_header_for(*h),
    {
        Header {
            id: h.id,
            message_type: MessageType::Response,
            op_code: h.op_code,
            authoritative: false,
            truncation: false,
            recursion_desired: h.recursion_desired,
            recursion_available: false,
            authentic_data: false,
            checking_disabled: h.checking_disabled,
            response_code: RCODE_NO_ERROR,
        }
    }
}

/// A DNS message as the pipeline sees it: a header and its questions.
#[derive(Debug)]
pub struct DnsMessage {
    pub header: Header,
    pub queries: Vec<DnsQuery>,
}

/// The mathematical value of a [`DnsMessage`].
pub struct DnsMessageView {
    pub header: Header,
    pub queries: Seq<DnsQueryView>,
}

impl View for DnsMessage {
    type V = DnsMessageView;

    open spec fn view(&self) -> DnsMessageView {
        DnsMessageView {
            header: self.header,
            queries: self.queries@.map_values(|q: DnsQuery| q@),
        }
    }
}

impl DnsMessage {
    /// An empty message with a default header.
    pub fn new() -> (r: DnsMessage)
        ensures
            r@.header == default_header(),
            r@.queries.len() == 0,
    {
        DnsMessage { header: Header::new(), queries: Vec::new() }
    }

    /// The first question, if any.
    pub fn query(&self) -> (r: Option<&DnsQuery>)
        ensures
            self@.queries.len() == 0 ==> r is None,
            self@.queries.len() > 0 ==> (r matches Some(q) && q@ == self@.queries[0]),
    {
        if self.queries.len() == 0 {
            None
        } else {
            Some(&self.queries[0])
        }
    }

    /// A copy of this message.
    pub fn duplicate(&self) -> (r: DnsMessage)
        ensures
            r@ == self@,
    {
        let mut qs: Vec<DnsQuery> = Vec::new();
        let mut i: usize = 0;
        while i < self.queries.len()
            invariant
                i <= self.queries.len(),
                qs@.map_values(|q: DnsQuery| q@) == self@.queries.take(i as int),
            decreases self.queries.len() - i,
        {
            let ghost prev = qs@;
            let d = self.queries[i].duplicate();
            qs.push(d);
            assert(qs@ == prev.push(d));
            assert(qs@.map_values(|q: DnsQuery| q@) =~= prev.map_values(|q: DnsQuery| q@).push(d@));
            i = i + 1;
            assert(qs@.map_values(|q: DnsQuery| q@) =~= self@.queries.take(i as int));
        }
        assert(self@.queries.take(self.queries.len() as int) =~= self@.queries);
        DnsMessage { header: self.header, queries: qs }
    }
}

/// The error response to `request`: a response with the request's header
/// fields, marked a response and carrying response code `code`, and no
/// questions or records.
pub fn create_error_response(request: &DnsMessage, code: u16) -> (r: DnsMessage)
    ensures
        r@.header == (Header { message_type: MessageType::Response, response_code: code, ..request.header }),
        r@.queries.len() == 0,
{
    let mut message = DnsMessage::new();
    message.header.id = request.header.id;
    message.header = request.header;
    message.header.message_type = MessageType::Response;
    message.header.response_code = code;
    message
}

} // verus!
