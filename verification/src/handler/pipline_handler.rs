//! The plugin pipeline: a request passes through the plugins in order until
//! one answers, fails it, or names an alias; an alias is chased by querying
//! its target from the first plugin again, for at most ten hops.
//!
//! A run of the pipeline is a state machine.  [`PipelineHandler::step`]
//! runs the next plugin; when that plugin forwards to upstream servers, the
//! caller performs the lookups and hands the replies, in the order in which
//! they came, to [`PipelineHandler::resume`].  A response that asks to be
//! stored is stored with [`PipelineHandler::store_cache`] before it is sent.
use vstd::prelude::*;
use crate::config::new_config::Config;
use crate::dns::{
    DnsMessage, DnsMessageView, DnsQuery, DnsQueryView, DnsRecord, DnsRecordView, Header, MessageType, RecordData,
    RecordDataView, RCODE_NO_ERROR, RCODE_NX_DOMAIN, RCODE_SERV_FAIL, RECORD_TYPE_CNAME, copy_records,
    extend_records, records_view, response_header_for,
};
use crate::names::{names_match, same_name};
use crate::plugins::cache::{expired_removed, store_outcome, stored_entry};
use crate::plugins::entry_cache::cache_key;
use crate::plugins::fast_forward::{forward_action, replies_view};
use crate::plugins::plugin::{
    PipelinePlugin, PluginAction, PluginActionView, PluginKind, built_from, create_plugins, forward_fails,
    kinds_for, outcome_view, plugins_creatable,
};

verus! {

/// The most hops an alias chase may take.
pub const MAX_CNAME_HOPS: u8 = 10;

/// The first record of `records` that is an alias owned by `qname`.
pub open spec fn find_owned_cname(records: Seq<DnsRecordView>, qname: Seq<char>) -> Option<DnsRecordView>
    decreases records.len(),
{
    if records.len() == 0 {
        None
    } else if records[0].record_type() == RECORD_TYPE_CNAME && same_name(records[0].name, qname) {
        Some(records[0])
    } else {
        find_owned_cname(records.drop_first(), qname)
    }
}

/// Some record of `records` is owned by `target` and has type `t`.
pub open spec fn answers_target(records: Seq<DnsRecordView>, target: Seq<char>, t: u16) -> bool {
    exists|j: int| 0 <= j < records.len() && same_name((#[trigger] records[j]).name, target) && records[j].record_type() == t
}

/// An answer names an alias to chase: its first alias owned by the queried
/// name points at a target for which the answer holds no record of the
/// originally queried type.
pub open spec fn chaseable(records: Seq<DnsRecordView>, qname: Seq<char>, t: u16) -> bool {
    match find_owned_cname(records, qname) {
        Some(r) => match r.data {
            RecordDataView::Cname(target) => !answers_target(records, target, t),
            _ => false,
        },
        None => false,
    }
}

/// The state of a run of the pipeline.
pub struct RunView {
    pub request_header: Header,
    pub query: DnsQueryView,
    pub message: DnsMessageView,
    pub final_records: Seq<DnsRecordView>,
    pub hop: u8,
    pub next: usize,
}

/// What applying a plugin's outcome leads to.
pub enum StepView {
    /// The run goes on.
    Running,
    /// The run ends with this response; `store` asks for the answer to be cached.
    Respond { header: Header, records: Seq<DnsRecordView>, store: bool },
}

/// The response that ends a run with `records`: a response header for the
/// request, with code "no such domain" when there is no record.
pub open spec fn final_response(run: RunView, records: Seq<DnsRecordView>, store: bool) -> StepView {
    StepView::Respond {
        header: Header {
            response_code: if records.len() == 0 { RCODE_NX_DOMAIN } else { RCODE_NO_ERROR },
            ..response_header_for(run.request_header)
        },
        records,
        store,
    }
}

/// The pipeline's decision on a plugin's outcome (`from_cache`: the plugin is
/// the cache).  An error code ends the run with that code and no record.  A
/// plugin that continues hands its message to the next plugin.  An answer
/// that names an alias to chase, with an alias as its first record, keeps
/// that record and starts the next hop at the first plugin, querying the
/// alias' target; any other answer is added to the records found so far and
/// ends the run, asking for the answer to be cached unless the cache gave it.
pub open spec fn apply_outcome(run: RunView, from_cache: bool, outcome: Result<PluginActionView, u16>) -> (RunView, StepView) {
    match outcome {
        Err(code) => (
            run,
            StepView::Respond {
                header: Header { response_code: code, ..response_header_for(run.request_header) },
                records: Seq::empty(),
                store: false,
            },
        ),
        Ok(PluginActionView::Continue(m)) => (RunView { message: m, next: (run.next + 1) as usize, ..run }, StepView::Running),
        Ok(PluginActionView::Response(rs)) => {
            let cur = run.message.queries[0];
            if chaseable(rs, cur.name, run.query.query_type) {
                match rs[0].data {
                    RecordDataView::Cname(target) => (
                        RunView {
                            final_records: run.final_records.push(rs[0]),
                            message: DnsMessageView {
                                header: run.request_header,
                                queries: seq![DnsQueryView { name: target, ..cur }],
                            },
                            hop: (run.hop + 1) as u8,
                            next: 0,
                            ..run
                        },
                        StepView::Running,
                    ),
                    _ => (run, final_response(run, run.final_records, !from_cache)),
                }
            } else {
                let f = run.final_records + rs;
                (RunView { final_records: f, ..run }, final_response(run, f, !from_cache))
            }
        },
    }
}

/// The state of a run of the pipeline.
pub struct PipelineRun {
    /// Header of the request.
    pub request_header: Header,
    /// The request's question.
    pub query: DnsQuery,
    /// The message the next plugin gets.
    pub message: DnsMessage,
    /// Alias records kept so far.
    pub final_records: Vec<DnsRecord>,
    /// Hops taken so far.
    pub hop: u8,
    /// Position of the next plugin in this hop.
    pub next: usize,
}

impl View for PipelineRun {
    type V = RunView;

    open spec fn view(&self) -> RunView {
        RunView {
            request_header: self.request_header,
            query: self.query@,
            message: self.message@,
            final_records: records_view(self.final_records@),
            hop: self.hop,
            next: self.next,
        }
    }
}

/// What applying a plugin's outcome leads to.
pub enum PipelineStep {
    Running,
    Respond { header: Header, records: Vec<DnsRecord>, store: bool },
}

impl View for PipelineStep {
    type V = StepView;

    open spec fn view(&self) -> StepView {
        match self {
            PipelineStep::Running => StepView::Running,
            PipelineStep::Respond { header, records, store } => StepView::Respond {
                header: *header,
                records: records_view(records@),
                store: *store,
            },
        }
    }
}

/// The index of the first alias of `records` owned by `qname`, if any.
fn find_cname_index(records: &Vec<DnsRecord>, qname: &String) -> (r: Option<usize>)
    ensures
        match r {
            Some(i) => i < records@.len() && find_owned_cname(records_view(records@), qname@) == Some(records_view(records@)[i as int]),
            None => find_owned_cname(records_view(records@), qname@) is None,
        },
{
    let ghost rs = records_view(records@);
    let mut i: usize = 0;
    assert(rs.skip(0) =~= rs);
    while i < records.len()
        invariant
            i <= records.len(),
            rs == records_view(records@),
            find_owned_cname(rs, qname@) == find_owned_cname(rs.skip(i as int), qname@),
        decreases records.len() - i,
    {
        assert(rs.skip(i as int)[0] == rs[i as int]);
        assert(rs.skip(i as int).drop_first() =~= rs.skip(i + 1));
        if records[i].record_type() == RECORD_TYPE_CNAME && names_match(&records[i].name, qname) {
            return Some(i);
        }
        i = i + 1;
    }
    assert(rs.skip(i as int) =~= Seq::<DnsRecordView>::empty());
    None
}

/// Whether some record of `records` is owned by `target` with type `t`.
fn has_answer_for(records: &Vec<DnsRecord>, target: &String, t: u16) -> (r: bool)
    ensures
        r == answers_target(records_view(records@), target@, t),
{
    let ghost rs = records_view(records@);
    let mut i: usize = 0;
    while i < records.len()
        invariant
            i <= records.len(),
            rs == records_view(records@),
            forall|j: int| 0 <= j < i ==> !(same_name((#[trigger] rs[j]).name, target@) && rs[j].record_type() == t),
        decreases records.len() - i,
    {
        if names_match(&records[i].name, target) && records[i].record_type() == t {
            assert(same_name(rs[i as int].name, target@) && rs[i as int].record_type() == t);
            return true;
        }
        i = i + 1;
    }
    false
}

impl PipelineRun {
    /// A run for a request with this header and question: the first plugin
    /// of the first hop gets a message with the request's header and question.
    pub fn start(request_header: Header, query: DnsQuery) -> (r: PipelineRun)
        ensures
            r@.request_header == request_header,
            r@.query == query@,
            r@.message == (DnsMessageView { header: request_header, queries: seq![query@] }),
            r@.final_records.len() == 0,
            r@.hop == 0,
            r@.next == 0,
    {
        let q = query.duplicate();
        let mut queries: Vec<DnsQuery> = Vec::new();
        queries.push(q);
        let message = DnsMessage { header: request_header, queries };
        assert(message@.queries =~= seq![query@]);
        let r = PipelineRun { request_header, query, message, final_records: Vec::new(), hop: 0, next: 0 };
        assert(r@.final_records =~= Seq::<DnsRecordView>::empty());
        r
    }

    /// Applies a plugin's outcome to the run (see [`apply_outcome`]).
    pub fn apply(&mut self, from_cache: bool, outcome: Result<PluginAction, u16>) -> (r: PipelineStep)
        requires
            old(self)@.message.queries.len() > 0,
            old(self)@.hop < MAX_CNAME_HOPS,
            old(self)@.next < usize::MAX,
        ensures
            (final(self)@, r@) == apply_outcome(old(self)@, from_cache, outcome_view(outcome)),
    {
        match outcome {
            Err(code) => {
                let mut header = Header::response_from_request(&self.request_header);
                header.response_code = code;
                let empty: Vec<DnsRecord> = Vec::new();
                assert(records_view(empty@) =~= Seq::<DnsRecordView>::empty());
                PipelineStep::Respond { header, records: empty, store: false }
            },
            Ok(PluginAction::Continue(m)) => {
                self.message = m;
                self.next = self.next + 1;
                PipelineStep::Running
            },
            Ok(PluginAction::Response(records)) => {
                let ghost rs = records_view(records@);
                let qname = self.message.queries[0].name.clone();
                let chase = match find_cname_index(&records, &qname) {
                    Some(i) => match &records[i].data {
                        RecordData::Cname(target) => !has_answer_for(&records, target, self.query.query_type),
                        _ => false,
                    },
                    None => false,
                };
                assert(chase == chaseable(rs, self@.message.queries[0].name, self@.query.query_type));
                if chase {
                    assert(records@.len() > 0);
                    if let RecordData::Cname(cname) = &records[0].data {
                        let first = records[0].duplicate();
                        let mut new_query = self.message.queries[0].duplicate();
                        new_query.name = cname.clone();
                        let mut queries: Vec<DnsQuery> = Vec::new();
                        let ghost nq = new_query@;
                        queries.push(new_query);
                        let ghost prev_final = records_view(self.final_records@);
                        self.final_records.push(first);
                        assert(records_view(self.final_records@) =~= prev_final.push(rs[0]));
                        self.message = DnsMessage { header: self.request_header, queries };
                        assert(self.message@.queries =~= seq![nq]);
                        self.hop = self.hop + 1;
                        self.next = 0;
                        return PipelineStep::Running;
                    }
                    let header = self.final_header();
                    let out = copy_records(&self.final_records);
                    return PipelineStep::Respond { header, records: out, store: !from_cache };
                }
                extend_records(&mut self.final_records, &records);
                let header = self.final_header();
                let out = copy_records(&self.final_records);
                PipelineStep::Respond { header, records: out, store: !from_cache }
            },
        }
    }

    /// The header that ends a run with the records found so far.
    fn final_header(&self) -> (r: Header)
        ensures
            r == (Header {
                response_code: if self@.final_records.len() == 0 { RCODE_NX_DOMAIN } else { RCODE_NO_ERROR },
                ..response_header_for(self.request_header)
            }),
    {
        let mut header = Header::response_from_request(&self.request_header);
        if self.final_records.len() == 0 {
            header.response_code = RCODE_NX_DOMAIN;
        }
        header
    }
}

/// How far a run has come.
pub enum ProgressView {
    Running,
    Forward { plugin: usize, message: DnsMessageView },
    Respond { header: Header, records: Seq<DnsRecordView>, store: bool },
    Fail,
    GiveUp,
}

/// How far a run has come after a step.
pub enum Progress {
    /// The run goes on: take the next step.
    Running,
    /// Plugin `plugin` forwards `message` to its upstream servers: look it up
    /// and resume the run with the replies, in the order in which they came.
    Forward { plugin: usize, message: DnsMessage },
    /// Send this response; when `store` is set, first store the records for
    /// the request's question with [`PipelineHandler::store_cache`].
    Respond { header: Header, records: Vec<DnsRecord>, store: bool },
    /// The run cannot go on (the message has no question): fail with a
    /// server-failure header, sending nothing.
    Fail,
    /// Every hop has been taken without an answer: report a default header,
    /// sending nothing.
    GiveUp,
}

impl View for Progress {
    type V = ProgressView;

    open spec fn view(&self) -> ProgressView {
        match self {
            Progress::Running => ProgressView::Running,
            Progress::Forward { plugin, message } => ProgressView::Forward { plugin: *plugin, message: message@ },
            Progress::Respond { header, records, store } => ProgressView::Respond {
                header: *header,
                records: records_view(records@),
                store: *store,
            },
            Progress::Fail => ProgressView::Fail,
            Progress::GiveUp => ProgressView::GiveUp,
        }
    }
}

/// The progress that a step's decision leads to.
pub open spec fn progress_of(st: StepView) -> ProgressView {
    match st {
        StepView::Running => ProgressView::Running,
        StepView::Respond { header, records, store } => ProgressView::Respond { header, records, store },
    }
}

/// A run's state is consistent with `n` plugins: at most ten hops, the next
/// plugin at most `n`, and the first plugin once every hop is taken.
pub open spec fn run_wf(run: RunView, n: nat) -> bool {
    &&& run.hop <= MAX_CNAME_HOPS
    &&& run.next <= n
    &&& run.hop == MAX_CNAME_HOPS ==> run.next == 0
}

/// The run moved on to the next hop when this hop's plugins are used up
/// (with no plugin, every hop passes at once).
pub open spec fn normalized(run: RunView, n: nat) -> RunView {
    if n == 0 {
        RunView { hop: MAX_CNAME_HOPS, next: 0, ..run }
    } else if run.next >= n {
        RunView { hop: (run.hop + 1) as u8, next: 0, ..run }
    } else {
        run
    }
}

/// The position of the first cache plugin, if any.
pub open spec fn first_cache(ps: Seq<PipelinePlugin>) -> Option<int>
    decreases ps.len(),
{
    if ps.len() == 0 {
        None
    } else if ps[0].kind() == PluginKind::Cache {
        Some(0)
    } else {
        match first_cache(ps.drop_first()) {
            Some(i) => Some(i + 1),
            None => None,
        }
    }
}

proof fn lemma_first_cache(ps: Seq<PipelinePlugin>, i: int)
    requires
        0 <= i <= ps.len(),
        forall|j: int| 0 <= j < i ==> (#[trigger] ps[j]).kind() != PluginKind::Cache,
        i == ps.len() || ps[i].kind() == PluginKind::Cache,
    ensures
        first_cache(ps) == (if i == ps.len() { None } else { Some(i) }),
    decreases ps.len(),
{
    if ps.len() > 0 && i > 0 {
        assert(ps[0].kind() != PluginKind::Cache);
        assert forall|j: int| 0 <= j < i - 1 implies (#[trigger] ps.drop_first()[j]).kind() != PluginKind::Cache by {
            assert(ps.drop_first()[j] == ps[j + 1]);
        }
        lemma_first_cache(ps.drop_first(), i - 1);
    }
}

/// The first cache plugin of `ps`, if any, has ordered lifetime bounds.
pub open spec fn first_cache_ordered(ps: Seq<PipelinePlugin>) -> bool {
    match first_cache(ps) {
        Some(ci) => match ps[ci] {
            PipelinePlugin::Cache(c) => c.config_view().min_ttl <= c.config_view().max_ttl,
            _ => true,
        },
        None => true,
    }
}

/// Storing `records` for `query` at time `t`: when the answer has records
/// and there is a cache plugin, the first one stores them (see
/// [`store_outcome`]) and every other plugin is unchanged; otherwise nothing
/// changes.
pub open spec fn stored_in_first_cache(
    old: Seq<PipelinePlugin>,
    new: Seq<PipelinePlugin>,
    query: DnsQueryView,
    records: Seq<DnsRecordView>,
    t: u128,
) -> bool {
    match first_cache(old) {
        Some(ci) => if records.len() > 0 {
            &&& new.len() == old.len()
            &&& forall|j: int| 0 <= j < old.len() && j != ci ==> new[j] == old[j]
            &&& match (old[ci], new[ci]) {
                (PipelinePlugin::Cache(a), PipelinePlugin::Cache(b)) => {
                    &&& b.wf()
                    &&& b.config_view() == a.config_view()
                    &&& store_outcome(a.contents(), b.contents(), cache_key(query),
                        stored_entry(records, a.config_view(), t), a.config_view().max_size)
                },
                _ => false,
            }
        } else {
            new == old
        },
        None => new == old,
    }
}

/// The plugins after plugin `i` handled `message` at time `t`: only that
/// plugin may change, and only when it is a cache, which keeps its
/// configuration, may only lose entries, and drops the question's entry when
/// it had expired.
pub open spec fn ran_plugin(old: Seq<PipelinePlugin>, new: Seq<PipelinePlugin>, i: int, message: DnsMessageView, t: u128) -> bool {
    &&& new.len() == old.len()
    &&& forall|j: int| 0 <= j < old.len() && j != i ==> new[j] == old[j]
    &&& new[i].wf()
    &&& match (old[i], new[i]) {
        (PipelinePlugin::Cache(a), PipelinePlugin::Cache(b)) => {
            &&& b.config_view() == a.config_view()
            &&& b.contents().submap_of(a.contents())
            &&& expired_removed(a.contents(), b.contents(), message, t)
        },
        (PipelinePlugin::Cache(_), _) => false,
        (x, y) => x == y,
    }
}

/// One step of a run over plugins `old_ps` (becoming `new_ps`), the run going
/// from `old_run` to `new_run` with progress `r`; the cache reads its clock
/// at `t`.  After moving to the next hop when needed: once every hop is taken
/// the run gives up; a message without question fails; a forwarding plugin
/// hands the message out; any other plugin runs and its outcome is applied
/// (see [`apply_outcome`]).
pub open spec fn step_spec(
    old_ps: Seq<PipelinePlugin>,
    new_ps: Seq<PipelinePlugin>,
    old_run: RunView,
    new_run: RunView,
    r: ProgressView,
    t: u128,
) -> bool {
    let pre = normalized(old_run, old_ps.len());
    if pre.hop >= MAX_CNAME_HOPS {
        new_run == pre && r == ProgressView::GiveUp && new_ps == old_ps
    } else if pre.message.queries.len() == 0 {
        new_run == pre && r == ProgressView::Fail && new_ps == old_ps
    } else if old_ps[pre.next as int].kind() == PluginKind::FastForward {
        new_run == pre && r == (ProgressView::Forward { plugin: pre.next, message: pre.message }) && new_ps == old_ps
    } else {
        let p = old_ps[pre.next as int];
        let (run2, st) = apply_outcome(pre, p.kind() == PluginKind::Cache, p.local_outcome(pre.message, t));
        &&& new_run == run2
        &&& r == progress_of(st)
        &&& ran_plugin(old_ps, new_ps, pre.next as int, pre.message, t)
    }
}

/// Resuming a run that waits on a forwarding plugin with the upstream
/// replies `replies`, in completion order (see [`forward_action`]).
pub open spec fn resume_spec(
    old_run: RunView,
    new_run: RunView,
    r: ProgressView,
    replies: Seq<Option<Result<Seq<DnsRecordView>, ()>>>,
) -> bool {
    let (run2, st) = apply_outcome(old_run, false, forward_action(replies));
    &&& new_run == run2
    &&& r == progress_of(st)
}

/// Two configurations agree on the sections that plugins are made from.
pub open spec fn same_sections(a: &Config, b: &Config) -> bool {
    &&& a.pipeline@.map_values(|s: String| s@) == b.pipeline@.map_values(|s: String| s@)
    &&& a.cache is Some == b.cache is Some
    &&& a.cache is Some ==> a.cache->0@ == b.cache->0@
    &&& a.hosts is Some == b.hosts is Some
    &&& a.hosts is Some ==> a.hosts->0@ == b.hosts->0@
    &&& a.blackhole is Some == b.blackhole is Some
    &&& a.blackhole is Some ==> a.blackhole->0@ == b.blackhole->0@
    &&& a.fast_forward is Some == b.fast_forward is Some
    &&& a.fast_forward is Some ==> a.fast_forward->0@ == b.fast_forward->0@
}

proof fn lemma_same_sections(a: &Config, b: &Config)
    requires
        same_sections(a, b),
    ensures
        forward_fails(a) == forward_fails(b),
        kinds_for(a, a.pipeline@.map_values(|s: String| s@)) == kinds_for(b, b.pipeline@.map_values(|s: String| s@)),
{
    lemma_kinds_same(a, b, a.pipeline@.map_values(|s: String| s@));
}

proof fn lemma_kinds_same(a: &Config, b: &Config, names: Seq<Seq<char>>)
    requires
        same_sections(a, b),
    ensures
        kinds_for(a, names) == kinds_for(b, names),
    decreases names.len(),
{
    if names.len() > 0 {
        lemma_kinds_same(a, b, names.drop_last());
    }
}

proof fn lemma_creatable_same_sections(a: &Config, b: &Config)
    requires
        same_sections(a, b),
        plugins_creatable(b),
    ensures
        plugins_creatable(a),
{
    lemma_same_sections(a, b);
}

proof fn lemma_built_from_same_sections(p: PipelinePlugin, a: &Config, b: &Config)
    requires
        same_sections(a, b),
        built_from(p, a),
    ensures
        built_from(p, b),
{
}

/// Every response a run ends with answers the request: it carries the
/// request's id, operation code and RD and CD bits and is marked a response.
/// A plugin's error code is answered with that code, no record, and nothing
/// cached; an answer is answered with "no such domain" exactly when it has no
/// record; an answer that came from the cache is never stored again.
pub proof fn lemma_response_answers_request(run: RunView, from_cache: bool, outcome: Result<PluginActionView, u16>)
    requires
        run.message.queries.len() > 0,
    ensures
        apply_outcome(run, from_cache, outcome).1 matches StepView::Respond { header, records, store } ==> {
            &&& header.id == run.request_header.id
            &&& header.message_type == MessageType::Response
            &&& header.op_code == run.request_header.op_code
            &&& header.recursion_desired == run.request_header.recursion_desired
            &&& header.checking_disabled == run.request_header.checking_disabled
            &&& (from_cache ==> !store)
            &&& match outcome {
                Err(code) => header.response_code == code && records.len() == 0 && !store,
                Ok(_) => (header.response_code == RCODE_NX_DOMAIN) == (records.len() == 0)
                    && (records.len() > 0 ==> header.response_code == RCODE_NO_ERROR),
            }
        },
{
}

/// An answer that names an alias to chase is followed: the alias record is
/// kept, and the next hop asks the first plugin for the alias' target with
/// the question's type and class, under the request's header.
pub proof fn lemma_alias_chased(run: RunView, from_cache: bool, rs: Seq<DnsRecordView>, target: Seq<char>)
    requires
        run.message.queries.len() > 0,
        run.hop < MAX_CNAME_HOPS,
        chaseable(rs, run.message.queries[0].name, run.query.query_type),
        rs[0].data == RecordDataView::Cname(target),
    ensures
        ({
            let (next, st) = apply_outcome(run, from_cache, Ok(PluginActionView::Response(rs)));
            &&& st == StepView::Running
            &&& next.final_records == run.final_records.push(rs[0])
            &&& next.message.header == run.request_header
            &&& next.message.queries.len() == 1
            &&& next.message.queries[0].name == target
            &&& next.message.queries[0].query_type == run.message.queries[0].query_type
            &&& next.message.queries[0].query_class == run.message.queries[0].query_class
            &&& next.hop == run.hop + 1
            &&& next.next == 0
        }),
{
}

/// The first alias of `rs` owned by `qname` is the record at `i` when no
/// earlier record is such an alias.
proof fn lemma_find_owned_at(rs: Seq<DnsRecordView>, qname: Seq<char>, i: int)
    requires
        0 <= i < rs.len(),
        rs[i].record_type() == RECORD_TYPE_CNAME,
        same_name(rs[i].name, qname),
        forall|j: int| 0 <= j < i ==> !((#[trigger] rs[j]).record_type() == RECORD_TYPE_CNAME && same_name(rs[j].name, qname)),
    ensures
        find_owned_cname(rs, qname) == Some(rs[i]),
    decreases i,
{
    if i > 0 {
        assert(!(rs[0].record_type() == RECORD_TYPE_CNAME && same_name(rs[0].name, qname)));
        let t = rs.drop_first();
        assert forall|j: int| 0 <= j < i - 1 implies !((#[trigger] t[j]).record_type() == RECORD_TYPE_CNAME && same_name(t[j].name, qname)) by {
            assert(t[j] == rs[j + 1]);
        }
        lemma_find_owned_at(t, qname, i - 1);
        assert(t[i - 1] == rs[i]);
    }
}

/// For every question type, an answer whose first alias owned by the queried
/// name points at a target that no record of the answer answers with the
/// originally queried type is chased: the run keeps the answer's first
/// record, an alias, and starts the next hop at the first plugin, asking for
/// that alias' target with the question's type and class.  This holds for
/// AAAA, TXT or any other type just as for A.
pub proof fn lemma_alias_chased_for_every_type(
    run: RunView,
    from_cache: bool,
    rs: Seq<DnsRecordView>,
    i: int,
    target: Seq<char>,
    first_target: Seq<char>,
)
    requires
        run.message.queries.len() > 0,
        run.hop < MAX_CNAME_HOPS,
        0 <= i < rs.len(),
        same_name(rs[i].name, run.message.queries[0].name),
        rs[i].data == RecordDataView::Cname(target),
        forall|j: int| 0 <= j < i ==> !((#[trigger] rs[j]).record_type() == RECORD_TYPE_CNAME
            && same_name(rs[j].name, run.message.queries[0].name)),
        forall|j: int| 0 <= j < rs.len() ==> !(same_name((#[trigger] rs[j]).name, target)
            && rs[j].record_type() == run.query.query_type),
        rs[0].data == RecordDataView::Cname(first_target),
    ensures
        ({
            let (next, st) = apply_outcome(run, from_cache, Ok(PluginActionView::Response(rs)));
            &&& st == StepView::Running
            &&& next.final_records == run.final_records.push(rs[0])
            &&& next.message.header == run.request_header
            &&& next.message.queries.len() == 1
            &&& next.message.queries[0].name == first_target
            &&& next.message.queries[0].query_type == run.message.queries[0].query_type
            &&& next.message.queries[0].query_class == run.message.queries[0].query_class
            &&& next.hop == run.hop + 1
            &&& next.next == 0
        }),
{
    let qname = run.message.queries[0].name;
    lemma_find_owned_at(rs, qname, i);
    assert(!answers_target(rs, target, run.query.query_type));
    assert(chaseable(rs, qname, run.query.query_type));
}

/// How far a run over `n` plugins is from its end: the steps it can still take.
pub open spec fn steps_left(run: RunView, n: nat) -> int {
    (MAX_CNAME_HOPS - run.hop) * (n + 1) + (n - run.next)
}

/// Every step of a run that does not end it brings the run closer to its
/// end: a run over `n` plugins ends (with a response, a failure, a
/// forwarding or giving up) within `11 * (n + 1)` steps.
pub proof fn lemma_step_brings_end_closer(
    old_ps: Seq<PipelinePlugin>,
    new_ps: Seq<PipelinePlugin>,
    old_run: RunView,
    new_run: RunView,
    t1: u128,
)
    requires
        old_ps.len() <= usize::MAX,
        run_wf(old_run, old_ps.len()),
        step_spec(old_ps, new_ps, old_run, new_run, ProgressView::Running, t1),
    ensures
        run_wf(new_run, old_ps.len()),
        0 <= steps_left(new_run, old_ps.len()) < steps_left(old_run, old_ps.len()),
        steps_left(old_run, old_ps.len()) <= (MAX_CNAME_HOPS + 1) * (old_ps.len() + 1),
{
    let n = old_ps.len();
    let pre = normalized(old_run, n);
    let h = old_run.hop as int;
    let k = old_run.next as int;
    let h2 = new_run.hop as int;
    let k2 = new_run.next as int;
    let m = MAX_CNAME_HOPS as int;
    assert(n > 0);
    assert(pre.hop < MAX_CNAME_HOPS);
    let out = old_ps[pre.next as int].local_outcome(pre.message, t1);
    let from_cache = old_ps[pre.next as int].kind() == PluginKind::Cache;
    assert(apply_outcome(pre, from_cache, out).1 == StepView::Running);
    assert(new_run == apply_outcome(pre, from_cache, out).0);
    assert((new_run.hop == pre.hop + 1 && new_run.next == 0) || (new_run.hop == pre.hop && new_run.next == pre.next + 1)) by {
        match out {
            Err(_) => {},
            Ok(PluginActionView::Continue(_)) => {},
            Ok(PluginActionView::Response(rs)) => {
                if chaseable(rs, pre.message.queries[0].name, pre.query.query_type) {
                    match rs[0].data {
                        RecordDataView::Cname(_) => {},
                        _ => {},
                    }
                }
            },
        }
    }
    assert(steps_left(old_run, n) == (m - h) * (n + 1) + (n - k));
    assert(steps_left(new_run, n) == (m - h2) * (n + 1) + (n - k2));
    if k >= n {
        assert(k == n);
        assert(pre.hop == h + 1 && pre.next == 0);
        if h2 == h + 2 {
            assert(k2 == 0);
            assert((m - h2) * (n + 1) + n < (m - h) * (n + 1)) by (nonlinear_arith)
                requires h2 == h + 2, n > 0;
        } else {
            assert(h2 == h + 1 && k2 == 1);
            assert((m - h2) * (n + 1) + (n - 1) < (m - h) * (n + 1)) by (nonlinear_arith)
                requires h2 == h + 1, n > 0;
        }
    } else {
        if h2 == h + 1 {
            assert(k2 == 0);
            assert((m - h2) * (n + 1) + n < (m - h) * (n + 1) + (n - k)) by (nonlinear_arith)
                requires h2 == h + 1, k < n, n > 0;
        } else {
            assert(h2 == h && k2 == k + 1);
        }
    }
    assert(0 <= (m - h2) * (n + 1)) by (nonlinear_arith)
        requires h2 <= m, n >= 0;
    assert((m - h) * (n + 1) + (n - k) <= (m + 1) * (n + 1)) by (nonlinear_arith)
        requires 0 <= h, 0 <= k, k <= n, h <= m;
}

/// An answer that the pipeline stores at time `t` replaces whatever the
/// first cache (with room for any entry) held for the question, and that
/// cache then serves it to a request with the same question (name up to
/// ASCII case, type, class) until the answer's lifetime runs out.
pub proof fn lemma_stored_answer_served_by_first_cache(
    old: Seq<PipelinePlugin>,
    new: Seq<PipelinePlugin>,
    query: DnsQueryView,
    records: Seq<DnsRecordView>,
    t: u128,
    ci: int,
    request: DnsMessageView,
    later: u128,
)
    requires
        stored_in_first_cache(old, new, query, records, t),
        records.len() > 0,
        first_cache(old) == Some(ci),
        old[ci] matches PipelinePlugin::Cache(a) && a.config_view().max_size > 0
            && later < stored_entry(records, a.config_view(), t).expires_at,
        request.queries.len() > 0,
        cache_key(request.queries[0]) == cache_key(query),
    ensures
        new[ci] matches PipelinePlugin::Cache(b) && b.contents()[cache_key(query)] == stored_entry(records, b.config_view(), t),
        new[ci].local_outcome(request, later) == Ok::<PluginActionView, u16>(PluginActionView::Response(records)),
{
}

/// The plugin calls a run over `n` plugins has used up: `n` per hop taken,
/// plus the plugins run in this hop.
pub open spec fn calls_made(run: RunView, n: nat) -> int {
    run.hop * n + run.next
}

/// A run over `n` plugins calls plugins at most ten times `n` times: moving
/// to the next hop leaves the count of calls used up unchanged; a plugin is
/// called only while that count is below `10 * n`; and every call whose
/// outcome lets the run go on raises the count by at least one.
pub proof fn lemma_plugin_calls_within_budget(
    run: RunView,
    n: nat,
    from_cache: bool,
    outcome: Result<PluginActionView, u16>,
)
    requires
        0 < n <= usize::MAX,
        run_wf(run, n),
    ensures
        ({
            let pre = normalized(run, n);
            &&& calls_made(pre, n) == calls_made(run, n)
            &&& run_wf(pre, n)
            &&& pre.hop < MAX_CNAME_HOPS && pre.message.queries.len() > 0 ==> {
                &&& pre.next < n
                &&& calls_made(pre, n) < MAX_CNAME_HOPS * n
                &&& apply_outcome(pre, from_cache, outcome).1 == StepView::Running ==> {
                    &&& calls_made(apply_outcome(pre, from_cache, outcome).0, n) > calls_made(pre, n)
                    &&& run_wf(apply_outcome(pre, from_cache, outcome).0, n)
                }
            }
        }),
{
    let pre = normalized(run, n);
    let h = run.hop as int;
    let k = run.next as int;
    if k >= n {
        assert((h + 1) * n + 0 == h * n + n) by (nonlinear_arith);
    }
    if pre.hop < MAX_CNAME_HOPS && pre.message.queries.len() > 0 {
        let ph = pre.hop as int;
        let pk = pre.next as int;
        assert(pk < n);
        assert(ph * n + pk < 10 * n) by (nonlinear_arith)
            requires ph < 10, pk < n, ph >= 0;
        let next = apply_outcome(pre, from_cache, outcome).0;
        if apply_outcome(pre, from_cache, outcome).1 == StepView::Running {
            assert((next.hop == pre.hop + 1 && next.next == 0) || (next.hop == pre.hop && next.next == pre.next + 1)) by {
                match outcome {
                    Err(_) => {},
                    Ok(PluginActionView::Continue(_)) => {},
                    Ok(PluginActionView::Response(rs)) => {
                        if chaseable(rs, pre.message.queries[0].name, pre.query.query_type) {
                            match rs[0].data {
                                RecordDataView::Cname(_) => {},
                                _ => {},
                            }
                        }
                    },
                }
            }
            if next.hop == pre.hop + 1 {
                assert((ph + 1) * n > ph * n + pk) by (nonlinear_arith)
                    requires pk < n;
            }
        }
    }
}

/// The pipeline: its plugins, in order, and the configuration they came from.
pub struct PipelineHandler {
    pub plugins: Vec<PipelinePlugin>,
    pub config: Config,
}

impl PipelineHandler {
    /// Every plugin keeps its invariant.
    pub open spec fn wf(&self) -> bool {
        forall|i: int| 0 <= i < self.plugins@.len() ==> (#[trigger] self.plugins@[i]).wf()
    }

    /// The pipeline of a configuration (see [`create_plugins`]).
    pub fn new(config: Config) -> (r: PipelineHandler)
        requires
            plugins_creatable(&config),
        ensures
            r.wf(),
            r.plugins@.map_values(|p: PipelinePlugin| p.kind()) == kinds_for(&config, config.pipeline@.map_values(|s: String| s@)),
            forall|i: int| 0 <= i < r.plugins@.len() ==> built_from(#[trigger] r.plugins@[i], &config),
            r.config == config,
    {
        let copy = config.duplicate();
        let ghost copy_ghost = copy;
        proof {
            lemma_same_sections(&copy_ghost, &config);
            lemma_creatable_same_sections(&copy_ghost, &config);
        }
        let plugins = create_plugins(copy);
        proof {
            assert forall|i: int| 0 <= i < plugins@.len() implies built_from(#[trigger] plugins@[i], &config) by {
                lemma_built_from_same_sections(plugins@[i], &copy_ghost, &config);
            }
        }
        PipelineHandler { plugins, config }
    }

    /// Whether plugin `i` is a cache.
    fn is_cache(&self, i: usize) -> (r: bool)
        requires
            i < self.plugins@.len(),
        ensures
            r == (self.plugins@[i as int].kind() == PluginKind::Cache),
    {
        match &self.plugins[i] {
            PipelinePlugin::Cache(_) => true,
            _ => false,
        }
    }

    /// The position of the first cache plugin, or the number of plugins.
    fn find_first_cache(&self) -> (r: usize)
        ensures
            r <= self.plugins@.len(),
            forall|j: int| 0 <= j < r ==> (#[trigger] self.plugins@[j]).kind() != PluginKind::Cache,
            r == self.plugins@.len() || self.plugins@[r as int].kind() == PluginKind::Cache,
    {
        let mut i: usize = 0;
        while i < self.plugins.len()
            invariant
                i <= self.plugins@.len(),
                forall|j: int| 0 <= j < i ==> (#[trigger] self.plugins@[j]).kind() != PluginKind::Cache,
            decreases self.plugins.len() - i,
        {
            if self.is_cache(i) {
                return i;
            }
            i = i + 1;
        }
        i
    }

    /// Whether the first cache plugin, if any, has ordered lifetime bounds:
    /// storing a non-empty answer needs it.
    pub fn first_cache_bounds_ordered(&self) -> (r: bool)
        ensures
            r == first_cache_ordered(self.plugins@),
    {
        let i = self.find_first_cache();
        proof {
            lemma_first_cache(self.plugins@, i as int);
        }
        if i == self.plugins.len() {
            return true;
        }
        match &self.plugins[i] {
            PipelinePlugin::Cache(c) => c.bounds_ordered(),
            _ => true,
        }
    }

    /// Stores an answer for `query` in the first cache plugin, if there is one
    /// (see [`CachePlugin::store`](crate::plugins::cache::CachePlugin::store));
    /// every other plugin is unchanged.  Storing a non-empty answer needs the
    /// first cache's lifetime bounds to be ordered.
    pub fn store_cache(&mut self, query: &DnsQuery, records: &Vec<DnsRecord>)
        requires
            old(self).wf(),
            records@.len() > 0 ==> first_cache_ordered(old(self).plugins@),
        ensures
            final(self).wf(),
            final(self).config == old(self).config,
            exists|t: u128| stored_in_first_cache(old(self).plugins@, final(self).plugins@, query@, records_view(records@), t),
    {
        let ghost old_ps = self.plugins@;
        let i = self.find_first_cache();
        proof {
            lemma_first_cache(old_ps, i as int);
        }
        if i == self.plugins.len() || records.len() == 0 {
            assert(stored_in_first_cache(old_ps, self.plugins@, query@, records_view(records@), 0));
            return;
        }
        let p = self.plugins.remove(i);
        let ghost t: u128 = 0;
        let p2 = match p {
            PipelinePlugin::Cache(mut c) => {
                assert(old_ps[i as int].wf());
                let ghost before = c;
                c.store(query.duplicate(), copy_records(records));
                proof {
                    t = choose|now: u128| store_outcome(
                        before.contents(),
                        c.contents(),
                        cache_key(query@),
                        stored_entry(records_view(records@), before.config_view(), now),
                        before.config_view().max_size,
                    );
                }
                PipelinePlugin::Cache(c)
            },
            other => other,
        };
        self.plugins.insert(i, p2);
        proof {
            assert(self.plugins@ =~= old_ps.update(i as int, p2));
            assert forall|j: int| 0 <= j < old_ps.len() implies (#[trigger] self.plugins@[j]).wf() by {
                assert(old_ps[j].wf());
            }
            assert(stored_in_first_cache(old_ps, self.plugins@, query@, records_view(records@), t));
        }
    }

    /// Takes one step of a run: moves to the next hop when this hop's plugins
    /// are used up, then gives up after ten hops, fails a message without
    /// question, hands the message out at a forwarding plugin, or runs the
    /// next plugin and applies its outcome (see [`step_spec`]).  A response
    /// that asks to be stored is stored by the caller with
    /// [`PipelineHandler::store_cache`].
    pub fn step(&mut self, run: &mut PipelineRun) -> (r: Progress)
        requires
            old(self).wf(),
            run_wf(old(run)@, old(self).plugins@.len()),
        ensures
            final(self).wf(),
            final(self).config == old(self).config,
            run_wf(final(run)@, final(self).plugins@.len()),
            exists|t: u128| step_spec(old(self).plugins@, final(self).plugins@, old(run)@, final(run)@, r@, t),
    {
        let ghost old_ps = self.plugins@;
        let ghost old_run = run@;
        let n = self.plugins.len();
        if n == 0 {
            run.hop = MAX_CNAME_HOPS;
            run.next = 0;
        } else if run.next >= n {
            run.hop = run.hop + 1;
            run.next = 0;
        }
        let ghost pre = run@;
        assert(pre == normalized(old_run, old_ps.len()));
        if run.hop >= MAX_CNAME_HOPS {
            let r = Progress::GiveUp;
            assert(step_spec(old_ps, self.plugins@, old_run, run@, r@, 0));
            return r;
        }
        if run.message.queries.len() == 0 {
            let r = Progress::Fail;
            assert(step_spec(old_ps, self.plugins@, old_run, run@, r@, 0));
            return r;
        }
        let i = run.next;
        let forward = match &self.plugins[i] {
            PipelinePlugin::FastForward(_) => true,
            _ => false,
        };
        if forward {
            let message = run.message.duplicate();
            let r = Progress::Forward { plugin: i, message };
            assert(step_spec(old_ps, self.plugins@, old_run, run@, r@, 0));
            return r;
        }
        let msg = run.message.duplicate();
        let p = self.plugins.remove(i);
        assert(old_ps[i as int].wf());
        let ghost t1: u128 = 0;
        let (p2, outcome, from_cache) = match p {
            PipelinePlugin::Cache(mut c) => {
                let ghost before = c;
                let o = c.handle_request(msg);
                proof {
                    t1 = choose|now: u128| outcome_view(o) == crate::plugins::cache::cache_action(before.contents(), pre.message, now)
                        && expired_removed(before.contents(), c.contents(), pre.message, now);
                }
                (PipelinePlugin::Cache(c), o, true)
            },
            PipelinePlugin::Hosts(h) => {
                let o = h.handle_request(msg);
                (PipelinePlugin::Hosts(h), o, false)
            },
            PipelinePlugin::Blackhole(b) => {
                let o = b.handle_request(msg);
                (PipelinePlugin::Blackhole(b), o, false)
            },
            PipelinePlugin::Arbitrary(a) => {
                let o = a.handle_request(msg);
                (PipelinePlugin::Arbitrary(a), o, false)
            },
            PipelinePlugin::FastForward(f) => {
                assert(false);
                (PipelinePlugin::FastForward(f), Err(RCODE_SERV_FAIL), false)
            },
        };
        self.plugins.insert(i, p2);
        proof {
            assert(self.plugins@ =~= old_ps.update(i as int, p2));
            assert(outcome_view(outcome) == old_ps[i as int].local_outcome(pre.message, t1));
            assert forall|j: int| 0 <= j < old_ps.len() implies (#[trigger] self.plugins@[j]).wf() by {
                assert(old_ps[j].wf());
            }
            assert(ran_plugin(old_ps, self.plugins@, i as int, pre.message, t1));
        }
        let st = run.apply(from_cache, outcome);
        let r = match st {
            PipelineStep::Running => Progress::Running,
            PipelineStep::Respond { header, records, store } => Progress::Respond { header, records, store },
        };
        assert(step_spec(old_ps, self.plugins@, old_run, run@, r@, t1));
        r
    }

    /// Resumes a run that waits on the forwarding plugin `run.next` with the
    /// upstream replies in the order in which the lookups completed (`None`:
    /// no reply; `Err`: the lookup failed), answering with the first valid
    /// reply (see [`resume_spec`]).  A response that asks to be stored is
    /// stored by the caller with [`PipelineHandler::store_cache`].
    pub fn resume(&self, run: &mut PipelineRun, replies: Vec<Option<Result<Vec<DnsRecord>, ()>>>) -> (r: Progress)
        requires
            self.wf(),
            run_wf(old(run)@, self.plugins@.len()),
            old(run)@.next < self.plugins@.len(),
            old(run)@.hop < MAX_CNAME_HOPS,
            old(run)@.message.queries.len() > 0,
            self.plugins@[old(run)@.next as int].kind() == PluginKind::FastForward,
        ensures
            run_wf(final(run)@, self.plugins@.len()),
            resume_spec(old(run)@, final(run)@, r@, replies_view(replies@)),
    {
        let ghost old_run = run@;
        let ghost rv = replies_view(replies@);
        let n = self.plugins.len();
        assert(run.next < n);
        let outcome = match &self.plugins[run.next] {
            PipelinePlugin::FastForward(f) => f.answer_from(replies),
            _ => {
                assert(false);
                Err(RCODE_SERV_FAIL)
            },
        };
        let st = run.apply(false, outcome);
        let r = match st {
            PipelineStep::Running => Progress::Running,
            PipelineStep::Respond { header, records, store } => Progress::Respond { header, records, store },
        };
        assert(resume_spec(old_run, run@, r@, rv));
        r
    }
}

} // verus!
