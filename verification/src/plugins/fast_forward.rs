//! fast_forward: forwards queries to every upstream server and takes the
//! first answer.  This module decides how each upstream is reached and what
//! the first answer means; connecting and querying happen at the edge.
use vstd::prelude::*;
use crate::config::new_config::{FastForward, FastForwardView};
use crate::dns::{DnsRecord, RCODE_SERV_FAIL};
use crate::names::{chars_of, ends_with, has_prefix, has_suffix, starts_with, trim_leading, trim_start_matches};
use crate::plugins::plugin::{Plugin, PluginAction, PluginActionView, outcome_view};
use crate::dns::DnsRecordView;
use crate::dns::{copy_records, records_view};
use crate::textparse::{parse_ipv4, parse_ipv6, spec_parse_ipv4, spec_parse_ipv6, spec_url_parts, url_parts};

verus! {

/// How an upstream server is reached.
#[derive(Debug)]
pub enum UpstreamPlan {
    /// DNS over HTTPS to `server_name` on port 443, at `path`.
    Https { server_name: String, path: String },
    /// DNS over TLS to `server_name` on port 853.
    Tls { server_name: String },
    /// Plain DNS over UDP to the socket address written in `address`.
    Udp { address: String },
}

/// The mathematical value of an [`UpstreamPlan`].
pub enum UpstreamPlanView {
    Https { server_name: Seq<char>, path: Seq<char> },
    Tls { server_name: Seq<char> },
    Udp { address: Seq<char> },
}

impl View for UpstreamPlan {
    type V = UpstreamPlanView;

    open spec fn view(&self) -> UpstreamPlanView {
        match self {
            UpstreamPlan::Https { server_name, path } => UpstreamPlanView::Https { server_name: server_name@, path: path@ },
            UpstreamPlan::Tls { server_name } => UpstreamPlanView::Tls { server_name: server_name@ },
            UpstreamPlan::Udp { address } => UpstreamPlanView::Udp { address: address@ },
        }
    }
}

/// Why the upstreams cannot be set up.
#[derive(Debug, Clone, Copy, PartialEq, Eq, Structural)]
pub enum ForwardError {
    /// An `https://` upstream is not a valid URL.
    InvalidUrl,
    /// An `https://` upstream has no host.
    MissingHost,
    /// An upstream of the `...:53` form is not a socket address.
    InvalidAddress,
    /// An upstream is neither `https://...`, `tls://...` nor `...:53`.
    UnsupportedUpstream,
    /// No upstream is configured.
    NoUpstreams,
}

/// The decimal value of a text of ASCII digits.
pub open spec fn decimal_value(t: Seq<char>) -> int
    decreases t.len(),
{
    if t.len() == 0 {
        0
    } else {
        decimal_value(t.drop_last()) * 10 + (t.last() as int - '0' as int)
    }
}

/// Every character of `t` is an ASCII digit.
pub open spec fn is_digits(t: Seq<char>) -> bool {
    forall|i: int| 0 <= i < t.len() ==> '0' <= #[trigger] t[i] <= '9'
}

/// A zone index (the text after `%` in `[address%zone]`): one or more
/// decimal digits whose value fits in 32 bits.
pub open spec fn scope_id_ok(t: Seq<char>) -> bool {
    t.len() > 0 && is_digits(t) && decimal_value(t) <= u32::MAX
}

/// The text between the brackets of `[address]`: an IPv6 address, optionally
/// followed by `%` and a zone index.
pub open spec fn bracketed_ipv6_ok(inner: Seq<char>) -> bool {
    ||| (!inner.contains('%') && spec_parse_ipv6(inner) is Some)
    ||| exists|i: int| 0 <= i < inner.len() && inner[i] == '%' && !inner.take(i).contains('%')
            && (#[trigger] spec_parse_ipv6(inner.take(i))) is Some && scope_id_ok(inner.skip(i + 1))
}

/// The address part of a socket address: an IPv4 address, or an IPv6
/// address (with an optional zone index) in brackets.
pub open spec fn socket_host_ok(h: Seq<char>) -> bool {
    ||| spec_parse_ipv4(h) is Some
    ||| (h.len() >= 2 && h[0] == '[' && h.last() == ']' && bracketed_ipv6_ok(h.subrange(1, h.len() - 1)))
}

/// How the upstream written `s` is reached: `https://` URLs by their host
/// and path, `tls://` names by the text after every leading `tls://`, and
/// socket addresses with port 53 (`address:53`, `[address]:53`) over UDP; a
/// text ending in `:53` that is not such an address is invalid, and anything
/// else is unsupported.
pub open spec fn plan_for(s: Seq<char>) -> Result<UpstreamPlanView, ForwardError> {
    if has_prefix(s, "https://"@) {
        match spec_url_parts(s) {
            None => Err(ForwardError::InvalidUrl),
            Some((None, _)) => Err(ForwardError::MissingHost),
            Some((Some(h), p)) => Ok(UpstreamPlanView::Https { server_name: h, path: p }),
        }
    } else if has_prefix(s, "tls://"@) {
        Ok(UpstreamPlanView::Tls { server_name: trim_leading(s, "tls://"@) })
    } else if has_suffix(s, ":53"@) {
        if socket_host_ok(s.take(s.len() - 3)) {
            Ok(UpstreamPlanView::Udp { address: s })
        } else {
            Err(ForwardError::InvalidAddress)
        }
    } else {
        Err(ForwardError::UnsupportedUpstream)
    }
}

/// Longer digit texts have larger values.
proof fn lemma_decimal_monotone(t: Seq<char>, i: int)
    requires
        is_digits(t),
        0 <= i <= t.len(),
    ensures
        decimal_value(t.take(i)) <= decimal_value(t),
        0 <= decimal_value(t.take(i)),
    decreases t.len() - i,
{
    if i < t.len() {
        lemma_decimal_monotone(t, i + 1);
        assert(t.take(i + 1).drop_last() =~= t.take(i));
        assert('0' <= t[i] <= '9');
        assert(t.take(i + 1).last() == t[i]);
        lemma_decimal_nonneg(t.take(i));
    } else {
        assert(t.take(i) =~= t);
        lemma_decimal_nonneg(t);
    }
}

proof fn lemma_decimal_nonneg(t: Seq<char>)
    requires
        is_digits(t),
    ensures
        0 <= decimal_value(t),
    decreases t.len(),
{
    if t.len() > 0 {
        assert(is_digits(t.drop_last())) by {
            assert forall|i: int| 0 <= i < t.drop_last().len() implies '0' <= #[trigger] t.drop_last()[i] <= '9' by {
                assert(t.drop_last()[i] == t[i]);
            }
        }
        lemma_decimal_nonneg(t.drop_last());
        assert('0' <= t[t.len() - 1] <= '9');
    }
}

/// Whether `t` is a zone index.
fn scope_id_valid(t: &str) -> (r: bool)
    ensures
        r == scope_id_ok(t@),
{
    let cs = chars_of(t);
    if cs.len() == 0 {
        return false;
    }
    let mut v: u64 = 0;
    let mut i: usize = 0;
    assert(t@.take(0) =~= Seq::<char>::empty());
    while i < cs.len()
        invariant
            i <= cs.len(),
            cs@ == t@,
            v == decimal_value(t@.take(i as int)),
            v <= u32::MAX,
            is_digits(t@.take(i as int)),
        decreases cs.len() - i,
    {
        let c = cs[i];
        assert(t@.take(i + 1).drop_last() =~= t@.take(i as int));
        assert(t@.take(i + 1).last() == c);
        if !('0' <= c && c <= '9') {
            assert(!is_digits(t@)) by {
                assert(t@[i as int] == c);
            }
            return false;
        }
        let d: u64 = (c as u32 - '0' as u32) as u64;
        v = v * 10 + d;
        assert(is_digits(t@.take(i + 1))) by {
            assert forall|j: int| 0 <= j < i + 1 implies '0' <= #[trigger] t@.take(i + 1)[j] <= '9' by {
                if j < i {
                    assert(t@.take(i + 1)[j] == t@.take(i as int)[j]);
                }
            }
        }
        if v > 0xffff_ffff {
            proof {
                if is_digits(t@) {
                    lemma_decimal_monotone(t@, i + 1);
                }
            }
            return false;
        }
        i = i + 1;
    }
    assert(t@.take(cs.len() as int) =~= t@);
    true
}

/// Whether `inner` is an IPv6 address with an optional zone index.
fn bracketed_ipv6_valid(inner: &str) -> (r: bool)
    ensures
        r == bracketed_ipv6_ok(inner@),
{
    let cs = chars_of(inner);
    let mut i: usize = 0;
    while i < cs.len() && cs[i] != '%'
        invariant
            i <= cs.len(),
            cs@ == inner@,
            forall|j: int| 0 <= j < i ==> inner@[j] != '%',
        decreases cs.len() - i,
    {
        i = i + 1;
    }
    if i == cs.len() {
        assert(!inner@.contains('%'));
        return parse_ipv6(inner).is_some();
    }
    let ip = inner.substring_char(0, i);
    let scope = inner.substring_char(i + 1, cs.len());
    assert(ip@ =~= inner@.take(i as int));
    assert(scope@ =~= inner@.skip(i + 1));
    assert(inner@.contains('%')) by {
        assert(inner@[i as int] == '%');
    }
    assert(!inner@.take(i as int).contains('%'));
    let r = parse_ipv6(ip).is_some() && scope_id_valid(scope);
    assert(r == bracketed_ipv6_ok(inner@)) by {
        if !r {
            assert forall|k: int| 0 <= k < inner@.len() && inner@[k] == '%' && !inner@.take(k).contains('%')
                implies !((#[trigger] spec_parse_ipv6(inner@.take(k))) is Some && scope_id_ok(inner@.skip(k + 1))) by {
                if k < i {
                } else if k > i {
                    assert(inner@.take(k)[i as int] == '%');
                }
            }
        }
    }
    r
}

/// Whether `h` is the address part of a socket address.
fn socket_host_valid(h: &str) -> (r: bool)
    ensures
        r == socket_host_ok(h@),
{
    if parse_ipv4(h).is_some() {
        return true;
    }
    let cs = chars_of(h);
    let n = cs.len();
    if n >= 2 && cs[0] == '[' && cs[n - 1] == ']' {
        let inner = h.substring_char(1, n - 1);
        bracketed_ipv6_valid(inner)
    } else {
        false
    }
}

/// Decides how the upstream written `s` is reached.
pub fn plan_upstream(s: &str) -> (r: Result<UpstreamPlan, ForwardError>)
    ensures
        match r {
            Ok(p) => plan_for(s@) == Ok::<UpstreamPlanView, ForwardError>(p@),
            Err(e) => plan_for(s@) == Err::<UpstreamPlanView, ForwardError>(e),
        },
{
    if starts_with(s, "https://") {
        match url_parts(s) {
            None => Err(ForwardError::InvalidUrl),
            Some((None, _)) => Err(ForwardError::MissingHost),
            Some((Some(host), path)) => Ok(UpstreamPlan::Https { server_name: host, path }),
        }
    } else if starts_with(s, "tls://") {
        Ok(UpstreamPlan::Tls { server_name: trim_start_matches(s, "tls://") })
    } else if ends_with(s, ":53") {
        proof {
            reveal_strlit(":53");
        }
        let n = s.unicode_len();
        let host = s.substring_char(0, n - 3);
        assert(host@ =~= s@.take(s@.len() - 3));
        if socket_host_valid(host) {
            Ok(UpstreamPlan::Udp { address: s.to_owned() })
        } else {
            Err(ForwardError::InvalidAddress)
        }
    } else {
        Err(ForwardError::UnsupportedUpstream)
    }
}

/// The plans of a list of upstreams, or the first upstream's error.
pub open spec fn plans_for(ups: Seq<Seq<char>>) -> Result<Seq<UpstreamPlanView>, ForwardError>
    decreases ups.len(),
{
    if ups.len() == 0 {
        Ok(Seq::empty())
    } else {
        match plans_for(ups.drop_last()) {
            Err(e) => Err(e),
            Ok(ps) => match plan_for(ups.last()) {
                Err(e) => Err(e),
                Ok(p) => Ok(ps.push(p)),
            },
        }
    }
}

/// The plans of a configuration's upstreams: the first upstream error, or
/// an error when there is no upstream.
pub open spec fn forward_setup(ups: Seq<Seq<char>>) -> Result<Seq<UpstreamPlanView>, ForwardError> {
    match plans_for(ups) {
        Err(e) => Err(e),
        Ok(ps) => if ps.len() == 0 {
            Err(ForwardError::NoUpstreams)
        } else {
            Ok(ps)
        },
    }
}

/// The value of one upstream reply: none (the lookup ended without a
/// reply), a failed lookup, or the reply's answer records.
pub open spec fn reply_view(r: Option<Result<Vec<DnsRecord>, ()>>) -> Option<Result<Seq<DnsRecordView>, ()>> {
    match r {
        None => None,
        Some(Err(e)) => Some(Err(e)),
        Some(Ok(v)) => Some(Ok(records_view(v@))),
    }
}

/// The values of upstream replies, in the order in which they completed.
pub open spec fn replies_view(v: Seq<Option<Result<Vec<DnsRecord>, ()>>>) -> Seq<Option<Result<Seq<DnsRecordView>, ()>>> {
    v.map_values(|r: Option<Result<Vec<DnsRecord>, ()>>| reply_view(r))
}

/// The answer records of the first valid reply, in completion order: the
/// first lookup that completed with a reply.  None when no lookup did.
pub open spec fn first_success(rs: Seq<Option<Result<Seq<DnsRecordView>, ()>>>) -> Option<Seq<DnsRecordView>>
    decreases rs.len(),
{
    if rs.len() == 0 {
        None
    } else {
        match rs[0] {
            Some(Ok(a)) => Some(a),
            _ => first_success(rs.drop_first()),
        }
    }
}

/// What the upstream replies mean for the request: the first valid reply's
/// answer records, or a server failure when no lookup gave a reply.
pub open spec fn forward_action(rs: Seq<Option<Result<Seq<DnsRecordView>, ()>>>) -> Result<PluginActionView, u16> {
    match first_success(rs) {
        Some(a) => Ok(PluginActionView::Response(a)),
        None => Err(RCODE_SERV_FAIL),
    }
}

/// The first valid reply is the earliest reply that succeeded: its answer
/// is chosen exactly when every earlier lookup failed or gave no reply, and
/// there is none exactly when no lookup succeeded.
pub proof fn lemma_first_success_is_earliest(rs: Seq<Option<Result<Seq<DnsRecordView>, ()>>>)
    ensures
        first_success(rs) is None <==> (forall|i: int| 0 <= i < rs.len() ==> !(#[trigger] rs[i] matches Some(Ok(_)))),
        forall|i: int|
            #![trigger rs[i]]
            0 <= i < rs.len() && (forall|j: int| 0 <= j < i ==> !(#[trigger] rs[j] matches Some(Ok(_))))
                ==> (rs[i] matches Some(Ok(a)) ==> first_success(rs) == Some(a)),
    decreases rs.len(),
{
    if rs.len() > 0 {
        let t = rs.drop_first();
        lemma_first_success_is_earliest(t);
        assert forall|i: int|
            #![trigger rs[i]]
            0 <= i < rs.len() && (forall|j: int| 0 <= j < i ==> !(#[trigger] rs[j] matches Some(Ok(_))))
                implies (rs[i] matches Some(Ok(a)) ==> first_success(rs) == Some(a)) by {
            if i > 0 {
                assert(t[i - 1] == rs[i]);
                assert(!(rs[0] matches Some(Ok(_))));
                assert forall|j: int| 0 <= j < i - 1 implies !(#[trigger] t[j] matches Some(Ok(_))) by {
                    assert(t[j] == rs[j + 1]);
                }
            }
        }
        if first_success(rs) is None {
            assert forall|i: int| 0 <= i < rs.len() implies !(#[trigger] rs[i] matches Some(Ok(_))) by {
                if i > 0 {
                    assert(t[i - 1] == rs[i]);
                }
            }
        } else {
            if forall|i: int| 0 <= i < rs.len() ==> !(#[trigger] rs[i] matches Some(Ok(_))) {
                assert(!(rs[0] matches Some(Ok(_))));
                assert forall|i: int| 0 <= i < t.len() implies !(#[trigger] t[i] matches Some(Ok(_))) by {
                    assert(t[i] == rs[i + 1]);
                }
            }
        }
    }
}

/// The answer records of the first valid reply among `replies`, taken in
/// the order in which the lookups completed.
pub fn first_valid_reply(replies: &Vec<Option<Result<Vec<DnsRecord>, ()>>>) -> (r: Option<Vec<DnsRecord>>)
    ensures
        match r {
            Some(v) => first_success(replies_view(replies@)) == Some(records_view(v@)),
            None => first_success(replies_view(replies@)) is None,
        },
{
    let ghost rv = replies_view(replies@);
    let mut i: usize = 0;
    assert(rv.skip(0) =~= rv);
    while i < replies.len()
        invariant
            i <= replies.len(),
            rv == replies_view(replies@),
            first_success(rv) == first_success(rv.skip(i as int)),
        decreases replies.len() - i,
    {
        assert(rv.skip(i as int)[0] == rv[i as int]);
        assert(rv.skip(i as int).drop_first() =~= rv.skip(i + 1));
        match &replies[i] {
            Some(Ok(a)) => {
                return Some(copy_records(a));
            },
            _ => {},
        }
        i = i + 1;
    }
    assert(rv.skip(i as int) =~= Seq::<Option<Result<Seq<DnsRecordView>, ()>>>::empty());
    None
}

/// The forwarding plugin: its configuration and each upstream with its plan.
pub struct FastForwardPlugin {
    /// The configuration the plugin was made from.
    pub config: FastForward,
    /// Each upstream as written, with how it is reached, in order.
    pub forwarders: Vec<(String, UpstreamPlan)>,
}

impl FastForwardPlugin {
    /// The configuration the plugin was made from.
    pub open spec fn config_view(&self) -> FastForwardView {
        self.config@
    }

    /// The plans of the upstreams, in order.
    pub open spec fn plans(&self) -> Seq<UpstreamPlanView> {
        self.forwarders@.map_values(|f: (String, UpstreamPlan)| f.1@)
    }

    /// Plans every upstream, in order; fails with the first upstream that
    /// cannot be planned, or when there is none.
    pub fn new(config: FastForward) -> (r: Result<FastForwardPlugin, ForwardError>)
        ensures
            match r {
                Ok(p) => p.config_view() == config@ && forward_setup(config@.upstreams)
                    == Ok::<Seq<UpstreamPlanView>, ForwardError>(p.plans())
                    && p.forwarders@.len() == config@.upstreams.len()
                    && forall|i: int| 0 <= i < p.forwarders@.len() ==> (#[trigger] p.forwarders@[i]).0@ == config@.upstreams[i],
                Err(e) => forward_setup(config@.upstreams) == Err::<Seq<UpstreamPlanView>, ForwardError>(e),
            },
    {
        let mut forwarders: Vec<(String, UpstreamPlan)> = Vec::new();
        let mut i: usize = 0;
        assert(config@.upstreams.take(0) =~= Seq::<Seq<char>>::empty());
        assert(forwarders@.map_values(|f: (String, UpstreamPlan)| f.1@) =~= Seq::<UpstreamPlanView>::empty());
        while i < config.upstreams.len()
            invariant
                i <= config.upstreams.len(),
                plans_for(config@.upstreams.take(i as int))
                    == Ok::<Seq<UpstreamPlanView>, ForwardError>(forwarders@.map_values(|f: (String, UpstreamPlan)| f.1@)),
                forwarders@.len() == i,
                forall|j: int| 0 <= j < i ==> (#[trigger] forwarders@[j]).0@ == config@.upstreams[j],
            decreases config.upstreams.len() - i,
        {
            let ghost ups = config@.upstreams;
            assert(ups.take(i + 1).drop_last() =~= ups.take(i as int));
            assert(ups[i as int] == config.upstreams@[i as int]@);
            let upstream_str = &config.upstreams[i];
            match plan_upstream(upstream_str) {
                Err(e) => {
                    proof {
                        lemma_plans_error_persists(ups, i as int + 1);
                    }
                    return Err(e);
                },
                Ok(p) => {
                    let ghost prev = forwarders@;
                    let name = upstream_str.clone();
                    forwarders.push((name, p));
                    assert(forwarders@.map_values(|f: (String, UpstreamPlan)| f.1@)
                        =~= prev.map_values(|f: (String, UpstreamPlan)| f.1@).push(p@));
                },
            }
            i = i + 1;
        }
        assert(config@.upstreams.take(config.upstreams.len() as int) =~= config@.upstreams);
        if forwarders.len() == 0 {
            return Err(ForwardError::NoUpstreams);
        }
        Ok(FastForwardPlugin { config, forwarders })
    }

    /// What the upstream replies, in completion order, mean for the request:
    /// the first valid reply's answers, or a server failure when no lookup
    /// gave a reply.
    pub fn answer_from(&self, replies: Vec<Option<Result<Vec<DnsRecord>, ()>>>) -> (r: Result<PluginAction, u16>)
        ensures
            outcome_view(r) == forward_action(replies_view(replies@)),
    {
        match first_valid_reply(&replies) {
            Some(answers) => Ok(PluginAction::Response(answers)),
            None => Err(RCODE_SERV_FAIL),
        }
    }
}

/// Once a prefix of the upstreams fails to plan, every longer prefix does, with the same error.
proof fn lemma_plans_error_persists(ups: Seq<Seq<char>>, n: int)
    requires
        0 < n <= ups.len(),
        plans_for(ups.take(n)) is Err,
    ensures
        plans_for(ups) == plans_for(ups.take(n)),
    decreases ups.len() - n,
{
    if n < ups.len() {
        assert(ups.take(n + 1).drop_last() =~= ups.take(n));
        lemma_plans_error_persists(ups, n + 1);
    } else {
        assert(ups.take(n) =~= ups);
    }
}

impl Plugin for FastForwardPlugin {
    fn name(&self) -> (r: &'static str)
        ensures
            r@ == "FastForward"@,
    {
        "FastForward"
    }
}

} // verus!
