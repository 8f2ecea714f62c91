//! blackhole: refuses queries for listed domains.
use vstd::prelude::*;
use crate::config::new_config::{Blackhole, BlackholeStrategy, BlackholeView, strings_view};
use crate::dns::{DnsMessage, DnsMessageView, RCODE_NO_ERROR, RCODE_NX_DOMAIN, RCODE_REFUSED, RCODE_SERV_FAIL};
use crate::plugins::plugin::{Plugin, PluginAction, PluginActionView, outcome_view};

verus! {

/// The response code with which a blocked query is answered.
pub open spec fn blocked_code(s: BlackholeStrategy) -> u16 {
    match s {
        BlackholeStrategy::Drop => RCODE_REFUSED,
        BlackholeStrategy::Empty => RCODE_NO_ERROR,
        BlackholeStrategy::CustomIp => RCODE_NX_DOMAIN,
    }
}

/// What the plugin does with `request`: a request without a question is a
/// server failure; one whose first question's name is listed, exactly as
/// written, is answered with the strategy's code; any other continues unchanged.
pub open spec fn blackhole_action(domains: Set<Seq<char>>, strategy: BlackholeStrategy, request: DnsMessageView) -> Result<PluginActionView, u16> {
    if request.queries.len() == 0 {
        Err(RCODE_SERV_FAIL)
    } else if domains.contains(request.queries[0].name) {
        Err(blocked_code(strategy))
    } else {
        Ok(PluginActionView::Continue(request))
    }
}

/// The blackhole plugin: its configuration and the set of blocked domains.
pub struct BlackholePlugin {
    config: Blackhole,
    domains: Vec<String>,
}

fn contains_string(v: &Vec<String>, s: &String) -> (r: bool)
    ensures
        r == strings_view(v@).contains(s@),
{
    let mut i: usize = 0;
    while i < v.len()
        invariant
            i <= v.len(),
            forall|j: int| 0 <= j < i ==> strings_view(v@)[j] != s@,
        decreases v.len() - i,
    {
        if v[i] == *s {
            assert(strings_view(v@)[i as int] == s@);
            return true;
        }
        i = i + 1;
    }
    false
}

impl BlackholePlugin {
    /// The configuration the plugin was made from.
    pub closed spec fn config_view(&self) -> BlackholeView {
        self.config@
    }

    /// The blocked domains.
    pub closed spec fn domain_set(&self) -> Set<Seq<char>> {
        strings_view(self.domains@).to_set()
    }

    /// The plugin's invariant: each blocked domain is held once.
    pub closed spec fn wf(&self) -> bool {
        strings_view(self.domains@).no_duplicates()
    }

    /// Collects the configured domains into the set of blocked domains.
    pub fn new(config: Blackhole) -> (r: BlackholePlugin)
        ensures
            r.wf(),
            r.config_view() == config@,
            r.domain_set() == config@.domains.to_set(),
    {
        let mut domains: Vec<String> = Vec::new();
        let mut i: usize = 0;
        while i < config.domains.len()
            invariant
                i <= config.domains.len(),
                strings_view(domains@).no_duplicates(),
                strings_view(domains@).to_set() == config@.domains.take(i as int).to_set(),
            decreases config.domains.len() - i,
        {
            let ghost all = config@.domains;
            assert(all.take(i + 1) =~= all.take(i as int).push(all[i as int]));
            assert(all[i as int] == config.domains@[i as int]@);
            let d = &config.domains[i];
            let ghost prev = domains@;
            if !contains_string(&domains, d) {
                let c = d.clone();
                domains.push(c);
                assert(strings_view(domains@) =~= strings_view(prev).push(d@));
                assert(strings_view(domains@).to_set() =~= strings_view(prev).to_set().insert(d@)) by {
                    strings_view(prev).lemma_push_to_set_commute(d@);
                }
            } else {
                assert(strings_view(prev).to_set().contains(d@));
                assert(strings_view(prev).to_set() =~= strings_view(prev).to_set().insert(d@));
            }
            assert(all.take(i as int).push(all[i as int]).to_set() =~= all.take(i as int).to_set().insert(all[i as int])) by {
                all.take(i as int).lemma_push_to_set_commute(all[i as int]);
            }
            i = i + 1;
        }
        assert(config@.domains.take(config.domains.len() as int) =~= config@.domains);
        BlackholePlugin { config, domains }
    }

    /// Answers a query for a blocked domain with the strategy's code (Drop:
    /// refused, Empty: no error, CustomIp: no such domain); passes any other on.
    pub fn handle_request(&self, request: DnsMessage) -> (r: Result<PluginAction, u16>)
        requires
            self.wf(),
        ensures
            outcome_view(r) == blackhole_action(self.domain_set(), self.config_view().strategy, request@),
    {
        if request.queries.len() == 0 {
            return Err(RCODE_SERV_FAIL);
        }
        let name_str = request.queries[0].name.clone();
        if contains_string(&self.domains, &name_str) {
            let rescode = match self.config.strategy {
                BlackholeStrategy::Drop => RCODE_REFUSED,
                BlackholeStrategy::Empty => RCODE_NO_ERROR,
                BlackholeStrategy::CustomIp => RCODE_NX_DOMAIN,
            };
            return Err(rescode);
        }
        Ok(PluginAction::Continue(request))
    }
}

impl Plugin for BlackholePlugin {
    fn name(&self) -> (r: &'static str)
        ensures
            r@ == "blackhole"@,
    {
        "blackhole"
    }
}

} // verus!
