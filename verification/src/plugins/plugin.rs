//! What a plugin does with a request, and the plugin interface.
use vstd::prelude::*;
use crate::config::new_config::Config;
use crate::dns::{DnsMessage, DnsMessageView, DnsRecord, DnsRecordView, records_view};
use crate::plugins::arbitrary::{ArbitraryPlugin, arbitrary_action};
use crate::plugins::blackhole::{BlackholePlugin, blackhole_action};
use crate::plugins::cache::{CachePlugin, cache_action};
use crate::plugins::entry_cache::no_entries;
use crate::plugins::fast_forward::{FastForwardPlugin, ForwardError, forward_setup, UpstreamPlanView};
use crate::plugins::hosts::{HostsPlugin, all_fully_qualified, hosts_records, lookup_action};

verus! {

/// What a plugin does with a request.
#[derive(Debug)]
pub enum PluginAction {
    /// The plugin answered; the pipeline stops.
    Response(Vec<DnsRecord>),
    /// The next plugin gets the request, which the plugin may have changed.
    Continue(DnsMessage),
}

/// The mathematical value of a [`PluginAction`].
pub enum PluginActionView {
    Response(Seq<DnsRecordView>),
    Continue(DnsMessageView),
}

impl View for PluginAction {
    type V = PluginActionView;

    open spec fn view(&self) -> PluginActionView {
        match self {
            PluginAction::Response(v) => PluginActionView::Response(records_view(v@)),
            PluginAction::Continue(m) => PluginActionView::Continue(m@),
        }
    }
}

/// The value of a plugin's outcome: an action, or a response code to answer with.
pub open spec fn outcome_view(r: Result<PluginAction, u16>) -> Result<PluginActionView, u16> {
    match r {
        Ok(a) => Ok(a@),
        Err(c) => Err(c),
    }
}

/// The interface every plugin has.
pub trait Plugin {
    /// The plugin's name.
    fn name(&self) -> &'static str;
}

/// A plugin of the pipeline.
pub enum PipelinePlugin {
    Cache(CachePlugin),
    Hosts(HostsPlugin),
    Blackhole(BlackholePlugin),
    Arbitrary(ArbitraryPlugin),
    FastForward(FastForwardPlugin),
}

/// The kind of a pipeline plugin.
#[derive(Debug, Clone, Copy, PartialEq, Eq, Structural)]
pub enum PluginKind {
    Cache,
    Hosts,
    Blackhole,
    Arbitrary,
    FastForward,
}

impl PipelinePlugin {
    /// The plugin's kind.
    pub open spec fn kind(&self) -> PluginKind {
        match self {
            PipelinePlugin::Cache(_) => PluginKind::Cache,
            PipelinePlugin::Hosts(_) => PluginKind::Hosts,
            PipelinePlugin::Blackhole(_) => PluginKind::Blackhole,
            PipelinePlugin::Arbitrary(_) => PluginKind::Arbitrary,
            PipelinePlugin::FastForward(_) => PluginKind::FastForward,
        }
    }

    /// The plugin's invariant.
    pub open spec fn wf(&self) -> bool {
        match self {
            PipelinePlugin::Cache(c) => c.wf(),
            PipelinePlugin::Hosts(h) => h.wf(),
            PipelinePlugin::Blackhole(b) => b.wf(),
            PipelinePlugin::Arbitrary(a) => a.wf(),
            PipelinePlugin::FastForward(_) => true,
        }
    }

    /// What a plugin that runs in the library does with `m` at time `now`.
    pub open spec fn local_outcome(&self, m: DnsMessageView, now: u128) -> Result<PluginActionView, u16> {
        match self {
            PipelinePlugin::Cache(c) => cache_action(c.contents(), m, now),
            PipelinePlugin::Hosts(h) => lookup_action(h.records(), m),
            PipelinePlugin::Blackhole(b) => blackhole_action(b.domain_set(), b.config_view().strategy, m),
            PipelinePlugin::Arbitrary(a) => arbitrary_action(a.records(), m),
            PipelinePlugin::FastForward(_) => Err(0),
        }
    }

    /// The plugin's name.
    pub fn name(&self) -> (r: &'static str)
        ensures
            r@ == kind_name(self.kind()),
    {
        match self {
            PipelinePlugin::Cache(c) => c.name(),
            PipelinePlugin::Hosts(h) => h.name(),
            PipelinePlugin::Blackhole(b) => b.name(),
            PipelinePlugin::Arbitrary(a) => a.name(),
            PipelinePlugin::FastForward(f) => f.name(),
        }
    }
}

/// The name of a plugin of the given kind.
pub open spec fn kind_name(kind: PluginKind) -> Seq<char> {
    match kind {
        PluginKind::Cache => "cache"@,
        PluginKind::Hosts => "hosts"@,
        PluginKind::Blackhole => "blackhole"@,
        PluginKind::Arbitrary => "arbitrary"@,
        PluginKind::FastForward => "FastForward"@,
    }
}

/// The kind of plugin that the pipeline name `name` creates from `config`, if
/// any: `cache`, `hosts` and `blackhole` when configured and enabled,
/// `fast_forward` when configured; other names create none.
pub open spec fn kind_for(config: &Config, name: Seq<char>) -> Option<PluginKind> {
    if name == "cache"@ {
        match config.cache {
            Some(c) => if c.enabled { Some(PluginKind::Cache) } else { None },
            None => None,
        }
    } else if name == "hosts"@ {
        match config.hosts {
            Some(h) => if h.enabled { Some(PluginKind::Hosts) } else { None },
            None => None,
        }
    } else if name == "blackhole"@ {
        match config.blackhole {
            Some(b) => if b.enabled { Some(PluginKind::Blackhole) } else { None },
            None => None,
        }
    } else if name == "fast_forward"@ {
        match config.fast_forward {
            Some(_) => Some(PluginKind::FastForward),
            None => None,
        }
    } else {
        None
    }
}

/// The kinds of the plugins that the pipeline names create, in order.
pub open spec fn kinds_for(config: &Config, names: Seq<Seq<char>>) -> Seq<PluginKind>
    decreases names.len(),
{
    if names.len() == 0 {
        Seq::empty()
    } else {
        let rest = kinds_for(config, names.drop_last());
        match kind_for(config, names.last()) {
            Some(k) => rest.push(k),
            None => rest,
        }
    }
}

/// Every plugin that the pipeline names create is made from a configured
/// section, and a cache, hosts or blackhole plugin only from an enabled one:
/// a disabled or absent section creates nothing, whatever the names.  Each
/// name creates at most one plugin, of its own kind.
pub proof fn lemma_plugins_from_enabled_sections(config: &Config, names: Seq<Seq<char>>)
    ensures
        kinds_for(config, names).len() <= names.len(),
        forall|i: int| 0 <= i < kinds_for(config, names).len() ==> {
            let k = #[trigger] kinds_for(config, names)[i];
            &&& k == PluginKind::Cache ==> config.cache is Some && config.cache->0.enabled && names.contains("cache"@)
            &&& k == PluginKind::Hosts ==> config.hosts is Some && config.hosts->0.enabled && names.contains("hosts"@)
            &&& k == PluginKind::Blackhole ==> config.blackhole is Some && config.blackhole->0.enabled
                && names.contains("blackhole"@)
            &&& k == PluginKind::FastForward ==> config.fast_forward is Some && names.contains("fast_forward"@)
            &&& k != PluginKind::Arbitrary
        },
    decreases names.len(),
{
    if names.len() > 0 {
        let init = names.drop_last();
        lemma_plugins_from_enabled_sections(config, init);
        let ks = kinds_for(config, names);
        let rest = kinds_for(config, init);
        assert forall|i: int| 0 <= i < ks.len() implies {
            let k = #[trigger] ks[i];
            &&& k == PluginKind::Cache ==> config.cache is Some && config.cache->0.enabled && names.contains("cache"@)
            &&& k == PluginKind::Hosts ==> config.hosts is Some && config.hosts->0.enabled && names.contains("hosts"@)
            &&& k == PluginKind::Blackhole ==> config.blackhole is Some && config.blackhole->0.enabled
                && names.contains("blackhole"@)
            &&& k == PluginKind::FastForward ==> config.fast_forward is Some && names.contains("fast_forward"@)
            &&& k != PluginKind::Arbitrary
        } by {
            if i < rest.len() {
                assert(ks[i] == rest[i]);
                let k = rest[i];
                if k == PluginKind::Cache {
                    let j = choose|j: int| 0 <= j < init.len() && init[j] == "cache"@;
                    assert(names[j] == "cache"@);
                }
                if k == PluginKind::Hosts {
                    let j = choose|j: int| 0 <= j < init.len() && init[j] == "hosts"@;
                    assert(names[j] == "hosts"@);
                }
                if k == PluginKind::Blackhole {
                    let j = choose|j: int| 0 <= j < init.len() && init[j] == "blackhole"@;
                    assert(names[j] == "blackhole"@);
                }
                if k == PluginKind::FastForward {
                    let j = choose|j: int| 0 <= j < init.len() && init[j] == "fast_forward"@;
                    assert(names[j] == "fast_forward"@);
                }
            } else {
                assert(names[names.len() - 1] == names.last());
            }
        }
    }
}

/// The pipeline names `fast_forward` and its upstreams cannot be set up.
pub open spec fn forward_fails(config: &Config) -> Option<ForwardError> {
    match config.fast_forward {
        Some(f) => if config.pipeline@.map_values(|s: String| s@).contains("fast_forward"@) {
            match forward_setup(f@.upstreams) {
                Err(e) => Some(e),
                Ok(_) => None,
            }
        } else {
            None
        },
        None => None,
    }
}

/// What creating the plugins requires of the configuration: the hosts
/// entries are fully qualified when the hosts plugin is created, and the
/// forwarding plugin's upstreams can be set up when it is created.
pub open spec fn plugins_creatable(config: &Config) -> bool {
    let names = config.pipeline@.map_values(|s: String| s@);
    &&& (names.contains("hosts"@) && config.hosts is Some && config.hosts->0.enabled)
        ==> all_fully_qualified(config.hosts->0@.records)
    &&& forward_fails(config) is None
}

/// Why the forwarding plugin of a configuration cannot be set up, if it is
/// created and cannot be (see [`forward_fails`]).
pub fn forward_setup_error(config: &Config) -> (r: Option<ForwardError>)
    ensures
        r == forward_fails(config),
{
    let ghost names = config.pipeline@.map_values(|s: String| s@);
    match &config.fast_forward {
        None => None,
        Some(f) => {
            let mut i: usize = 0;
            let mut named = false;
            proof {
                reveal_strlit("fast_forward");
            }
            while i < config.pipeline.len()
                invariant
                    i <= config.pipeline.len(),
                    names == config.pipeline@.map_values(|s: String| s@),
                    named == names.take(i as int).contains("fast_forward"@),
                decreases config.pipeline.len() - i,
            {
                assert(names.take(i + 1) =~= names.take(i as int).push(names[i as int]));
                assert(names[i as int] == config.pipeline@[i as int]@);
                if str_eq(&config.pipeline[i], "fast_forward") {
                    named = true;
                }
                proof {
                    let ff = "fast_forward"@;
                    let ti = names.take(i as int);
                    let tn = names.take(i + 1);
                    if names[i as int] == ff {
                        assert(tn[i as int] == ff);
                    }
                    if ti.contains(ff) {
                        let k = choose|k: int| 0 <= k < ti.len() && ti[k] == ff;
                        assert(tn[k] == ff);
                    }
                    if tn.contains(ff) {
                        let k = choose|k: int| 0 <= k < tn.len() && tn[k] == ff;
                        if k < i {
                            assert(ti[k] == ff);
                        }
                    }
                }
                i = i + 1;
            }
            assert(names.take(config.pipeline.len() as int) =~= names);
            if !named {
                return None;
            }
            match FastForwardPlugin::new(f.duplicate()) {
                Ok(_) => None,
                Err(e) => Some(e),
            }
        },
    }
}

/// Plugin `p` is the one its kind builds from `config`, fresh.
pub open spec fn built_from(p: PipelinePlugin, config: &Config) -> bool {
    &&& p.wf()
    &&& match p {
        PipelinePlugin::Cache(c) => config.cache is Some && config.cache->0.enabled
            && c.config_view() == config.cache->0@ && c.contents() == no_entries(),
        PipelinePlugin::Hosts(h) => config.hosts is Some && config.hosts->0.enabled
            && h.config_view() == config.hosts->0@ && h.records() == hosts_records(config.hosts->0@.records),
        PipelinePlugin::Blackhole(b) => config.blackhole is Some && config.blackhole->0.enabled
            && b.config_view() == config.blackhole->0@ && b.domain_set() == config.blackhole->0@.domains.to_set(),
        PipelinePlugin::Arbitrary(_) => false,
        PipelinePlugin::FastForward(f) => config.fast_forward is Some && f.config_view() == config.fast_forward->0@
            && forward_setup(config.fast_forward->0@.upstreams) == Ok::<Seq<UpstreamPlanView>, ForwardError>(f.plans()),
    }
}

/// Creates the plugins in the order of the pipeline names: `cache`, `hosts`
/// and `blackhole` when configured and enabled, `fast_forward` when
/// configured; other names are skipped.  The forwarding plugin's upstreams
/// must be ones that can be set up (see [`forward_setup_error`]).
pub fn create_plugins(config: Config) -> (r: Vec<PipelinePlugin>)
    requires
        plugins_creatable(&config),
    ensures
        r@.map_values(|p: PipelinePlugin| p.kind()) == kinds_for(&config, config.pipeline@.map_values(|s: String| s@)),
        forall|i: int| 0 <= i < r@.len() ==> built_from(#[trigger] r@[i], &config),
{
    let mut plugins: Vec<PipelinePlugin> = Vec::new();
    let ghost names = config.pipeline@.map_values(|s: String| s@);
    let mut i: usize = 0;
    assert(names.take(0) =~= Seq::<Seq<char>>::empty());
    assert(plugins@.map_values(|p: PipelinePlugin| p.kind()) =~= Seq::<PluginKind>::empty());
    while i < config.pipeline.len()
        invariant
            i <= config.pipeline.len(),
            names == config.pipeline@.map_values(|s: String| s@),
            plugins_creatable(&config),
            plugins@.map_values(|p: PipelinePlugin| p.kind()) == kinds_for(&config, names.take(i as int)),
            forall|j: int| 0 <= j < plugins@.len() ==> built_from(#[trigger] plugins@[j], &config),
            (config.fast_forward is Some && forward_setup(config.fast_forward->0@.upstreams) is Err)
                ==> !names.take(i as int).contains("fast_forward"@),
        decreases config.pipeline.len() - i,
    {
        assert(names.take(i + 1).drop_last() =~= names.take(i as int));
        assert(names[i as int] == config.pipeline@[i as int]@);
        assert(names.take(i + 1).last() == names[i as int]);
        let name = &config.pipeline[i];
        let ghost prev = plugins@;
        let ghost pushed: Option<PipelinePlugin> = None;
        proof {
            reveal_strlit("cache");
            reveal_strlit("hosts");
            reveal_strlit("blackhole");
            reveal_strlit("fast_forward");
        }
        if str_eq(name, "cache") {
            if let Some(conf) = &config.cache {
                if conf.enabled {
                    assert(names.contains("cache"@)) by { assert(names[i as int] == "cache"@); }
                    let p = PipelinePlugin::Cache(CachePlugin::new(conf.duplicate()));
                    proof { pushed = Some(p); }
                    plugins.push(p);
                }
            }
        } else if str_eq(name, "hosts") {
            if let Some(conf) = &config.hosts {
                if conf.enabled {
                    assert(names.contains("hosts"@)) by { assert(names[i as int] == "hosts"@); }
                    let p = PipelinePlugin::Hosts(HostsPlugin::new(conf.duplicate()));
                    proof { pushed = Some(p); }
                    plugins.push(p);
                }
            }
        } else if str_eq(name, "blackhole") {
            if let Some(conf) = &config.blackhole {
                if conf.enabled {
                    let p = PipelinePlugin::Blackhole(BlackholePlugin::new(conf.duplicate()));
                    proof { pushed = Some(p); }
                    plugins.push(p);
                }
            }
        } else if str_eq(name, "fast_forward") {
            if let Some(conf) = &config.fast_forward {
                match FastForwardPlugin::new(conf.duplicate()) {
                    Ok(f) => {
                        let p = PipelinePlugin::FastForward(f);
                        proof { pushed = Some(p); }
                        plugins.push(p);
                    },
                    Err(e) => {
                        assert(names.contains("fast_forward"@)) by { assert(names[i as int] == "fast_forward"@); }
                        assert(false);
                        return plugins;
                    },
                }
            }
        }
        proof {
            match pushed {
                Some(p) => {
                    assert(plugins@ == prev.push(p));
                    assert(plugins@.map_values(|p: PipelinePlugin| p.kind())
                        =~= prev.map_values(|p: PipelinePlugin| p.kind()).push(p.kind()));
                },
                None => {
                    assert(plugins@ == prev);
                },
            }
            if names.take(i + 1).contains("fast_forward"@) {
                let k = choose|k: int| 0 <= k < i + 1 && #[trigger] names.take(i + 1)[k] == "fast_forward"@;
                if k < i {
                    assert(names.take(i as int)[k] == "fast_forward"@);
                }
            }
        }
        i = i + 1;
    }
    assert(names.take(config.pipeline.len() as int) =~= names);
    plugins
}

/// Whether two texts are equal.
fn str_eq(a: &String, b: &str) -> (r: bool)
    ensures
        r == (a@ == b@),
{
    let x = crate::names::chars_of(a.as_str());
    let y = crate::names::chars_of(b);
    if x.len() != y.len() {
        return false;
    }
    let mut i: usize = 0;
    while i < x.len()
        invariant
            i <= x.len(),
            x.len() == y.len(),
            x@ == a@,
            y@ == b@,
            forall|j: int| 0 <= j < i ==> x@[j] == y@[j],
        decreases x.len() - i,
    {
        if x[i] != y[i] {
            return false;
        }
        i = i + 1;
    }
    assert(x@ =~= y@);
    true
}

} // verus!
