//! Agent discovery mechanisms
use vstd::prelude::*;
use vstd::string::*;
use crate::agent::{AgentConfig, AgentList};
use crate::text::{decimal, push_decimal, string_of};

verus! {

/// Static discovery from a predefined list
#[derive(Debug, Clone)]
pub struct StaticDiscovery {
    urls: Vec<String>,
}

impl StaticDiscovery {
    /// The URLs the discovery hands out, in order.
    pub closed spec fn urls_spec(&self) -> Seq<Seq<char>> {
        self.urls@.map_values(|s: String| s@)
    }

    /// Create a new static discovery with a list of URLs
    pub fn new(urls: Vec<String>) -> (d: StaticDiscovery)
        ensures
            d.urls_spec() == urls@.map_values(|s: String| s@),
    {
        StaticDiscovery { urls }
    }

    /// Create from a list of agent URLs
    pub fn from_urls(urls: &[&str]) -> (d: StaticDiscovery)
        ensures
            d.urls_spec().len() == urls@.len(),
            forall|i: int| 0 <= i < urls@.len() ==> #[trigger] d.urls_spec()[i] == urls@[i]@,
    {
        let mut v: Vec<String> = Vec::new();
        let mut i: usize = 0;
        while i < urls.len()
            invariant
                i <= urls@.len(),
                v@.len() == i,
                forall|j: int| 0 <= j < i ==> #[trigger] v@[j]@ == urls@[j]@,
            decreases urls@.len() - i,
        {
            v.push(string_of(urls[i]));
            i = i + 1;
        }
        StaticDiscovery { urls: v }
    }

    /// Discover available agents: one per URL, in order, with no name and no labels.
    pub fn discover(&self) -> (l: AgentList)
        ensures
            l.agents@.len() == self.urls_spec().len(),
            forall|i: int|
                0 <= i < l.agents@.len() ==> {
                    &&& (#[trigger] l.agents@[i]).url@ == self.urls_spec()[i]
                    &&& l.agents@[i].name is None
                    &&& l.agents@[i].labels@.len() == 0
                },
    {
        let mut agents: Vec<AgentConfig> = Vec::new();
        let mut i: usize = 0;
        while i < self.urls.len()
            invariant
                i <= self.urls@.len(),
                agents@.len() == i,
                forall|j: int|
                    0 <= j < i ==> {
                        &&& (#[trigger] agents@[j]).url@ == self.urls@[j]@
                        &&& agents@[j].name is None
                        &&& agents@[j].labels@.len() == 0
                    },
            decreases self.urls@.len() - i,
        {
            agents.push(AgentConfig::new(self.urls[i].as_str()));
            i = i + 1;
        }
        AgentList { agents }
    }
}

/// Kubernetes-based discovery for rwatch agents
#[derive(Debug, Clone)]
pub struct KubernetesDiscovery {
    namespace: String,
    service_name: String,
    port: u16,
}

impl KubernetesDiscovery {
    pub closed spec fn namespace_spec(&self) -> Seq<char> {
        self.namespace@
    }

    pub closed spec fn service_name_spec(&self) -> Seq<char> {
        self.service_name@
    }

    pub closed spec fn port_spec(&self) -> u16 {
        self.port
    }

    /// Create a new Kubernetes discovery
    pub fn new(namespace: &str, service_name: &str, port: u16) -> (d: KubernetesDiscovery)
        ensures
            d.namespace_spec() == namespace@,
            d.service_name_spec() == service_name@,
            d.port_spec() == port,
    {
        KubernetesDiscovery {
            namespace: string_of(namespace),
            service_name: string_of(service_name),
            port,
        }
    }

    /// Get the DNS name for the headless service: `<service>.<namespace>`
    pub fn service_dns(&self) -> (s: String)
        ensures
            s@ == self.service_name_spec() + "."@ + self.namespace_spec(),
    {
        let mut s = String::new();
        s.append(self.service_name.as_str());
        s.append(".");
        s.append(self.namespace.as_str());
        assert(s@ =~= self.service_name_spec() + "."@ + self.namespace_spec());
        s
    }

    /// Discover available agents. Querying the Kubernetes API is not implemented:
    /// the list is empty.
    pub fn discover(&self) -> (l: AgentList)
        ensures
            l.agents@.len() == 0,
    {
        AgentList::new()
    }
}

/// Environment-based discovery from env vars: `<prefix>_0`, `<prefix>_1`, ... up to
/// the first one that is not set.
#[derive(Debug, Clone)]
pub struct EnvDiscovery {
    prefix: String,
}

/// The name given to the agent found in the `index`-th variable.
pub open spec fn env_agent_name(index: nat) -> Seq<char> {
    "agent-"@ + decimal(index)
}

impl EnvDiscovery {
    pub closed spec fn prefix_spec(&self) -> Seq<char> {
        self.prefix@
    }

    /// Create a new environment discovery
    pub fn new(prefix: &str) -> (d: EnvDiscovery)
        ensures
            d.prefix_spec() == prefix@,
    {
        EnvDiscovery { prefix: string_of(prefix) }
    }

    /// Create with default prefix "RWATCH_AGENT"
    pub fn default_prefix() -> (d: EnvDiscovery)
        ensures
            d.prefix_spec() == "RWATCH_AGENT"@,
    {
        Self::new("RWATCH_AGENT")
    }

    /// The name of the variable that holds the `index`-th agent URL: `<prefix>_<index>`.
    pub fn var_name(&self, index: usize) -> (s: String)
        ensures
            s@ == self.prefix_spec() + "_"@ + decimal(index as nat),
    {
        let mut s = String::new();
        s.append(self.prefix.as_str());
        s.append("_");
        push_decimal(&mut s, index as u64);
        assert(s@ =~= self.prefix_spec() + "_"@ + decimal(index as nat));
        s
    }

    /// The agents found in the variables `<prefix>_0 .. <prefix>_{n-1}`, whose values
    /// are `urls`: the `i`-th has URL `urls[i]` and name `agent-<i>`.
    pub fn agents_from(&self, urls: Vec<String>) -> (l: AgentList)
        ensures
            l.agents@.len() == urls@.len(),
            forall|i: int|
                0 <= i < l.agents@.len() ==> {
                    &&& (#[trigger] l.agents@[i]).url@ == urls@[i]@
                    &&& l.agents@[i].name is Some
                    &&& l.agents@[i].name->0@ == env_agent_name(i as nat)
                    &&& l.agents@[i].labels@.len() == 0
                },
    {
        let mut agents: Vec<AgentConfig> = Vec::new();
        let mut i: usize = 0;
        while i < urls.len()
            invariant
                i <= urls@.len(),
                agents@.len() == i,
                forall|j: int|
                    0 <= j < i ==> {
                        &&& (#[trigger] agents@[j]).url@ == urls@[j]@
                        &&& agents@[j].name is Some
                        &&& agents@[j].name->0@ == env_agent_name(j as nat)
                        &&& agents@[j].labels@.len() == 0
                    },
            decreases urls@.len() - i,
        {
            let mut name = String::new();
            name.append("agent-");
            push_decimal(&mut name, i as u64);
            assert(name@ =~= env_agent_name(i as nat));
            agents.push(AgentConfig::new(urls[i].as_str()).with_name(name.as_str()));
            i = i + 1;
        }
        AgentList { agents }
    }
}

/// Unified discovery enum that wraps all discovery types
#[derive(Debug, Clone)]
pub enum Discovery {
    Static(StaticDiscovery),
    Kubernetes(KubernetesDiscovery),
    Env(EnvDiscovery),
}

impl Discovery {
    /// Create a static discovery
    pub fn static_discovery(urls: Vec<String>) -> (d: Discovery)
        ensures
            d is Static,
            d->Static_0.urls_spec() == urls@.map_values(|s: String| s@),
    {
        Discovery::Static(StaticDiscovery::new(urls))
    }

    /// Create a Kubernetes discovery
    pub fn kubernetes(namespace: &str, service_name: &str, port: u16) -> (d: Discovery)
        ensures
            d is Kubernetes,
            d->Kubernetes_0.namespace_spec() == namespace@,
            d->Kubernetes_0.service_name_spec() == service_name@,
            d->Kubernetes_0.port_spec() == port,
    {
        Discovery::Kubernetes(KubernetesDiscovery::new(namespace, service_name, port))
    }

    /// Create an environment discovery
    pub fn env(prefix: &str) -> (d: Discovery)
        ensures
            d is Env,
            d->Env_0.prefix_spec() == prefix@,
    {
        Discovery::Env(EnvDiscovery::new(prefix))
    }
}

/// The agents a discovery finds, given the values of the environment variables
/// `<prefix>_0, <prefix>_1, ...` up to the first one that is not set.
pub open spec fn discovered_spec(d: Discovery, l: AgentList, env_values: Seq<String>) -> bool {
    match d {
        Discovery::Static(s) => {
            &&& l.agents@.len() == s.urls_spec().len()
            &&& forall|i: int|
                0 <= i < l.agents@.len() ==> {
                    &&& (#[trigger] l.agents@[i]).url@ == s.urls_spec()[i]
                    &&& l.agents@[i].name is None
                    &&& l.agents@[i].labels@.len() == 0
                }
        },
        Discovery::Kubernetes(_) => l.agents@.len() == 0,
        Discovery::Env(_) => {
            &&& l.agents@.len() == env_values.len()
            &&& forall|i: int|
                0 <= i < l.agents@.len() ==> {
                    &&& (#[trigger] l.agents@[i]).url@ == env_values[i]@
                    &&& l.agents@[i].name is Some
                    &&& l.agents@[i].name->0@ == env_agent_name(i as nat)
                    &&& l.agents@[i].labels@.len() == 0
                }
        },
    }
}

/// An environment discovery keeps the order of the variables: the `i`-th agent found has
/// the value of `<prefix>_i` as its URL and is named `agent-<i>`.
pub proof fn lemma_env_discovery_in_order(d: EnvDiscovery, l: AgentList, env_values: Seq<String>)
    requires
        discovered_spec(Discovery::Env(d), l, env_values),
    ensures
        l.agents@.len() == env_values.len(),
        forall|i: int|
            0 <= i < env_values.len() ==> {
                &&& (#[trigger] l.agents@[i]).url@ == env_values[i]@
                &&& l.agents@[i].name == Some(l.agents@[i].name->0)
                &&& l.agents@[i].name->0@ == "agent-"@ + decimal(i as nat)
            },
{
}

impl Discovery {
    /// Discover available agents. `env_values` are the values of the variables
    /// `<prefix>_0, <prefix>_1, ...` up to the first unset one; only an environment
    /// discovery reads them.
    pub fn discover(&self, env_values: Vec<String>) -> (l: AgentList)
        ensures
            discovered_spec(*self, l, env_values@),
    {
        match self {
            Discovery::Static(d) => d.discover(),
            Discovery::Kubernetes(d) => d.discover(),
            Discovery::Env(d) => d.agents_from(env_values),
        }
    }
}

impl From<StaticDiscovery> for Discovery {
    fn from(d: StaticDiscovery) -> (r: Discovery) {
        Discovery::Static(d)
    }
}

impl vstd::std_specs::convert::FromSpecImpl<StaticDiscovery> for Discovery {
    open spec fn obeys_from_spec() -> bool {
        true
    }

    open spec fn from_spec(d: StaticDiscovery) -> Discovery {
        Discovery::Static(d)
    }
}

impl From<KubernetesDiscovery> for Discovery {
    fn from(d: KubernetesDiscovery) -> (r: Discovery) {
        Discovery::Kubernetes(d)
    }
}

impl vstd::std_specs::convert::FromSpecImpl<KubernetesDiscovery> for Discovery {
    open spec fn obeys_from_spec() -> bool {
        true
    }

    open spec fn from_spec(d: KubernetesDiscovery) -> Discovery {
        Discovery::Kubernetes(d)
    }
}

impl From<EnvDiscovery> for Discovery {
    fn from(d: EnvDiscovery) -> (r: Discovery) {
        Discovery::Env(d)
    }
}

impl vstd::std_specs::convert::FromSpecImpl<EnvDiscovery> for Discovery {
    open spec fn obeys_from_spec() -> bool {
        true
    }

    open spec fn from_spec(d: EnvDiscovery) -> Discovery {
        Discovery::Env(d)
    }
}

} // verus!
