//! Agent representation and configuration
use vstd::prelude::*;
use crate::text::string_of;

verus! {

/// Configuration for an agent
#[derive(Debug, Clone)]
pub struct AgentConfig {
    pub url: String,
    pub name: Option<String>,
    pub labels: Vec<(String, String)>,
}

/// The name an agent is shown under: its name when it has one, else its URL.
pub open spec fn display_name_spec(a: AgentConfig) -> Seq<char> {
    match a.name {
        Some(n) => n@,
        None => a.url@,
    }
}

impl AgentConfig {
    /// Create a new agent config with just a URL
    pub fn new(url: &str) -> (a: AgentConfig)
        ensures
            a.url@ == url@,
            a.name is None,
            a.labels@.len() == 0,
    {
        AgentConfig { url: string_of(url), name: None, labels: Vec::new() }
    }

    /// Set a name for the agent
    pub fn with_name(self, name: &str) -> (a: AgentConfig)
        ensures
            a.url == self.url,
            a.name is Some && a.name->0@ == name@,
            a.labels == self.labels,
    {
        let mut a = self;
        a.name = Some(string_of(name));
        a
    }

    /// Add a label to the agent
    pub fn with_label(self, key: &str, value: &str) -> (a: AgentConfig)
        ensures
            a.url == self.url,
            a.name == self.name,
            a.labels@.len() == self.labels@.len() + 1,
            a.labels@.take(self.labels@.len() as int) == self.labels@,
            a.labels@.last().0@ == key@,
            a.labels@.last().1@ == value@,
    {
        let mut a = self;
        a.labels.push((string_of(key), string_of(value)));
        assert(a.labels@.take(self.labels@.len() as int) =~= self.labels@);
        a
    }

    /// Get the display name for this agent
    pub fn display_name(&self) -> (s: &str)
        ensures
            s@ == display_name_spec(*self),
    {
        match &self.name {
            Some(n) => n.as_str(),
            None => self.url.as_str(),
        }
    }
}

/// A collection of agent configurations
#[derive(Debug, Clone)]
pub struct AgentList {
    pub agents: Vec<AgentConfig>,
}

impl Default for AgentList {
    fn default() -> (l: AgentList)
        ensures
            l.agents@.len() == 0,
    {
        AgentList { agents: Vec::new() }
    }
}

impl From<Vec<AgentConfig>> for AgentList {
    fn from(agents: Vec<AgentConfig>) -> (l: AgentList) {
        AgentList { agents }
    }
}

impl vstd::std_specs::convert::FromSpecImpl<Vec<AgentConfig>> for AgentList {
    open spec fn obeys_from_spec() -> bool {
        true
    }

    open spec fn from_spec(agents: Vec<AgentConfig>) -> AgentList {
        AgentList { agents }
    }
}

impl AgentList {
    /// Create an empty agent list
    pub fn new() -> (l: AgentList)
        ensures
            l.agents@.len() == 0,
    {
        AgentList::default()
    }

    /// Add an agent to the list
    pub fn add(&mut self, agent: AgentConfig)
        ensures
            final(self).agents@ == old(self).agents@.push(agent),
    {
        self.agents.push(agent);
    }

    /// Get the number of agents
    pub fn len(&self) -> (n: usize)
        ensures
            n == self.agents@.len(),
    {
        self.agents.len()
    }

    /// Check if the list is empty
    pub fn is_empty(&self) -> (b: bool)
        ensures
            b == (self.agents@.len() == 0),
    {
        self.agents.len() == 0
    }

    /// Get all agent URLs as strings
    pub fn urls(&self) -> (urls: Vec<String>)
        ensures
            urls@.len() == self.agents@.len(),
            forall|i: int| 0 <= i < urls@.len() ==> #[trigger] urls@[i]@ == self.agents@[i].url@,
    {
        let mut urls: Vec<String> = Vec::new();
        let mut i: usize = 0;
        while i < self.agents.len()
            invariant
                i <= self.agents@.len(),
                urls@.len() == i,
                forall|j: int| 0 <= j < i ==> #[trigger] urls@[j]@ == self.agents@[j].url@,
            decreases self.agents@.len() - i,
        {
            urls.push(self.agents[i].url.clone());
            i = i + 1;
        }
        urls
    }
}

} // verus!
