//! What the metrics computations read of the Kubernetes objects: names, identifiers
//! and resource quantities.
use vstd::prelude::*;

verus! {

/// A resource quantity: its text, and the floating-point conversion of its number to the
/// unit it is read in (millicores for CPU, MiB for memory), which is the quantity's value
/// wherever the text is a well-formed floating-point literal with a unit suffix.
#[derive(Debug, Clone)]
pub struct Quantity {
    pub text: String,
    pub float_value: u64,
}

impl View for Quantity {
    type V = (Seq<char>, u64);

    open spec fn view(&self) -> (Seq<char>, u64) {
        (self.text@, self.float_value)
    }
}

/// Resource usage of a node, as reported by the metrics server.
#[derive(Debug, Clone)]
pub struct NodeUsage {
    pub cpu: Quantity,
    pub memory: Quantity,
}

/// A node's usage sample from the metrics server.
#[derive(Debug, Clone)]
pub struct NodeMetrics {
    /// The node's name (its generated name when it has no name).
    pub name: String,
    pub usage: NodeUsage,
}

/// Resource usage of a container.
#[derive(Debug, Clone)]
pub struct ContainerUsage {
    pub cpu: Quantity,
    pub memory: Quantity,
}

/// A container's usage sample.
#[derive(Debug, Clone)]
pub struct ContainerMetrics {
    pub name: String,
    pub usage: ContainerUsage,
}

/// A pod's usage sample from the metrics server.
#[derive(Debug, Clone)]
pub struct PodMetrics {
    pub name: Option<String>,
    pub namespace: Option<String>,
    pub uid: Option<String>,
    pub containers: Vec<ContainerMetrics>,
}

/// The capacity of a node that reports one: its `cpu` and `memory` entries, with empty
/// text when absent.
#[derive(Debug, Clone)]
pub struct NodeCapacity {
    pub name: String,
    pub cpu: Quantity,
    pub memory: Quantity,
}

/// Where a pod runs: its identifier and the node it is scheduled on, when known.
#[derive(Debug, Clone)]
pub struct PodPlacement {
    pub uid: Option<String>,
    pub node_name: Option<String>,
}

/// The capacity reported last for the node called `name`.
pub open spec fn capacity_of(caps: Seq<NodeCapacity>, name: Seq<char>) -> Option<NodeCapacity>
    decreases caps.len(),
{
    if caps.len() == 0 {
        None
    } else if caps.last().name@ == name {
        Some(caps.last())
    } else {
        capacity_of(caps.drop_last(), name)
    }
}

/// The index of the capacity reported last for the node called `name`.
pub fn find_capacity(caps: &Vec<NodeCapacity>, name: &String) -> (r: Option<usize>)
    ensures
        match r {
            None => capacity_of(caps@, name@) is None,
            Some(i) => i < caps@.len() && capacity_of(caps@, name@) == Some(caps@[i as int]),
        },
{
    let mut found: Option<usize> = None;
    let mut i: usize = 0;
    while i < caps.len()
        invariant
            i <= caps@.len(),
            match found {
                None => capacity_of(caps@.take(i as int), name@) is None,
                Some(j) => j < i && capacity_of(caps@.take(i as int), name@) == Some(caps@[j as int]),
            },
        decreases caps@.len() - i,
    {
        proof {
            assert(caps@.take(i + 1).drop_last() =~= caps@.take(i as int));
            assert(caps@.take(i + 1).last() == caps@[i as int]);
        }
        if caps[i].name == *name {
            found = Some(i);
        }
        i = i + 1;
    }
    assert(caps@.take(caps@.len() as int) =~= caps@);
    found
}

/// The node of the pod placed last with identifier `uid` on a known node.
pub open spec fn node_of(pods: Seq<PodPlacement>, uid: Seq<char>) -> Option<Seq<char>>
    decreases pods.len(),
{
    if pods.len() == 0 {
        None
    } else {
        let p = pods.last();
        if p.uid is Some && p.uid->0@ == uid && p.node_name is Some {
            Some(p.node_name->0@)
        } else {
            node_of(pods.drop_last(), uid)
        }
    }
}

/// The node that the pod with identifier `uid` runs on.
pub fn find_node<'a>(pods: &'a Vec<PodPlacement>, uid: &String) -> (r: Option<&'a String>)
    ensures
        match r {
            None => node_of(pods@, uid@) is None,
            Some(n) => node_of(pods@, uid@) == Some(n@),
        },
{
    let mut found: Option<&'a String> = None;
    let mut i: usize = 0;
    while i < pods.len()
        invariant
            i <= pods@.len(),
            match found {
                None => node_of(pods@.take(i as int), uid@) is None,
                Some(n) => node_of(pods@.take(i as int), uid@) == Some(n@),
            },
        decreases pods@.len() - i,
    {
        proof {
            assert(pods@.take(i + 1).drop_last() =~= pods@.take(i as int));
            assert(pods@.take(i + 1).last() == pods@[i as int]);
        }
        let p = &pods[i];
        match (&p.uid, &p.node_name) {
            (Some(u), Some(n)) => {
                if *u == *uid {
                    found = Some(n);
                }
            },
            _ => {},
        }
        i = i + 1;
    }
    assert(pods@.take(pods@.len() as int) =~= pods@);
    found
}

} // verus!
