//! Records the platform backend keeps about challenges and deployments.

use vstd::prelude::*;
use vstd::string::*;
use crate::challenge::ContainerStrategy;
use crate::text::str_eq;
use crate::deploy::{DeploymentData, HostMapping};

verus! {

/// A challenge category.
#[derive(Debug, Clone)]
pub struct Category {
    pub id: i32,
    pub name: String,
}

/// A group of challenges.
#[derive(Debug, Clone)]
pub struct ChallengeGroup {
    pub id: i32,
    pub name: String,
}

/// The deployment strategy of a challenge as the platform stores it.
#[derive(Debug, Clone, Copy, PartialEq, Eq, Structural)]
pub enum DeploymentStrategy {
    Static,
    Instanced,
}

/// `static`
pub open spec fn static_text() -> Seq<char> {
    seq!['s', 't', 'a', 't', 'i', 'c']
}

/// `instanced`
pub open spec fn instanced_text() -> Seq<char> {
    seq!['i', 'n', 's', 't', 'a', 'n', 'c', 'e', 'd']
}

/// The strategy stored under a name, if any.
pub open spec fn strategy_named(t: Seq<char>) -> Option<DeploymentStrategy> {
    if t == static_text() {
        Some(DeploymentStrategy::Static)
    } else if t == instanced_text() {
        Some(DeploymentStrategy::Instanced)
    } else {
        None
    }
}

impl DeploymentStrategy {
    /// The stored name of a strategy.
    pub open spec fn text(self) -> Seq<char> {
        match self {
            DeploymentStrategy::Static => static_text(),
            DeploymentStrategy::Instanced => instanced_text(),
        }
    }

    /// The stored name: `static` or `instanced`.
    pub fn as_str(&self) -> (r: &'static str)
        ensures
            r@ == self.text(),
    {
        proof {
            reveal_strlit("static");
            reveal_strlit("instanced");
        }
        let st = "static";
        let inst = "instanced";
        proof {
            assert(st@ =~= static_text());
            assert(inst@ =~= instanced_text());
        }
        match self {
            DeploymentStrategy::Static => st,
            DeploymentStrategy::Instanced => inst,
        }
    }

    /// The strategy with this stored name, if any.
    pub fn from_str(s: &str) -> (r: Option<DeploymentStrategy>)
        ensures
            r == strategy_named(s@),
    {
        let st = "static";
        let inst = "instanced";
        proof {
            reveal_strlit("static");
            reveal_strlit("instanced");
            assert(st@ =~= static_text());
            assert(inst@ =~= instanced_text());
        }
        if str_eq(s, st) {
            Some(DeploymentStrategy::Static)
        } else if str_eq(s, inst) {
            Some(DeploymentStrategy::Instanced)
        } else {
            None
        }
    }

    /// The platform's name for a container's strategy.
    pub fn of_container(s: ContainerStrategy) -> (r: DeploymentStrategy)
        ensures
            (r == DeploymentStrategy::Instanced) == (s == ContainerStrategy::Instanced),
    {
        match s {
            ContainerStrategy::Static => DeploymentStrategy::Static,
            ContainerStrategy::Instanced => DeploymentStrategy::Instanced,
        }
    }
}

/// Deployment data as the platform shows it; the container id stays private.
#[derive(Debug, Clone)]
pub struct DeploymentDataS {
    pub container_id: String,
    pub ports: Vec<(u16, HostMapping)>,
}

impl DeploymentDataS {
    /// The platform's copy of a deployment's data.
    pub fn from_data(d: DeploymentData) -> (r: DeploymentDataS)
        ensures
            r.container_id == d.container_id,
            r.ports == d.ports,
    {
        DeploymentDataS { container_id: d.container_id, ports: d.ports }
    }
}

} // verus!
