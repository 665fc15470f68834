//! Deployment records and the decisions of provisioning and teardown.

use vstd::prelude::*;
use vstd::string::*;
use crate::challenge::{image_ref, ChallengeCatalog, Container, ContainerStrategy, ExposeType};
use crate::keychain::{find_host, resolved_host, HostKeychainEnv};
use crate::naming::{calculate_container_name, calculate_subdomain, container_name, subdomain_of};
use crate::text::{nat_text, opt_string, opt_text, push_char, push_nat, push_str};

verus! {

/// How one container port is reached from outside.
#[derive(Debug, Clone)]
pub enum HostMapping {
    /// Published on this host port.
    Tcp { port: u16 },
    /// Routed from `<subdomain>.<base>`.
    Http { subdomain: String, base: String },
}

/// A host mapping as plain values.
pub enum MappingView {
    Tcp(u16),
    Http(Seq<char>, Seq<char>),
}

impl HostMapping {
    pub open spec fn view(&self) -> MappingView {
        match self {
            HostMapping::Tcp { port } => MappingView::Tcp(*port),
            HostMapping::Http { subdomain, base } => MappingView::Http(subdomain@, base@),
        }
    }
}

/// What a deployed record holds: its container and how its ports are reached.
#[derive(Debug, Clone)]
pub struct DeploymentData {
    pub container_id: String,
    /// Container port and its mapping; each port at most once.
    pub ports: Vec<(u16, HostMapping)>,
}

/// Number of TCP-exposed ports in a list.
pub open spec fn tcp_count(e: Seq<(u16, ExposeType)>) -> nat
    decreases e.len(),
{
    if e.len() == 0 {
        0
    } else {
        tcp_count(e.drop_last()) + if e.last().1 == ExposeType::Tcp { 1nat } else { 0nat }
    }
}

/// A prefix has no more TCP ports than the whole list, and one fewer
/// than the whole when a TCP port follows it.
pub proof fn lemma_tcp_count_prefix(e: Seq<(u16, ExposeType)>, i: int)
    requires
        0 <= i <= e.len(),
    ensures
        tcp_count(e.subrange(0, i)) <= tcp_count(e),
        i < e.len() && e[i].1 == ExposeType::Tcp ==> tcp_count(e.subrange(0, i)) + 1 <= tcp_count(e),
    decreases e.len(),
{
    if i == e.len() {
        assert(e.subrange(0, i) =~= e);
    } else {
        let d = e.drop_last();
        assert(d.subrange(0, i) =~= e.subrange(0, i));
        lemma_tcp_count_prefix(d, i);
        if i + 1 == e.len() {
            assert(d =~= e.subrange(0, i));
        }
    }
}

/// The mapping given to the `k`-th exposed port: TCP ports take the
/// allocated host ports in order; HTTP ports get their subdomain on `base`.
pub open spec fn mapping_for(
    chall_id: Seq<char>,
    team: Option<Seq<char>>,
    base: Seq<char>,
    tcp_ports: Seq<u16>,
    e: Seq<(u16, ExposeType)>,
    k: int,
) -> MappingView {
    match e[k].1 {
        ExposeType::Tcp => MappingView::Tcp(tcp_ports[tcp_count(e.subrange(0, k)) as int]),
        ExposeType::Http => MappingView::Http(subdomain_of(chall_id, team, e[k].0), base),
    }
}

/// A list of mappings as plain values.
pub open spec fn mappings_view(m: Seq<(u16, HostMapping)>) -> Seq<(u16, MappingView)> {
    m.map_values(|x: (u16, HostMapping)| (x.0, x.1@))
}

/// How many host ports must be allocated for a container.
pub fn tcp_ports_needed(c: &Container) -> (n: usize)
    ensures
        n == tcp_count(c.exposed()),
{
    match &c.expose {
        None => 0,
        Some(e) => {
            let mut i: usize = 0;
            let mut t: usize = 0;
            while i < e.len()
                invariant
                    i <= e@.len(),
                    t == tcp_count(e@.subrange(0, i as int)),
                    t <= i,
                decreases e@.len() - i,
            {
                assert(e@.subrange(0, i + 1).drop_last() =~= e@.subrange(0, i as int));
                if e[i].1 == ExposeType::Tcp {
                    t = t + 1;
                }
                i = i + 1;
            }
            assert(e@.subrange(0, i as int) =~= e@);
            t
        },
    }
}

/// The mapping of every exposed port.
pub fn host_mappings(
    chall_id: &str,
    pub_team_id: Option<&str>,
    base: &str,
    expose: &Vec<(u16, ExposeType)>,
    tcp_ports: &Vec<u16>,
) -> (r: Vec<(u16, HostMapping)>)
    requires
        tcp_ports@.len() >= tcp_count(expose@),
    ensures
        r@.len() == expose@.len(),
        forall|k: int| 0 <= k < r@.len() ==> (#[trigger] r@[k]).0 == expose@[k].0
            && r@[k].1@ == mapping_for(chall_id@, opt_text(pub_team_id), base@, tcp_ports@, expose@, k),
{
    let mut r: Vec<(u16, HostMapping)> = Vec::new();
    let mut i: usize = 0;
    let mut t: usize = 0;
    while i < expose.len()
        invariant
            i <= expose@.len(),
            r@.len() == i,
            t == tcp_count(expose@.subrange(0, i as int)),
            tcp_ports@.len() >= tcp_count(expose@),
            forall|k: int| 0 <= k < i ==> (#[trigger] r@[k]).0 == expose@[k].0
                && r@[k].1@ == mapping_for(chall_id@, opt_text(pub_team_id), base@, tcp_ports@, expose@, k),
        decreases expose@.len() - i,
    {
        let (p, kind) = expose[i];
        assert(expose@.subrange(0, i + 1).drop_last() =~= expose@.subrange(0, i as int));
        let m = match kind {
            ExposeType::Tcp => {
                proof {
                    lemma_tcp_count_prefix(expose@, i as int);
                }
                let n = tcp_ports.len();
                assert(t < n);
                let m = HostMapping::Tcp { port: tcp_ports[t] };
                t = t + 1;
                m
            },
            ExposeType::Http => {
                HostMapping::Http {
                    subdomain: calculate_subdomain(chall_id, pub_team_id, p),
                    base: String::from_str(base),
                }
            },
        };
        r.push((p, m));
        i = i + 1;
    }
    r
}


/// Seconds an instanced deployment lives before it is destroyed.
pub const INSTANCE_TTL_SECS: i64 = 600;

/// One row of the deployments table. Times are seconds since the Unix epoch.
#[derive(Debug, Clone)]
pub struct ChallengeDeployment {
    pub id: i32,
    /// Present exactly for instanced deployments.
    pub team_id: Option<i32>,
    pub challenge_id: i32,
    pub deployed: bool,
    pub data: Option<DeploymentData>,
    pub created_at: i64,
    pub expired_at: Option<i64>,
    pub destroyed_at: Option<i64>,
}

/// The text that replaces a container id shown to players.
pub open spec fn redacted_id() -> Seq<char> {
    seq!['r', 'e', 'd', 'a', 'c', 't', 'e', 'd', '-', 'x', 'x', 'x', 'x', 'x']
}

impl ChallengeDeployment {
    /// A new row for a requested deployment: nothing deployed yet.
    pub fn pending(id: i32, challenge_id: i32, team_id: Option<i32>, created_at: i64) -> (r: ChallengeDeployment)
        ensures
            r.id == id,
            r.challenge_id == challenge_id,
            r.team_id == team_id,
            r.created_at == created_at,
            !r.deployed,
            r.data is None,
            r.expired_at is None,
            r.destroyed_at is None,
    {
        ChallengeDeployment {
            id,
            team_id,
            challenge_id,
            deployed: false,
            data: None,
            created_at,
            expired_at: None,
            destroyed_at: None,
        }
    }

    /// The row with its container id hidden.
    pub fn sanitize(self) -> (r: ChallengeDeployment)
        ensures
            r.id == self.id,
            r.team_id == self.team_id,
            r.challenge_id == self.challenge_id,
            r.deployed == self.deployed,
            r.created_at == self.created_at,
            r.expired_at == self.expired_at,
            r.destroyed_at == self.destroyed_at,
            r.data is Some <==> self.data is Some,
            r.data matches Some(d) ==> d.container_id@ == redacted_id()
                && d.ports == self.data->0.ports,
    {
        proof {
            reveal_strlit("redacted-xxxxx");
        }
        let ChallengeDeployment { id, team_id, challenge_id, deployed, data, created_at, expired_at, destroyed_at } = self;
        let data = match data {
            Some(d) => Some(DeploymentData { container_id: String::from_str("redacted-xxxxx"), ports: d.ports }),
            None => None,
        };
        ChallengeDeployment { id, team_id, challenge_id, deployed, data, created_at, expired_at, destroyed_at }
    }
}

/// Why a deployment or a teardown could not go on.
#[derive(Debug, Clone, PartialEq, Eq)]
pub enum DeployError {
    /// No challenge has this id.
    NotFoundChallenge(String),
    /// The challenge with this id has no container.
    MissingContainer(String),
    /// A team was given for a static challenge, or none for an instanced one.
    TeamMismatch,
    /// Fewer host ports were allocated than the container exposes over TCP.
    PortsUnavailable,
    /// The started container reported no network address.
    ContainerNetwork,
}

/// What a deployment will create, fixed before any outside call.
#[derive(Debug, Clone)]
pub struct DeployPlan {
    /// Id of the host keychain to deploy with.
    pub host_id: String,
    pub container_name: String,
    pub image: String,
    pub mappings: Vec<(u16, HostMapping)>,
    pub privileged: Option<bool>,
    pub strategy: ContainerStrategy,
}

/// The team presence matches the strategy.
pub open spec fn team_fits(strategy: ContainerStrategy, team: Option<i32>) -> bool {
    (strategy == ContainerStrategy::Instanced) == (team is Some)
}

/// Steps 1 to 5 of a deployment: find the challenge and its container, check
/// the team against the strategy, pick the host, name the container and map
/// each exposed port. `tcp_ports` are host ports allocated for the TCP
/// exposures, used in order.
pub fn plan_deployment(
    rec: &ChallengeDeployment,
    slug: &str,
    team_public_id: Option<&str>,
    catalog: &ChallengeCatalog,
    hosts: &HostKeychainEnv,
    tcp_ports: &Vec<u16>,
) -> (r: Result<DeployPlan, DeployError>)
    requires
        catalog.wf(),
        hosts.wf(),
    ensures
        ({
            let c = catalog.find(slug@);
            let ct = c.container->0;
            &&& (r matches Err(DeployError::NotFoundChallenge(s)) && s@ == slug@) <==> !catalog.has(slug@)
            &&& (r matches Err(DeployError::MissingContainer(s)) && s@ == slug@) <==>
                    catalog.has(slug@) && c.container is None
            &&& (r == Err::<DeployPlan, DeployError>(DeployError::TeamMismatch)) <==>
                    catalog.has(slug@) && c.container is Some && !team_fits(ct.strategy, rec.team_id)
            &&& (r == Err::<DeployPlan, DeployError>(DeployError::PortsUnavailable)) <==>
                    catalog.has(slug@) && c.container is Some && team_fits(ct.strategy, rec.team_id)
                    && (!ct.wf() || tcp_ports@.len() < tcp_count(ct.exposed()))
            &&& r is Ok <==> catalog.has(slug@) && c.container is Some && team_fits(ct.strategy, rec.team_id)
                    && ct.wf() && tcp_ports@.len() >= tcp_count(ct.exposed())
        }),
        r matches Ok(p) ==> ({
            let c = catalog.find(slug@);
            let ct = c.container->0;
            let host = find_host(hosts@, resolved_host(hosts@, opt_string(ct.host)));
            &&& p.host_id@ == host.id@
            &&& p.container_name@ == container_name(c.id@, ct.strategy, rec.team_id)
            &&& p.image@ == image_ref(host.docker.repo@, host.docker.image_prefix@, c.id@)
            &&& p.strategy == ct.strategy
            &&& p.privileged == ct.privileged
            &&& p.mappings@.len() == ct.exposed().len()
            &&& forall|k: int| 0 <= k < p.mappings@.len() ==> (#[trigger] p.mappings@[k]).0 == ct.exposed()[k].0
                && p.mappings@[k].1@ == mapping_for(c.id@, opt_text(team_public_id), host.caddy.base@,
                    tcp_ports@, ct.exposed(), k)
        }),
{
    let chall = match catalog.lookup(slug) {
        Some(c) => c,
        None => {
            return Err(DeployError::NotFoundChallenge(String::from_str(slug)));
        },
    };
    let ct = match &chall.container {
        Some(ct) => ct,
        None => {
            return Err(DeployError::MissingContainer(String::from_str(slug)));
        },
    };
    let instanced = match ct.strategy {
        ContainerStrategy::Instanced => true,
        ContainerStrategy::Static => false,
    };
    if instanced != rec.team_id.is_some() {
        return Err(DeployError::TeamMismatch);
    }
    let empty: Vec<(u16, ExposeType)> = Vec::new();
    let expose = match &ct.expose {
        Some(e) => e,
        None => &empty,
    };
    assert(expose@ == ct.exposed());
    if !ports_unique(expose) || tcp_ports.len() < tcp_ports_needed(ct) {
        return Err(DeployError::PortsUnavailable);
    }
    let host_ask: Option<&str> = match &ct.host {
        Some(h) => Some(h.as_str()),
        None => None,
    };
    assert(opt_text(host_ask) == opt_string(ct.host));
    let host = hosts.resolve(host_ask);
    let mappings = host_mappings(chall.id.as_str(), team_public_id, host.caddy.base.as_str(), expose, tcp_ports);
    Ok(DeployPlan {
        host_id: host.id.clone(),
        container_name: calculate_container_name(chall.id.as_str(), ct, rec.team_id),
        image: chall.image_id(&host.docker),
        mappings,
        privileged: ct.privileged,
        strategy: ct.strategy,
    })
}

/// Whether no container port is listed twice.
pub fn ports_unique(e: &Vec<(u16, ExposeType)>) -> (r: bool)
    ensures
        r == crate::challenge::ports_distinct(e@),
{
    let n = e.len();
    let mut j: usize = 0;
    while j < n
        invariant
            n == e@.len(),
            j <= n,
            forall|a: int, b: int| 0 <= a < b < j ==> e@[a].0 != e@[b].0,
        decreases n - j,
    {
        let mut i: usize = 0;
        while i < j
            invariant
                n == e@.len(),
                i <= j < n,
                forall|a: int, b: int| 0 <= a < b < j ==> e@[a].0 != e@[b].0,
                forall|k: int| 0 <= k < i ==> e@[k].0 != e@[j as int].0,
            decreases j - i,
        {
            if e[i].0 == e[j].0 {
                return false;
            }
            i = i + 1;
        }
        j = j + 1;
    }
    true
}


/// The (container port, host port) pairs of the TCP mappings, in order.
pub open spec fn tcp_bindings(m: Seq<(u16, MappingView)>) -> Seq<(u16, u16)>
    decreases m.len(),
{
    if m.len() == 0 {
        Seq::empty()
    } else {
        let rest = tcp_bindings(m.drop_last());
        match m.last().1 {
            MappingView::Tcp(h) => rest.push((m.last().0, h)),
            MappingView::Http(_, _) => rest,
        }
    }
}

/// The (container port, subdomain, base) triples of the HTTP mappings, in order.
pub open spec fn http_routes(m: Seq<(u16, MappingView)>) -> Seq<(u16, Seq<char>, Seq<char>)>
    decreases m.len(),
{
    if m.len() == 0 {
        Seq::empty()
    } else {
        let rest = http_routes(m.drop_last());
        match m.last().1 {
            MappingView::Tcp(_) => rest,
            MappingView::Http(sub, base) => rest.push((m.last().0, sub, base)),
        }
    }
}

/// A host port binding for the container runtime.
#[derive(Debug, Clone)]
pub struct PortBinding {
    /// `{port}/tcp`
    pub container_port: String,
    /// Always `0.0.0.0`.
    pub host_ip: String,
    /// The host port in decimal.
    pub host_port: String,
}

/// `{port}/tcp`
pub open spec fn tcp_key(port: u16) -> Seq<char> {
    nat_text(port as nat) + seq!['/', 't', 'c', 'p']
}

/// All interfaces.
pub open spec fn any_address() -> Seq<char> {
    seq!['0', '.', '0', '.', '0', '.', '0']
}

impl PortBinding {
    pub open spec fn view(&self) -> (Seq<char>, Seq<char>, Seq<char>) {
        (self.container_port@, self.host_ip@, self.host_port@)
    }
}

/// A route of the reverse proxy, addressed by a deterministic id.
#[derive(Debug, Clone)]
pub struct ProxyRoute {
    /// `proxy-{subdomain}`
    pub id: String,
    /// Admin path of the route: `/id/proxy-{subdomain}`.
    pub path: String,
    /// Host matched: `{subdomain}.{base}`.
    pub host: String,
    /// Upstream: `{container_ip}:{container_port}`.
    pub dial: String,
}

/// `proxy-{subdomain}`
pub open spec fn route_id_of(sub: Seq<char>) -> Seq<char> {
    seq!['p', 'r', 'o', 'x', 'y', '-'] + sub
}

/// `/id/{route id}`
pub open spec fn route_path_of(sub: Seq<char>) -> Seq<char> {
    seq!['/', 'i', 'd', '/'] + route_id_of(sub)
}

impl ProxyRoute {
    pub open spec fn view(&self) -> (Seq<char>, Seq<char>, Seq<char>, Seq<char>) {
        (self.id@, self.path@, self.host@, self.dial@)
    }
}

/// The route expected for an HTTP mapping of a container at `ip`.
pub open spec fn route_of(ip: Seq<char>, r: (u16, Seq<char>, Seq<char>)) -> (Seq<char>, Seq<char>, Seq<char>, Seq<char>) {
    (route_id_of(r.1), route_path_of(r.1), r.1 + seq!['.'] + r.2, ip + seq![':'] + nat_text(r.0 as nat))
}

/// Admin path under which new routes are inserted.
pub const ROUTES_PATH: &'static str = "/id/default-server/routes/0";

/// The id and admin path of the route of a subdomain.
pub fn route_id(sub: &str) -> (r: (String, String))
    ensures
        r.0@ == route_id_of(sub@),
        r.1@ == route_path_of(sub@),
{
    proof {
        reveal_strlit("proxy-");
        reveal_strlit("/id/");
    }
    let mut id = String::from_str("proxy-");
    push_str(&mut id, sub);
    let mut path = String::from_str("/id/");
    push_str(&mut path, id.as_str());
    assert(path@ =~= route_path_of(sub@));
    (id, path)
}

impl DeployPlan {
    pub open spec fn mapping_views(&self) -> Seq<(u16, MappingView)> {
        mappings_view(self.mappings@)
    }

    /// Host port bindings of the TCP mappings, in order.
    pub fn port_bindings(&self) -> (r: Vec<PortBinding>)
        ensures
            r@.len() == tcp_bindings(self.mapping_views()).len(),
            forall|j: int| 0 <= j < r@.len() ==> (#[trigger] r@[j])@ == ({
                let b = tcp_bindings(self.mapping_views())[j];
                (tcp_key(b.0), any_address(), nat_text(b.1 as nat))
            }),
    {
        let ghost mv = self.mapping_views();
        let mut r: Vec<PortBinding> = Vec::new();
        let mut i: usize = 0;
        while i < self.mappings.len()
            invariant
                i <= self.mappings@.len(),
                mv == self.mapping_views(),
                r@.len() == tcp_bindings(mv.subrange(0, i as int)).len(),
                forall|j: int| 0 <= j < r@.len() ==> (#[trigger] r@[j])@ == ({
                    let b = tcp_bindings(mv.subrange(0, i as int))[j];
                    (tcp_key(b.0), any_address(), nat_text(b.1 as nat))
                }),
            decreases self.mappings@.len() - i,
        {
            assert(mv.subrange(0, i + 1).drop_last() =~= mv.subrange(0, i as int));
            assert(mv.subrange(0, i + 1).last() == mv[i as int]);
            let p = self.mappings[i].0;
            match &self.mappings[i].1 {
                HostMapping::Tcp { port } => {
                    proof {
                        reveal_strlit("/tcp");
                        reveal_strlit("0.0.0.0");
                    }
                    let mut key = String::new();
                    push_nat(&mut key, p as u64);
                    push_str(&mut key, "/tcp");
                    let mut hp = String::new();
                    push_nat(&mut hp, *port as u64);
                    assert(key@ =~= tcp_key(p));
                    assert(hp@ =~= nat_text(*port as nat));
                    r.push(PortBinding { container_port: key, host_ip: String::from_str("0.0.0.0"), host_port: hp });
                },
                HostMapping::Http { .. } => {},
            }
            i = i + 1;
        }
        assert(mv.subrange(0, i as int) =~= mv);
        r
    }

    /// Proxy routes of the HTTP mappings, in order, for a container at `ip`.
    pub fn proxy_routes(&self, ip: &str) -> (r: Vec<ProxyRoute>)
        ensures
            r@.len() == http_routes(self.mapping_views()).len(),
            forall|j: int| 0 <= j < r@.len() ==> (#[trigger] r@[j])@ == route_of(ip@, http_routes(self.mapping_views())[j]),
    {
        let ghost mv = self.mapping_views();
        let mut r: Vec<ProxyRoute> = Vec::new();
        let mut i: usize = 0;
        while i < self.mappings.len()
            invariant
                i <= self.mappings@.len(),
                mv == self.mapping_views(),
                r@.len() == http_routes(mv.subrange(0, i as int)).len(),
                forall|j: int| 0 <= j < r@.len() ==> (#[trigger] r@[j])@ == route_of(ip@, http_routes(mv.subrange(0, i as int))[j]),
            decreases self.mappings@.len() - i,
        {
            assert(mv.subrange(0, i + 1).drop_last() =~= mv.subrange(0, i as int));
            assert(mv.subrange(0, i + 1).last() == mv[i as int]);
            let p = self.mappings[i].0;
            match &self.mappings[i].1 {
                HostMapping::Tcp { .. } => {},
                HostMapping::Http { subdomain, base } => {
                    let (id, path) = route_id(subdomain.as_str());
                    let mut host = subdomain.clone();
                    push_char(&mut host, '.');
                    push_str(&mut host, base.as_str());
                    let mut dial = String::from_str(ip);
                    push_char(&mut dial, ':');
                    push_nat(&mut dial, p as u64);
                    assert(host@ =~= subdomain@ + seq!['.'] + base@);
                    assert(dial@ =~= ip@ + seq![':'] + nat_text(p as nat));
                    r.push(ProxyRoute { id, path, host, dial });
                },
            }
            i = i + 1;
        }
        assert(mv.subrange(0, i as int) =~= mv);
        r
    }
}

} // verus!
