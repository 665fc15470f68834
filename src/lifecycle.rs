//! The life of a deployment row: what deploy and destroy write to the
//! deployments table, the table as a sequence of rows, and the control
//! surface's lookup.

use vstd::prelude::*;
use crate::challenge::{ChallengeCatalog, ContainerStrategy};
use crate::naming::container_name;
use crate::deploy::{
    http_routes, mappings_view, route_id, route_id_of, route_path_of, ChallengeDeployment,
    DeployError, DeployPlan, DeploymentData, HostMapping, INSTANCE_TTL_SECS,
};
use crate::keychain::{resolved_host, HostKeychainEnv};
use crate::text::{opt_string, opt_text};

verus! {

/// A change to the deployments table.
#[derive(Debug, Clone)]
pub enum StoreWrite {
    /// Replace the row with this row's id.
    Update(ChallengeDeployment),
    /// Remove the row with this id.
    Delete(i32),
}

/// The rows without those of this id.
pub open spec fn without_id(rows: Seq<ChallengeDeployment>, id: i32) -> Seq<ChallengeDeployment>
    decreases rows.len(),
{
    if rows.len() == 0 {
        rows
    } else {
        let rest = without_id(rows.drop_last(), id);
        if rows.last().id == id { rest } else { rest.push(rows.last()) }
    }
}

/// The table after a write.
pub open spec fn apply_write(rows: Seq<ChallengeDeployment>, w: StoreWrite) -> Seq<ChallengeDeployment> {
    match w {
        StoreWrite::Update(r) => rows.map_values(|x: ChallengeDeployment| if x.id == r.id { r } else { x }),
        StoreWrite::Delete(id) => without_id(rows, id),
    }
}

/// When an instanced deployment made at `now` expires; static ones never do.
pub open spec fn expiration_of(strategy: ContainerStrategy, now: i64) -> Option<i64> {
    match strategy {
        ContainerStrategy::Static => None,
        ContainerStrategy::Instanced => Some((now + INSTANCE_TTL_SECS) as i64),
    }
}

/// The row once its plan has been carried out at `now`.
pub open spec fn deployed_record(rec: ChallengeDeployment, plan: DeployPlan, now: i64) -> ChallengeDeployment {
    ChallengeDeployment {
        deployed: true,
        data: Some(DeploymentData { container_id: plan.container_name, ports: plan.mappings }),
        expired_at: expiration_of(plan.strategy, now),
        ..rec
    }
}

/// The row after a destroy at `now`, or `None` when there is nothing to tear
/// down (already destroyed, never deployed, or no data).
pub open spec fn destroy_outcome(rec: ChallengeDeployment, now: i64) -> Option<ChallengeDeployment> {
    if rec.destroyed_at is Some || !rec.deployed || rec.data is None {
        None
    } else {
        Some(ChallengeDeployment { deployed: false, data: None, destroyed_at: Some(now), ..rec })
    }
}

/// Expiration time of a deployment made at `now` with this strategy.
pub fn expiration(strategy: ContainerStrategy, now: i64) -> (r: Option<i64>)
    requires
        now <= i64::MAX - INSTANCE_TTL_SECS,
    ensures
        r == expiration_of(strategy, now),
{
    match strategy {
        ContainerStrategy::Static => None,
        ContainerStrategy::Instanced => Some(now + INSTANCE_TTL_SECS),
    }
}

/// Step 12: the write that marks the row deployed with its plan's container
/// and mappings, and its expiration.
pub fn deploy_succeeded(rec: ChallengeDeployment, plan: DeployPlan, now: i64) -> (w: StoreWrite)
    requires
        now <= i64::MAX - INSTANCE_TTL_SECS,
    ensures
        w == StoreWrite::Update(deployed_record(rec, plan, now)),
{
    let expired_at = expiration(plan.strategy, now);
    StoreWrite::Update(ChallengeDeployment {
        deployed: true,
        data: Some(DeploymentData { container_id: plan.container_name, ports: plan.mappings }),
        expired_at,
        ..rec
    })
}

/// The write after a failed deployment: its row goes.
pub fn deploy_failed(rec: &ChallengeDeployment) -> (w: StoreWrite)
    ensures
        w == StoreWrite::Delete(rec.id),
{
    StoreWrite::Delete(rec.id)
}

/// Seconds to wait from `now` until `expires_at`; none once it has passed.
pub fn expiry_delay(expires_at: i64, now: i64) -> (r: u64)
    ensures
        r == if expires_at > now { expires_at - now } else { 0 },
{
    if expires_at > now {
        (expires_at as i128 - now as i128) as u64
    } else {
        0
    }
}

/// The physical teardown of a deployment, with the write that goes first.
#[derive(Debug, Clone)]
pub struct Teardown {
    /// Marks the row destroyed; rolled back if the teardown fails.
    pub write: StoreWrite,
    /// Id of the host keychain to tear down with.
    pub host_id: String,
    /// The container to remove, with its volumes.
    pub container_name: String,
    /// Id and admin path of each proxy route to delete.
    pub routes: Vec<(String, String)>,
}

/// What a destroy does.
#[derive(Debug, Clone)]
pub enum DestroyAction {
    /// Nothing to tear down.
    Nothing,
    Teardown(Teardown),
}

/// A destroy at `now`: nothing when the row is already destroyed or holds no
/// deployment; otherwise the write that clears it and the teardown of its
/// container and proxy routes, on the host its challenge resolves to.
pub fn plan_destroy(
    rec: &ChallengeDeployment,
    slug: &str,
    catalog: &ChallengeCatalog,
    hosts: &HostKeychainEnv,
    now: i64,
) -> (r: Result<DestroyAction, DeployError>)
    requires
        catalog.wf(),
        hosts.wf(),
    ensures
        destroy_outcome(*rec, now) is None <==> (r matches Ok(DestroyAction::Nothing)),
        destroy_outcome(*rec, now) is Some ==> ({
            let c = catalog.find(slug@);
            &&& (r matches Err(DeployError::NotFoundChallenge(s)) && s@ == slug@) <==> !catalog.has(slug@)
            &&& (r matches Err(DeployError::MissingContainer(s)) && s@ == slug@) <==>
                    catalog.has(slug@) && c.container is None
            &&& (r matches Ok(DestroyAction::Teardown(_))) <==> catalog.has(slug@) && c.container is Some
        }),
        r matches Ok(DestroyAction::Teardown(t)) ==> ({
            let c = catalog.find(slug@);
            let data = rec.data->0;
            let routes = http_routes(mappings_view(data.ports@));
            &&& t.write == StoreWrite::Update(destroy_outcome(*rec, now)->0)
            &&& t.host_id@ == resolved_host(hosts@, opt_string(c.container->0.host))
            &&& t.container_name@ == data.container_id@
            &&& t.routes@.len() == routes.len()
            &&& forall|j: int| 0 <= j < t.routes@.len() ==> (#[trigger] t.routes@[j]).0@ == route_id_of(routes[j].1)
                && t.routes@[j].1@ == route_path_of(routes[j].1)
        }),
{
    if rec.destroyed_at.is_some() || !rec.deployed {
        return Ok(DestroyAction::Nothing);
    }
    let data = match &rec.data {
        Some(d) => d,
        None => {
            return Ok(DestroyAction::Nothing);
        },
    };
    let chall = match catalog.lookup(slug) {
        Some(c) => c,
        None => {
            return Err(DeployError::NotFoundChallenge(String::from_str(slug)));
        },
    };
    let ct = match &chall.container {
        Some(ct) => ct,
        None => {
            return Err(DeployError::MissingContainer(String::from_str(slug)));
        },
    };
    let host_ask: Option<&str> = match &ct.host {
        Some(h) => Some(h.as_str()),
        None => None,
    };
    assert(opt_text(host_ask) == opt_string(ct.host));
    let host = hosts.resolve(host_ask);

    let ghost mv = mappings_view(data.ports@);
    let mut routes: Vec<(String, String)> = Vec::new();
    let mut i: usize = 0;
    while i < data.ports.len()
        invariant
            i <= data.ports@.len(),
            mv == mappings_view(data.ports@),
            routes@.len() == http_routes(mv.subrange(0, i as int)).len(),
            forall|j: int| 0 <= j < routes@.len() ==> (#[trigger] routes@[j]).0@ == route_id_of(http_routes(mv.subrange(0, i as int))[j].1)
                && routes@[j].1@ == route_path_of(http_routes(mv.subrange(0, i as int))[j].1),
        decreases data.ports@.len() - i,
    {
        assert(mv.subrange(0, i + 1).drop_last() =~= mv.subrange(0, i as int));
        assert(mv.subrange(0, i + 1).last() == mv[i as int]);
        match &data.ports[i].1 {
            HostMapping::Tcp { .. } => {},
            HostMapping::Http { subdomain, .. } => {
                routes.push(route_id(subdomain.as_str()));
            },
        }
        i = i + 1;
    }
    assert(mv.subrange(0, i as int) =~= mv);
    let cleared = ChallengeDeployment {
        id: rec.id,
        team_id: rec.team_id,
        challenge_id: rec.challenge_id,
        deployed: false,
        data: None,
        created_at: rec.created_at,
        expired_at: rec.expired_at,
        destroyed_at: Some(now),
    };
    Ok(DestroyAction::Teardown(Teardown {
        write: StoreWrite::Update(cleared),
        host_id: host.id.clone(),
        container_name: data.container_id.clone(),
        routes,
    }))
}

/// The row a destroy request is about: not yet destroyed, of this challenge,
/// and of this team, where no team matches only no team.
pub open spec fn is_active_for(r: ChallengeDeployment, challenge_id: i32, team_id: Option<i32>) -> bool {
    r.destroyed_at is None && r.challenge_id == challenge_id && r.team_id == team_id
}

/// The first row that a destroy request for (challenge, team) is about.
pub fn find_active(rows: &Vec<ChallengeDeployment>, challenge_id: i32, team_id: Option<i32>) -> (r: Option<usize>)
    ensures
        r matches Some(i) ==> i < rows@.len() && is_active_for(rows@[i as int], challenge_id, team_id)
            && forall|k: int| 0 <= k < i ==> !is_active_for(#[trigger] rows@[k], challenge_id, team_id),
        r is None ==> forall|k: int| 0 <= k < rows@.len() ==> !is_active_for(#[trigger] rows@[k], challenge_id, team_id),
{
    let mut i: usize = 0;
    while i < rows.len()
        invariant
            i <= rows@.len(),
            forall|k: int| 0 <= k < i ==> !is_active_for(#[trigger] rows@[k], challenge_id, team_id),
        decreases rows@.len() - i,
    {
        let r = &rows[i];
        let same_team = match (r.team_id, team_id) {
            (Some(a), Some(b)) => a == b,
            (None, None) => true,
            _ => false,
        };
        if r.destroyed_at.is_none() && r.challenge_id == challenge_id && same_team {
            return Some(i);
        }
        i = i + 1;
    }
    None
}


/// A row is consistent when a destroyed row holds no deployment.
pub open spec fn consistent(r: ChallengeDeployment) -> bool {
    r.destroyed_at is Some ==> !r.deployed && r.data is None
}

/// Pending rows are consistent, and deploying and destroying keep rows
/// consistent.
pub proof fn lemma_lifecycle_consistent(rec: ChallengeDeployment, plan: DeployPlan, now: i64)
    ensures
        rec.destroyed_at is None && consistent(rec) ==> consistent(deployed_record(rec, plan, now)),
        destroy_outcome(rec, now) matches Some(r2) ==> consistent(r2),
{
}

/// A static deployment never expires, keeps the row's (absent) team, and its
/// container name does not depend on any team.
pub proof fn lemma_static_deploy(rec: ChallengeDeployment, plan: DeployPlan, now: i64, chall_id: Seq<char>, team_a: Option<i32>, team_b: Option<i32>)
    requires
        plan.strategy == ContainerStrategy::Static,
    ensures
        deployed_record(rec, plan, now).expired_at is None,
        deployed_record(rec, plan, now).team_id == rec.team_id,
        container_name(chall_id, ContainerStrategy::Static, team_a) == container_name(chall_id, ContainerStrategy::Static, team_b),
{
}

/// Destroy is idempotent: once a destroy has cleared a row, a second one
/// finds nothing to tear down.
pub proof fn lemma_destroy_idempotent(rec: ChallengeDeployment, first: i64, second: i64)
    ensures
        destroy_outcome(rec, first) matches Some(r2) ==> destroy_outcome(r2, second) is None,
        destroy_outcome(rec, first) is None ==> destroy_outcome(rec, second) is None,
{
}

/// Removing every row of an id from a table that has none leaves it unchanged.
pub proof fn lemma_without_absent(rows: Seq<ChallengeDeployment>, id: i32)
    requires
        forall|k: int| 0 <= k < rows.len() ==> (#[trigger] rows[k]).id != id,
    ensures
        without_id(rows, id) == rows,
    decreases rows.len(),
{
    if rows.len() > 0 {
        let d = rows.drop_last();
        assert forall|k: int| 0 <= k < d.len() implies (#[trigger] d[k]).id != id by {
            assert(d[k] == rows[k]);
        }
        lemma_without_absent(d, id);
        assert(d.push(rows.last()) =~= rows);
    }
}

/// A deployment that fails leaves no trace: removing its pending row gives
/// back the table as it was before that row was inserted.
pub proof fn lemma_failed_deploy_leaves_no_row(rows: Seq<ChallengeDeployment>, pending: ChallengeDeployment)
    requires
        forall|k: int| 0 <= k < rows.len() ==> (#[trigger] rows[k]).id != pending.id,
    ensures
        apply_write(rows.push(pending), StoreWrite::Delete(pending.id)) == rows,
        apply_write(rows.push(pending), StoreWrite::Delete(pending.id)).len() == rows.len(),
{
    assert(rows.push(pending).drop_last() =~= rows);
    lemma_without_absent(rows, pending.id);
}

/// An instanced deployment expires one time-to-live after it was made; a
/// destroy at or after that time clears its data and marks it destroyed.
pub proof fn lemma_expired_instance_destroyed(rec: ChallengeDeployment, plan: DeployPlan, now: i64, later: i64)
    requires
        plan.strategy == ContainerStrategy::Instanced,
        rec.destroyed_at is None,
        now <= i64::MAX - INSTANCE_TTL_SECS,
        later >= now + INSTANCE_TTL_SECS,
    ensures
        deployed_record(rec, plan, now).expired_at == Some((now + INSTANCE_TTL_SECS) as i64),
        destroy_outcome(deployed_record(rec, plan, now), later) matches Some(r2)
            && r2.destroyed_at == Some(later) && r2.data is None && !r2.deployed && r2.id == rec.id,
{
}

} // verus!
