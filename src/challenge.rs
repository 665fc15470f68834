//! Challenge definitions and the catalog that holds them.

use vstd::prelude::*;
use crate::text::{push_str, str_eq, valid_id};
pub use crate::text::is_valid_id;

verus! {

/// How the flag of a challenge is given.
#[derive(Debug, Clone)]
pub enum Flag {
    Raw(String),
    File { file: String },
}

/// A file handed to players with a challenge.
#[derive(Debug, Clone)]
pub enum Attachment {
    File(String),
    Named { file: String, as_name: String },
    /// A directory packed as `<as_name>.tar.gz`.
    Archive { dir: String, as_name: String, exclude: Option<Vec<String>> },
}

/// The name an archive attachment gets when none is given.
pub fn default_archive_name() -> (r: String)
    ensures
        r@ == seq!['c', 'h', 'a', 'l', 'l'],
{
    proof {
        reveal_strlit("chall");
    }
    String::from_str("chall")
}

/// How many instances of a challenge's container run.
#[derive(Debug, Clone, Copy, PartialEq, Eq, Structural)]
pub enum ContainerStrategy {
    /// One container shared by every team.
    Static,
    /// One time-limited container per team.
    Instanced,
}

/// The strategy of a container that names none.
pub fn default_strategy() -> (r: ContainerStrategy)
    ensures
        r == ContainerStrategy::Static,
{
    ContainerStrategy::Static
}

/// Resource limits of a container.
#[derive(Debug, Clone, Copy, PartialEq, Eq, Structural)]
pub struct Limits {
    pub cpu: Option<u64>,
    pub mem: Option<u64>,
}

/// How a container port is reached from outside.
#[derive(Debug, Clone, Copy, PartialEq, Eq, Structural)]
pub enum ExposeType {
    /// A raw TCP port published on the host.
    Tcp,
    /// An HTTP subdomain routed by the reverse proxy.
    Http,
}

/// The container a challenge runs in.
#[derive(Debug, Clone)]
pub struct Container {
    /// Build context, relative to the challenge's directory.
    pub build: String,
    pub limits: Option<Limits>,
    pub env: Option<Vec<(String, String)>>,
    /// Container port and how it is exposed; each port at most once.
    pub expose: Option<Vec<(u16, ExposeType)>>,
    pub strategy: ContainerStrategy,
    pub privileged: Option<bool>,
    /// Id of the host the container should run on.
    pub host: Option<String>,
}

/// No container port is listed twice.
pub open spec fn ports_distinct(e: Seq<(u16, ExposeType)>) -> bool {
    forall|i: int, j: int| 0 <= i < j < e.len() ==> e[i].0 != e[j].0
}

impl Container {
    /// The exposed ports, in the order given (empty when none).
    pub open spec fn exposed(&self) -> Seq<(u16, ExposeType)> {
        match self.expose {
            Some(e) => e@,
            None => Seq::empty(),
        }
    }

    pub open spec fn wf(&self) -> bool {
        ports_distinct(self.exposed())
    }
}

/// A challenge as its manifest describes it.
#[derive(Debug, Clone)]
pub struct Challenge {
    pub id: String,
    pub name: String,
    pub author: String,
    pub description: String,
    pub flag: Flag,
    pub group: Option<String>,
    pub build_group: Option<String>,
    pub category: String,
    pub provide: Option<Vec<Attachment>>,
    pub container: Option<Container>,
}

/// Credentials for an image registry.
#[derive(Debug, Clone)]
pub struct DockerCredentials {
    pub username: Option<String>,
    pub password: Option<String>,
    pub auth: Option<String>,
    pub email: Option<String>,
    pub serveraddress: Option<String>,
    pub identitytoken: Option<String>,
    pub registrytoken: Option<String>,
}

/// How to reach a container runtime.
#[derive(Debug, Clone)]
pub enum DockerData {
    /// The local runtime with its default settings.
    Local,
    /// A remote runtime over TLS; key, certificate and CA in PEM.
    Ssl { address: String, key: String, cert: String, ca: String },
}

/// A container runtime together with where its images are kept.
#[derive(Debug, Clone)]
pub struct DeployableContextData {
    pub docker: DockerData,
    pub docker_credentials: Option<DockerCredentials>,
    pub image_prefix: String,
    pub repo: String,
}

/// The image reference `{repo}/{prefix}{id}`.
pub open spec fn image_ref(repo: Seq<char>, prefix: Seq<char>, id: Seq<char>) -> Seq<char> {
    repo + seq!['/'] + prefix + id
}

impl Challenge {
    /// The image of this challenge in the context's repository.
    pub fn image_id(&self, ctx: &DeployableContextData) -> (r: String)
        ensures
            r@ == image_ref(ctx.repo@, ctx.image_prefix@, self.id@),
    {
        let mut s = ctx.repo.clone();
        push_str(&mut s, "/");
        push_str(&mut s, ctx.image_prefix.as_str());
        push_str(&mut s, self.id.as_str());
        proof {
            reveal_strlit("/");
            assert(s@ =~= image_ref(ctx.repo@, ctx.image_prefix@, self.id@));
        }
        s
    }
}

/// Why a set of challenge definitions was refused.
#[derive(Debug, Clone)]
pub enum CatalogError {
    /// Two definitions share this id.
    DuplicateId(String),
    /// This id holds a character other than lowercase alphanumerics and `-`.
    InvalidId(String),
}

/// No two challenges share an id.
pub open spec fn ids_distinct(s: Seq<Challenge>) -> bool {
    forall|i: int, j: int| 0 <= i < j < s.len() ==> s[i].id@ != s[j].id@
}

/// Every challenge has a valid id.
pub open spec fn ids_valid(s: Seq<Challenge>) -> bool {
    forall|i: int| 0 <= i < s.len() ==> valid_id(#[trigger] s[i].id@)
}

/// The first `j` definitions have valid, distinct ids: the first problem, if
/// any, is at `j` or later.
pub open spec fn sound_prefix(s: Seq<Challenge>, j: int) -> bool {
    &&& forall|a: int| 0 <= a < j ==> valid_id(#[trigger] s[a].id@)
    &&& forall|a: int, b: int| 0 <= a < b < j ==> s[a].id@ != s[b].id@
}

/// The challenges known to the deployer, keyed by id.
pub struct ChallengeCatalog {
    challenges: Vec<Challenge>,
}

impl ChallengeCatalog {
    pub closed spec fn view(&self) -> Seq<Challenge> {
        self.challenges@
    }

    pub open spec fn wf(&self) -> bool {
        ids_distinct(self@) && ids_valid(self@)
    }

    /// Whether a challenge with this id is in the catalog.
    pub open spec fn has(&self, id: Seq<char>) -> bool {
        exists|i: int| 0 <= i < self@.len() && #[trigger] self@[i].id@ == id
    }

    /// The challenge with this id (meaningful when `has(id)`).
    pub open spec fn find(&self, id: Seq<char>) -> Challenge {
        self@[choose|i: int| 0 <= i < self@.len() && #[trigger] self@[i].id@ == id]
    }

    /// Builds the catalog from parsed definitions; ids must be valid and distinct.
    pub fn load(list: Vec<Challenge>) -> (r: Result<ChallengeCatalog, CatalogError>)
        ensures
            r is Ok <==> ids_distinct(list@) && ids_valid(list@),
            r matches Ok(c) ==> c@ == list@ && c.wf(),
            r matches Err(CatalogError::InvalidId(id)) ==> exists|j: int| 0 <= j < list@.len()
                && sound_prefix(list@, j) && #[trigger] list@[j].id@ == id@ && !valid_id(id@),
            r matches Err(CatalogError::DuplicateId(id)) ==> exists|j: int| 0 <= j < list@.len()
                && sound_prefix(list@, j) && #[trigger] list@[j].id@ == id@ && valid_id(id@)
                && exists|i: int| 0 <= i < j && list@[i].id@ == id@,
    {
        let n = list.len();
        let mut j: usize = 0;
        while j < n
            invariant
                n == list@.len(),
                j <= n,
                sound_prefix(list@, j as int),
            decreases n - j,
        {
            if !is_valid_id(list[j].id.as_str()) {
                assert(!ids_valid(list@));
                return Err(CatalogError::InvalidId(list[j].id.clone()));
            }
            let mut i: usize = 0;
            while i < j
                invariant
                    n == list@.len(),
                    i <= j < n,
                    sound_prefix(list@, j as int),
                    valid_id(list@[j as int].id@),
                    forall|k: int| 0 <= k < i ==> list@[k].id@ != list@[j as int].id@,
                decreases j - i,
            {
                if list[i].id == list[j].id {
                    assert(!ids_distinct(list@));
                    return Err(CatalogError::DuplicateId(list[j].id.clone()));
                }
                i = i + 1;
            }
            j = j + 1;
        }
        Ok(ChallengeCatalog { challenges: list })
    }

    /// The challenge with this id, if any.
    pub fn lookup(&self, id: &str) -> (r: Option<&Challenge>)
        ensures
            r is Some <==> self.has(id@),
            r matches Some(c) ==> c.id@ == id@ && exists|i: int| 0 <= i < self@.len() && self@[i] == *c,
            self.wf() && r is Some ==> *r->0 == self.find(id@),
    {
        let n = self.challenges.len();
        let mut i: usize = 0;
        while i < n
            invariant
                n == self@.len(),
                i <= n,
                forall|k: int| 0 <= k < i ==> self@[k].id@ != id@,
            decreases n - i,
        {
            if str_eq(self.challenges[i].id.as_str(), id) {
                proof {
                    if self.wf() {
                        let k = choose|k: int| 0 <= k < self@.len() && #[trigger] self@[k].id@ == id@;
                        assert(self@[i as int].id@ == id@);
                        if k != i {
                            if k < i {
                                assert(self@[k].id@ != self@[i as int].id@);
                            } else {
                                assert(self@[i as int].id@ != self@[k].id@);
                            }
                        }
                    }
                }
                return Some(&self.challenges[i]);
            }
            i = i + 1;
        }
        None
    }
}

} // verus!
