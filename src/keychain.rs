//! Per-host credentials: how to reach each container runtime and reverse proxy.

use vstd::prelude::*;
use vstd::string::*;
use crate::challenge::DeployableContextData;
use crate::text::{opt_text, push_char, str_eq};

verus! {

/// Mutual-TLS client identity for the reverse proxy; all PEM.
#[derive(Debug, Clone)]
pub struct ClientTLSKeychain {
    pub cacert: String,
    pub cert: String,
    pub key: String,
}

/// How to reach the reverse proxy of a host.
#[derive(Debug, Clone)]
pub struct CaddyKeychain {
    /// Admin endpoint.
    pub endpoint: String,
    /// Subdomains are of the form `<subdomain>.<base>`.
    pub base: String,
    pub mtls: ClientTLSKeychain,
}

/// Everything needed to deploy on one host.
#[derive(Debug, Clone)]
pub struct HostKeychain {
    /// Host id; `default` is the fallback host.
    pub id: String,
    pub docker: DeployableContextData,
    pub caddy: CaddyKeychain,
}

/// Why a list of host keychains was refused.
#[derive(Debug, Clone)]
pub enum KeychainError {
    /// Two entries share this id.
    DuplicateKey(String),
    /// No entry has the id `default`.
    MissingDefault,
}

/// The id of the fallback host.
pub open spec fn default_host() -> Seq<char> {
    seq!['d', 'e', 'f', 'a', 'u', 'l', 't']
}

/// No two keychains share an id.
pub open spec fn host_ids_distinct(s: Seq<HostKeychain>) -> bool {
    forall|i: int, j: int| 0 <= i < j < s.len() ==> s[i].id@ != s[j].id@
}

/// Some keychain has this id.
pub open spec fn has_host(s: Seq<HostKeychain>, id: Seq<char>) -> bool {
    exists|i: int| 0 <= i < s.len() && #[trigger] s[i].id@ == id
}

/// The keychain with this id (meaningful when `has_host(s, id)`).
pub open spec fn find_host(s: Seq<HostKeychain>, id: Seq<char>) -> HostKeychain {
    s[choose|i: int| 0 <= i < s.len() && #[trigger] s[i].id@ == id]
}

/// The host keychains, keyed by id, with a `default` entry.
pub struct HostKeychainEnv {
    chains: Vec<HostKeychain>,
}

impl HostKeychainEnv {
    pub closed spec fn view(&self) -> Seq<HostKeychain> {
        self.chains@
    }

    pub open spec fn wf(&self) -> bool {
        host_ids_distinct(self@) && has_host(self@, default_host())
    }

    /// Builds the registry; ids must be distinct and one must be `default`.
    pub fn from_entries(list: Vec<HostKeychain>) -> (r: Result<HostKeychainEnv, KeychainError>)
        ensures
            r is Ok <==> host_ids_distinct(list@) && has_host(list@, default_host()),
            r matches Ok(e) ==> e@ == list@ && e.wf(),
            r matches Err(KeychainError::DuplicateKey(id)) ==> exists|j: int| 0 <= j < list@.len()
                && host_ids_distinct(list@.subrange(0, j)) && #[trigger] list@[j].id@ == id@
                && exists|i: int| 0 <= i < j && list@[i].id@ == id@,
            r matches Err(KeychainError::MissingDefault) ==> host_ids_distinct(list@),
    {
        let n = list.len();
        let mut j: usize = 0;
        while j < n
            invariant
                n == list@.len(),
                j <= n,
                forall|a: int, b: int| 0 <= a < b < j ==> list@[a].id@ != list@[b].id@,
            decreases n - j,
        {
            let mut i: usize = 0;
            while i < j
                invariant
                    n == list@.len(),
                    i <= j < n,
                    forall|a: int, b: int| 0 <= a < b < j ==> list@[a].id@ != list@[b].id@,
                    forall|k: int| 0 <= k < i ==> list@[k].id@ != list@[j as int].id@,
                decreases j - i,
            {
                if list[i].id == list[j].id {
                    proof {
                        let pre = list@.subrange(0, j as int);
                        assert forall|a: int, b: int| 0 <= a < b < pre.len() implies pre[a].id@ != pre[b].id@ by {
                            assert(pre[a] == list@[a]);
                            assert(pre[b] == list@[b]);
                        }
                        assert(!host_ids_distinct(list@));
                    }
                    return Err(KeychainError::DuplicateKey(list[j].id.clone()));
                }
                i = i + 1;
            }
            j = j + 1;
        }
        let registry = HostKeychainEnv { chains: list };
        let d = "default";
        proof {
            reveal_strlit("default");
            assert(d@ =~= default_host());
        }
        if registry.get(d).is_none() {
            Err(KeychainError::MissingDefault)
        } else {
            Ok(registry)
        }
    }

    /// The keychain with this id, if any.
    pub fn get(&self, id: &str) -> (r: Option<&HostKeychain>)
        ensures
            r is Some <==> has_host(self@, id@),
            r matches Some(k) ==> k.id@ == id@ && exists|i: int| 0 <= i < self@.len() && self@[i] == *k,
            host_ids_distinct(self@) && r is Some ==> *r->0 == find_host(self@, id@),
    {
        let n = self.chains.len();
        let mut i: usize = 0;
        while i < n
            invariant
                n == self@.len(),
                i <= n,
                forall|k: int| 0 <= k < i ==> self@[k].id@ != id@,
            decreases n - i,
        {
            if str_eq(self.chains[i].id.as_str(), id) {
                proof {
                    if host_ids_distinct(self@) {
                        let k = choose|k: int| 0 <= k < self@.len() && #[trigger] self@[k].id@ == id@;
                        assert(self@[i as int].id@ == id@);
                        if k != i {
                            if k < i {
                                assert(self@[k].id@ != self@[i as int].id@);
                            } else {
                                assert(self@[i as int].id@ != self@[k].id@);
                            }
                        }
                    }
                }
                return Some(&self.chains[i]);
            }
            i = i + 1;
        }
        None
    }

    /// The keychain for a host: the one asked for when it exists, else `default`.
    pub fn resolve(&self, host: Option<&str>) -> (r: &HostKeychain)
        requires
            self.wf(),
        ensures
            exists|i: int| 0 <= i < self@.len() && self@[i] == *r,
            r.id@ == resolved_host(self@, opt_text(host)),
            *r == find_host(self@, resolved_host(self@, opt_text(host))),
    {
        if let Some(h) = host {
            if let Some(k) = self.get(h) {
                return k;
            }
        }
        let d = "default";
        proof {
            reveal_strlit("default");
            assert(d@ =~= default_host());
        }
        match self.get(d) {
            Some(k) => k,
            None => {
                proof {
                    assert(false);
                }
                &self.chains[0]
            },
        }
    }
}

/// The id a host request resolves to: the host asked for when known, else `default`.
pub open spec fn resolved_host(s: Seq<HostKeychain>, host: Option<Seq<char>>) -> Seq<char> {
    match host {
        Some(h) => if has_host(s, h) { h } else { default_host() },
        None => default_host(),
    }
}

/// The address with `:` and `.` turned into `-`.
pub open spec fn sanitized(a: Seq<char>) -> Seq<char> {
    a.map_values(|c: char| if c == ':' || c == '.' { '-' } else { c })
}

/// The directory name, under the temporary directory, that holds the TLS
/// material of a runtime at this address.
pub open spec fn cert_dir_name(address: Seq<char>) -> Seq<char> {
    seq!['d', 'o', 'c', 'k', 'e', 'r', '-', 'c', 'e', 'r', 't', 's', '-', 'd', 'i', 'r', '-']
        + sanitized(address)
}

/// Directory name for the TLS material of the runtime at `address`.
pub fn docker_cert_dir(address: &str) -> (r: String)
    ensures
        r@ == cert_dir_name(address@),
{
    proof {
        reveal_strlit("docker-certs-dir-");
    }
    let mut s = String::from_str("docker-certs-dir-");
    let n = address.unicode_len();
    let mut i: usize = 0;
    while i < n
        invariant
            n == address@.len(),
            i <= n,
            s@ == cert_dir_name(address@.subrange(0, i as int)),
        decreases n - i,
    {
        let c = address.get_char(i);
        let d = if c == ':' || c == '.' { '-' } else { c };
        push_char(&mut s, d);
        proof {
            assert(address@.subrange(0, i + 1) =~= address@.subrange(0, i as int).push(c));
            assert(sanitized(address@.subrange(0, i + 1)) =~= sanitized(address@.subrange(0, i as int)).push(d));
        }
        i = i + 1;
    }
    assert(address@.subrange(0, n as int) =~= address@);
    s
}

} // verus!
