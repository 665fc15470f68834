//! Names derived from a deployment: its container and its HTTP subdomains.

use vstd::prelude::*;
use vstd::slice::slice_subrange;
use vstd::string::*;
use crate::challenge::{Container, ContainerStrategy};
use crate::text::{
    int_text, lemma_nat_text_digits, lemma_nat_text_injective, nat_text, opt_text, push_char, push_int, push_nat,
    push_str,
};

verus! {

/// The text `{id}-container`.
pub open spec fn static_name(chall_id: Seq<char>) -> Seq<char> {
    chall_id + seq!['-', 'c', 'o', 'n', 't', 'a', 'i', 'n', 'e', 'r']
}

/// The text `{id}-team-{team}-container`.
pub open spec fn instanced_name(chall_id: Seq<char>, team: int) -> Seq<char> {
    chall_id + seq!['-', 't', 'e', 'a', 'm', '-'] + int_text(team)
        + seq!['-', 'c', 'o', 'n', 't', 'a', 'i', 'n', 'e', 'r']
}

/// The container name of a deployment; it is also the deployment's
/// idempotency key on the runtime.
pub open spec fn container_name(chall_id: Seq<char>, strategy: ContainerStrategy, team: Option<i32>) -> Seq<char> {
    match strategy {
        ContainerStrategy::Static => static_name(chall_id),
        ContainerStrategy::Instanced => instanced_name(chall_id, team->0 as int),
    }
}

/// Name of the container for a challenge and, when instanced, a team.
pub fn calculate_container_name(chall_id: &str, container: &Container, team_id: Option<i32>) -> (r: String)
    requires
        container.strategy == ContainerStrategy::Instanced ==> team_id is Some,
    ensures
        r@ == container_name(chall_id@, container.strategy, team_id),
{
    proof {
        reveal_strlit("-container");
        reveal_strlit("-team-");
    }
    let mut s = String::from_str(chall_id);
    match container.strategy {
        ContainerStrategy::Static => {
            push_str(&mut s, "-container");
            assert(s@ =~= static_name(chall_id@));
        },
        ContainerStrategy::Instanced => {
            let t = match team_id {
                Some(t) => t,
                None => 0,
            };
            push_str(&mut s, "-team-");
            push_int(&mut s, t as i64);
            push_str(&mut s, "-container");
            assert(s@ =~= instanced_name(chall_id@, t as int));
        },
    }
    s
}

/// What `sha2::Sha256` gives for the UTF-8 bytes of a text.
pub uninterp spec fn sha256_text(s: Seq<char>) -> Seq<u8>;

/// What `fast32::base32::CROCKFORD_LOWER.encode` gives for some bytes.
pub uninterp spec fn crockford_lower(b: Seq<u8>) -> Seq<char>;

/// Relies on `sha2::Sha256::digest` over the UTF-8 bytes of `s`; the digest
/// is 32 bytes long.
#[verifier::external_body]
fn sha256_of(s: &str) -> (r: Vec<u8>)
    ensures
        r@ == sha256_text(s@),
        r@.len() == 32,
{
    <sha2::Sha256 as sha2::Digest>::digest(s.as_bytes()).to_vec()
}

/// Relies on `fast32::base32::CROCKFORD_LOWER.encode`: unpadded base32 in the
/// lowercase Crockford alphabet.
#[verifier::external_body]
fn crockford_encode(b: &[u8]) -> (r: String)
    ensures
        r@ == crockford_lower(b@),
{
    fast32::base32::CROCKFORD_LOWER.encode(b)
}

/// The text hashed for a subdomain: `{challenge}/{team or empty}/{port}`.
pub open spec fn subdomain_preimage(chall_id: Seq<char>, team: Option<Seq<char>>, port: u16) -> Seq<char> {
    chall_id + seq!['/'] + team_text(team) + seq!['/'] + nat_text(port as nat)
}

/// A subdomain label from the encoded digest: `{challenge}-{encoded}`.
pub open spec fn label_of(chall_id: Seq<char>, encoded: Seq<char>) -> Seq<char> {
    chall_id + seq!['-'] + encoded
}

/// The subdomain of a (challenge, team, port): the challenge id, then the
/// first 40 bits of the preimage's SHA-256 in lowercase Crockford base32.
pub open spec fn subdomain_of(chall_id: Seq<char>, team: Option<Seq<char>>, port: u16) -> Seq<char> {
    label_of(chall_id, crockford_lower(sha256_text(subdomain_preimage(chall_id, team, port)).subrange(0, 5)))
}

/// The team part of a subdomain preimage: empty when there is no team.
pub open spec fn team_text(team: Option<Seq<char>>) -> Seq<char> {
    match team {
        Some(t) => t,
        None => Seq::empty(),
    }
}

/// Every subdomain starts with its challenge id and `-`.
pub proof fn lemma_subdomain_prefixed(chall_id: Seq<char>, team: Option<Seq<char>>, port: u16)
    ensures
        subdomain_of(chall_id, team, port).subrange(0, chall_id.len() as int + 1) == chall_id + seq!['-'],
{
    assert(subdomain_of(chall_id, team, port).subrange(0, chall_id.len() as int + 1) =~= chall_id + seq!['-']);
}

/// Distinct (challenge, team, port) triples are hashed from distinct texts,
/// for challenge ids without `/`; an absent team and an empty one coincide.
pub proof fn lemma_subdomain_input_injective(
    ca: Seq<char>,
    ta: Option<Seq<char>>,
    pa: u16,
    cb: Seq<char>,
    tb: Option<Seq<char>>,
    pb: u16,
)
    requires
        !ca.contains('/'),
        !cb.contains('/'),
        subdomain_preimage(ca, ta, pa) == subdomain_preimage(cb, tb, pb),
    ensures
        ca == cb,
        team_text(ta) == team_text(tb),
        pa == pb,
{
    let s = subdomain_preimage(ca, ta, pa);
    let na = nat_text(pa as nat);
    let nb = nat_text(pb as nat);
    let ma = team_text(ta);
    let mb = team_text(tb);
    assert(s =~= ca + seq!['/'] + ma + seq!['/'] + na);
    assert(s =~= cb + seq!['/'] + mb + seq!['/'] + nb);
    lemma_nat_text_digits(pa as nat);
    lemma_nat_text_digits(pb as nat);
    if ca.len() < cb.len() {
        assert(s[ca.len() as int] == '/');
        assert(s[ca.len() as int] == cb[ca.len() as int]);
        assert(cb.contains('/'));
    }
    if cb.len() < ca.len() {
        assert(s[cb.len() as int] == '/');
        assert(s[cb.len() as int] == ca[cb.len() as int]);
        assert(ca.contains('/'));
    }
    assert(ca =~= s.subrange(0, ca.len() as int));
    assert(cb =~= s.subrange(0, cb.len() as int));
    let l = s.len() as int;
    if na.len() < nb.len() {
        let k = l - 1 - na.len();
        assert(s[k] == '/');
        assert(s[k] == nb[nb.len() - 1 - na.len()]);
    }
    if nb.len() < na.len() {
        let k = l - 1 - nb.len();
        assert(s[k] == '/');
        assert(s[k] == na[na.len() - 1 - nb.len()]);
    }
    assert(na =~= s.subrange(l - na.len(), l));
    assert(nb =~= s.subrange(l - nb.len(), l));
    lemma_nat_text_injective(pa as nat, pb as nat);
    assert(ma =~= s.subrange(ca.len() as int + 1, l - na.len() - 1));
    assert(mb =~= s.subrange(cb.len() as int + 1, l - nb.len() - 1));
}

/// The text hashed for the subdomain of a (challenge, team, port).
pub fn subdomain_input(chall_id: &str, pub_team_id: Option<&str>, port: u16) -> (r: String)
    ensures
        r@ == subdomain_preimage(chall_id@, opt_text(pub_team_id), port),
{
    let mut s = String::from_str(chall_id);
    push_char(&mut s, '/');
    if let Some(t) = pub_team_id {
        push_str(&mut s, t);
    }
    push_char(&mut s, '/');
    push_nat(&mut s, port as u64);
    assert(s@ =~= subdomain_preimage(chall_id@, opt_text(pub_team_id), port));
    s
}

/// The subdomain label from a challenge id and the encoded digest.
pub fn subdomain_label(chall_id: &str, encoded: &str) -> (r: String)
    ensures
        r@ == label_of(chall_id@, encoded@),
{
    let mut s = String::from_str(chall_id);
    push_char(&mut s, '-');
    push_str(&mut s, encoded);
    assert(s@ =~= label_of(chall_id@, encoded@));
    s
}

/// The deterministic subdomain of a (challenge, team, port).
pub fn calculate_subdomain(chall_id: &str, pub_team_id: Option<&str>, port: u16) -> (r: String)
    ensures
        r@ == subdomain_of(chall_id@, opt_text(pub_team_id), port),
{
    let input = subdomain_input(chall_id, pub_team_id, port);
    let digest = sha256_of(input.as_str());
    let head = slice_subrange(digest.as_slice(), 0, 5);
    let encoded = crockford_encode(head);
    subdomain_label(chall_id, encoded.as_str())
}


} // verus!
