use deployer::challenge::{
    default_archive_name, default_strategy, is_valid_id, Challenge, ChallengeCatalog, CatalogError, Container, ContainerStrategy,
    DeployableContextData, DockerData, ExposeType, Flag,
};
use deployer::deploy::{plan_deployment, tcp_ports_needed, ChallengeDeployment, DeployError, HostMapping};
use deployer::naming::{calculate_container_name, calculate_subdomain, subdomain_input, subdomain_label};
use deployer::keychain::{docker_cert_dir, CaddyKeychain, ClientTLSKeychain, HostKeychain, HostKeychainEnv, KeychainError};
use deployer::lifecycle::{
    deploy_failed, deploy_succeeded, expiration, expiry_delay, find_active, plan_destroy, DestroyAction, StoreWrite,
};

fn container(strategy: ContainerStrategy, expose: Vec<(u16, ExposeType)>) -> Container {
    Container {
        build: "docker".to_string(),
        limits: None,
        env: None,
        expose: Some(expose),
        strategy,
        privileged: None,
        host: None,
    }
}

fn challenge(id: &str, container: Option<Container>) -> Challenge {
    Challenge {
        id: id.to_string(),
        name: id.to_string(),
        author: "someone".to_string(),
        description: "a challenge".to_string(),
        flag: Flag::Raw("flag{x}".to_string()),
        group: None,
        build_group: None,
        category: "web".to_string(),
        provide: None,
        container,
    }
}

fn keychain(id: &str, base: &str) -> HostKeychain {
    HostKeychain {
        id: id.to_string(),
        docker: DeployableContextData {
            docker: DockerData::Local,
            docker_credentials: None,
            image_prefix: "chall-".to_string(),
            repo: "registry.example.com".to_string(),
        },
        caddy: CaddyKeychain {
            endpoint: "https://caddy.example.com:2019".to_string(),
            base: base.to_string(),
            mtls: ClientTLSKeychain { cacert: "ca".to_string(), cert: "cert".to_string(), key: "key".to_string() },
        },
    }
}

fn expected_label(chall: &str, team: &str, port: u16) -> String {
    let h = <sha2::Sha256 as sha2::Digest>::digest(format!("{}/{}/{}", chall, team, port).as_bytes());
    format!("{}-{}", chall, fast32::base32::CROCKFORD_LOWER.encode(&h[..5]))
}

#[test]
fn valid_ids() {
    assert!(is_valid_id("web100"));
    assert!(is_valid_id("pwn-1"));
    assert!(is_valid_id(""));
    assert!(!is_valid_id("Web100"));
    assert!(!is_valid_id("a_b"));
    assert!(!is_valid_id("a/b"));
}

#[test]
fn defaults() {
    assert_eq!(default_archive_name(), "chall");
    assert!(matches!(default_strategy(), ContainerStrategy::Static));
}

#[test]
fn image_reference() {
    let c = challenge("web100", None);
    assert_eq!(c.image_id(&keychain("default", "x").docker), "registry.example.com/chall-web100");
}

#[test]
fn container_names() {
    let s = container(ContainerStrategy::Static, vec![]);
    let i = container(ContainerStrategy::Instanced, vec![]);
    assert_eq!(calculate_container_name("web100", &s, None), "web100-container");
    assert_eq!(calculate_container_name("web100", &s, Some(7)), "web100-container");
    assert_eq!(calculate_container_name("pwn1", &i, Some(42)), "pwn1-team-42-container");
    assert_eq!(calculate_container_name("pwn1", &i, Some(-3)), "pwn1-team--3-container");
    assert_eq!(calculate_container_name("pwn1", &i, Some(0)), "pwn1-team-0-container");
}

#[test]
fn subdomain_matches_digest() {
    assert_eq!(subdomain_input("web100", None, 80), "web100//80");
    assert_eq!(subdomain_input("pwn1", Some("team-abc"), 1337), "pwn1/team-abc/1337");
    assert_eq!(subdomain_label("web100", "abcdefgh"), "web100-abcdefgh");
    let s = calculate_subdomain("web100", None, 80);
    assert_eq!(s, expected_label("web100", "", 80));
    assert!(s.starts_with("web100-"));
    assert_eq!(s.len(), "web100-".len() + 8);
    assert_ne!(s, "web100-");
    assert_eq!(calculate_subdomain("pwn1", Some("team-abc"), 1337), expected_label("pwn1", "team-abc", 1337));
}

#[test]
fn subdomain_deterministic_and_distinct() {
    assert_eq!(calculate_subdomain("web100", Some("t1"), 80), calculate_subdomain("web100", Some("t1"), 80));
    let mut seen = std::collections::HashSet::new();
    for c in 0..10 {
        for t in 0..100 {
            for p in 0..10u16 {
                let chall = format!("chall{}", c);
                let team = format!("team{}", t);
                seen.insert(calculate_subdomain(&chall, Some(&team), 8000 + p));
            }
        }
    }
    assert_eq!(seen.len(), 10_000);
}

#[test]
fn catalog_load_and_lookup() {
    let cat = ChallengeCatalog::load(vec![challenge("web100", None), challenge("pwn1", None)]).unwrap();
    assert_eq!(cat.lookup("pwn1").unwrap().id, "pwn1");
    assert!(cat.lookup("rev1").is_none());
    match ChallengeCatalog::load(vec![challenge("web100", None), challenge("web100", None)]) {
        Err(CatalogError::DuplicateId(id)) => assert_eq!(id, "web100"),
        _ => panic!("expected a duplicate id"),
    }
    match ChallengeCatalog::load(vec![challenge("a", None), challenge("Bad", None), challenge("a", None)]) {
        Err(CatalogError::InvalidId(id)) => assert_eq!(id, "Bad"),
        _ => panic!("expected the invalid id first"),
    }
    match ChallengeCatalog::load(vec![challenge("a", None), challenge("a", None), challenge("Bad", None)]) {
        Err(CatalogError::DuplicateId(id)) => assert_eq!(id, "a"),
        _ => panic!("expected the duplicate first"),
    }
    match ChallengeCatalog::load(vec![challenge("Web100", None)]) {
        Err(CatalogError::InvalidId(id)) => assert_eq!(id, "Web100"),
        _ => panic!("expected an invalid id"),
    }
}

#[test]
fn keychain_registry() {
    match HostKeychainEnv::from_entries(vec![keychain("a", "x")]) {
        Err(KeychainError::MissingDefault) => {}
        _ => panic!("expected a missing default"),
    }
    match HostKeychainEnv::from_entries(vec![keychain("default", "x"), keychain("default", "y")]) {
        Err(KeychainError::DuplicateKey(id)) => assert_eq!(id, "default"),
        _ => panic!("expected a duplicate key"),
    }
    match HostKeychainEnv::from_entries(vec![keychain("x", "1"), keychain("y", "2"), keychain("y", "3"), keychain("x", "4")]) {
        Err(KeychainError::DuplicateKey(id)) => assert_eq!(id, "y"),
        _ => panic!("expected the first duplicate"),
    }
    let env = HostKeychainEnv::from_entries(vec![keychain("east", "e.example"), keychain("default", "d.example")]).unwrap();
    assert_eq!(env.resolve(None).id, "default");
    assert_eq!(env.resolve(Some("east")).caddy.base, "e.example");
    assert_eq!(env.resolve(Some("west")).id, "default");
    assert!(env.get("west").is_none());
}

#[test]
fn cert_dir_is_sanitized() {
    assert_eq!(docker_cert_dir("10.0.0.1:2376"), "docker-certs-dir-10-0-0-1-2376");
    assert_eq!(docker_cert_dir("host"), "docker-certs-dir-host");
}

fn setup(strategy: ContainerStrategy, expose: Vec<(u16, ExposeType)>, id: &str) -> (ChallengeCatalog, HostKeychainEnv) {
    let cat = ChallengeCatalog::load(vec![challenge(id, Some(container(strategy, expose))), challenge("nobox", None)]).unwrap();
    let env = HostKeychainEnv::from_entries(vec![keychain("default", "chall.example.com")]).unwrap();
    (cat, env)
}

#[test]
fn static_http_deploy_and_destroy() {
    let (cat, env) = setup(ContainerStrategy::Static, vec![(80, ExposeType::Http)], "web100");
    let rec = ChallengeDeployment::pending(1, 10, None, 1000);
    let plan = plan_deployment(&rec, "web100", None, &cat, &env, &vec![]).unwrap();
    assert_eq!(plan.container_name, "web100-container");
    assert_eq!(plan.image, "registry.example.com/chall-web100");
    assert_eq!(plan.mappings.len(), 1);
    let sub = match &plan.mappings[0].1 {
        HostMapping::Http { subdomain, base } => {
            assert_eq!(base, "chall.example.com");
            assert!(subdomain.starts_with("web100-"));
            subdomain.clone()
        }
        _ => panic!("expected an http mapping"),
    };
    assert!(plan.port_bindings().is_empty());
    let routes = plan.proxy_routes("172.17.0.2");
    assert_eq!(routes.len(), 1);
    assert_eq!(routes[0].id, format!("proxy-{}", sub));
    assert_eq!(routes[0].path, format!("/id/proxy-{}", sub));
    assert_eq!(routes[0].host, format!("{}.chall.example.com", sub));
    assert_eq!(routes[0].dial, "172.17.0.2:80");

    let deployed = match deploy_succeeded(rec, plan, 2000) {
        StoreWrite::Update(r) => r,
        _ => panic!("expected an update"),
    };
    assert!(deployed.deployed);
    assert_eq!(deployed.team_id, None);
    assert_eq!(deployed.expired_at, None);
    assert_eq!(deployed.data.as_ref().unwrap().container_id, "web100-container");

    let t = match plan_destroy(&deployed, "web100", &cat, &env, 3000).unwrap() {
        DestroyAction::Teardown(t) => t,
        DestroyAction::Nothing => panic!("expected a teardown"),
    };
    assert_eq!(t.container_name, "web100-container");
    assert_eq!(t.host_id, "default");
    assert_eq!(t.routes.len(), 1);
    assert_eq!(t.routes[0].0, format!("proxy-{}", sub));
    let destroyed = match t.write {
        StoreWrite::Update(r) => r,
        _ => panic!("expected an update"),
    };
    assert_eq!(destroyed.destroyed_at, Some(3000));
    assert!(destroyed.data.is_none());
    assert!(!destroyed.deployed);
    assert!(matches!(plan_destroy(&destroyed, "web100", &cat, &env, 4000), Ok(DestroyAction::Nothing)));
}

#[test]
fn instanced_tcp_deploy_expires() {
    let (cat, env) = setup(
        ContainerStrategy::Instanced,
        vec![(1337, ExposeType::Tcp), (80, ExposeType::Http), (22, ExposeType::Tcp)],
        "pwn1",
    );
    assert_eq!(tcp_ports_needed(cat.lookup("pwn1").unwrap().container.as_ref().unwrap()), 2);
    let rec = ChallengeDeployment::pending(2, 11, Some(5), 1000);
    let plan = plan_deployment(&rec, "pwn1", Some("team-abc"), &cat, &env, &vec![40001, 40002]).unwrap();
    assert_eq!(plan.container_name, "pwn1-team-5-container");
    assert!(matches!(plan.mappings[0], (1337, HostMapping::Tcp { port: 40001 })));
    assert!(matches!(plan.mappings[2], (22, HostMapping::Tcp { port: 40002 })));
    match &plan.mappings[1].1 {
        HostMapping::Http { subdomain, .. } => assert_eq!(*subdomain, expected_label("pwn1", "team-abc", 80)),
        _ => panic!("expected an http mapping"),
    }
    let b = plan.port_bindings();
    assert_eq!(b.len(), 2);
    assert_eq!(b[0].container_port, "1337/tcp");
    assert_eq!(b[0].host_ip, "0.0.0.0");
    assert_eq!(b[0].host_port, "40001");
    assert_eq!(b[1].container_port, "22/tcp");
    assert_eq!(b[1].host_port, "40002");
    let deployed = match deploy_succeeded(rec, plan, 2000) {
        StoreWrite::Update(r) => r,
        _ => panic!("expected an update"),
    };
    assert_eq!(deployed.expired_at, Some(2600));
    assert_eq!(expiry_delay(2600, 2000), 600);
    assert_eq!(expiry_delay(2600, 2700), 0);
    match plan_destroy(&deployed, "pwn1", &cat, &env, 2600).unwrap() {
        DestroyAction::Teardown(t) => {
            assert_eq!(t.container_name, "pwn1-team-5-container");
            match t.write {
                StoreWrite::Update(r) => {
                    assert_eq!(r.destroyed_at, Some(2600));
                    assert!(r.data.is_none());
                }
                _ => panic!("expected an update"),
            }
        }
        DestroyAction::Nothing => panic!("expected a teardown"),
    }
}

#[test]
fn concurrent_instanced_deploys_share_a_name() {
    let (cat, env) = setup(ContainerStrategy::Instanced, vec![(80, ExposeType::Http)], "pwn1");
    let a = plan_deployment(&ChallengeDeployment::pending(3, 11, Some(9), 0), "pwn1", Some("team-abc"), &cat, &env, &vec![]).unwrap();
    let b = plan_deployment(&ChallengeDeployment::pending(4, 11, Some(9), 0), "pwn1", Some("team-abc"), &cat, &env, &vec![]).unwrap();
    assert_eq!(a.container_name, b.container_name);
}

#[test]
fn deploy_errors() {
    let (cat, env) = setup(ContainerStrategy::Instanced, vec![(1337, ExposeType::Tcp)], "pwn1");
    let rec = ChallengeDeployment::pending(1, 10, Some(1), 0);
    assert!(matches!(plan_deployment(&rec, "rev9", Some("t"), &cat, &env, &vec![1]), Err(DeployError::NotFoundChallenge(s)) if s == "rev9"));
    assert!(matches!(plan_deployment(&rec, "nobox", Some("t"), &cat, &env, &vec![1]), Err(DeployError::MissingContainer(s)) if s == "nobox"));
    assert!(matches!(plan_deployment(&rec, "pwn1", Some("t"), &cat, &env, &vec![]), Err(DeployError::PortsUnavailable)));
    let no_team = ChallengeDeployment::pending(1, 10, None, 0);
    assert!(matches!(plan_deployment(&no_team, "pwn1", None, &cat, &env, &vec![1]), Err(DeployError::TeamMismatch)));
    assert!(matches!(deploy_failed(&rec), StoreWrite::Delete(1)));
    let (cat2, env2) = setup(ContainerStrategy::Static, vec![(1, ExposeType::Tcp), (1, ExposeType::Http)], "dup");
    let st = ChallengeDeployment::pending(1, 10, None, 0);
    assert!(matches!(plan_deployment(&st, "dup", None, &cat2, &env2, &vec![1]), Err(DeployError::PortsUnavailable)));
}

#[test]
fn destroy_of_undeployed_does_nothing() {
    let (cat, env) = setup(ContainerStrategy::Static, vec![], "web1");
    let rec = ChallengeDeployment::pending(1, 10, None, 0);
    assert!(matches!(plan_destroy(&rec, "web1", &cat, &env, 5), Ok(DestroyAction::Nothing)));
    assert!(matches!(plan_destroy(&rec, "nothere", &cat, &env, 5), Ok(DestroyAction::Nothing)));
}

#[test]
fn expirations() {
    assert_eq!(expiration(ContainerStrategy::Static, 100), None);
    assert_eq!(expiration(ContainerStrategy::Instanced, 100), Some(700));
}

#[test]
fn active_lookup_is_null_safe() {
    let mut gone = ChallengeDeployment::pending(1, 10, None, 0);
    gone.destroyed_at = Some(5);
    let rows = vec![
        gone,
        ChallengeDeployment::pending(2, 10, Some(3), 0),
        ChallengeDeployment::pending(3, 10, None, 0),
        ChallengeDeployment::pending(4, 11, None, 0),
    ];
    assert_eq!(find_active(&rows, 10, None), Some(2));
    assert_eq!(find_active(&rows, 10, Some(3)), Some(1));
    assert_eq!(find_active(&rows, 10, Some(4)), None);
    assert_eq!(find_active(&rows, 12, None), None);
}

#[test]
fn sanitize_hides_container() {
    let (cat, env) = setup(ContainerStrategy::Static, vec![(80, ExposeType::Http)], "web100");
    let rec = ChallengeDeployment::pending(1, 10, None, 0);
    let plan = plan_deployment(&rec, "web100", None, &cat, &env, &vec![]).unwrap();
    let deployed = match deploy_succeeded(rec, plan, 0) {
        StoreWrite::Update(r) => r,
        _ => panic!("expected an update"),
    };
    let s = deployed.sanitize();
    assert_eq!(s.data.as_ref().unwrap().container_id, "redacted-xxxxx");
    assert_eq!(s.data.as_ref().unwrap().ports.len(), 1);
    assert!(s.deployed);
}
