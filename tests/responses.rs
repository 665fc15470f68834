use deployer::error::Error;
use deployer::scoring::point_formula;
use deployer::platform::DeploymentStrategy;
use deployer::challenge::ContainerStrategy;

#[test]
fn error_responses() {
    let (status, body) = Error::AlreadyDeployed.into_response();
    assert_eq!(status, 400);
    assert_eq!(body.error, "already_deployed");
    assert_eq!(body.message, "a deployment already exists");
    let (status, body) = Error::Database("pool closed".to_string()).into_response();
    assert_eq!(status, 500);
    assert_eq!(body.error, "database_error");
    assert_eq!(body.message, "pool closed");
    assert_eq!(Error::Json("x".to_string()).into_response().1.error, "json_error");
    assert_eq!(Error::Docker("x".to_string()).into_response().1.error, "docker_error");
    assert_eq!(Error::Reqwest("x".to_string()).into_response().1.error, "reqwest_error");
}

#[test]
fn points_decay() {
    assert_eq!(point_formula(100, 500, 0), 500);
    assert_eq!(point_formula(100, 500, 1), 480);
    assert_eq!(point_formula(100, 500, 10), 300);
    assert_eq!(point_formula(100, 500, 19), 120);
    assert_eq!(point_formula(100, 500, 40), 100);
    assert_eq!(point_formula(100, 510, 1), 490);
    assert_eq!(point_formula(500, 100, 3), 500);
}

#[test]
fn strategy_names() {
    assert_eq!(DeploymentStrategy::from_str("static"), Some(DeploymentStrategy::Static));
    assert_eq!(DeploymentStrategy::from_str("instanced"), Some(DeploymentStrategy::Instanced));
    assert_eq!(DeploymentStrategy::from_str("Static"), None);
    assert_eq!(DeploymentStrategy::Instanced.as_str(), "instanced");
    assert_eq!(DeploymentStrategy::Static.as_str(), "static");
    assert_eq!(DeploymentStrategy::of_container(ContainerStrategy::Instanced), DeploymentStrategy::Instanced);
}
