use four_keys::deployment_source::DeploymentSource;
use four_keys::project_creating::{
    HerokuReleaseProjectCreatedDto, ProjectConfig, ToHerokuReleaseProjectCreatedError,
    WriteConfigData,
};
use four_keys::validate_github_personal_token::{
    perform, ValidateGitHubPersonalToken, ValidateGitHubPersonalTokenError,
    ValidatedGitHubPersonalToken,
};

#[test]
fn verify_perform_type() {
    let _type_check: ValidateGitHubPersonalToken = perform;
}

#[test]
fn token_with_prefix_is_accepted() {
    let validated = ValidatedGitHubPersonalToken::new(Some("ghp_abc123".to_string())).unwrap();
    assert_eq!(validated.to_string(), "ghp_abc123".to_string());
}

#[test]
fn token_without_prefix_is_invalid() {
    match ValidatedGitHubPersonalToken::new(Some("abc123".to_string())) {
        Err(ValidateGitHubPersonalTokenError::InvalidToken(_)) => (),
        other => panic!("expected an invalid-token error, got {:?}", other),
    }
}

#[test]
fn missing_token_is_required() {
    match perform(None) {
        Err(ValidateGitHubPersonalTokenError::Required(_)) => (),
        other => panic!("expected a required error, got {:?}", other),
    }
}

fn valid_dto() -> WriteConfigData {
    WriteConfigData {
        project_name: "demo".to_string(),
        github_personal_token: "ghp_token".to_string(),
        project_config: ProjectConfig {
            github_personal_token: None,
            heroku_app_name: Some("demo-app".to_string()),
            heroku_api_token: Some("SECRET-REDACTED".to_string()),
            deployment_source: "heroku_release".to_string(),
            github_owner: "owner".to_string(),
            github_repo: "repo".to_string(),
            developer_count: 4,
            working_days_per_week_tenths: 50,
        },
    }
}

#[test]
fn valid_dto_becomes_created_project() {
    let dto = valid_dto();
    let created = HerokuReleaseProjectCreatedDto::to_heroku_release_project_created(&dto).unwrap();
    assert_eq!(created.project_name, "demo".to_string());
    assert_eq!(created.developer_count.to_u32(), 4);
    assert_eq!(created.working_days_per_week.to_tenths(), 50);
    let (owner, repo) = created.github_owner_repo.get_values();
    assert_eq!(owner, "owner".to_string());
    assert_eq!(repo, "repo".to_string());
}

#[test]
fn dto_with_bad_token_is_rejected_first() {
    let mut dto = valid_dto();
    dto.github_personal_token = "token".to_string();
    match HerokuReleaseProjectCreatedDto::to_heroku_release_project_created(&dto) {
        Err(ToHerokuReleaseProjectCreatedError::GitHubPersonalToken(_)) => (),
        _ => panic!("expected a token error"),
    }
}

#[test]
fn dto_without_app_name_is_rejected() {
    let mut dto = valid_dto();
    dto.project_config.heroku_app_name = None;
    match HerokuReleaseProjectCreatedDto::to_heroku_release_project_created(&dto) {
        Err(ToHerokuReleaseProjectCreatedError::HerokuAppName(_)) => (),
        _ => panic!("expected an app-name error"),
    }
}

#[test]
fn dto_with_zero_developers_is_rejected() {
    let mut dto = valid_dto();
    dto.project_config.developer_count = 0;
    match HerokuReleaseProjectCreatedDto::to_heroku_release_project_created(&dto) {
        Err(ToHerokuReleaseProjectCreatedError::DeveloperCount(_)) => (),
        _ => panic!("expected a developer-count error"),
    }
}

#[test]
fn created_project_lays_out_as_config() {
    let dto = valid_dto();
    let created = HerokuReleaseProjectCreatedDto::to_heroku_release_project_created(&dto).unwrap();
    let back = HerokuReleaseProjectCreatedDto::from_heroku_release_project_created(created);
    assert_eq!(back.project_name, "demo".to_string());
    assert_eq!(back.github_personal_token, "ghp_token".to_string());
    assert_eq!(back.project_config.github_personal_token, None);
    assert_eq!(back.project_config.heroku_app_name, Some("demo-app".to_string()));
    assert_eq!(back.project_config.deployment_source, "HerokuRelease".to_string());
    assert_eq!(back.project_config.github_owner, "owner".to_string());
    assert_eq!(back.project_config.github_repo, "repo".to_string());
    assert_eq!(back.project_config.developer_count, 4);
    assert_eq!(back.project_config.working_days_per_week_tenths, 50);
}

#[test]
fn deployment_source_labels_and_values() {
    assert_eq!(
        DeploymentSource::GitHubDeployment.label(),
        "GitHub Deployment".to_string()
    );
    assert_eq!(
        DeploymentSource::GitHubPullRequest.label(),
        "GitHub Pull Request".to_string()
    );
    assert_eq!(DeploymentSource::HerokuRelease.label(), "Heroku Release".to_string());
    assert_eq!(
        DeploymentSource::GitHubDeployment.value(),
        "git_hub_deployment".to_string()
    );
    assert_eq!(
        DeploymentSource::GitHubPullRequest.value(),
        "git_hub_pull_request".to_string()
    );
    assert_eq!(DeploymentSource::HerokuRelease.value(), "heroku_release".to_string());
}
