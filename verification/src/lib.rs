pub mod datetime_utc;
pub mod deployment_source;
pub mod deployments_fetcher;
pub mod first_commit_getter;
pub mod project_creating;
pub mod retrieve_four_keys;
pub mod validate_github_personal_token;
