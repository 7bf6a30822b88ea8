use vstd::prelude::*;

use crate::validate_github_personal_token::has_ghp_prefix;
use crate::validate_github_personal_token::ValidateGitHubPersonalTokenError;
use crate::validate_github_personal_token::ValidatedGitHubPersonalToken;

verus! {

// Validated project parameters and the conversions between the stored
// configuration shape and the domain object of a created project.

/// A non-empty name of the PaaS application.
#[derive(Debug, Clone)]
pub struct ValidatedHerokuAppName(pub String);

#[derive(Debug, Clone)]
pub enum ValidateHerokuAppNameError {
    Required(String),
}

/// A non-empty authorization token of the PaaS.
#[derive(Debug, Clone)]
pub struct ValidatedHerokuApiToken(pub String);

#[derive(Debug, Clone)]
pub enum ValidateHerokuApiTokenError {
    Required(String),
}

/// A non-empty owner and a non-empty repository name of the forge.
#[derive(Debug, Clone)]
pub struct ValidatedGitHubOwnerRepo {
    owner: String,
    repo: String,
}

#[derive(Debug, Clone)]
pub enum ValidateGitHubOwnerRepoError {
    Invalid(String),
}

/// At least one developer.
#[derive(Debug, Clone, Copy)]
pub struct ValidatedDeveloperCount(u32);

#[derive(Debug, Clone)]
pub enum ValidateDeveloperCountError {
    Invalid(String),
}

/// Working days per week, in tenths of a day: above zero, at most seven days.
#[derive(Debug, Clone, Copy)]
pub struct ValidatedWorkingDaysPerWeek(u32);

#[derive(Debug, Clone)]
pub enum ValidateWorkingDaysPerWeekError {
    Invalid(String),
}

pub fn validate_heroku_app_name(name: Option<String>) -> (r: Result<
    ValidatedHerokuAppName,
    ValidateHerokuAppNameError,
>)
    ensures
        r is Ok <==> (name is Some && name->0@.len() > 0),
        name is Some && name->0@.len() > 0 ==> r->Ok_0.0 == name->0,
        !(name is Some && name->0@.len() > 0) ==> r matches Err(
            ValidateHerokuAppNameError::Required(_),
        ),
{
    match name {
        Some(name) => {
            if name.as_str().unicode_len() > 0 {
                Ok(ValidatedHerokuAppName(name))
            } else {
                Err(ValidateHerokuAppNameError::Required("Heroku app name is empty".to_owned()))
            }
        },
        None => Err(ValidateHerokuAppNameError::Required("Heroku app name is empty".to_owned())),
    }
}

pub fn validate_heroku_api_token(token: Option<String>) -> (r: Result<
    ValidatedHerokuApiToken,
    ValidateHerokuApiTokenError,
>)
    ensures
        r is Ok <==> (token is Some && token->0@.len() > 0),
        token is Some && token->0@.len() > 0 ==> r->Ok_0.0 == token->0,
        !(token is Some && token->0@.len() > 0) ==> r matches Err(
            ValidateHerokuApiTokenError::Required(_),
        ),
{
    match token {
        Some(token) => {
            if token.as_str().unicode_len() > 0 {
                Ok(ValidatedHerokuApiToken(token))
            } else {
                Err(ValidateHerokuApiTokenError::Required("Heroku API token is empty".to_owned()))
            }
        },
        None => Err(ValidateHerokuApiTokenError::Required("Heroku API token is empty".to_owned())),
    }
}

pub fn validate_github_owner_repo(owner: String, repo: String) -> (r: Result<
    ValidatedGitHubOwnerRepo,
    ValidateGitHubOwnerRepoError,
>)
    ensures
        r is Ok <==> (owner@.len() > 0 && repo@.len() > 0),
        owner@.len() > 0 && repo@.len() > 0 ==> r->Ok_0.owner_view() == owner@
            && r->Ok_0.repo_view() == repo@,
        !(owner@.len() > 0 && repo@.len() > 0) ==> r matches Err(
            ValidateGitHubOwnerRepoError::Invalid(_),
        ),
{
    if owner.as_str().unicode_len() > 0 && repo.as_str().unicode_len() > 0 {
        Ok(ValidatedGitHubOwnerRepo { owner, repo })
    } else {
        Err(ValidateGitHubOwnerRepoError::Invalid("GitHub owner/repo is invalid".to_owned()))
    }
}

impl ValidatedGitHubOwnerRepo {
    pub closed spec fn owner_view(self) -> Seq<char> {
        self.owner@
    }

    pub closed spec fn repo_view(self) -> Seq<char> {
        self.repo@
    }

    pub fn get_values(self) -> (r: (String, String))
        ensures
            r.0@ == self.owner_view(),
            r.1@ == self.repo_view(),
    {
        (self.owner, self.repo)
    }
}

pub fn validate_developer_count(count: u32) -> (r: Result<
    ValidatedDeveloperCount,
    ValidateDeveloperCountError,
>)
    ensures
        r is Ok <==> count >= 1,
        count >= 1 ==> r->Ok_0.to_u32_spec() == count,
        count < 1 ==> r matches Err(ValidateDeveloperCountError::Invalid(_)),
{
    if count >= 1 {
        Ok(ValidatedDeveloperCount(count))
    } else {
        Err(ValidateDeveloperCountError::Invalid("Developer count must be positive".to_owned()))
    }
}

impl ValidatedDeveloperCount {
    pub closed spec fn to_u32_spec(self) -> u32 {
        self.0
    }

    pub fn to_u32(self) -> (r: u32)
        ensures
            r == self.to_u32_spec(),
    {
        self.0
    }
}

pub fn validate_working_days_per_week(tenths: u32) -> (r: Result<
    ValidatedWorkingDaysPerWeek,
    ValidateWorkingDaysPerWeekError,
>)
    ensures
        r is Ok <==> 1 <= tenths <= 70,
        1 <= tenths <= 70 ==> r->Ok_0.to_tenths_spec() == tenths,
        !(1 <= tenths <= 70) ==> r matches Err(ValidateWorkingDaysPerWeekError::Invalid(_)),
{
    if 1 <= tenths && tenths <= 70 {
        Ok(ValidatedWorkingDaysPerWeek(tenths))
    } else {
        Err(
            ValidateWorkingDaysPerWeekError::Invalid(
                "Working days per week must be above zero and at most seven days".to_owned(),
            ),
        )
    }
}

impl ValidatedWorkingDaysPerWeek {
    pub closed spec fn to_tenths_spec(self) -> u32 {
        self.0
    }

    /// Working days per week in tenths of a day: a five-day week is 50.
    pub fn to_tenths(self) -> (r: u32)
        ensures
            r == self.to_tenths_spec(),
    {
        self.0
    }
}

/// One project's stored configuration.
#[derive(Debug, Clone)]
pub struct ProjectConfig {
    pub github_personal_token: Option<String>,
    pub heroku_app_name: Option<String>,
    pub heroku_api_token: Option<String>,
    pub deployment_source: String,
    pub github_owner: String,
    pub github_repo: String,
    pub developer_count: u32,
    pub working_days_per_week_tenths: u32,
}

/// What is written to the configuration store for one project.
#[derive(Debug, Clone)]
pub struct WriteConfigData {
    pub project_name: String,
    pub github_personal_token: String,
    pub project_config: ProjectConfig,
}

pub type HerokuReleaseProjectCreatedDto = WriteConfigData;

/// A created project whose deployments come from PaaS releases, every
/// parameter validated.
#[derive(Debug, Clone)]
pub struct HerokuReleaseProjectCreated {
    pub project_name: String,
    pub github_personal_token: ValidatedGitHubPersonalToken,
    pub github_owner_repo: ValidatedGitHubOwnerRepo,
    pub heroku_app_name: ValidatedHerokuAppName,
    pub heroku_api_token: ValidatedHerokuApiToken,
    pub developer_count: ValidatedDeveloperCount,
    pub working_days_per_week: ValidatedWorkingDaysPerWeek,
}

#[derive(Debug, Clone)]
pub enum ToHerokuReleaseProjectCreatedError {
    GitHubPersonalToken(ValidateGitHubPersonalTokenError),
    GitHubOwnerRepo(ValidateGitHubOwnerRepoError),
    DeveloperCount(ValidateDeveloperCountError),
    WorkingDaysPerWeek(ValidateWorkingDaysPerWeekError),
    HerokuAppName(ValidateHerokuAppNameError),
    HerokuApiToken(ValidateHerokuApiTokenError),
}

pub open spec fn dto_token_valid(dto: WriteConfigData) -> bool {
    has_ghp_prefix(dto.github_personal_token@)
}

pub open spec fn dto_app_name_valid(dto: WriteConfigData) -> bool {
    dto.project_config.heroku_app_name is Some && dto.project_config.heroku_app_name->0@.len() > 0
}

pub open spec fn dto_api_token_valid(dto: WriteConfigData) -> bool {
    dto.project_config.heroku_api_token is Some && dto.project_config.heroku_api_token->0@.len()
        > 0
}

pub open spec fn dto_owner_repo_valid(dto: WriteConfigData) -> bool {
    dto.project_config.github_owner@.len() > 0 && dto.project_config.github_repo@.len() > 0
}

pub open spec fn dto_developer_count_valid(dto: WriteConfigData) -> bool {
    dto.project_config.developer_count >= 1
}

pub open spec fn dto_working_days_valid(dto: WriteConfigData) -> bool {
    1 <= dto.project_config.working_days_per_week_tenths <= 70
}

/// Every field of the stored shape passes its validation.
pub open spec fn dto_valid(dto: WriteConfigData) -> bool {
    &&& dto_token_valid(dto)
    &&& dto_app_name_valid(dto)
    &&& dto_api_token_valid(dto)
    &&& dto_owner_repo_valid(dto)
    &&& dto_developer_count_valid(dto)
    &&& dto_working_days_valid(dto)
}

impl HerokuReleaseProjectCreatedDto {
    /// Validates a stored configuration shape into a created project.
    pub fn to_heroku_release_project_created(dto: &HerokuReleaseProjectCreatedDto) -> (r: Result<
        HerokuReleaseProjectCreated,
        ToHerokuReleaseProjectCreatedError,
    >)
        ensures
            r is Ok <==> dto_valid(*dto),
            dto_valid(*dto) ==> {
                let created = r->Ok_0;
                &&& created.project_name == dto.project_name
                &&& created.github_personal_token.0 == dto.github_personal_token
                &&& created.github_owner_repo.owner_view() == dto.project_config.github_owner@
                &&& created.github_owner_repo.repo_view() == dto.project_config.github_repo@
                &&& created.heroku_app_name.0 == dto.project_config.heroku_app_name->0
                &&& created.heroku_api_token.0 == dto.project_config.heroku_api_token->0
                &&& created.developer_count.to_u32_spec() == dto.project_config.developer_count
                &&& created.working_days_per_week.to_tenths_spec()
                    == dto.project_config.working_days_per_week_tenths
            },
            !dto_token_valid(*dto) ==> r matches Err(
                ToHerokuReleaseProjectCreatedError::GitHubPersonalToken(_),
            ),
            dto_token_valid(*dto) && !dto_app_name_valid(*dto) ==> r matches Err(
                ToHerokuReleaseProjectCreatedError::HerokuAppName(_),
            ),
            dto_token_valid(*dto) && dto_app_name_valid(*dto) && !dto_api_token_valid(*dto)
                ==> r matches Err(ToHerokuReleaseProjectCreatedError::HerokuApiToken(_)),
            dto_token_valid(*dto) && dto_app_name_valid(*dto) && dto_api_token_valid(*dto)
                && !dto_owner_repo_valid(*dto) ==> r matches Err(
                ToHerokuReleaseProjectCreatedError::GitHubOwnerRepo(_),
            ),
            dto_token_valid(*dto) && dto_app_name_valid(*dto) && dto_api_token_valid(*dto)
                && dto_owner_repo_valid(*dto) && !dto_developer_count_valid(*dto) ==> r matches Err(
                ToHerokuReleaseProjectCreatedError::DeveloperCount(_),
            ),
            dto_token_valid(*dto) && dto_app_name_valid(*dto) && dto_api_token_valid(*dto)
                && dto_owner_repo_valid(*dto) && dto_developer_count_valid(*dto)
                && !dto_working_days_valid(*dto) ==> r matches Err(
                ToHerokuReleaseProjectCreatedError::WorkingDaysPerWeek(_),
            ),
    {
        let github_personal_token = match ValidatedGitHubPersonalToken::new(
            Some(dto.github_personal_token.clone()),
        ) {
            Ok(v) => v,
            Err(e) => {
                return Err(ToHerokuReleaseProjectCreatedError::GitHubPersonalToken(e));
            },
        };
        let heroku_app_name = match validate_heroku_app_name(
            dto.project_config.heroku_app_name.clone(),
        ) {
            Ok(v) => v,
            Err(e) => {
                return Err(ToHerokuReleaseProjectCreatedError::HerokuAppName(e));
            },
        };
        let heroku_api_token = match validate_heroku_api_token(
            dto.project_config.heroku_api_token.clone(),
        ) {
            Ok(v) => v,
            Err(e) => {
                return Err(ToHerokuReleaseProjectCreatedError::HerokuApiToken(e));
            },
        };
        let github_owner_repo = match validate_github_owner_repo(
            dto.project_config.github_owner.clone(),
            dto.project_config.github_repo.clone(),
        ) {
            Ok(v) => v,
            Err(e) => {
                return Err(ToHerokuReleaseProjectCreatedError::GitHubOwnerRepo(e));
            },
        };
        let developer_count = match validate_developer_count(dto.project_config.developer_count) {
            Ok(v) => v,
            Err(e) => {
                return Err(ToHerokuReleaseProjectCreatedError::DeveloperCount(e));
            },
        };
        let working_days_per_week = match validate_working_days_per_week(
            dto.project_config.working_days_per_week_tenths,
        ) {
            Ok(v) => v,
            Err(e) => {
                return Err(ToHerokuReleaseProjectCreatedError::WorkingDaysPerWeek(e));
            },
        };
        Ok(
            HerokuReleaseProjectCreated {
                project_name: dto.project_name.clone(),
                github_personal_token,
                github_owner_repo,
                heroku_app_name,
                heroku_api_token,
                developer_count,
                working_days_per_week,
            },
        )
    }

    /// Lays a created project back out in the stored configuration shape,
    /// with the deployment source recorded as the Heroku-release kind.
    pub fn from_heroku_release_project_created(domain_obj: HerokuReleaseProjectCreated) -> (r:
        HerokuReleaseProjectCreatedDto)
        ensures
            r.project_name == domain_obj.project_name,
            r.github_personal_token == domain_obj.github_personal_token.0,
            r.project_config.github_personal_token is None,
            r.project_config.heroku_app_name == Some(domain_obj.heroku_app_name.0),
            r.project_config.heroku_api_token == Some(domain_obj.heroku_api_token.0),
            r.project_config.deployment_source@ == "HerokuRelease"@,
            r.project_config.github_owner@ == domain_obj.github_owner_repo.owner_view(),
            r.project_config.github_repo@ == domain_obj.github_owner_repo.repo_view(),
            r.project_config.developer_count == domain_obj.developer_count.to_u32_spec(),
            r.project_config.working_days_per_week_tenths
                == domain_obj.working_days_per_week.to_tenths_spec(),
    {
        let (owner, repo) = domain_obj.github_owner_repo.get_values();
        WriteConfigData {
            project_name: domain_obj.project_name,
            github_personal_token: domain_obj.github_personal_token.to_string(),
            project_config: ProjectConfig {
                github_personal_token: None,
                heroku_app_name: Some(domain_obj.heroku_app_name.0),
                heroku_api_token: Some(domain_obj.heroku_api_token.0),
                deployment_source: "HerokuRelease".to_owned(),
                github_owner: owner,
                github_repo: repo,
                developer_count: domain_obj.developer_count.to_u32(),
                working_days_per_week_tenths: domain_obj.working_days_per_week.to_tenths(),
            },
        }
    }
}

} // verus!
