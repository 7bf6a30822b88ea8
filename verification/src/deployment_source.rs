use vstd::prelude::*;

verus! {

/// The system of record deployments are read from.
#[derive(Debug, Clone)]
pub enum DeploymentSource {
    GitHubDeployment,
    GitHubPullRequest,
    HerokuRelease,
}

impl DeploymentSource {
    /// The label shown to a person choosing a source.
    pub fn label(self) -> (r: String)
        ensures
            self is GitHubDeployment ==> r@ == "GitHub Deployment"@,
            self is GitHubPullRequest ==> r@ == "GitHub Pull Request"@,
            self is HerokuRelease ==> r@ == "Heroku Release"@,
    {
        match self {
            DeploymentSource::GitHubDeployment => "GitHub Deployment".to_owned(),
            DeploymentSource::GitHubPullRequest => "GitHub Pull Request".to_owned(),
            DeploymentSource::HerokuRelease => "Heroku Release".to_owned(),
        }
    }

    /// The value stored in the configuration file for this source.
    pub fn value(self) -> (r: String)
        ensures
            self is GitHubDeployment ==> r@ == "git_hub_deployment"@,
            self is GitHubPullRequest ==> r@ == "git_hub_pull_request"@,
            self is HerokuRelease ==> r@ == "heroku_release"@,
    {
        match self {
            DeploymentSource::GitHubDeployment => "git_hub_deployment".to_owned(),
            DeploymentSource::GitHubPullRequest => "git_hub_pull_request".to_owned(),
            DeploymentSource::HerokuRelease => "heroku_release".to_owned(),
        }
    }
}

} // verus!
