use four_keys::datetime_utc::parse;
use four_keys::deployments_fetcher::{
    filter_window, CommitItem, CommitOrRepositoryInfo, DeploymentInfo, DeploymentItem,
    DeploymentsFetcher, DeploymentsFetcherError, DeploymentsFetcherParams, RepositoryInfo,
};
use four_keys::first_commit_getter::{
    FirstCommitGetter, FirstCommitGetterError, FirstCommitGetterParams, FirstCommitItem,
};
use four_keys::retrieve_four_keys::{
    retrieve_four_keys_with_fetcher, RetrieveFourKeysExecutionContext,
};

fn deployment(id: &str, committed_at: u64, deployed_at: u64) -> DeploymentItem {
    DeploymentItem {
        info: DeploymentInfo::GithubDeployment { id: id.to_string() },
        head_commit: CommitItem {
            sha: format!("sha-{}", id),
            message: "change".to_string(),
            resource_path: format!("/commits/sha-{}", id),
            committed_at,
            creator_login: "dev".to_string(),
        },
        base: CommitOrRepositoryInfo::RepositoryInfo(RepositoryInfo { created_at: 0 }),
        creator_login: "dev".to_string(),
        deployed_at,
    }
}

struct ListFetcher {
    items: Vec<DeploymentItem>,
}

impl DeploymentsFetcher for ListFetcher {
    fn fetch(
        &self,
        _params: DeploymentsFetcherParams,
    ) -> Result<Vec<DeploymentItem>, DeploymentsFetcherError> {
        Ok(self.items.clone())
    }
}

struct FailingFetcher;

impl DeploymentsFetcher for FailingFetcher {
    fn fetch(
        &self,
        _params: DeploymentsFetcherParams,
    ) -> Result<Vec<DeploymentItem>, DeploymentsFetcherError> {
        Err(DeploymentsFetcherError::FetchError("boom".to_string()))
    }
}

struct EmptyFetcher;

impl DeploymentsFetcher for EmptyFetcher {
    fn fetch(
        &self,
        _params: DeploymentsFetcherParams,
    ) -> Result<Vec<DeploymentItem>, DeploymentsFetcherError> {
        Err(DeploymentsFetcherError::DeploymentsFetcherResultIsEmptyList(
            "nothing deployed".to_string(),
        ))
    }
}

struct NoJoinGetter;

impl FirstCommitGetter for NoJoinGetter {
    fn get(
        &self,
        _params: FirstCommitGetterParams,
    ) -> Result<FirstCommitItem, FirstCommitGetterError> {
        Err(FirstCommitGetterError::BaseEqualsHead("base equals head".to_string()))
    }
}

fn context(since: u64, until: u64) -> RetrieveFourKeysExecutionContext {
    RetrieveFourKeysExecutionContext {
        since,
        until,
        developers: 2,
        working_days_per_week_tenths: 50,
    }
}

#[test]
fn fetcher_pipeline_counts_window_deployments() {
    let since = parse("2023-01-02").unwrap();
    let until = parse("2023-01-08").unwrap();
    let fetcher = ListFetcher {
        items: vec![
            deployment("inside", since + 3600, since + 7200),
            deployment("before", since - 7200, since - 3600),
            deployment("after", until + 3600, until + 7200),
        ],
    };
    let result =
        retrieve_four_keys_with_fetcher(&fetcher, &NoJoinGetter, None, context(since, until))
            .unwrap();
    assert_eq!(result.aggregate.deployments, 1);
    assert_eq!(result.weekly.len(), 1);
    assert_eq!(result.weekly[0].deployments_count, 1);
    // The earliest kept deployment is its own change-set of one.
    assert_eq!(
        result.weekly[0].deployments[0].lead_time_for_changes_seconds,
        Some(3600)
    );
}

#[test]
fn fetcher_error_is_propagated() {
    let since = parse("2023-01-02").unwrap();
    let until = parse("2023-01-08").unwrap();
    match retrieve_four_keys_with_fetcher(&FailingFetcher, &NoJoinGetter, None, context(since, until))
    {
        Err(DeploymentsFetcherError::FetchError(_)) => (),
        _ => panic!("expected the fetch error to surface"),
    }
}

#[test]
fn empty_fetch_is_not_an_error() {
    let since = parse("2023-01-02").unwrap();
    let until = parse("2023-01-08").unwrap();
    let result =
        retrieve_four_keys_with_fetcher(&EmptyFetcher, &NoJoinGetter, None, context(since, until))
            .unwrap();
    assert_eq!(result.aggregate.deployments, 0);
    assert_eq!(result.weekly.len(), 1);
    assert_eq!(result.weekly[0].deployments_count, 0);
}

#[test]
fn filter_window_keeps_exactly_the_window() {
    let since = parse("2023-01-02").unwrap();
    let until = parse("2023-01-08").unwrap();
    let kept = filter_window(
        vec![
            deployment("a", since, since),
            deployment("b", since, until),
            deployment("c", since, until + 1),
            deployment("d", since - 2, since - 1),
        ],
        since,
        until,
    );
    let ids: Vec<String> = kept
        .iter()
        .map(|d| match &d.info {
            DeploymentInfo::GithubDeployment { id } => id.clone(),
            DeploymentInfo::HerokuRelease { id, .. } => id.clone(),
        })
        .collect();
    assert_eq!(ids, vec!["a".to_string(), "b".to_string()]);
}
