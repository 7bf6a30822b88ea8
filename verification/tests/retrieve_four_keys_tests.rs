use four_keys::datetime_utc::parse;
use four_keys::deployments_fetcher::{
    CommitItem, CommitOrRepositoryInfo, DeploymentInfo, DeploymentItem, RepositoryInfo,
};
use four_keys::first_commit_getter::{
    FirstCommitGetter, FirstCommitGetterError, FirstCommitGetterParams, FirstCommitItem,
};
use four_keys::retrieve_four_keys::{
    calculate_lead_time_for_changes_seconds, first_operation_of_resolution, join_first_operations,
    median_lead_time, retrieve_four_keys, DeploymentItemWithFirstOperation,
    FirstCommitOrRepositoryInfo, RetrieveFourKeysExecutionContext,
};

fn build_commit(committed_at: u64) -> CommitItem {
    CommitItem {
        sha: "head-sha".to_string(),
        message: "a commit".to_string(),
        resource_path: "/commits/head-sha".to_string(),
        committed_at,
        creator_login: "dev".to_string(),
    }
}

fn build_deployment_item(deployed_at: u64) -> DeploymentItem {
    DeploymentItem {
        info: DeploymentInfo::GithubDeployment {
            id: "deploy-1".to_string(),
        },
        head_commit: build_commit(deployed_at),
        base: CommitOrRepositoryInfo::RepositoryInfo(RepositoryInfo { created_at: 0 }),
        creator_login: "dev".to_string(),
        deployed_at,
    }
}

fn build_first_commit(committed_at: u64) -> FirstCommitItem {
    FirstCommitItem {
        sha: "first-sha".to_string(),
        message: "first commit".to_string(),
        resource_path: "/commits/first-sha".to_string(),
        committed_at,
        creator_login: "dev".to_string(),
    }
}

#[test]
fn when_first_operation_is_none_should_success() {
    let item = DeploymentItemWithFirstOperation {
        deployment: build_deployment_item(parse("2023-01-01").unwrap()),
        first_operation: None,
    };
    assert_eq!(calculate_lead_time_for_changes_seconds(item), None);
}

#[test]
fn when_first_operation_is_first_commit_should_success() {
    let item = DeploymentItemWithFirstOperation {
        deployment: build_deployment_item(parse("2023-01-05").unwrap()),
        first_operation: Some(FirstCommitOrRepositoryInfo::FirstCommit(build_first_commit(
            parse("2023-01-01").unwrap(),
        ))),
    };
    assert_eq!(
        calculate_lead_time_for_changes_seconds(item),
        Some(4 * 24 * 60 * 60)
    );
}

struct FixedGetter {
    committed_at: u64,
}

impl FirstCommitGetter for FixedGetter {
    fn get(
        &self,
        _params: FirstCommitGetterParams,
    ) -> Result<FirstCommitItem, FirstCommitGetterError> {
        Ok(build_first_commit(self.committed_at))
    }
}

struct BaseEqualsHeadGetter;

impl FirstCommitGetter for BaseEqualsHeadGetter {
    fn get(
        &self,
        _params: FirstCommitGetterParams,
    ) -> Result<FirstCommitItem, FirstCommitGetterError> {
        Err(FirstCommitGetterError::BaseEqualsHead("base equals head".to_string()))
    }
}

fn context(since: u64, until: u64, developers: u32, tenths: u32) -> RetrieveFourKeysExecutionContext {
    RetrieveFourKeysExecutionContext {
        since,
        until,
        developers,
        working_days_per_week_tenths: tenths,
    }
}

fn with_op(
    deployed_at: u64,
    id: &str,
    first_commit_at: Option<u64>,
) -> DeploymentItemWithFirstOperation {
    let mut d = build_deployment_item(deployed_at);
    d.info = DeploymentInfo::GithubDeployment { id: id.to_string() };
    DeploymentItemWithFirstOperation {
        deployment: d,
        first_operation: first_commit_at
            .map(|t| FirstCommitOrRepositoryInfo::FirstCommit(build_first_commit(t))),
    }
}

#[test]
fn empty_fetch_result_gives_zero_deployments() {
    let since = parse("2023-01-01").unwrap();
    let until = parse("2023-01-07").unwrap();
    let result = retrieve_four_keys(Vec::new(), context(since, until, 5, 50));
    assert_eq!(result.aggregate.deployments, 0);
    assert_eq!(result.aggregate.lead_time_for_changes_seconds, None);
    for week in &result.weekly {
        assert_eq!(week.deployments_count, 0);
        assert_eq!(week.lead_time_for_changes_seconds, None);
    }
}

#[test]
fn single_deployment_resolves_via_repo_creation_base() {
    // The repository was created 2023-01-01; no prior deployment and no known
    // initial sha, so the deployment is its own change-set of one.
    let committed = parse("2023-01-05").unwrap() + 12 * 3600;
    let deployed = parse("2023-01-05").unwrap() + 18 * 3600;
    let mut d = build_deployment_item(deployed);
    d.head_commit.committed_at = committed;
    let getter = BaseEqualsHeadGetter;
    let joined = join_first_operations(&getter, None, vec![d]);
    assert_eq!(joined.len(), 1);
    match &joined[0].first_operation {
        Some(FirstCommitOrRepositoryInfo::FirstCommit(c)) => {
            assert_eq!(c.committed_at, committed);
        }
        other => panic!("expected a first commit, got {:?}", other),
    }
    let lead = calculate_lead_time_for_changes_seconds(joined.into_iter().next().unwrap());
    assert_eq!(lead, Some(21600));
}

#[test]
fn lead_time_with_distinct_first_commit() {
    let d1_at = parse("2023-01-01").unwrap();
    let d2_at = parse("2023-01-05").unwrap();
    let getter = FixedGetter { committed_at: d1_at };
    let mut d1 = build_deployment_item(d1_at);
    d1.info = DeploymentInfo::GithubDeployment { id: "d1".to_string() };
    let mut d2 = build_deployment_item(d2_at);
    d2.info = DeploymentInfo::GithubDeployment { id: "d2".to_string() };
    let joined = join_first_operations(&getter, Some("initial-sha".to_string()), vec![d1, d2]);
    assert_eq!(joined.len(), 2);
    let second = joined.into_iter().nth(1).unwrap();
    assert_eq!(
        calculate_lead_time_for_changes_seconds(second),
        Some(4 * 24 * 3600)
    );
}

#[test]
fn redeploy_with_base_equals_head_counts_without_lead_time() {
    let head = build_commit(parse("2023-01-03").unwrap());
    let op = first_operation_of_resolution(
        Err(FirstCommitGetterError::BaseEqualsHead("same".to_string())),
        &head,
        false,
    );
    assert!(op.is_none());
    let since = parse("2023-01-02").unwrap();
    let until = parse("2023-01-08").unwrap();
    let item = with_op(parse("2023-01-03").unwrap(), "redeploy", None);
    let result = retrieve_four_keys(vec![item], context(since, until, 1, 50));
    assert_eq!(result.aggregate.deployments, 1);
    assert_eq!(result.aggregate.lead_time_for_changes_seconds, None);
    assert_eq!(result.weekly.len(), 1);
    assert_eq!(result.weekly[0].deployments_count, 1);
    assert_eq!(result.weekly[0].lead_time_for_changes_seconds, None);
}

#[test]
fn frequency_denominator_counts_team_and_working_days() {
    // Five deployments in one ISO week, five developers, a five-day week:
    // 5 / (5 * 5) = 0.2 deployments per developer per working day.
    let since = parse("2023-01-02").unwrap();
    let until = parse("2023-01-08").unwrap();
    let mut items = Vec::new();
    for i in 0..5u64 {
        items.push(with_op(since + i * 86400, &format!("d{}", i), None));
    }
    let result = retrieve_four_keys(items, context(since, until, 5, 50));
    assert_eq!(result.weekly.len(), 1);
    let weekly = &result.weekly[0];
    assert_eq!(weekly.deployments_count, 5);
    let f = &weekly.deployment_frequency_per_day;
    assert_eq!((f.numerator, f.denominator), (50, 250));
    assert_eq!(f.numerator as f64 / f.denominator as f64, 0.2);
}

#[test]
fn window_spanning_two_weeks_emits_empty_middle_week() {
    let since = parse("2023-01-02").unwrap();
    let until = parse("2023-01-22").unwrap();
    let items = vec![
        with_op(parse("2023-01-02").unwrap(), "w1", Some(parse("2023-01-01").unwrap())),
        with_op(parse("2023-01-16").unwrap(), "w3", Some(parse("2023-01-15").unwrap())),
    ];
    let result = retrieve_four_keys(items, context(since, until, 1, 50));
    assert_eq!(result.weekly.len(), 3);
    let monday = (parse("2023-01-02").unwrap() / 86400) as i64;
    assert_eq!(result.weekly[0].week_start_day, monday);
    assert_eq!(result.weekly[1].week_start_day, monday + 7);
    assert_eq!(result.weekly[2].week_start_day, monday + 14);
    assert_eq!(result.weekly[0].week_end_day, monday + 6);
    assert_eq!(result.weekly[0].deployments_count, 1);
    assert_eq!(result.weekly[1].deployments_count, 0);
    assert_eq!(result.weekly[2].deployments_count, 1);
    assert_eq!(result.aggregate.deployments, 2);
}

#[test]
fn clock_skew_records_no_lead_time_but_counts_deployment() {
    // The resolved first commit is dated after the deployment.
    let since = parse("2023-01-02").unwrap();
    let until = parse("2023-01-08").unwrap();
    let item = with_op(
        parse("2023-01-05").unwrap(),
        "skewed",
        Some(parse("2023-01-06").unwrap()),
    );
    assert_eq!(calculate_lead_time_for_changes_seconds(item.clone()), None);
    let result = retrieve_four_keys(vec![item], context(since, until, 1, 50));
    assert_eq!(result.aggregate.deployments, 1);
    assert_eq!(result.aggregate.lead_time_for_changes_seconds, None);
}

#[test]
fn joiner_preserves_input_ordering() {
    let getter = FixedGetter { committed_at: parse("2023-01-01").unwrap() };
    let mut items = Vec::new();
    for i in 0..4u64 {
        let mut d = build_deployment_item(parse("2023-01-02").unwrap() + i * 3600);
        d.info = DeploymentInfo::GithubDeployment { id: format!("d{}", i) };
        items.push(d);
    }
    let joined = join_first_operations(&getter, Some("initial".to_string()), items);
    assert_eq!(joined.len(), 4);
    for (i, item) in joined.iter().enumerate() {
        match &item.deployment.info {
            DeploymentInfo::GithubDeployment { id } => assert_eq!(id, &format!("d{}", i)),
            _ => panic!("unexpected deployment info"),
        }
        assert_eq!(
            item.deployment.deployed_at,
            parse("2023-01-02").unwrap() + i as u64 * 3600
        );
    }
}

#[test]
fn median_lead_time_takes_lower_middle() {
    assert_eq!(median_lead_time(vec![]), None);
    assert_eq!(median_lead_time(vec![7]), Some(7));
    assert_eq!(median_lead_time(vec![5, 1, 3]), Some(3));
    assert_eq!(median_lead_time(vec![4, 1, 3, 2]), Some(2));
}

#[test]
fn weekly_counts_sum_to_aggregate_count() {
    let since = parse("2023-01-02").unwrap();
    let until = parse("2023-01-15").unwrap();
    let items = vec![
        with_op(parse("2023-01-02").unwrap(), "a", None),
        with_op(parse("2023-01-03").unwrap(), "b", Some(parse("2023-01-01").unwrap())),
        with_op(parse("2023-01-10").unwrap(), "c", None),
    ];
    let result = retrieve_four_keys(items, context(since, until, 2, 50));
    let sum: u64 = result.weekly.iter().map(|w| w.deployments_count).sum();
    assert_eq!(sum, result.aggregate.deployments);
    assert_eq!(result.aggregate.deployments, 3);
}
