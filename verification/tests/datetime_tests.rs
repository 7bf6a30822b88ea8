use four_keys::datetime_utc::{parse, week_start_day, DateParseError};
use four_keys::deployments_fetcher::{
    sort_deployments, CommitItem, CommitOrRepositoryInfo, DeploymentInfo, DeploymentItem,
    RepositoryInfo,
};

#[test]
fn parse_gives_utc_midnight_epoch_seconds() {
    assert_eq!(parse("1970-01-01"), Ok(0));
    assert_eq!(parse("2023-01-01"), Ok(1672531200));
    assert_eq!(parse("2023-01-05"), Ok(1672531200 + 4 * 86400));
    assert_eq!(parse("2024-02-29"), Ok(1709164800));
    assert_eq!(parse("2000-02-29"), Ok(951782400));
}

#[test]
fn parse_rejects_bad_shapes_and_dates() {
    assert_eq!(parse("nonsense"), Err(DateParseError::InvalidFormat));
    assert_eq!(parse("2023/01/01"), Err(DateParseError::InvalidFormat));
    assert_eq!(parse("2023-1-01"), Err(DateParseError::InvalidFormat));
    assert_eq!(parse("2023-13-01"), Err(DateParseError::OutOfRange));
    assert_eq!(parse("2023-02-29"), Err(DateParseError::OutOfRange));
    assert_eq!(parse("1969-12-31"), Err(DateParseError::OutOfRange));
}

#[test]
fn week_starts_on_monday() {
    // 2023-01-02 was a Monday.
    let monday = parse("2023-01-02").unwrap();
    let monday_day = (monday / 86400) as i64;
    assert_eq!(week_start_day(monday), monday_day);
    assert_eq!(week_start_day(monday + 3 * 86400 + 7200), monday_day);
    assert_eq!(week_start_day(monday + 6 * 86400 + 86399), monday_day);
    assert_eq!(week_start_day(monday + 7 * 86400), monday_day + 7);
    assert_eq!(week_start_day(monday - 1), monday_day - 7);
}

fn deployment(id: &str, deployed_at: u64) -> DeploymentItem {
    DeploymentItem {
        info: DeploymentInfo::GithubDeployment { id: id.to_string() },
        head_commit: CommitItem {
            sha: format!("sha-{}", id),
            message: "m".to_string(),
            resource_path: "p".to_string(),
            committed_at: deployed_at,
            creator_login: "dev".to_string(),
        },
        base: CommitOrRepositoryInfo::RepositoryInfo(RepositoryInfo { created_at: 0 }),
        creator_login: "dev".to_string(),
        deployed_at,
    }
}

fn ids(items: &[DeploymentItem]) -> Vec<String> {
    items
        .iter()
        .map(|d| match &d.info {
            DeploymentInfo::GithubDeployment { id } => id.clone(),
            DeploymentInfo::HerokuRelease { id, .. } => id.clone(),
        })
        .collect()
}

#[test]
fn equal_deploy_times_are_ordered_by_id() {
    let t = parse("2023-01-03").unwrap();
    let sorted = sort_deployments(vec![deployment("beta", t), deployment("alpha", t)]);
    assert_eq!(ids(&sorted), vec!["alpha".to_string(), "beta".to_string()]);
}

#[test]
fn sort_orders_by_time_then_id() {
    let t = parse("2023-01-03").unwrap();
    let sorted = sort_deployments(vec![
        deployment("z", t),
        deployment("a", t + 10),
        deployment("m", t),
        deployment("b", t - 10),
    ]);
    assert_eq!(
        ids(&sorted),
        vec!["b".to_string(), "m".to_string(), "z".to_string(), "a".to_string()]
    );
    for pair in sorted.windows(2) {
        assert!(pair[0].deployed_at <= pair[1].deployed_at);
    }
}
