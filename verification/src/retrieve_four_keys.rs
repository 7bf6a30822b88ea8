use vstd::prelude::*;
use vstd::relations::sorted_by;
use vstd::relations::total_ordering;
use vstd::seq_lib::lemma_sorted_unique;

use crate::datetime_utc::lemma_instant_in_own_week;
use crate::datetime_utc::lemma_week_index_unique;
use crate::datetime_utc::lemma_week_monotone;
use crate::datetime_utc::week_of;
use crate::datetime_utc::week_start_day;
use crate::deployments_fetcher::filter_window;
use crate::deployments_fetcher::sort_deployments;
use crate::deployments_fetcher::CommitItem;
use crate::deployments_fetcher::DeploymentItem;
use crate::deployments_fetcher::DeploymentsFetcher;
use crate::deployments_fetcher::DeploymentsFetcherError;
use crate::deployments_fetcher::DeploymentsFetcherParams;
use crate::deployments_fetcher::RepositoryInfo;
use crate::first_commit_getter::FirstCommitGetter;
use crate::first_commit_getter::FirstCommitGetterError;
use crate::first_commit_getter::FirstCommitGetterParams;
use crate::first_commit_getter::FirstCommitItem;

verus! {

// The metrics pipeline: join each deployment to the first commit of its
// change-set, group the joined items into ISO weeks, and derive deployment
// frequency and lead time per week and over the whole window.

/// What a deployment's change-set begins with: its earliest commit, or the
/// repository-creation marker when no earlier deployment exists.
#[derive(Debug, Clone)]
pub enum FirstCommitOrRepositoryInfo {
    FirstCommit(FirstCommitItem),
    RepositoryInfo(RepositoryInfo),
}

#[derive(Debug, Clone)]
pub struct DeploymentItemWithFirstOperation {
    pub deployment: DeploymentItem,
    pub first_operation: Option<FirstCommitOrRepositoryInfo>,
}

/// Lead time for changes, in seconds: from the change-set's first commit to
/// the deployment. Undefined when no first commit is known, and when the
/// commit is dated after the deployment (clock skew).
pub open spec fn lead_time_of(item: DeploymentItemWithFirstOperation) -> Option<u64> {
    match item.first_operation {
        Some(FirstCommitOrRepositoryInfo::FirstCommit(c)) => if c.committed_at
            <= item.deployment.deployed_at {
            Some((item.deployment.deployed_at - c.committed_at) as u64)
        } else {
            None
        },
        _ => None,
    }
}

fn lead_time_of_item(item: &DeploymentItemWithFirstOperation) -> (r: Option<u64>)
    ensures
        r == lead_time_of(*item),
{
    match &item.first_operation {
        Some(FirstCommitOrRepositoryInfo::FirstCommit(c)) => {
            if c.committed_at <= item.deployment.deployed_at {
                Some(item.deployment.deployed_at - c.committed_at)
            } else {
                None
            }
        },
        _ => None,
    }
}

pub fn calculate_lead_time_for_changes_seconds(item: DeploymentItemWithFirstOperation) -> (r:
    Option<u64>)
    ensures
        r == lead_time_of(item),
{
    lead_time_of_item(&item)
}

// --- Change-set joiner ---

/// The head commit of a deployment, read as the first commit of a change-set
/// consisting of that commit alone.
pub open spec fn first_commit_of_head(c: CommitItem) -> FirstCommitItem {
    FirstCommitItem {
        sha: c.sha,
        message: c.message,
        resource_path: c.resource_path,
        committed_at: c.committed_at,
        creator_login: c.creator_login,
    }
}

fn head_as_first_commit(c: &CommitItem) -> (r: FirstCommitItem)
    ensures
        r == first_commit_of_head(*c),
{
    FirstCommitItem {
        sha: c.sha.clone(),
        message: c.message.clone(),
        resource_path: c.resource_path.clone(),
        committed_at: c.committed_at,
        creator_login: c.creator_login.clone(),
    }
}

/// How one resolver outcome becomes a deployment's first operation.
/// `BaseEqualsHead` on the earliest deployment means the deployment is its own
/// change-set of one; on a later deployment it means a re-deploy with no new
/// commits. Any other resolver error is absorbed as "no first operation".
pub open spec fn resolved_first_operation(
    res: Result<FirstCommitItem, FirstCommitGetterError>,
    head_commit: CommitItem,
    is_earliest: bool,
) -> Option<FirstCommitOrRepositoryInfo> {
    match res {
        Ok(c) => Some(FirstCommitOrRepositoryInfo::FirstCommit(c)),
        Err(FirstCommitGetterError::BaseEqualsHead(_)) => if is_earliest {
            Some(FirstCommitOrRepositoryInfo::FirstCommit(first_commit_of_head(head_commit)))
        } else {
            None
        },
        Err(_) => None,
    }
}

pub fn first_operation_of_resolution(
    res: Result<FirstCommitItem, FirstCommitGetterError>,
    head_commit: &CommitItem,
    is_earliest: bool,
) -> (r: Option<FirstCommitOrRepositoryInfo>)
    ensures
        r == resolved_first_operation(res, *head_commit, is_earliest),
{
    match res {
        Ok(c) => Some(FirstCommitOrRepositoryInfo::FirstCommit(c)),
        Err(FirstCommitGetterError::BaseEqualsHead(_)) => {
            if is_earliest {
                Some(FirstCommitOrRepositoryInfo::FirstCommit(head_as_first_commit(head_commit)))
            } else {
                None
            }
        },
        Err(_) => None,
    }
}

/// Joins each deployment to its change-set's first operation. The earliest
/// deployment is resolved against `repo_initial_sha` when one is known and is
/// otherwise its own change-set of one; each later deployment is resolved
/// against its predecessor's head commit. Output length and order equal the
/// input's.
pub fn join_first_operations<G: FirstCommitGetter>(
    getter: &G,
    repo_initial_sha: Option<String>,
    deployments: Vec<DeploymentItem>,
) -> (r: Vec<DeploymentItemWithFirstOperation>)
    ensures
        r@.len() == deployments@.len(),
        forall|i: int| 0 <= i < r@.len() ==> (#[trigger] r@[i]).deployment == deployments@[i],
        deployments@.len() > 0 && repo_initial_sha is None ==> r@[0].first_operation == Some(
            FirstCommitOrRepositoryInfo::FirstCommit(
                first_commit_of_head(deployments@[0].head_commit),
            ),
        ),
{
    let ghost orig = deployments@;
    let ghost init_none = repo_initial_sha is None;
    let mut rest = deployments;
    let mut r: Vec<DeploymentItemWithFirstOperation> = Vec::new();
    let mut prev_sha: Option<String> = repo_initial_sha;
    while rest.len() > 0
        invariant
            r@.len() + rest@.len() == orig.len(),
            rest@ == orig.skip(r@.len() as int),
            forall|i: int| 0 <= i < r@.len() ==> (#[trigger] r@[i]).deployment == orig[i],
            r@.len() == 0 ==> init_none == (prev_sha is None),
            r@.len() > 0 ==> prev_sha is Some,
            init_none && r@.len() > 0 ==> r@[0].first_operation == Some(
                FirstCommitOrRepositoryInfo::FirstCommit(first_commit_of_head(orig[0].head_commit)),
            ),
        decreases rest@.len(),
    {
        assert(rest@[0] == orig[r@.len() as int]);
        let d = rest.remove(0);
        let is_earliest = r.len() == 0;
        let first_operation: Option<FirstCommitOrRepositoryInfo> = match &prev_sha {
            Some(base) => {
                let res = getter.get(
                    FirstCommitGetterParams { base: base.clone(), head: d.head_commit.sha.clone() },
                );
                first_operation_of_resolution(res, &d.head_commit, is_earliest)
            },
            None => Some(
                FirstCommitOrRepositoryInfo::FirstCommit(head_as_first_commit(&d.head_commit)),
            ),
        };
        prev_sha = Some(d.head_commit.sha.clone());
        r.push(DeploymentItemWithFirstOperation { deployment: d, first_operation });
    }
    r
}

impl FirstCommitOrRepositoryInfo {
    /// An exact copy, field for field.
    pub fn duplicate(&self) -> (r: Self)
        ensures
            r == *self,
    {
        match self {
            FirstCommitOrRepositoryInfo::FirstCommit(c) => FirstCommitOrRepositoryInfo::FirstCommit(
                c.duplicate(),
            ),
            FirstCommitOrRepositoryInfo::RepositoryInfo(i) => FirstCommitOrRepositoryInfo::RepositoryInfo(
                i.duplicate(),
            ),
        }
    }
}

impl DeploymentItemWithFirstOperation {
    /// An exact copy, field for field.
    pub fn duplicate(&self) -> (r: Self)
        ensures
            r == *self,
    {
        let first_operation = match &self.first_operation {
            Some(op) => Some(op.duplicate()),
            None => None,
        };
        DeploymentItemWithFirstOperation { deployment: self.deployment.duplicate(), first_operation }
    }
}

// --- Bucketing into ISO weeks ---

/// The deployment was made in the ISO week whose Monday is day `w`.
pub open spec fn in_week(x: DeploymentItemWithFirstOperation, w: int) -> bool {
    week_of(x.deployment.deployed_at) == w
}

/// The deployments of `s` made in the week of Monday `w`, in the order of `s`.
pub open spec fn week_filter(s: Seq<DeploymentItemWithFirstOperation>, w: int) -> Seq<
    DeploymentItemWithFirstOperation,
>
    decreases s.len(),
{
    if s.len() == 0 {
        Seq::empty()
    } else {
        let rest = week_filter(s.drop_last(), w);
        if in_week(s.last(), w) {
            rest.push(s.last())
        } else {
            rest
        }
    }
}

/// How many ISO weeks the window `[since, until]` touches.
pub open spec fn week_count(since: u64, until: u64) -> int
    recommends
        since <= until,
{
    (week_of(until) - week_of(since)) / 7 + 1
}

/// One ISO week of the window and the deployments made in it.
pub struct WeeklyItems {
    pub week_start_day: i64,
    pub deployments: Vec<DeploymentItemWithFirstOperation>,
}

/// Groups deployments into consecutive ISO weeks covering `[since, until]`;
/// weeks without a deployment are still emitted, empty.
pub fn bucket_deployments(
    items: &Vec<DeploymentItemWithFirstOperation>,
    since: u64,
    until: u64,
) -> (r: Vec<WeeklyItems>)
    requires
        since <= until,
        forall|i: int|
            0 <= i < items@.len() ==> since <= (#[trigger] items@[i]).deployment.deployed_at
                <= until,
    ensures
        r@.len() == week_count(since, until),
        forall|k: int|
            0 <= k < r@.len() ==> (#[trigger] r@[k]).week_start_day == week_of(since) + 7 * k,
        forall|k: int|
            0 <= k < r@.len() ==> (#[trigger] r@[k]).deployments@ == week_filter(
                items@,
                week_of(since) + 7 * k,
            ),
{
    let w0: i64 = week_start_day(since);
    let w1: i64 = week_start_day(until);
    proof {
        lemma_week_monotone(since, until);
        lemma_instant_in_own_week(since);
        lemma_instant_in_own_week(until);
        lemma_week_index_unique(w0 as int, w1 as int);
    }
    let nweeks: u64 = ((w1 - w0) / 7 + 1) as u64;
    let mut r: Vec<WeeklyItems> = Vec::new();
    let mut k: u64 = 0;
    while k < nweeks
        invariant
            w0 == week_of(since),
            w1 == week_of(until),
            w0 <= w1,
            (w1 - w0) % 7 == 0,
            nweeks == (w1 - w0) / 7 + 1,
            w1 == w0 + 7 * ((w1 - w0) / 7int),
            k <= nweeks,
            r@.len() == k,
            forall|kk: int|
                0 <= kk < r@.len() ==> (#[trigger] r@[kk]).week_start_day == w0 + 7 * kk,
            forall|kk: int|
                0 <= kk < r@.len() ==> (#[trigger] r@[kk]).deployments@ == week_filter(
                    items@,
                    w0 + 7 * kk,
                ),
        decreases nweeks - k,
    {
        assert(7 * (k as int) <= 7 * ((w1 - w0) / 7int));
        let wk: i64 = w0 + 7 * (k as i64);
        let mut bucket: Vec<DeploymentItemWithFirstOperation> = Vec::new();
        let mut j: usize = 0;
        assert(items@.take(0) =~= Seq::<DeploymentItemWithFirstOperation>::empty());
        while j < items.len()
            invariant
                j <= items@.len(),
                bucket@ == week_filter(items@.take(j as int), wk as int),
            decreases items@.len() - j,
        {
            let t: u64 = items[j].deployment.deployed_at;
            let wj: i64 = week_start_day(t);
            proof {
                assert(items@.take(j as int + 1).drop_last() =~= items@.take(j as int));
                assert(items@.take(j as int + 1).last() == items@[j as int]);
            }
            if wj == wk {
                bucket.push(items[j].duplicate());
            }
            j = j + 1;
        }
        assert(items@.take(items@.len() as int) =~= items@);
        r.push(WeeklyItems { week_start_day: wk, deployments: bucket });
        k = k + 1;
    }
    r
}

// --- Median ---

/// Numeric order on lead times.
pub open spec fn u64_le() -> spec_fn(u64, u64) -> bool {
    |x: u64, y: u64| x <= y
}

pub open spec fn median_of_sorted(t: Seq<u64>) -> Option<u64> {
    if t.len() == 0 {
        None
    } else {
        Some(t[(t.len() - 1) as int / 2])
    }
}

/// The median of the values of `s`: the lower middle value of their ascending
/// order, or nothing when `s` is empty.
pub open spec fn median_spec(s: Seq<u64>) -> Option<u64> {
    median_of_sorted(s.sort_by(u64_le()))
}

proof fn lemma_u64_le_total_ordering()
    ensures
        total_ordering(u64_le()),
{
    let leq = u64_le();
    assert forall|x: u64| #[trigger] leq(x, x) by {}
    assert(vstd::relations::reflexive(leq));
    assert(vstd::relations::antisymmetric(leq));
    assert(vstd::relations::transitive(leq));
    assert(vstd::relations::strongly_connected(leq));
}

fn sort_u64(values: Vec<u64>) -> (r: Vec<u64>)
    ensures
        r@.to_multiset() == values@.to_multiset(),
        sorted_by(r@, u64_le()),
{
    broadcast use vstd::seq_lib::group_to_multiset_ensures;
    broadcast use vstd::multiset::group_multiset_axioms;

    let ghost orig = values@;
    let mut rest = values;
    let mut out: Vec<u64> = Vec::new();
    assert(out@.to_multiset().add(rest@.to_multiset()) =~= orig.to_multiset());
    while rest.len() > 0
        invariant
            out@.to_multiset().add(rest@.to_multiset()) == orig.to_multiset(),
            sorted_by(out@, u64_le()),
        decreases rest@.len(),
    {
        let ghost rest0 = rest@;
        let d = rest.remove(0);
        proof {
            rest0.to_multiset_ensures();
        }
        assert(rest@.to_multiset() =~= rest0.to_multiset().remove(d));
        let mut idx: usize = 0;
        while idx < out.len() && out[idx] <= d
            invariant
                idx <= out@.len(),
                forall|kk: int| 0 <= kk < idx ==> out@[kk] <= d,
                sorted_by(out@, u64_le()),
            decreases out@.len() - idx,
        {
            idx = idx + 1;
        }
        assert forall|kk: int| idx <= kk < out@.len() implies d <= #[trigger] out@[kk] by {
            if kk > idx {
                assert(u64_le()(out@[idx as int], out@[kk]));
            }
        }
        let ghost out0 = out@;
        proof {
            out0.insert_ensures(idx as int, d);
            crate::deployments_fetcher::lemma_insert_to_multiset(out0, idx as int, d);
        }
        out.insert(idx, d);
        assert(sorted_by(out@, u64_le())) by {
            assert forall|i: int, j: int| 0 <= i < j < out@.len() implies u64_le()(
                out@[i],
                out@[j],
            ) by {
                if j < idx as int {
                    assert(out@[i] == out0[i] && out@[j] == out0[j]);
                } else if i < idx as int && j == idx as int {
                    assert(out@[i] == out0[i]);
                } else if i < idx as int && j > idx as int {
                    assert(out@[i] == out0[i] && out@[j] == out0[j - 1]);
                } else if i == idx as int {
                    assert(out@[j] == out0[j - 1]);
                } else {
                    assert(out@[i] == out0[i - 1] && out@[j] == out0[j - 1]);
                }
            }
        }
        assert(out@.to_multiset().add(rest@.to_multiset()) =~= orig.to_multiset());
    }
    assert(rest@.to_multiset().len() == 0);
    assert(out@.to_multiset() =~= out@.to_multiset().add(rest@.to_multiset()));
    out
}

/// The median of the given lead times.
pub fn median_lead_time(values: Vec<u64>) -> (r: Option<u64>)
    ensures
        r == median_spec(values@),
{
    broadcast use vstd::seq_lib::group_to_multiset_ensures;

    let ghost orig = values@;
    proof {
        lemma_u64_le_total_ordering();
        orig.lemma_sort_by_ensures(u64_le());
    }
    let sorted = sort_u64(values);
    proof {
        lemma_sorted_unique(sorted@, orig.sort_by(u64_le()), u64_le());
    }
    if sorted.len() == 0 {
        None
    } else {
        let mid: usize = (sorted.len() - 1) / 2;
        Some(sorted[mid])
    }
}

/// The defined lead times of `s`, in order.
pub open spec fn lead_times_of(s: Seq<DeploymentItemWithFirstOperation>) -> Seq<u64>
    decreases s.len(),
{
    if s.len() == 0 {
        Seq::empty()
    } else {
        let rest = lead_times_of(s.drop_last());
        match lead_time_of(s.last()) {
            Some(v) => rest.push(v),
            None => rest,
        }
    }
}

fn collect_lead_times(items: &Vec<DeploymentItemWithFirstOperation>) -> (r: Vec<u64>)
    ensures
        r@ == lead_times_of(items@),
{
    let mut r: Vec<u64> = Vec::new();
    let mut j: usize = 0;
    assert(items@.take(0) =~= Seq::<DeploymentItemWithFirstOperation>::empty());
    while j < items.len()
        invariant
            j <= items@.len(),
            r@ == lead_times_of(items@.take(j as int)),
        decreases items@.len() - j,
    {
        proof {
            assert(items@.take(j as int + 1).drop_last() =~= items@.take(j as int));
            assert(items@.take(j as int + 1).last() == items@[j as int]);
        }
        match lead_time_of_item(&items[j]) {
            Some(v) => r.push(v),
            None => (),
        }
        j = j + 1;
    }
    assert(items@.take(items@.len() as int) =~= items@);
    r
}

// --- Metrics ---

/// An exact rational: deployments per developer per working day.
#[derive(Debug, Clone, Copy, PartialEq, Eq, Structural)]
pub struct Frequency {
    pub numerator: u128,
    pub denominator: u128,
}

/// One deployment of the output, with its computed lead time.
#[derive(Debug, Clone)]
pub struct DeploymentMetricItem {
    pub item: DeploymentItemWithFirstOperation,
    pub lead_time_for_changes_seconds: Option<u64>,
}

/// The metrics of one ISO week of the window. Days are day numbers since the
/// epoch: the week runs from Monday `week_start_day` through Sunday
/// `week_end_day`.
#[derive(Debug)]
pub struct WeeklyMetrics {
    pub week_start_day: i64,
    pub week_end_day: i64,
    pub deployments: Vec<DeploymentMetricItem>,
    pub deployments_count: u64,
    pub deployment_frequency_per_day: Frequency,
    pub lead_time_for_changes_seconds: Option<u64>,
}

/// The window-wide metrics. Change failure rate and mean time to recovery are
/// reserved: no incident signal is ingested, so both stay empty.
#[derive(Debug)]
pub struct AggregateMetrics {
    pub deployments: u64,
    pub deployment_frequency_per_day: Frequency,
    pub lead_time_for_changes_seconds: Option<u64>,
    pub change_failure_rate: Option<Frequency>,
    pub mean_time_to_recovery_seconds: Option<u64>,
}

/// The window and team the metrics are computed for. Working days per week
/// are held in tenths of a day, so a five-day week is 50.
#[derive(Debug, Clone, Copy, PartialEq, Eq, Structural)]
pub struct RetrieveFourKeysExecutionContext {
    pub since: u64,
    pub until: u64,
    pub developers: u32,
    pub working_days_per_week_tenths: u32,
}

impl RetrieveFourKeysExecutionContext {
    /// A window that ends no earlier than it starts, at least one developer,
    /// and a working week above zero and at most seven days.
    pub open spec fn wf(self) -> bool {
        &&& self.since <= self.until
        &&& self.developers >= 1
        &&& 1 <= self.working_days_per_week_tenths <= 70
    }
}

#[derive(Debug)]
pub struct FourKeysResult {
    pub context: RetrieveFourKeysExecutionContext,
    pub aggregate: AggregateMetrics,
    pub weekly: Vec<WeeklyMetrics>,
}

/// What the computed metrics of one week must be, given the week's
/// deployments.
pub open spec fn weekly_metrics_spec(
    w: int,
    items: Seq<DeploymentItemWithFirstOperation>,
    ctx: RetrieveFourKeysExecutionContext,
    m: WeeklyMetrics,
) -> bool {
    &&& m.week_start_day == w
    &&& m.week_end_day == w + 6
    &&& m.deployments@.len() == items.len()
    &&& forall|i: int|
        0 <= i < items.len() ==> #[trigger] m.deployments@[i] == (DeploymentMetricItem {
            item: items[i],
            lead_time_for_changes_seconds: lead_time_of(items[i]),
        })
    &&& m.deployments_count == items.len()
    &&& m.deployment_frequency_per_day.numerator == 10 * items.len()
    &&& m.deployment_frequency_per_day.denominator == ctx.working_days_per_week_tenths
        * ctx.developers
    &&& m.lead_time_for_changes_seconds == median_spec(lead_times_of(items))
}

/// What the window-wide metrics must be, given all deployments of the window.
pub open spec fn aggregate_metrics_spec(
    items: Seq<DeploymentItemWithFirstOperation>,
    weeks: int,
    ctx: RetrieveFourKeysExecutionContext,
    a: AggregateMetrics,
) -> bool {
    &&& a.deployments == items.len()
    &&& a.deployment_frequency_per_day.numerator == 10 * items.len()
    &&& a.deployment_frequency_per_day.denominator == ctx.working_days_per_week_tenths
        * ctx.developers * weeks
    &&& a.lead_time_for_changes_seconds == median_spec(lead_times_of(items))
    &&& a.change_failure_rate is None
    &&& a.mean_time_to_recovery_seconds is None
}

/// What the whole result must be: the given context, window-wide metrics over
/// all deployments, and one weekly entry per ISO week of the window holding
/// exactly that week's deployments.
pub open spec fn four_keys_spec(
    items: Seq<DeploymentItemWithFirstOperation>,
    ctx: RetrieveFourKeysExecutionContext,
    r: FourKeysResult,
) -> bool {
    &&& r.context == ctx
    &&& aggregate_metrics_spec(items, week_count(ctx.since, ctx.until), ctx, r.aggregate)
    &&& r.weekly@.len() == week_count(ctx.since, ctx.until)
    &&& forall|k: int|
        0 <= k < r.weekly@.len() ==> weekly_metrics_spec(
            week_of(ctx.since) + 7 * k,
            week_filter(items, week_of(ctx.since) + 7 * k),
            ctx,
            #[trigger] r.weekly@[k],
        )
}

fn frequency_of(count: usize, wdpw_tenths: u32, developers: u32, weeks: u64) -> (f: Frequency)
    requires
        1 <= wdpw_tenths <= 70,
        developers >= 1,
        weeks >= 1,
    ensures
        f.numerator == 10 * count,
        f.denominator == wdpw_tenths * developers * weeks,
{
    proof {
        vstd::arithmetic::mul::lemma_mul_upper_bound(
            wdpw_tenths as int,
            70,
            developers as int,
            0xffff_ffff,
        );
    }
    let per_week: u128 = (wdpw_tenths as u128) * (developers as u128);
    proof {
        vstd::arithmetic::mul::lemma_mul_upper_bound(
            per_week as int,
            0x45_ffff_ffba,
            weeks as int,
            0xffff_ffff_ffff_ffff as int,
        );
    }
    Frequency { numerator: 10 * (count as u128), denominator: per_week * (weeks as u128) }
}

fn weekly_metrics(
    bucket: WeeklyItems,
    ctx: &RetrieveFourKeysExecutionContext,
) -> (m: WeeklyMetrics)
    requires
        ctx.wf(),
        bucket.week_start_day < 0x4000_0000_0000_0000,
    ensures
        weekly_metrics_spec(bucket.week_start_day as int, bucket.deployments@, *ctx, m),
{
    let lead_times = collect_lead_times(&bucket.deployments);
    let lead_time_for_changes_seconds = median_lead_time(lead_times);
    let count: usize = bucket.deployments.len();
    let frequency = frequency_of(count, ctx.working_days_per_week_tenths, ctx.developers, 1);
    let ghost orig = bucket.deployments@;
    let mut rest = bucket.deployments;
    let mut out: Vec<DeploymentMetricItem> = Vec::new();
    while rest.len() > 0
        invariant
            out@.len() + rest@.len() == orig.len(),
            rest@ == orig.skip(out@.len() as int),
            forall|i: int|
                0 <= i < out@.len() ==> #[trigger] out@[i] == (DeploymentMetricItem {
                    item: orig[i],
                    lead_time_for_changes_seconds: lead_time_of(orig[i]),
                }),
        decreases rest@.len(),
    {
        assert(rest@[0] == orig[out@.len() as int]);
        let item = rest.remove(0);
        let lead = lead_time_of_item(&item);
        out.push(DeploymentMetricItem { item, lead_time_for_changes_seconds: lead });
    }
    WeeklyMetrics {
        week_start_day: bucket.week_start_day,
        week_end_day: bucket.week_start_day + 6,
        deployments: out,
        deployments_count: count as u64,
        deployment_frequency_per_day: frequency,
        lead_time_for_changes_seconds,
    }
}

/// Computes the four keys over joined deployments: weekly ISO buckets and the
/// window-wide aggregate, each with deployment frequency and median lead time.
pub fn retrieve_four_keys(
    items: Vec<DeploymentItemWithFirstOperation>,
    context: RetrieveFourKeysExecutionContext,
) -> (r: FourKeysResult)
    requires
        context.wf(),
        forall|i: int|
            0 <= i < items@.len() ==> context.since <= (
            #[trigger] items@[i]).deployment.deployed_at <= context.until,
    ensures
        four_keys_spec(items@, context, r),
{
    let buckets = bucket_deployments(&items, context.since, context.until);
    proof {
        lemma_week_monotone(context.since, context.until);
        lemma_instant_in_own_week(context.since);
        lemma_instant_in_own_week(context.until);
        lemma_week_index_unique(week_of(context.since), week_of(context.until));
    }
    let ghost nweeks = week_count(context.since, context.until);
    let weeks: u64 = buckets.len() as u64;
    let mut weekly: Vec<WeeklyMetrics> = Vec::new();
    let ghost buckets0 = buckets@;
    let mut rest = buckets;
    while rest.len() > 0
        invariant
            context.wf(),
            weekly@.len() + rest@.len() == buckets0.len(),
            rest@ == buckets0.skip(weekly@.len() as int),
            buckets0.len() == nweeks,
            forall|k: int|
                0 <= k < buckets0.len() ==> (#[trigger] buckets0[k]).week_start_day == week_of(
                    context.since,
                ) + 7 * k,
            forall|k: int|
                0 <= k < buckets0.len() ==> (#[trigger] buckets0[k]).deployments@ == week_filter(
                    items@,
                    week_of(context.since) + 7 * k,
                ),
            week_of(context.since) + 7 * nweeks < 0x4000_0000_0000_0000,
            forall|k: int|
                0 <= k < weekly@.len() ==> weekly_metrics_spec(
                    week_of(context.since) + 7 * k,
                    week_filter(items@, week_of(context.since) + 7 * k),
                    context,
                    #[trigger] weekly@[k],
                ),
        decreases rest@.len(),
    {
        assert(rest@[0] == buckets0[weekly@.len() as int]);
        let bucket = rest.remove(0);
        let m = weekly_metrics(bucket, &context);
        weekly.push(m);
    }
    let lead_times = collect_lead_times(&items);
    let lead_time_for_changes_seconds = median_lead_time(lead_times);
    let count: usize = items.len();
    let frequency = frequency_of(
        count,
        context.working_days_per_week_tenths,
        context.developers,
        weeks,
    );
    let aggregate = AggregateMetrics {
        deployments: count as u64,
        deployment_frequency_per_day: frequency,
        lead_time_for_changes_seconds,
        change_failure_rate: None,
        mean_time_to_recovery_seconds: None,
    };
    FourKeysResult { context, aggregate, weekly }
}

/// Runs the whole pipeline against a deployment source: fetch, order by
/// `(deployed_at, id)`, keep the window, join change-sets, bucket and
/// aggregate. An empty fetch result is not an error: it comes back as zero
/// deployments. Whatever the fetcher returned, the result satisfies the
/// result specification for the deployments that were kept.
pub fn retrieve_four_keys_with_fetcher<F: DeploymentsFetcher, G: FirstCommitGetter>(
    fetcher: &F,
    getter: &G,
    repo_initial_sha: Option<String>,
    context: RetrieveFourKeysExecutionContext,
) -> (r: Result<FourKeysResult, DeploymentsFetcherError>)
    requires
        context.wf(),
    ensures
        r is Ok ==> exists|items: Seq<DeploymentItemWithFirstOperation>|
            {
                &&& #[trigger] four_keys_spec(items, context, r->Ok_0)
                &&& items_times_sorted(items)
                &&& forall|i: int|
                    0 <= i < items.len() ==> context.since <= (
                    #[trigger] items[i]).deployment.deployed_at <= context.until
            },
        r is Err ==> !(r->Err_0 is DeploymentsFetcherResultIsEmptyList),
{
    let params = DeploymentsFetcherParams { since: Some(context.since), until: Some(context.until) };
    let fetched = match fetcher.fetch(params) {
        Ok(list) => list,
        Err(DeploymentsFetcherError::DeploymentsFetcherResultIsEmptyList(_)) => Vec::new(),
        Err(e) => {
            return Err(e);
        },
    };
    let sorted = sort_deployments(fetched);
    let ghost sorted_view = sorted@;
    let windowed = filter_window(sorted, context.since, context.until);
    let ghost windowed_view = windowed@;
    proof {
        crate::deployments_fetcher::lemma_window_filter_sorted(
            sorted_view,
            context.since,
            context.until,
        );
    }
    let joined = join_first_operations(getter, repo_initial_sha, windowed);
    let ghost joined_view = joined@;
    assert forall|i: int|
        0 <= i < joined@.len() implies context.since <= (
    #[trigger] joined@[i]).deployment.deployed_at <= context.until by {
        assert(joined@[i].deployment == windowed_view[i]);
    }
    assert(items_times_sorted(joined_view)) by {
        assert forall|i: int, j: int|
            0 <= i < j < joined_view.len() implies (
        #[trigger] joined_view[i]).deployment.deployed_at <= (
        #[trigger] joined_view[j]).deployment.deployed_at by {
            assert(joined_view[i].deployment == windowed_view[i]);
            assert(joined_view[j].deployment == windowed_view[j]);
            assert(crate::deployments_fetcher::deployment_le(
                windowed_view[i],
                windowed_view[j],
            ));
        }
    }
    let result = retrieve_four_keys(joined, context);
    let out: Result<FourKeysResult, DeploymentsFetcherError> = Ok(result);
    proof {
        assert(four_keys_spec(joined_view, context, out->Ok_0));
    }
    out
}

// --- Laws of the pipeline ---

proof fn lemma_week_filter_elements(s: Seq<DeploymentItemWithFirstOperation>, w: int)
    ensures
        week_filter(s, w).len() <= s.len(),
        forall|i: int|
            0 <= i < week_filter(s, w).len() ==> in_week(#[trigger] week_filter(s, w)[i], w),
        forall|i: int|
            0 <= i < week_filter(s, w).len() ==> s.contains(#[trigger] week_filter(s, w)[i]),
        forall|i: int|
            0 <= i < s.len() && in_week(#[trigger] s[i], w) ==> week_filter(s, w).contains(s[i]),
    decreases s.len(),
{
    if s.len() > 0 {
        lemma_week_filter_elements(s.drop_last(), w);
        let rest = week_filter(s.drop_last(), w);
        assert(forall|i: int|
            0 <= i < s.drop_last().len() ==> #[trigger] s.drop_last()[i] == s[i]);
        assert forall|i: int|
            0 <= i < rest.len() implies s.contains(#[trigger] rest[i]) by {
            let j = choose|j: int| 0 <= j < s.drop_last().len() && s.drop_last()[j] == rest[i];
            assert(s[j] == rest[i]);
        }
        assert forall|i: int|
            0 <= i < s.len() && in_week(#[trigger] s[i], w) implies week_filter(s, w).contains(
            s[i],
        ) by {
            if i == s.len() - 1 {
                assert(week_filter(s, w).last() == s.last());
            } else {
                assert(s.drop_last()[i] == s[i]);
                assert(rest.contains(s[i]));
                let j = choose|j: int| 0 <= j < rest.len() && rest[j] == s[i];
                assert(week_filter(s, w)[j] == s[i]);
            }
        }
    }
}

/// Every deployment of every weekly bucket keeps the fetched invariant:
/// its head commit was made no later than its deployment.
pub proof fn lemma_output_head_commit_before_deploy(
    items: Seq<DeploymentItemWithFirstOperation>,
    ctx: RetrieveFourKeysExecutionContext,
    r: FourKeysResult,
)
    requires
        four_keys_spec(items, ctx, r),
        forall|i: int| 0 <= i < items.len() ==> (#[trigger] items[i]).deployment.wf(),
    ensures
        forall|k: int, i: int|
            0 <= k < r.weekly@.len() && 0 <= i < r.weekly@[k].deployments@.len() ==> (
            #[trigger] r.weekly@[k].deployments@[i]).item.deployment.wf(),
{
    let w0 = week_of(ctx.since);
    assert forall|k: int, i: int|
        0 <= k < r.weekly@.len() && 0 <= i < r.weekly@[k].deployments@.len() implies (
    #[trigger] r.weekly@[k].deployments@[i]).item.deployment.wf() by {
        let sel = week_filter(items, w0 + 7 * k);
        lemma_week_filter_elements(items, w0 + 7 * k);
        assert(r.weekly@[k].deployments@[i].item == sel[i]);
        assert(items.contains(sel[i]));
        let j = choose|j: int| 0 <= j < items.len() && items[j] == sel[i];
        assert(items[j].deployment.wf());
    }
}

/// `deployed_at` is weakly increasing across the buckets of `s`.
pub open spec fn items_times_sorted(s: Seq<DeploymentItemWithFirstOperation>) -> bool {
    forall|i: int, j: int|
        0 <= i < j < s.len() ==> (#[trigger] s[i]).deployment.deployed_at <= (
        #[trigger] s[j]).deployment.deployed_at
}

/// When the joined deployments arrive ordered by `deployed_at`, the output's
/// deployments, read bucket by bucket, carry weakly increasing `deployed_at`:
/// each bucket is ordered, and nothing in an earlier bucket is later than
/// anything in a later one.
pub proof fn lemma_output_ordering(
    items: Seq<DeploymentItemWithFirstOperation>,
    ctx: RetrieveFourKeysExecutionContext,
    r: FourKeysResult,
)
    requires
        four_keys_spec(items, ctx, r),
        items_times_sorted(items),
    ensures
        forall|k: int, i: int, j: int|
            0 <= k < r.weekly@.len() && 0 <= i < j < r.weekly@[k].deployments@.len() ==> (
            #[trigger] r.weekly@[k].deployments@[i]).item.deployment.deployed_at == (
            #[trigger] r.weekly@[k].deployments@[j]).item.deployment.deployed_at || r.weekly@[k].deployments@[i].item.deployment.deployed_at < r.weekly@[k].deployments@[j].item.deployment.deployed_at,
        forall|k1: int, k2: int, i: int, j: int|
            0 <= k1 < k2 < r.weekly@.len() && 0 <= i < r.weekly@[k1].deployments@.len() && 0 <= j
                < r.weekly@[k2].deployments@.len() ==> (
            #[trigger] r.weekly@[k1].deployments@[i]).item.deployment.deployed_at < (
            #[trigger] r.weekly@[k2].deployments@[j]).item.deployment.deployed_at,
{
    let w0 = week_of(ctx.since);
    lemma_week_filter_order(items, w0, r);
    assert forall|k1: int, k2: int, i: int, j: int|
        0 <= k1 < k2 < r.weekly@.len() && 0 <= i < r.weekly@[k1].deployments@.len() && 0 <= j
            < r.weekly@[k2].deployments@.len() implies (
    #[trigger] r.weekly@[k1].deployments@[i]).item.deployment.deployed_at < (
    #[trigger] r.weekly@[k2].deployments@[j]).item.deployment.deployed_at by {
        lemma_week_filter_elements(items, w0 + 7 * k1);
        lemma_week_filter_elements(items, w0 + 7 * k2);
        let x = week_filter(items, w0 + 7 * k1)[i];
        let y = week_filter(items, w0 + 7 * k2)[j];
        assert(in_week(x, w0 + 7 * k1) && in_week(y, w0 + 7 * k2));
        if x.deployment.deployed_at >= y.deployment.deployed_at {
            lemma_week_monotone(y.deployment.deployed_at, x.deployment.deployed_at);
        }
    }
}

proof fn lemma_week_filter_order(
    items: Seq<DeploymentItemWithFirstOperation>,
    w0: int,
    r: FourKeysResult,
)
    requires
        items_times_sorted(items),
        forall|k: int|
            0 <= k < r.weekly@.len() ==> weekly_metrics_spec(
                w0 + 7 * k,
                week_filter(items, w0 + 7 * k),
                r.context,
                #[trigger] r.weekly@[k],
            ),
    ensures
        forall|k: int, i: int, j: int|
            0 <= k < r.weekly@.len() && 0 <= i < j < r.weekly@[k].deployments@.len() ==> (
            #[trigger] r.weekly@[k].deployments@[i]).item.deployment.deployed_at == (
            #[trigger] r.weekly@[k].deployments@[j]).item.deployment.deployed_at || r.weekly@[k].deployments@[i].item.deployment.deployed_at < r.weekly@[k].deployments@[j].item.deployment.deployed_at,
{
    assert forall|k: int, i: int, j: int|
        0 <= k < r.weekly@.len() && 0 <= i < j < r.weekly@[k].deployments@.len() implies (
    #[trigger] r.weekly@[k].deployments@[i]).item.deployment.deployed_at == (
    #[trigger] r.weekly@[k].deployments@[j]).item.deployment.deployed_at || r.weekly@[k].deployments@[i].item.deployment.deployed_at < r.weekly@[k].deployments@[j].item.deployment.deployed_at by {
        lemma_week_filter_sorted(items, w0 + 7 * k);
    }
}

proof fn lemma_week_filter_sorted(s: Seq<DeploymentItemWithFirstOperation>, w: int)
    requires
        items_times_sorted(s),
    ensures
        items_times_sorted(week_filter(s, w)),
    decreases s.len(),
{
    if s.len() > 0 {
        assert(items_times_sorted(s.drop_last())) by {
            assert(forall|i: int|
                0 <= i < s.drop_last().len() ==> #[trigger] s.drop_last()[i] == s[i]);
        }
        lemma_week_filter_sorted(s.drop_last(), w);
        lemma_week_filter_elements(s.drop_last(), w);
        if in_week(s.last(), w) {
            let rest = week_filter(s.drop_last(), w);
            assert forall|i: int|
                0 <= i < rest.len() implies (#[trigger] rest[i]).deployment.deployed_at
                <= s.last().deployment.deployed_at by {
                assert(s.drop_last().contains(rest[i]));
                let j = choose|j: int| 0 <= j < s.drop_last().len() && s.drop_last()[j] == rest[i];
                assert(s[j] == rest[i]);
            }
        }
    }
}

/// The weekly deployment counts of `ws`, summed.
pub open spec fn sum_weekly_counts(ws: Seq<WeeklyMetrics>) -> int
    decreases ws.len(),
{
    if ws.len() == 0 {
        0
    } else {
        sum_weekly_counts(ws.drop_last()) + ws.last().deployments_count
    }
}

spec fn sum_week_filter_counts(s: Seq<DeploymentItemWithFirstOperation>, w0: int, n: nat) -> int
    decreases n,
{
    if n == 0 {
        0
    } else {
        sum_week_filter_counts(s, w0, (n - 1) as nat) + week_filter(s, w0 + 7 * (n - 1)).len()
    }
}

proof fn lemma_sum_step(s: Seq<DeploymentItemWithFirstOperation>, w0: int, n: nat, j: int)
    requires
        s.len() > 0,
        0 <= j < n,
        in_week(s.last(), w0 + 7 * j),
    ensures
        sum_week_filter_counts(s, w0, n) == sum_week_filter_counts(s.drop_last(), w0, n) + 1,
    decreases n,
{
    if n == j + 1 {
        lemma_sum_unchanged(s, w0, (n - 1) as nat, j);
    } else {
        lemma_sum_step(s, w0, (n - 1) as nat, j);
        assert(!in_week(s.last(), w0 + 7 * (n - 1)));
    }
}

proof fn lemma_sum_unchanged(s: Seq<DeploymentItemWithFirstOperation>, w0: int, n: nat, j: int)
    requires
        s.len() > 0,
        n <= j,
        in_week(s.last(), w0 + 7 * j),
    ensures
        sum_week_filter_counts(s, w0, n) == sum_week_filter_counts(s.drop_last(), w0, n),
    decreases n,
{
    if n > 0 {
        lemma_sum_unchanged(s, w0, (n - 1) as nat, j);
        assert(!in_week(s.last(), w0 + 7 * (n - 1)));
    }
}

proof fn lemma_week_counts_total(s: Seq<DeploymentItemWithFirstOperation>, w0: int, n: nat)
    requires
        w0 % 7 == 4,
        forall|i: int|
            0 <= i < s.len() ==> w0 <= week_of((#[trigger] s[i]).deployment.deployed_at) <= w0 + 7
                * (n - 1),
    ensures
        sum_week_filter_counts(s, w0, n) == s.len(),
    decreases s.len(),
{
    if s.len() == 0 {
        lemma_sum_empty(s, w0, n);
    } else {
        let t = s.last().deployment.deployed_at;
        lemma_instant_in_own_week(t);
        lemma_week_index_unique(w0, week_of(t));
        let j = (week_of(t) - w0) / 7;
        assert(week_of(t) == w0 + 7 * j);
        assert(0 <= j < n);
        assert(forall|i: int|
            0 <= i < s.drop_last().len() ==> #[trigger] s.drop_last()[i] == s[i]);
        lemma_week_counts_total(s.drop_last(), w0, n);
        lemma_sum_step(s, w0, n, j);
    }
}

proof fn lemma_sum_empty(s: Seq<DeploymentItemWithFirstOperation>, w0: int, n: nat)
    requires
        s.len() == 0,
    ensures
        sum_week_filter_counts(s, w0, n) == 0,
    decreases n,
{
    if n > 0 {
        lemma_sum_empty(s, w0, (n - 1) as nat);
    }
}

/// The weekly deployment counts of the output sum to the aggregate count.
pub proof fn lemma_weekly_counts_sum_to_aggregate(
    items: Seq<DeploymentItemWithFirstOperation>,
    ctx: RetrieveFourKeysExecutionContext,
    r: FourKeysResult,
)
    requires
        ctx.wf(),
        four_keys_spec(items, ctx, r),
        forall|i: int|
            0 <= i < items.len() ==> ctx.since <= (#[trigger] items[i]).deployment.deployed_at
                <= ctx.until,
    ensures
        sum_weekly_counts(r.weekly@) == r.aggregate.deployments,
{
    let w0 = week_of(ctx.since);
    let n = week_count(ctx.since, ctx.until) as nat;
    lemma_week_monotone(ctx.since, ctx.until);
    lemma_instant_in_own_week(ctx.since);
    lemma_instant_in_own_week(ctx.until);
    lemma_week_index_unique(w0, week_of(ctx.until));
    assert(week_of(ctx.until) == w0 + 7 * (n - 1));
    assert forall|i: int|
        0 <= i < items.len() implies w0 <= week_of(
        (#[trigger] items[i]).deployment.deployed_at,
    ) <= w0 + 7 * (n - 1) by {
        lemma_week_monotone(ctx.since, items[i].deployment.deployed_at);
        lemma_week_monotone(items[i].deployment.deployed_at, ctx.until);
    }
    lemma_week_counts_total(items, w0, n);
    lemma_sum_counts_match(r.weekly@, items, w0, n);
}

proof fn lemma_sum_counts_match(
    ws: Seq<WeeklyMetrics>,
    s: Seq<DeploymentItemWithFirstOperation>,
    w0: int,
    n: nat,
)
    requires
        ws.len() == n,
        forall|k: int|
            0 <= k < n ==> (#[trigger] ws[k]).deployments_count == week_filter(
                s,
                w0 + 7 * k,
            ).len(),
    ensures
        sum_weekly_counts(ws) == sum_week_filter_counts(s, w0, n),
    decreases n,
{
    if n > 0 {
        assert(forall|k: int|
            0 <= k < ws.drop_last().len() ==> #[trigger] ws.drop_last()[k] == ws[k]);
        lemma_sum_counts_match(ws.drop_last(), s, w0, (n - 1) as nat);
    }
}

/// A defined lead time is exactly the gap from the change-set's first commit
/// to the deployment, and that commit is not dated after the deployment.
pub proof fn lemma_lead_time_exact(
    item: DeploymentItemWithFirstOperation,
    c: FirstCommitItem,
    v: u64,
)
    requires
        item.first_operation == Some(FirstCommitOrRepositoryInfo::FirstCommit(c)),
        lead_time_of(item) == Some(v),
    ensures
        c.committed_at <= item.deployment.deployed_at,
        v == item.deployment.deployed_at - c.committed_at,
{
}

/// Every deployment of the window belongs to exactly one weekly bucket, and
/// that bucket's week `[week_start, week_start + 6]` contains the deployment's
/// day.
pub proof fn lemma_bucketing_total(
    items: Seq<DeploymentItemWithFirstOperation>,
    ctx: RetrieveFourKeysExecutionContext,
    r: FourKeysResult,
    i: int,
)
    requires
        ctx.wf(),
        four_keys_spec(items, ctx, r),
        forall|j: int|
            0 <= j < items.len() ==> ctx.since <= (#[trigger] items[j]).deployment.deployed_at
                <= ctx.until,
        0 <= i < items.len(),
    ensures
        exists|k: int|
            {
                &&& 0 <= k < r.weekly@.len()
                &&& in_week(items[i], week_of(ctx.since) + 7 * k)
                &&& #[trigger] week_filter(items, week_of(ctx.since) + 7 * k).contains(items[i])
                &&& week_of(ctx.since) + 7 * k <= crate::datetime_utc::epoch_day_of(
                    items[i].deployment.deployed_at,
                ) <= week_of(ctx.since) + 7 * k + 6
            },
        forall|k: int|
            0 <= k < r.weekly@.len() && !in_week(items[i], week_of(ctx.since) + 7 * k)
                ==> !(#[trigger] week_filter(items, week_of(ctx.since) + 7 * k)).contains(
                items[i],
            ),
{
    let w0 = week_of(ctx.since);
    let t = items[i].deployment.deployed_at;
    let n = week_count(ctx.since, ctx.until);
    lemma_week_monotone(ctx.since, ctx.until);
    lemma_week_monotone(ctx.since, t);
    lemma_week_monotone(t, ctx.until);
    lemma_instant_in_own_week(ctx.since);
    lemma_instant_in_own_week(ctx.until);
    lemma_instant_in_own_week(t);
    lemma_week_index_unique(w0, week_of(ctx.until));
    lemma_week_index_unique(w0, week_of(t));
    let k = (week_of(t) - w0) / 7;
    assert(week_of(t) == w0 + 7 * k);
    assert(7 * k <= 7 * ((week_of(ctx.until) - w0) / 7));
    assert(0 <= k < n);
    lemma_week_filter_elements(items, w0 + 7 * k);
    assert(week_filter(items, w0 + 7 * k).contains(items[i]));
    assert forall|kk: int|
        0 <= kk < r.weekly@.len() && !in_week(items[i], w0 + 7 * kk) implies !(
    #[trigger] week_filter(items, w0 + 7 * kk)).contains(items[i]) by {
        lemma_week_filter_elements(items, w0 + 7 * kk);
        if week_filter(items, w0 + 7 * kk).contains(items[i]) {
            let j = choose|j: int|
                0 <= j < week_filter(items, w0 + 7 * kk).len() && #[trigger] week_filter(
                    items,
                    w0 + 7 * kk,
                )[j] == items[i];
            assert(in_week(week_filter(items, w0 + 7 * kk)[j], w0 + 7 * kk));
        }
    }
}

/// Bucketing is idempotent: a bucket's contents filtered by its own week are
/// the contents unchanged, and filtered by any other week, empty.
pub proof fn lemma_bucketing_idempotent(s: Seq<DeploymentItemWithFirstOperation>, w: int, w2: int)
    ensures
        week_filter(week_filter(s, w), w) == week_filter(s, w),
        w2 != w ==> week_filter(week_filter(s, w), w2) == Seq::<
            DeploymentItemWithFirstOperation,
        >::empty(),
    decreases s.len(),
{
    if s.len() == 0 {
    } else {
        lemma_bucketing_idempotent(s.drop_last(), w, w2);
        let rest = week_filter(s.drop_last(), w);
        if in_week(s.last(), w) {
            assert(week_filter(s, w) == rest.push(s.last()));
            assert(rest.push(s.last()).drop_last() =~= rest);
            assert(week_filter(week_filter(s, w), w) == week_filter(rest, w).push(s.last()));
            if w2 != w {
                assert(week_filter(week_filter(s, w), w2) == week_filter(rest, w2));
            }
        }
    }
}

/// With the same joined deployments and the same context, any two results the
/// result specification admits agree everywhere: the computation is
/// deterministic.
pub proof fn lemma_four_keys_deterministic(
    items: Seq<DeploymentItemWithFirstOperation>,
    ctx: RetrieveFourKeysExecutionContext,
    r1: FourKeysResult,
    r2: FourKeysResult,
)
    requires
        four_keys_spec(items, ctx, r1),
        four_keys_spec(items, ctx, r2),
    ensures
        r1.context == r2.context,
        r1.aggregate == r2.aggregate,
        r1.weekly@.len() == r2.weekly@.len(),
        forall|k: int|
            0 <= k < r1.weekly@.len() ==> {
                &&& (#[trigger] r1.weekly@[k]).week_start_day == r2.weekly@[k].week_start_day
                &&& r1.weekly@[k].week_end_day == r2.weekly@[k].week_end_day
                &&& r1.weekly@[k].deployments@ == r2.weekly@[k].deployments@
                &&& r1.weekly@[k].deployments_count == r2.weekly@[k].deployments_count
                &&& r1.weekly@[k].deployment_frequency_per_day
                    == r2.weekly@[k].deployment_frequency_per_day
                &&& r1.weekly@[k].lead_time_for_changes_seconds
                    == r2.weekly@[k].lead_time_for_changes_seconds
            },
{
    assert forall|k: int|
        0 <= k < r1.weekly@.len() implies (#[trigger] r1.weekly@[k]).deployments@
        == r2.weekly@[k].deployments@ by {
        let sel = week_filter(items, week_of(ctx.since) + 7 * k);
        assert(r1.weekly@[k].deployments@ =~= r2.weekly@[k].deployments@);
    }
}

} // verus!
