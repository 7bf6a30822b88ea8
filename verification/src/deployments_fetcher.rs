use vstd::prelude::*;
use vstd::seq_lib::lemma_multiset_commutative;

verus! {

// Input to a deployments fetcher: an optional `[since, until]` window,
// in seconds since the epoch.
pub struct DeploymentsFetcherParams {
    pub since: Option<u64>,
    pub until: Option<u64>,
}

// Output
#[derive(Debug, Clone)]
pub struct CommitItem {
    pub sha: String,
    pub message: String,
    pub resource_path: String,
    pub committed_at: u64,
    pub creator_login: String,
}

#[derive(Debug, Clone)]
pub struct RepositoryInfo {
    pub created_at: u64,
}

#[derive(Debug, Clone)]
pub enum CommitOrRepositoryInfo {
    Commit(CommitItem),
    RepositoryInfo(RepositoryInfo),
}

#[derive(Debug, Clone, PartialEq)]
pub enum DeploymentInfo {
    GithubDeployment { id: String },
    HerokuRelease { id: String, version: u64 },
}

#[derive(Debug, Clone)]
pub struct DeploymentItem {
    pub info: DeploymentInfo,
    pub head_commit: CommitItem,
    pub base: CommitOrRepositoryInfo,
    pub creator_login: String,
    pub deployed_at: u64,
}

impl CommitItem {
    /// An exact copy, field for field.
    pub fn duplicate(&self) -> (r: Self)
        ensures
            r == *self,
    {
        CommitItem {
            sha: self.sha.clone(),
            message: self.message.clone(),
            resource_path: self.resource_path.clone(),
            committed_at: self.committed_at,
            creator_login: self.creator_login.clone(),
        }
    }
}

impl RepositoryInfo {
    /// An exact copy, field for field.
    pub fn duplicate(&self) -> (r: Self)
        ensures
            r == *self,
    {
        RepositoryInfo { created_at: self.created_at }
    }
}

impl CommitOrRepositoryInfo {
    /// An exact copy, field for field.
    pub fn duplicate(&self) -> (r: Self)
        ensures
            r == *self,
    {
        match self {
            CommitOrRepositoryInfo::Commit(c) => CommitOrRepositoryInfo::Commit(c.duplicate()),
            CommitOrRepositoryInfo::RepositoryInfo(i) => CommitOrRepositoryInfo::RepositoryInfo(
                i.duplicate(),
            ),
        }
    }
}

impl DeploymentInfo {
    /// An exact copy, field for field.
    pub fn duplicate(&self) -> (r: Self)
        ensures
            r == *self,
    {
        match self {
            DeploymentInfo::GithubDeployment { id } => DeploymentInfo::GithubDeployment {
                id: id.clone(),
            },
            DeploymentInfo::HerokuRelease { id, version } => DeploymentInfo::HerokuRelease {
                id: id.clone(),
                version: *version,
            },
        }
    }

    /// The identifier of the deployment event, used to break ordering ties.
    pub open spec fn id_view(self) -> Seq<char> {
        match self {
            DeploymentInfo::GithubDeployment { id } => id@,
            DeploymentInfo::HerokuRelease { id, version: _ } => id@,
        }
    }

    pub fn id_string(&self) -> (r: String)
        ensures
            r@ == self.id_view(),
    {
        match self {
            DeploymentInfo::GithubDeployment { id } => id.clone(),
            DeploymentInfo::HerokuRelease { id, version: _ } => id.clone(),
        }
    }
}

impl DeploymentItem {
    /// The invariant every fetched deployment satisfies: the head commit was
    /// made no later than the deployment that shipped it.
    pub open spec fn wf(self) -> bool {
        self.head_commit.committed_at <= self.deployed_at
    }

    /// An exact copy, field for field.
    pub fn duplicate(&self) -> (r: Self)
        ensures
            r == *self,
    {
        DeploymentItem {
            info: self.info.duplicate(),
            head_commit: self.head_commit.duplicate(),
            base: self.base.duplicate(),
            creator_login: self.creator_login.clone(),
            deployed_at: self.deployed_at,
        }
    }
}

// Errors. The messages carry whatever the transport reported.
#[derive(Debug, Clone)]
pub enum DeploymentsFetcherError {
    CreateAPIClientError(String),
    FetchError(String),
    CommitIsNotFound(String),
    GetRepositoryCreatedAtError(String),
    DeploymentsFetcherResultIsEmptyList(String),
    InvalidResponse(String),
}

// --- Ordering of fetched deployments ---

/// Lexicographic order on character sequences, by code point.
pub open spec fn lex_le(a: Seq<char>, b: Seq<char>) -> bool
    decreases a.len(),
{
    if a.len() == 0 {
        true
    } else if b.len() == 0 {
        false
    } else if a[0] as u32 != b[0] as u32 {
        (a[0] as u32) < (b[0] as u32)
    } else {
        lex_le(a.drop_first(), b.drop_first())
    }
}

pub proof fn lemma_lex_le_total(a: Seq<char>, b: Seq<char>)
    ensures
        lex_le(a, b) || lex_le(b, a),
    decreases a.len(),
{
    if a.len() == 0 || b.len() == 0 {
    } else if a[0] as u32 != b[0] as u32 {
    } else {
        lemma_lex_le_total(a.drop_first(), b.drop_first());
    }
}

pub proof fn lemma_lex_le_trans(a: Seq<char>, b: Seq<char>, c: Seq<char>)
    requires
        lex_le(a, b),
        lex_le(b, c),
    ensures
        lex_le(a, c),
    decreases a.len(),
{
    if a.len() == 0 || b.len() == 0 || c.len() == 0 {
    } else if a[0] as u32 == b[0] as u32 && b[0] as u32 == c[0] as u32 {
        lemma_lex_le_trans(a.drop_first(), b.drop_first(), c.drop_first());
    }
}

/// Compares two strings in the order `lex_le` describes.
pub fn lex_le_strings(a: &String, b: &String) -> (r: bool)
    ensures
        r == lex_le(a@, b@),
{
    let an: usize = a.as_str().unicode_len();
    let bn: usize = b.as_str().unicode_len();
    let mut i: usize = 0;
    assert(a@.skip(0) =~= a@);
    assert(b@.skip(0) =~= b@);
    while i < an && i < bn
        invariant
            i <= an,
            i <= bn,
            an == a@.len(),
            bn == b@.len(),
            lex_le(a@, b@) == lex_le(a@.skip(i as int), b@.skip(i as int)),
            lex_le(b@, a@) == lex_le(b@.skip(i as int), a@.skip(i as int)),
        decreases an - i,
    {
        let ca = a.as_str().get_char(i);
        let cb = b.as_str().get_char(i);
        if (ca as u32) < (cb as u32) {
            return true;
        }
        if (ca as u32) > (cb as u32) {
            return false;
        }
        proof {
            assert(a@.skip(i as int).drop_first() =~= a@.skip(i as int + 1));
            assert(b@.skip(i as int).drop_first() =~= b@.skip(i as int + 1));
        }
        i = i + 1;
    }
    if an <= bn {
        assert(a@.skip(i as int).len() == 0);
        true
    } else {
        assert(b@.skip(i as int).len() == 0 && a@.skip(i as int).len() > 0);
        false
    }
}

/// Ascending by `deployed_at`; ties broken by the deployment id.
pub open spec fn deployment_le(a: DeploymentItem, b: DeploymentItem) -> bool {
    ||| a.deployed_at < b.deployed_at
    ||| (a.deployed_at == b.deployed_at && lex_le(a.info.id_view(), b.info.id_view()))
}

pub open spec fn deployments_sorted(s: Seq<DeploymentItem>) -> bool {
    forall|i: int, j: int|
        0 <= i < j < s.len() ==> deployment_le(#[trigger] s[i], #[trigger] s[j])
}

pub proof fn lemma_deployment_le_total(a: DeploymentItem, b: DeploymentItem)
    ensures
        deployment_le(a, b) || deployment_le(b, a),
{
    lemma_lex_le_total(a.info.id_view(), b.info.id_view());
}

pub proof fn lemma_deployment_le_trans(a: DeploymentItem, b: DeploymentItem, c: DeploymentItem)
    requires
        deployment_le(a, b),
        deployment_le(b, c),
    ensures
        deployment_le(a, c),
{
    if a.deployed_at == b.deployed_at && b.deployed_at == c.deployed_at {
        lemma_lex_le_trans(a.info.id_view(), b.info.id_view(), c.info.id_view());
    }
}

fn deployment_le_exec(a: &DeploymentItem, b: &DeploymentItem) -> (r: bool)
    ensures
        r == deployment_le(*a, *b),
{
    if a.deployed_at < b.deployed_at {
        true
    } else if a.deployed_at > b.deployed_at {
        false
    } else {
        lex_le_strings(&a.info.id_string(), &b.info.id_string())
    }
}

pub proof fn lemma_insert_to_multiset<A>(s: Seq<A>, i: int, a: A)
    requires
        0 <= i <= s.len(),
    ensures
        s.insert(i, a).to_multiset() =~= s.to_multiset().insert(a),
{
    broadcast use vstd::seq_lib::group_to_multiset_ensures;
    broadcast use vstd::multiset::group_multiset_axioms;

    let t = s.subrange(0, i);
    let u = s.subrange(i, s.len() as int);
    assert(s =~= t + u);
    lemma_multiset_commutative(t, u);
    lemma_multiset_commutative(t.push(a), u);
    assert(t.push(a).to_multiset() =~= t.to_multiset().insert(a));
    assert(t.to_multiset().insert(a).add(u.to_multiset()) =~= t.to_multiset().add(
        u.to_multiset(),
    ).insert(a));
}

/// Sorts fetched deployments ascending by `deployed_at`, ties broken by the
/// deployment id: the ordering every fetcher's result carries, applied after
/// pages have been collected.
pub fn sort_deployments(deployments: Vec<DeploymentItem>) -> (r: Vec<DeploymentItem>)
    ensures
        r@.to_multiset() == deployments@.to_multiset(),
        deployments_sorted(r@),
{
    broadcast use vstd::seq_lib::group_to_multiset_ensures;
    broadcast use vstd::multiset::group_multiset_axioms;

    let ghost orig = deployments@;
    let mut rest = deployments;
    let mut out: Vec<DeploymentItem> = Vec::new();
    assert(out@.to_multiset().add(rest@.to_multiset()) =~= orig.to_multiset());
    while rest.len() > 0
        invariant
            out@.to_multiset().add(rest@.to_multiset()) == orig.to_multiset(),
            deployments_sorted(out@),
        decreases rest@.len(),
    {
        let ghost rest0 = rest@;
        let d = rest.remove(0);
        proof {
            rest0.to_multiset_ensures();
        }
        assert(rest@.to_multiset() =~= rest0.to_multiset().remove(d));
        let mut idx: usize = 0;
        let mut scanning = true;
        while scanning && idx < out.len()
            invariant
                idx <= out@.len(),
                forall|k: int| 0 <= k < idx ==> deployment_le(#[trigger] out@[k], d),
                !scanning ==> idx < out@.len() && !deployment_le(out@[idx as int], d),
            decreases out@.len() - idx + (if scanning { 1int } else { 0int }),
        {
            if deployment_le_exec(&out[idx], &d) {
                idx = idx + 1;
            } else {
                scanning = false;
            }
        }
        assert forall|k: int| idx <= k < out@.len() implies deployment_le(d, #[trigger] out@[k]) by {
            lemma_deployment_le_total(out@[idx as int], d);
            if k > idx {
                lemma_deployment_le_trans(d, out@[idx as int], out@[k]);
            }
        }
        let ghost out0 = out@;
        proof {
            out0.insert_ensures(idx as int, d);
            lemma_insert_to_multiset(out0, idx as int, d);
        }
        out.insert(idx, d);
        assert(deployments_sorted(out@)) by {
            assert forall|i: int, j: int|
                0 <= i < j < out@.len() implies deployment_le(out@[i], out@[j]) by {
                if i == idx as int {
                    assert(out@[j] == out0[j - 1]);
                } else if j == idx as int {
                    assert(out@[i] == out0[i]);
                } else if i < idx as int && j > idx as int {
                    assert(out@[i] == out0[i] && out@[j] == out0[j - 1]);
                } else if j < idx as int {
                    assert(out@[i] == out0[i] && out@[j] == out0[j]);
                } else {
                    assert(out@[i] == out0[i - 1] && out@[j] == out0[j - 1]);
                }
            }
        }
        assert(out@.to_multiset().add(rest@.to_multiset()) =~= orig.to_multiset());
    }
    assert(rest@.to_multiset().len() == 0);
    assert(out@.to_multiset() =~= out@.to_multiset().add(rest@.to_multiset()));
    out
}

/// The deployments of `s` with `deployed_at` inside `[since, until]`, in the
/// order of `s`.
pub open spec fn window_filter(s: Seq<DeploymentItem>, since: u64, until: u64) -> Seq<
    DeploymentItem,
>
    decreases s.len(),
{
    if s.len() == 0 {
        Seq::empty()
    } else {
        let rest = window_filter(s.drop_last(), since, until);
        if since <= s.last().deployed_at <= until {
            rest.push(s.last())
        } else {
            rest
        }
    }
}

proof fn lemma_window_filter_elements(s: Seq<DeploymentItem>, since: u64, until: u64)
    ensures
        forall|i: int|
            0 <= i < window_filter(s, since, until).len() ==> s.contains(
                #[trigger] window_filter(s, since, until)[i],
            ),
    decreases s.len(),
{
    if s.len() > 0 {
        lemma_window_filter_elements(s.drop_last(), since, until);
        let rest = window_filter(s.drop_last(), since, until);
        assert(forall|i: int|
            0 <= i < s.drop_last().len() ==> #[trigger] s.drop_last()[i] == s[i]);
        assert forall|i: int| 0 <= i < rest.len() implies s.contains(#[trigger] rest[i]) by {
            let j = choose|j: int| 0 <= j < s.drop_last().len() && s.drop_last()[j] == rest[i];
            assert(s[j] == rest[i]);
        }
    }
}

/// Keeping only the window's deployments keeps their order.
pub proof fn lemma_window_filter_sorted(s: Seq<DeploymentItem>, since: u64, until: u64)
    requires
        deployments_sorted(s),
    ensures
        deployments_sorted(window_filter(s, since, until)),
    decreases s.len(),
{
    if s.len() > 0 {
        assert(deployments_sorted(s.drop_last())) by {
            assert(forall|i: int|
                0 <= i < s.drop_last().len() ==> #[trigger] s.drop_last()[i] == s[i]);
        }
        lemma_window_filter_sorted(s.drop_last(), since, until);
        lemma_window_filter_elements(s.drop_last(), since, until);
        if since <= s.last().deployed_at <= until {
            let rest = window_filter(s.drop_last(), since, until);
            assert forall|i: int|
                0 <= i < rest.len() implies deployment_le(#[trigger] rest[i], s.last()) by {
                assert(s.drop_last().contains(rest[i]));
                let j = choose|j: int| 0 <= j < s.drop_last().len() && s.drop_last()[j] == rest[i];
                assert(s[j] == rest[i]);
                if j < s.len() - 1 {
                    assert(deployment_le(s[j], s.last()));
                } else {
                    lemma_deployment_le_total(rest[i], s.last());
                }
            }
        }
    }
}

/// Keeps exactly the deployments made inside `[since, until]`, in their
/// given order: the fetchers' window contract, applied after collection.
pub fn filter_window(deployments: Vec<DeploymentItem>, since: u64, until: u64) -> (r: Vec<
    DeploymentItem,
>)
    ensures
        r@ == window_filter(deployments@, since, until),
        forall|i: int|
            0 <= i < r@.len() ==> since <= (#[trigger] r@[i]).deployed_at <= until,
{
    let ghost orig = deployments@;
    let mut rest = deployments;
    let mut r: Vec<DeploymentItem> = Vec::new();
    assert(orig.take(0) =~= Seq::<DeploymentItem>::empty());
    while rest.len() > 0
        invariant
            r@.len() <= orig.len() - rest@.len(),
            rest@ == orig.skip((orig.len() - rest@.len()) as int),
            r@ == window_filter(orig.take((orig.len() - rest@.len()) as int), since, until),
            forall|i: int|
                0 <= i < r@.len() ==> since <= (#[trigger] r@[i]).deployed_at <= until,
        decreases rest@.len(),
    {
        let ghost j = orig.len() - rest@.len();
        assert(rest@[0] == orig[j as int]);
        proof {
            assert(orig.take(j as int + 1).drop_last() =~= orig.take(j as int));
            assert(orig.take(j as int + 1).last() == orig[j as int]);
        }
        let d = rest.remove(0);
        if since <= d.deployed_at && d.deployed_at <= until {
            r.push(d);
        }
    }
    assert(orig.take(orig.len() as int) =~= orig);
    r
}

// Workflow: implemented by each deployment source (forge deployments, forge
// pull-request merges, PaaS releases); implementations live with the
// transport, outside the verified core.
pub trait DeploymentsFetcher {
    fn fetch(&self, params: DeploymentsFetcherParams) -> (r: Result<
        Vec<DeploymentItem>,
        DeploymentsFetcherError,
    >);
}

} // verus!
