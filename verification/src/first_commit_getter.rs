use vstd::prelude::*;

verus! {

#[derive(Debug, Clone)]
pub struct FirstCommitItem {
    pub sha: String,
    pub message: String,
    pub resource_path: String,
    pub committed_at: u64,
    pub creator_login: String,
}

impl FirstCommitItem {
    /// An exact copy, field for field.
    pub fn duplicate(&self) -> (r: Self)
        ensures
            r == *self,
    {
        FirstCommitItem {
            sha: self.sha.clone(),
            message: self.message.clone(),
            resource_path: self.resource_path.clone(),
            committed_at: self.committed_at,
            creator_login: self.creator_login.clone(),
        }
    }
}

#[derive(Debug)]
pub struct FirstCommitGetterParams {
    pub base: String,
    pub head: String,
}

#[derive(Debug, Clone)]
pub enum FirstCommitGetterError {
    CreateAPIClientError(String),
    EmptyBaseOrHead(String),
    BaseEqualsHead(String),
    APIClientError(String),
    APIResponseError(String),
    APIResponseParseError(String),
    CannotGotFromJsonError(String),
}

// Workflow: resolves the earliest commit on the exclusive range
// `(base, head]`; implementations live with the transport, outside the
// verified core.
pub trait FirstCommitGetter {
    fn get(&self, params: FirstCommitGetterParams) -> (r: Result<
        FirstCommitItem,
        FirstCommitGetterError,
    >);
}

} // verus!
