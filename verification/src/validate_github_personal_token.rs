use vstd::prelude::*;

verus! {

pub type UnvalidatedGitHubPersonalToken = Option<String>;

/// A personal access token of the forge, checked to carry the `ghp_` prefix.
#[derive(Debug, Clone)]
pub struct ValidatedGitHubPersonalToken(pub String);

pub type ValidateGitHubPersonalTokenEvent = ValidatedGitHubPersonalToken;

/// The shape of the validation workflow: unvalidated token in, event or
/// validation error out.
pub type ValidateGitHubPersonalToken = fn(UnvalidatedGitHubPersonalToken) -> Result<
    ValidateGitHubPersonalTokenEvent,
    ValidateGitHubPersonalTokenError,
>;

#[derive(Debug, Clone)]
pub enum ValidateGitHubPersonalTokenError {
    Required(String),
    InvalidToken(String),
}

/// The token begins with `ghp_`.
pub open spec fn has_ghp_prefix(s: Seq<char>) -> bool {
    s.len() >= 4 && s[0] == 'g' && s[1] == 'h' && s[2] == 'p' && s[3] == '_'
}

pub fn perform(token: UnvalidatedGitHubPersonalToken) -> (r: Result<
    ValidateGitHubPersonalTokenEvent,
    ValidateGitHubPersonalTokenError,
>)
    ensures
        r is Ok <==> (token is Some && has_ghp_prefix(token->0@)),
        token is Some && has_ghp_prefix(token->0@) ==> r->Ok_0.0 == token->0,
        token is None ==> r matches Err(ValidateGitHubPersonalTokenError::Required(_)),
        token is Some && !has_ghp_prefix(token->0@) ==> r matches Err(
            ValidateGitHubPersonalTokenError::InvalidToken(_),
        ),
{
    ValidatedGitHubPersonalToken::new(token)
}

impl ValidatedGitHubPersonalToken {
    pub fn new(token: Option<String>) -> (r: Result<Self, ValidateGitHubPersonalTokenError>)
        ensures
            r is Ok <==> (token is Some && has_ghp_prefix(token->0@)),
            token is Some && has_ghp_prefix(token->0@) ==> r->Ok_0.0 == token->0,
            token is None ==> r matches Err(ValidateGitHubPersonalTokenError::Required(_)),
            token is Some && !has_ghp_prefix(token->0@) ==> r matches Err(
                ValidateGitHubPersonalTokenError::InvalidToken(_),
            ),
    {
        if let Some(token) = token {
            let n: usize = token.as_str().unicode_len();
            if n >= 4 && token.as_str().get_char(0) == 'g' && token.as_str().get_char(1) == 'h'
                && token.as_str().get_char(2) == 'p' && token.as_str().get_char(3) == '_' {
                Ok(ValidatedGitHubPersonalToken(token))
            } else {
                Err(
                    ValidateGitHubPersonalTokenError::InvalidToken(
                        "GitHub personal token is invalid".to_owned(),
                    ),
                )
            }
        } else {
            Err(
                ValidateGitHubPersonalTokenError::Required(
                    "GitHub personal token is empty".to_owned(),
                ),
            )
        }
    }

    pub fn to_string(self) -> (r: String)
        ensures
            r == self.0,
    {
        self.0
    }
}

} // verus!
