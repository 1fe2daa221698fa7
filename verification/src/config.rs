//! Who uploads, and where to.

use vstd::prelude::*;

verus! {

/// The user's settings, with the access token once it was fetched.
#[derive(Debug)]
pub struct UserConfig {
    /// The account that owns the repository.
    pub github_user_name: String,
    /// The repository that takes the images.
    pub github_repo_name: String,
    /// The address that uploads are signed with.
    pub mail: String,
    /// The access token; absent in the settings file, present once loaded.
    pub token: Option<String>,
}

impl UserConfig {
    /// The settings are complete: the token is there.
    pub open spec fn is_loaded(&self) -> bool {
        self.token is Some
    }

    /// The settings with the fetched token put in; the rest stays.
    pub fn with_token(self, token: String) -> (loaded: UserConfig)
        ensures
            loaded.is_loaded(),
            loaded.token == Some(token),
            loaded.github_user_name == self.github_user_name,
            loaded.github_repo_name == self.github_repo_name,
            loaded.mail == self.mail,
    {
        UserConfig {
            github_user_name: self.github_user_name,
            github_repo_name: self.github_repo_name,
            mail: self.mail,
            token: Some(token),
        }
    }
}

} // verus!
