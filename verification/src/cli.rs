//! The command line of the agent.

use crate::enrollment::LoginOptions;
use vstd::prelude::*;

verus! {

/// The arguments of a login. The address of the server is given by an option or by position.
#[derive(Debug)]
pub struct LoginArgs {
    pub api_base_url: Option<String>,
    pub requested_name: Option<String>,
    pub api_base_url_positional: Option<String>,
}

impl LoginArgs {
    /// What the arguments ask for.
    pub fn into_options(self) -> (r: LoginOptions)
        ensures
            r.api_base_url == (match self.api_base_url {
                Some(url) => Some(url),
                None => self.api_base_url_positional,
            }),
            r.requested_name == self.requested_name,
    {
        LoginOptions {
            api_base_url: match self.api_base_url {
                Some(url) => Some(url),
                None => self.api_base_url_positional,
            },
            requested_name: self.requested_name,
        }
    }
}

} // verus!
