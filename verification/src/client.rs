//! The client: what its requests have in common.

use vstd::prelude::*;

verus! {

/// A client of the LinkedIn API.
///
/// Its methods send nothing. They decide what is to be sent, and what follows
/// from a reply.
#[derive(Debug)]
pub struct LinkedInClient {
    /// The origin of the service, such as `https://www.linkedin.com`.
    pub base_url: String,
    /// The path that all calls of the API start with, such as `/voyager/api/`.
    pub api_prefix: String,
    /// The session identifier, which authorises requests that change something.
    pub jsessionid: String,
}

/// The model of a [`LinkedInClient`].
pub ghost struct ClientView {
    pub base_url: Seq<char>,
    pub api_prefix: Seq<char>,
    pub jsessionid: Seq<char>,
}

impl View for LinkedInClient {
    type V = ClientView;

    open spec fn view(&self) -> ClientView {
        ClientView {
            base_url: self.base_url@,
            api_prefix: self.api_prefix@,
            jsessionid: self.jsessionid@,
        }
    }
}

impl ClientView {
    /// The URL of a path of the API.
    pub open spec fn url(self, path: Seq<char>) -> Seq<char> {
        self.base_url + self.api_prefix + path
    }
}

impl LinkedInClient {
    /// The URL of a path of the API.
    pub fn url(&self, path: &str) -> (url: String)
        ensures
            url@ == self@.url(path@),
    {
        self.base_url.clone().concat(self.api_prefix.as_str()).concat(path)
    }
}

}
