//! The addresses under which the hosting service shows the pull requests of
//! a repository: those of its interface for programs and those of its web
//! pages.
use crate::number::{decimal, decimal_string};
use crate::text::owned;
use vstd::prelude::*;
use vstd::string::StringExecFns;

verus! {

/// Where the pull requests of one repository are listed.
#[derive(Debug, PartialEq, Eq)]
pub struct RepositoryURLs {
    pub api_url: String,
    pub web_url: String,
}

/// Where one pull request is found.
#[derive(Debug, PartialEq, Eq)]
pub struct PullrequestIdURLs {
    pub api_url: String,
    pub web_url: String,
}

/// The two addresses of a repository or of a pull request, as plain text.
pub struct UrlsView {
    pub api_url: Seq<char>,
    pub web_url: Seq<char>,
}

impl View for RepositoryURLs {
    type V = UrlsView;

    open spec fn view(&self) -> UrlsView {
        UrlsView { api_url: self.api_url@, web_url: self.web_url@ }
    }
}

impl View for PullrequestIdURLs {
    type V = UrlsView;

    open spec fn view(&self) -> UrlsView {
        UrlsView { api_url: self.api_url@, web_url: self.web_url@ }
    }
}

/// The address of the list of pull requests of `repo_owner`'s repository
/// `repo_slug`, for programs.
pub open spec fn repository_api_url(repo_owner: Seq<char>, repo_slug: Seq<char>) -> Seq<char> {
    "https://api.bitbucket.org/2.0/repositories/"@ + repo_owner + "/"@ + repo_slug
        + "/pullrequests"@
}

/// The address of the list of pull requests of `repo_owner`'s repository
/// `repo_slug`, for readers.
pub open spec fn repository_web_url(repo_owner: Seq<char>, repo_slug: Seq<char>) -> Seq<char> {
    "https://bitbucket.org/"@ + repo_owner + "/"@ + repo_slug + "/pull-requests"@
}

/// The address of the pull request `id` below the address `list` of the list
/// it is in: a slash and the number in base ten.
pub open spec fn pull_request_url(list: Seq<char>, id: u32) -> Seq<char> {
    list + "/"@ + decimal(id as nat)
}

impl RepositoryURLs {
    /// The addresses of the pull requests of `repo_owner`'s repository
    /// `repo_slug`.
    pub fn new(repo_owner: &str, repo_slug: &str) -> (r: RepositoryURLs)
        ensures
            r.api_url@ == repository_api_url(repo_owner@, repo_slug@),
            r.web_url@ == repository_web_url(repo_owner@, repo_slug@),
    {
        let mut api_url = owned("https://api.bitbucket.org/2.0/repositories/");
        api_url.append(repo_owner);
        api_url.append("/");
        api_url.append(repo_slug);
        api_url.append("/pullrequests");
        let mut web_url = owned("https://bitbucket.org/");
        web_url.append(repo_owner);
        web_url.append("/");
        web_url.append(repo_slug);
        web_url.append("/pull-requests");
        RepositoryURLs { api_url, web_url }
    }

    /// The addresses of the pull request `id` of this repository.
    pub fn with_id(&self, id: u32) -> (r: PullrequestIdURLs)
        ensures
            r.api_url@ == pull_request_url(self.api_url@, id),
            r.web_url@ == pull_request_url(self.web_url@, id),
    {
        PullrequestIdURLs::new(self, id)
    }
}

impl PullrequestIdURLs {
    /// The addresses of the pull request `id` among the pull requests listed
    /// at `pullrequests_link`.
    pub fn new(pullrequests_link: &RepositoryURLs, id: u32) -> (r: PullrequestIdURLs)
        ensures
            r.api_url@ == pull_request_url(pullrequests_link.api_url@, id),
            r.web_url@ == pull_request_url(pullrequests_link.web_url@, id),
    {
        let number = decimal_string(id);
        let mut api_url = pullrequests_link.api_url.clone();
        api_url.append("/");
        api_url.append(number.as_str());
        let mut web_url = pullrequests_link.web_url.clone();
        web_url.append("/");
        web_url.append(number.as_str());
        PullrequestIdURLs { api_url, web_url }
    }
}

impl Clone for PullrequestIdURLs {
    fn clone(&self) -> (r: Self)
        ensures
            r == *self,
    {
        PullrequestIdURLs { api_url: self.api_url.clone(), web_url: self.web_url.clone() }
    }
}

impl Clone for RepositoryURLs {
    fn clone(&self) -> (r: Self)
        ensures
            r == *self,
    {
        RepositoryURLs { api_url: self.api_url.clone(), web_url: self.web_url.clone() }
    }
}

} // verus!
