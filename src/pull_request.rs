//! The pull request record as the listing endpoint reports it.
use vstd::prelude::*;

verus! {

/// One pull request; `created_at` is in seconds since the Unix epoch.
#[derive(Debug)]
pub struct PullRequest {
    pub title: String,
    pub url: String,
    pub created_at: i64,
    pub is_draft: bool,
}

pub struct PullRequestView {
    pub title: Seq<char>,
    pub url: Seq<char>,
    pub created_at: i64,
    pub is_draft: bool,
}

impl View for PullRequest {
    type V = PullRequestView;

    open spec fn view(&self) -> PullRequestView {
        PullRequestView {
            title: self.title@,
            url: self.url@,
            created_at: self.created_at,
            is_draft: self.is_draft,
        }
    }
}

impl DeepView for PullRequest {
    type V = PullRequestView;

    open spec fn deep_view(&self) -> PullRequestView {
        self@
    }
}

impl PullRequest {
    pub fn new(title: String, url: String, created_at: i64, is_draft: bool) -> (r: PullRequest)
        ensures
            r@ == (PullRequestView { title: title@, url: url@, created_at, is_draft }),
    {
        PullRequest { title, url, created_at, is_draft }
    }
}

} // verus!
