//! Cursor-driven retrieval of every pull request of a repository.
//!
//! The network exchange happens outside this module: a `Paginator` says
//! which page to ask for next, takes each response in turn, and keeps the
//! pull requests collected so far.
use vstd::prelude::*;

use crate::pull_request::{PullRequest, PullRequestView};

verus! {

/// Where a page stands in the listing.
pub struct PageInfo {
    pub has_next_page: bool,
    pub end_cursor: Option<String>,
}

/// One page of the listing; a node may be null.
pub struct PullRequestsPage {
    pub nodes: Option<Vec<Option<PullRequest>>>,
    pub page_info: PageInfo,
}

/// A response of the listing endpoint: the errors it reports and, unless the
/// data or the repository was missing, the page it carries.
pub struct PageResponse {
    pub errors: Vec<String>,
    pub page: Option<PullRequestsPage>,
}

/// Why a response could not be used.
#[derive(Debug, PartialEq, Eq)]
pub enum FetchError {
    /// The endpoint reported an error; this is the first message it gave.
    Server(String),
    /// The response held no data, or no repository.
    MissingData,
    /// The page held no list of nodes.
    MissingNodes,
}

pub struct PageInfoView {
    pub has_next_page: bool,
    pub end_cursor: Option<Seq<char>>,
}

pub struct PageView {
    pub nodes: Option<Seq<Option<PullRequestView>>>,
    pub page_info: PageInfoView,
}

pub struct PageResponseView {
    pub errors: Seq<Seq<char>>,
    pub page: Option<PageView>,
}

pub enum FetchErrorView {
    Server(Seq<char>),
    MissingData,
    MissingNodes,
}

impl DeepView for PageInfo {
    type V = PageInfoView;

    open spec fn deep_view(&self) -> PageInfoView {
        PageInfoView {
            has_next_page: self.has_next_page,
            end_cursor: self.end_cursor.deep_view(),
        }
    }
}

impl DeepView for PullRequestsPage {
    type V = PageView;

    open spec fn deep_view(&self) -> PageView {
        PageView { nodes: self.nodes.deep_view(), page_info: self.page_info.deep_view() }
    }
}

impl DeepView for PageResponse {
    type V = PageResponseView;

    open spec fn deep_view(&self) -> PageResponseView {
        PageResponseView { errors: self.errors.deep_view(), page: self.page.deep_view() }
    }
}

impl DeepView for FetchError {
    type V = FetchErrorView;

    open spec fn deep_view(&self) -> FetchErrorView {
        match self {
            FetchError::Server(m) => FetchErrorView::Server(m@),
            FetchError::MissingData => FetchErrorView::MissingData,
            FetchError::MissingNodes => FetchErrorView::MissingNodes,
        }
    }
}

/// The contents of a usable page: its nodes and where it stands.
pub struct PageContent {
    pub nodes: Seq<Option<PullRequestView>>,
    pub page_info: PageInfoView,
}

/// What a response amounts to: the page it carries, or why it cannot be used.
pub open spec fn response_outcome(r: PageResponseView) -> Result<PageContent, FetchErrorView> {
    if r.errors.len() > 0 {
        Err(FetchErrorView::Server(r.errors[0]))
    } else {
        match r.page {
            None => Err(FetchErrorView::MissingData),
            Some(p) => match p.nodes {
                None => Err(FetchErrorView::MissingNodes),
                Some(nodes) => Ok(PageContent { nodes, page_info: p.page_info }),
            },
        }
    }
}

/// The non-null nodes, in order.
pub open spec fn present_nodes(nodes: Seq<Option<PullRequestView>>) -> Seq<PullRequestView>
    decreases nodes.len(),
{
    if nodes.len() == 0 {
        seq![]
    } else {
        let rest = present_nodes(nodes.drop_last());
        match nodes.last() {
            Some(pr) => rest.push(pr),
            None => rest,
        }
    }
}

pub struct PaginatorView {
    pub cursor: Option<Seq<char>>,
    pub pull_requests: Seq<PullRequestView>,
    pub finished: bool,
}

/// Before the first request: no cursor, nothing collected.
pub open spec fn initial_state() -> PaginatorView {
    PaginatorView { cursor: None, pull_requests: seq![], finished: false }
}

/// The request to issue next: `Some(cursor)` while pages remain, `None` once
/// the listing is exhausted.
pub open spec fn pending_request(s: PaginatorView) -> Option<Option<Seq<char>>> {
    if s.finished {
        None
    } else {
        Some(s.cursor)
    }
}

/// The state after a usable page: its non-null nodes appended, its end cursor
/// kept for the next request, finished when it says no page follows.
pub open spec fn after_page(s: PaginatorView, page: PageContent) -> PaginatorView {
    PaginatorView {
        cursor: page.page_info.end_cursor,
        pull_requests: s.pull_requests + present_nodes(page.nodes),
        finished: !page.page_info.has_next_page,
    }
}

/// The state after feeding `pages`, one after another, from the start.
pub open spec fn after_pages(pages: Seq<PageContent>) -> PaginatorView
    decreases pages.len(),
{
    if pages.len() == 0 {
        initial_state()
    } else {
        after_page(after_pages(pages.drop_last()), pages.last())
    }
}

/// The non-null nodes of all pages, page after page.
pub open spec fn all_present(pages: Seq<PageContent>) -> Seq<PullRequestView>
    decreases pages.len(),
{
    if pages.len() == 0 {
        seq![]
    } else {
        all_present(pages.drop_last()) + present_nodes(pages.last().nodes)
    }
}

/// Drives the listing: which page to ask for, and what has been collected.
pub struct Paginator {
    cursor: Option<String>,
    pull_requests: Vec<PullRequest>,
    finished: bool,
}

impl View for Paginator {
    type V = PaginatorView;

    closed spec fn view(&self) -> PaginatorView {
        PaginatorView {
            cursor: self.cursor.deep_view(),
            pull_requests: self.pull_requests.deep_view(),
            finished: self.finished,
        }
    }
}

fn copy_cursor(c: &Option<String>) -> (r: Option<String>)
    ensures
        r.deep_view() == c.deep_view(),
{
    match c {
        Some(s) => Some(s.clone()),
        None => None,
    }
}

impl Paginator {
    /// A paginator about to ask for the first page.
    pub fn new() -> (r: Paginator)
        ensures
            r@ == initial_state(),
    {
        let r = Paginator { cursor: None, pull_requests: Vec::new(), finished: false };
        assert(r.pull_requests.deep_view() =~= Seq::<PullRequestView>::empty());
        r
    }

    /// The cursor to send with the next request (`None` inside asks for the
    /// first page), or `None` when the listing is exhausted.
    pub fn next_request(&self) -> (r: Option<Option<String>>)
        ensures
            r.deep_view() == pending_request(self@),
    {
        if self.finished {
            None
        } else {
            Some(copy_cursor(&self.cursor))
        }
    }

    pub fn is_finished(&self) -> (r: bool)
        ensures
            r == self@.finished,
    {
        self.finished
    }

    /// Takes the response to the pending request. A response that reports
    /// errors, lacks data or lacks its node list ends the listing with an
    /// error, and what was collected so far is dropped.
    pub fn receive(self, response: PageResponse) -> (r: Result<Paginator, FetchError>)
        requires
            !self@.finished,
        ensures
            match response_outcome(response.deep_view()) {
                Ok(page) => r is Ok && r->Ok_0@ == after_page(self@, page),
                Err(e) => r is Err && r->Err_0.deep_view() == e,
            },
    {
        if response.errors.len() > 0 {
            let message = response.errors[0].clone();
            return Err(FetchError::Server(message));
        }
        let page = match response.page {
            None => {
                return Err(FetchError::MissingData);
            },
            Some(p) => p,
        };
        let mut nodes = match page.nodes {
            None => {
                return Err(FetchError::MissingNodes);
            },
            Some(n) => n,
        };
        let ghost all = nodes.deep_view();
        let mut kept: Vec<PullRequest> = Vec::new();
        let ghost mut taken: int = 0;
        while nodes.len() > 0
            invariant
                0 <= taken <= all.len(),
                nodes.deep_view() == all.subrange(taken, all.len() as int),
                kept.deep_view() == present_nodes(all.subrange(0, taken)),
            decreases nodes.len(),
        {
            let ghost rest = nodes.deep_view();
            let ghost old_nodes = nodes@;
            let node = nodes.remove(0);
            proof {
                assert(rest.len() == old_nodes.len());
                assert(rest[0] == old_nodes[0].deep_view());
                assert(all.subrange(taken, all.len() as int)[0] == all[taken]);
                assert(rest[0] == all[taken]);
                assert(nodes.deep_view() =~= rest.subrange(1, rest.len() as int));
                assert(node.deep_view() == all[taken]);
                let pre = all.subrange(0, taken + 1);
                assert(pre.drop_last() =~= all.subrange(0, taken));
                assert(pre.last() == all[taken]);
            }
            match node {
                Some(pr) => {
                    let ghost k = kept.deep_view();
                    kept.push(pr);
                    assert(kept.deep_view() =~= k.push(pr@));
                },
                None => {},
            }
            proof {
                taken = taken + 1;
                assert(nodes.deep_view() =~= all.subrange(taken, all.len() as int));
            }
        }
        assert(all.subrange(0, taken) =~= all);
        let mut pull_requests = self.pull_requests;
        let ghost before = pull_requests.deep_view();
        pull_requests.append(&mut kept);
        assert(pull_requests.deep_view() =~= before + present_nodes(all));
        Ok(
            Paginator {
                cursor: page.page_info.end_cursor,
                pull_requests,
                finished: !page.page_info.has_next_page,
            },
        )
    }

    /// Everything collected, in the order the pages delivered it.
    pub fn into_pull_requests(self) -> (r: Vec<PullRequest>)
        ensures
            r.deep_view() == self@.pull_requests,
    {
        self.pull_requests
    }
}

/// Keeping the non-null nodes of two lists one after the other keeps those
/// of the joined list.
proof fn lemma_present_nodes_append(a: Seq<Option<PullRequestView>>, b: Seq<Option<PullRequestView>>)
    ensures
        present_nodes(a + b) == present_nodes(a) + present_nodes(b),
    decreases b.len(),
{
    if b.len() == 0 {
        assert(a + b =~= a);
        assert(present_nodes(a) + present_nodes(b) =~= present_nodes(a));
    } else {
        lemma_present_nodes_append(a, b.drop_last());
        assert((a + b).drop_last() =~= a + b.drop_last());
        assert((a + b).last() == b.last());
        match b.last() {
            Some(pr) => {
                assert(present_nodes(a) + present_nodes(b.drop_last()).push(pr) =~= (
                present_nodes(a) + present_nodes(b.drop_last())).push(pr));
            },
            None => {},
        }
    }
}

/// A list without null nodes is kept whole.
proof fn lemma_present_nodes_no_null(nodes: Seq<Option<PullRequestView>>)
    requires
        forall|i: int| 0 <= i < nodes.len() ==> #[trigger] nodes[i] is Some,
    ensures
        present_nodes(nodes).len() == nodes.len(),
    decreases nodes.len(),
{
    if nodes.len() > 0 {
        assert forall|i: int| 0 <= i < nodes.drop_last().len() implies #[trigger] nodes.drop_last()[i] is Some by {
            assert(nodes.drop_last()[i] == nodes[i]);
        }
        lemma_present_nodes_no_null(nodes.drop_last());
        assert(nodes[nodes.len() - 1] is Some);
    }
}

/// A null node is skipped without error: inserting one anywhere in a page
/// leaves the collected pull requests unchanged, so a page whose only null
/// entry is that one yields one element fewer than it has nodes.
pub proof fn lemma_null_node_skipped(
    before: Seq<Option<PullRequestView>>,
    after: Seq<Option<PullRequestView>>,
)
    ensures
        present_nodes(before + seq![None] + after) == present_nodes(before + after),
        (forall|i: int| 0 <= i < before.len() ==> #[trigger] before[i] is Some) && (forall|i: int|
            0 <= i < after.len() ==> #[trigger] after[i] is Some) ==> present_nodes(
            before + seq![None] + after,
        ).len() == (before + seq![None] + after).len() - 1,
{
    let none: Seq<Option<PullRequestView>> = seq![None];
    lemma_present_nodes_append(before + none, after);
    lemma_present_nodes_append(before, none);
    lemma_present_nodes_append(before, after);
    assert(none.drop_last() =~= Seq::<Option<PullRequestView>>::empty());
    assert(none.last() == None::<PullRequestView>);
    assert(present_nodes(none.drop_last()) =~= Seq::<PullRequestView>::empty());
    assert(present_nodes(none) =~= Seq::<PullRequestView>::empty());
    assert(present_nodes(before) + present_nodes(none) =~= present_nodes(before));
    if (forall|i: int| 0 <= i < before.len() ==> #[trigger] before[i] is Some) && (forall|i: int|
        0 <= i < after.len() ==> #[trigger] after[i] is Some) {
        let joined = before + after;
        assert forall|i: int| 0 <= i < joined.len() implies #[trigger] joined[i] is Some by {
            if i < before.len() {
                assert(joined[i] == before[i]);
            } else {
                assert(joined[i] == after[i - before.len()]);
            }
        }
        lemma_present_nodes_no_null(joined);
    }
}

/// Pagination is complete: fed a listing of `pages.len()` pages in which
/// every page but the last says another follows, the paginator issues exactly
/// one request per page, the first without a cursor and each later one with
/// the end cursor of the page before it, and then holds the non-null nodes of
/// all pages, in page order.
pub proof fn lemma_pagination_complete(pages: Seq<PageContent>)
    requires
        pages.len() > 0,
        forall|i: int| 0 <= i < pages.len() - 1 ==> #[trigger] pages[i].page_info.has_next_page,
        !pages.last().page_info.has_next_page,
    ensures
        pending_request(after_pages(pages.subrange(0, 0))) == Some(None::<Seq<char>>),
        forall|i: int|
            0 < i < pages.len() ==> pending_request(after_pages(#[trigger] pages.subrange(0, i)))
                == Some(pages[i - 1].page_info.end_cursor),
        pending_request(after_pages(pages)) == None::<Option<Seq<char>>>,
        after_pages(pages).pull_requests == all_present(pages),
{
    assert(pages.subrange(0, 0) =~= Seq::<PageContent>::empty());
    assert forall|i: int| 0 < i < pages.len() implies pending_request(
        after_pages(#[trigger] pages.subrange(0, i)),
    ) == Some(pages[i - 1].page_info.end_cursor) by {
        let p = pages.subrange(0, i);
        assert(p.last() == pages[i - 1]);
    }
    lemma_collected_all(pages);
}

proof fn lemma_collected_all(pages: Seq<PageContent>)
    ensures
        after_pages(pages).pull_requests == all_present(pages),
    decreases pages.len(),
{
    if pages.len() > 0 {
        lemma_collected_all(pages.drop_last());
    }
}

} // verus!
