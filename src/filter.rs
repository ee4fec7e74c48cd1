//! Selecting the pull requests that concern the user's packages.
use vstd::prelude::*;

use crate::pull_request::{PullRequest, PullRequestView};
use crate::text::{contains, contains_seq, has_prefix, occurs_at, starts_with};

verus! {

/// A selected pull request, with whether it is newer than the watermark.
#[derive(Debug)]
pub struct Entry {
    pub title: String,
    pub url: String,
    pub new: bool,
}

pub struct EntryView {
    pub title: Seq<char>,
    pub url: Seq<char>,
    pub new: bool,
}

impl View for Entry {
    type V = EntryView;

    open spec fn view(&self) -> EntryView {
        EntryView { title: self.title@, url: self.url@, new: self.new }
    }
}

impl DeepView for Entry {
    type V = EntryView;

    open spec fn deep_view(&self) -> EntryView {
        self@
    }
}

/// The user-selected predicates of a run.
#[derive(Clone, Copy)]
pub struct FilterOptions {
    /// Keep only titles that look like a version bump.
    pub only_updates: bool,
    /// Keep only pull requests newer than the watermark.
    pub only_new: bool,
}

/// The marker that an update title carries between the old and the new version.
pub open spec fn update_marker() -> Seq<char> {
    seq!['-', '>']
}

/// A title looks like a version update when it contains `->`.
pub open spec fn spec_is_update_title(title: Seq<char>) -> bool {
    contains_seq(title, update_marker())
}

/// The title starts with `name` followed immediately by `:`.
pub open spec fn spec_has_package_prefix(title: Seq<char>, name: Seq<char>) -> bool {
    has_prefix(title, name.push(':'))
}

/// The title starts with `name:` for some package name in `packages`.
pub open spec fn spec_matches_package(title: Seq<char>, packages: Seq<Seq<char>>) -> bool {
    exists|i: int| 0 <= i < packages.len() && spec_has_package_prefix(title, packages[i])
}

/// A pull request is new when it was created strictly after the watermark.
pub open spec fn spec_is_new(created_at: i64, watermark: i64) -> bool {
    created_at > watermark
}

/// Every inclusion rule of the filter, taken together.
pub open spec fn is_selected(
    pr: PullRequestView,
    packages: Seq<Seq<char>>,
    watermark: i64,
    options: FilterOptions,
) -> bool {
    &&& !pr.is_draft
    &&& !options.only_updates || spec_is_update_title(pr.title)
    &&& spec_matches_package(pr.title, packages)
    &&& !options.only_new || spec_is_new(pr.created_at, watermark)
}

/// The entry that a selected pull request becomes.
pub open spec fn entry_of(pr: PullRequestView, watermark: i64) -> EntryView {
    EntryView { title: pr.title, url: pr.url, new: spec_is_new(pr.created_at, watermark) }
}

/// The entries of the selected pull requests, in their original order.
pub open spec fn filtered(
    prs: Seq<PullRequestView>,
    packages: Seq<Seq<char>>,
    watermark: i64,
    options: FilterOptions,
) -> Seq<EntryView>
    decreases prs.len(),
{
    if prs.len() == 0 {
        seq![]
    } else {
        let rest = filtered(prs.drop_last(), packages, watermark, options);
        if is_selected(prs.last(), packages, watermark, options) {
            rest.push(entry_of(prs.last(), watermark))
        } else {
            rest
        }
    }
}

/// Whether the title contains the update marker `->`.
pub fn is_update_title(title: &str) -> (r: bool)
    ensures
        r == spec_is_update_title(title@),
{
    let marker = "->";
    proof {
        reveal_strlit("->");
        assert(marker@ =~= update_marker());
    }
    contains(title, marker)
}

/// Whether the title starts with `name:`; a longer package name that merely
/// begins with `name` does not count.
pub fn has_package_prefix(title: &str, name: &str) -> (r: bool)
    ensures
        r == spec_has_package_prefix(title@, name@),
{
    if !starts_with(title, name) {
        proof {
            if spec_has_package_prefix(title@, name@) {
                assert(title@.subrange(0, name@.len() as int) =~= name@.push(':').subrange(
                    0,
                    name@.len() as int,
                ));
                assert(name@.push(':').subrange(0, name@.len() as int) =~= name@);
            }
        }
        return false;
    }
    let title_len = title.unicode_len();
    let name_len = name.unicode_len();
    if title_len <= name_len {
        return false;
    }
    let r = title.get_char(name_len) == ':';
    proof {
        let np = name@.push(':');
        if r {
            assert(title@.subrange(0, np.len() as int) =~= np) by {
                assert forall|k: int| 0 <= k < np.len() implies title@.subrange(
                    0,
                    np.len() as int,
                )[k] == np[k] by {
                    if k < name@.len() {
                        assert(title@.subrange(0, name@.len() as int)[k] == name@[k]);
                    }
                }
            }
        } else {
            assert(title@.subrange(0, np.len() as int)[name_len as int] != np[name_len as int]);
        }
    }
    r
}

/// Whether the title starts with `name:` for one of `packages`.
pub fn matches_package(title: &str, packages: &Vec<String>) -> (r: bool)
    ensures
        r == spec_matches_package(title@, packages.deep_view()),
{
    let n = packages.len();
    let mut i: usize = 0;
    while i < n
        invariant
            n == packages@.len(),
            forall|k: int|
                0 <= k < i ==> !spec_has_package_prefix(title@, #[trigger] packages.deep_view()[k]),
        decreases n - i,
    {
        if has_package_prefix(title, packages[i].as_str()) {
            assert(packages.deep_view()[i as int] == packages[i as int]@);
            return true;
        }
        assert(packages.deep_view()[i as int] == packages[i as int]@);
        i = i + 1;
    }
    false
}

/// Whether a pull request created at `created_at` is newer than the watermark.
pub fn is_new(created_at: i64, watermark: i64) -> (r: bool)
    ensures
        r == spec_is_new(created_at, watermark),
{
    created_at > watermark
}

/// Selects the non-draft pull requests whose title names one of `packages`,
/// applying the optional update and novelty rules, and keeps their order.
pub fn filter_pull_requests(
    prs: &Vec<PullRequest>,
    packages: &Vec<String>,
    watermark: i64,
    options: FilterOptions,
) -> (r: Vec<Entry>)
    ensures
        r.deep_view() == filtered(prs.deep_view(), packages.deep_view(), watermark, options),
{
    let mut out: Vec<Entry> = Vec::new();
    let n = prs.len();
    let mut i: usize = 0;
    while i < n
        invariant
            n == prs@.len(),
            i <= n,
            out.deep_view() == filtered(
                prs.deep_view().subrange(0, i as int),
                packages.deep_view(),
                watermark,
                options,
            ),
        decreases n - i,
    {
        let pr = &prs[i];
        let ghost before = out.deep_view();
        let keep = !pr.is_draft && (!options.only_updates || is_update_title(pr.title.as_str()))
            && matches_package(pr.title.as_str(), packages) && (!options.only_new || is_new(
            pr.created_at,
            watermark,
        ));
        if keep {
            let entry = Entry {
                title: pr.title.clone(),
                url: pr.url.clone(),
                new: is_new(pr.created_at, watermark),
            };
            out.push(entry);
            assert(out.deep_view() =~= before.push(entry_of(pr@, watermark)));
        } else {
            assert(out.deep_view() =~= before);
        }
        proof {
            let s = prs.deep_view().subrange(0, i + 1);
            assert(s.drop_last() =~= prs.deep_view().subrange(0, i as int));
            assert(s.last() == pr@);
        }
        i = i + 1;
    }
    assert(prs.deep_view().subrange(0, n as int) =~= prs.deep_view());
    out
}

/// When selection under `a` is exactly `keep` together with selection under
/// `b`, filtering under `a` is filtering under `b` the pull requests that `keep` holds of.
proof fn lemma_filtered_by_prefilter(
    prs: Seq<PullRequestView>,
    packages: Seq<Seq<char>>,
    watermark: i64,
    a: FilterOptions,
    b: FilterOptions,
    keep: spec_fn(PullRequestView) -> bool,
)
    requires
        forall|pr: PullRequestView|
            is_selected(pr, packages, watermark, a) == (keep(pr) && is_selected(
                pr,
                packages,
                watermark,
                b,
            )),
    ensures
        filtered(prs, packages, watermark, a) == filtered(prs.filter(keep), packages, watermark, b),
    decreases prs.len(),
{
    if prs.len() == 0 {
        assert(prs.filter(keep) =~= Seq::<PullRequestView>::empty());
    } else {
        let init = prs.drop_last();
        let x = prs.last();
        lemma_filtered_by_prefilter(init, packages, watermark, a, b, keep);
        assert(init.push(x) =~= prs);
        init.lemma_filter_push(x, keep);
        if keep(x) {
            assert(prs.filter(keep).drop_last() =~= init.filter(keep));
        }
    }
}

/// Drafts never reach the output: filtering a list gives the same entries as
/// filtering the list with every draft removed first, whatever the options.
pub proof fn lemma_drafts_excluded(
    prs: Seq<PullRequestView>,
    packages: Seq<Seq<char>>,
    watermark: i64,
    options: FilterOptions,
)
    ensures
        filtered(prs, packages, watermark, options) == filtered(
            prs.filter(|pr: PullRequestView| !pr.is_draft),
            packages,
            watermark,
            options,
        ),
{
    lemma_filtered_by_prefilter(
        prs,
        packages,
        watermark,
        options,
        options,
        |pr: PullRequestView| !pr.is_draft,
    );
}

/// With `only_updates` set, the output is what the same filter without it
/// gives once every title lacking `->` is removed; titles without `->` are
/// therefore dropped exactly when `only_updates` is set, all else being equal.
pub proof fn lemma_only_updates_rule(
    prs: Seq<PullRequestView>,
    packages: Seq<Seq<char>>,
    watermark: i64,
    only_new: bool,
)
    ensures
        filtered(prs, packages, watermark, FilterOptions { only_updates: true, only_new })
            == filtered(
            prs.filter(|pr: PullRequestView| spec_is_update_title(pr.title)),
            packages,
            watermark,
            FilterOptions { only_updates: false, only_new },
        ),
{
    lemma_filtered_by_prefilter(
        prs,
        packages,
        watermark,
        FilterOptions { only_updates: true, only_new },
        FilterOptions { only_updates: false, only_new },
        |pr: PullRequestView| spec_is_update_title(pr.title),
    );
}

/// Novelty is strict: a pull request created at the watermark itself is not
/// new, one created a second later is.
pub proof fn lemma_novelty_boundary(watermark: i64)
    requires
        watermark < i64::MAX,
    ensures
        !spec_is_new(watermark, watermark),
        spec_is_new((watermark + 1) as i64, watermark),
{
}

} // verus!
