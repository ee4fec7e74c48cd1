use nixpkgs_using::filter::{
    filter_pull_requests, has_package_prefix, is_new, is_update_title, matches_package, Entry,
    FilterOptions,
};
use nixpkgs_using::pull_request::PullRequest;
use nixpkgs_using::text::{contains, same_text, starts_with};

fn pr(title: &str, url: &str, created_at: i64, is_draft: bool) -> PullRequest {
    PullRequest::new(title.to_string(), url.to_string(), created_at, is_draft)
}

fn packages(names: &[&str]) -> Vec<String> {
    names.iter().map(|n| n.to_string()).collect()
}

fn summary(entries: &[Entry]) -> Vec<(String, String, bool)> {
    entries.iter().map(|e| (e.title.clone(), e.url.clone(), e.new)).collect()
}

const ALL: FilterOptions = FilterOptions { only_updates: false, only_new: false };

#[test]
fn prefix_match_exact_package() {
    assert!(matches_package("firefox: 120.0 -> 121.0", &packages(&["firefox"])));
}

#[test]
fn prefix_match_rejects_longer_package_name() {
    assert!(!matches_package("firefox-esr: 1 -> 2", &packages(&["firefox"])));
}

#[test]
fn prefix_match_rejects_shorter_package_name() {
    assert!(!matches_package("firefox: 120.0 -> 121.0", &packages(&["fire"])));
}

#[test]
fn prefix_match_any_of_several() {
    let set = packages(&["git", "kittysay", "firefox"]);
    assert!(matches_package("kittysay: 0.5 -> 0.6", &set));
    assert!(!matches_package("kitty: 0.5 -> 0.6", &set));
}

#[test]
fn prefix_match_empty_package_set() {
    assert!(!matches_package("firefox: 1 -> 2", &packages(&[])));
}

#[test]
fn prefix_match_is_case_sensitive() {
    assert!(!matches_package("Firefox: 1 -> 2", &packages(&["firefox"])));
}

#[test]
fn package_prefix_needs_colon_right_after_name() {
    assert!(has_package_prefix("git: 2.0 -> 2.1", "git"));
    assert!(!has_package_prefix("git 2.0 -> 2.1", "git"));
    assert!(!has_package_prefix("git", "git"));
    assert!(has_package_prefix("git:", "git"));
    assert!(!has_package_prefix("gi", "git"));
}

#[test]
fn update_title_needs_arrow() {
    assert!(is_update_title("firefox: 120.0 -> 121.0"));
    assert!(is_update_title("x->y"));
    assert!(!is_update_title("firefox: add passthru.tests"));
    assert!(!is_update_title("firefox: - >"));
    assert!(!is_update_title(""));
}

#[test]
fn novelty_is_strict() {
    assert!(!is_new(1000, 1000));
    assert!(is_new(1001, 1000));
    assert!(!is_new(999, 1000));
}

#[test]
fn novelty_boundary_through_filter() {
    let prs = vec![pr("git: 1 -> 2", "a", 1000, false), pr("git: 2 -> 3", "b", 1001, false)];
    let out = filter_pull_requests(&prs, &packages(&["git"]), 1000, ALL);
    assert_eq!(
        summary(&out),
        vec![
            ("git: 1 -> 2".to_string(), "a".to_string(), false),
            ("git: 2 -> 3".to_string(), "b".to_string(), true),
        ]
    );
}

#[test]
fn drafts_are_always_excluded() {
    let prs = vec![pr("git: 1 -> 2", "a", 5000, true), pr("git: 2 -> 3", "b", 5000, false)];
    for only_updates in [false, true] {
        for only_new in [false, true] {
            let out = filter_pull_requests(
                &prs,
                &packages(&["git"]),
                0,
                FilterOptions { only_updates, only_new },
            );
            assert_eq!(summary(&out), vec![("git: 2 -> 3".to_string(), "b".to_string(), true)]);
        }
    }
}

#[test]
fn only_updates_excludes_title_without_arrow() {
    let prs = vec![pr("git: add tests", "a", 10, false)];
    let set = packages(&["git"]);
    let strict = filter_pull_requests(&prs, &set, 0, FilterOptions { only_updates: true, only_new: false });
    assert!(strict.is_empty());
    let loose = filter_pull_requests(&prs, &set, 0, FilterOptions { only_updates: false, only_new: false });
    assert_eq!(summary(&loose), vec![("git: add tests".to_string(), "a".to_string(), true)]);
}

#[test]
fn only_new_keeps_entries_after_watermark() {
    let prs = vec![
        pr("git: 1 -> 2", "a", 100, false),
        pr("git: 2 -> 3", "b", 300, false),
        pr("git: 3 -> 4", "c", 200, false),
    ];
    let out = filter_pull_requests(&prs, &packages(&["git"]), 200, FilterOptions { only_updates: false, only_new: true });
    assert_eq!(summary(&out), vec![("git: 2 -> 3".to_string(), "b".to_string(), true)]);
}

#[test]
fn filter_keeps_input_order() {
    let prs = vec![
        pr("zsh: 1 -> 2", "z", 1, false),
        pr("git: 1 -> 2", "g", 3, false),
        pr("bash: 1 -> 2", "b", 2, false),
    ];
    let out = filter_pull_requests(&prs, &packages(&["bash", "git", "zsh"]), 2, ALL);
    assert_eq!(
        summary(&out),
        vec![
            ("zsh: 1 -> 2".to_string(), "z".to_string(), false),
            ("git: 1 -> 2".to_string(), "g".to_string(), true),
            ("bash: 1 -> 2".to_string(), "b".to_string(), false),
        ]
    );
}

#[test]
fn filter_of_nothing_is_empty() {
    let out = filter_pull_requests(&vec![], &packages(&["git"]), 0, ALL);
    assert!(out.is_empty());
}

#[test]
fn end_to_end_selection() {
    let prs = vec![
        pr("kittysay: 1.0 -> 1.1", "u1", 1500, false),
        pr("other: 1->2", "u2", 2000, false),
        pr("kittysay: 1.1 -> 1.2", "u3", 900, true),
    ];
    let out = filter_pull_requests(
        &prs,
        &packages(&["kittysay"]),
        1000,
        FilterOptions { only_updates: true, only_new: false },
    );
    assert_eq!(summary(&out), vec![("kittysay: 1.0 -> 1.1".to_string(), "u1".to_string(), true)]);
    assert_eq!(nixpkgs_using::watermark::next_watermark(1000, &prs), Some(2000));
}

#[test]
fn text_predicates() {
    assert!(starts_with("hello", "he"));
    assert!(starts_with("hello", ""));
    assert!(!starts_with("he", "hello"));
    assert!(contains("a -> b", "->"));
    assert!(contains("abc", ""));
    assert!(!contains("ab", "abc"));
    assert!(contains("héllo wörld", "wö"));
    assert!(same_text("nix", "nix"));
    assert!(!same_text("nix", "nix-info"));
}
