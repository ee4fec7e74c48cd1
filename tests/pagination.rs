use nixpkgs_using::github::{FetchError, PageInfo, PageResponse, Paginator, PullRequestsPage};
use nixpkgs_using::pull_request::PullRequest;

fn node(title: &str) -> Option<PullRequest> {
    Some(PullRequest::new(title.to_string(), format!("https://example.org/{title}"), 1, false))
}

fn page(nodes: Vec<Option<PullRequest>>, has_next_page: bool, end_cursor: Option<&str>) -> PageResponse {
    PageResponse {
        errors: vec![],
        page: Some(PullRequestsPage {
            nodes: Some(nodes),
            page_info: PageInfo { has_next_page, end_cursor: end_cursor.map(|c| c.to_string()) },
        }),
    }
}

fn titles(prs: &[PullRequest]) -> Vec<String> {
    prs.iter().map(|p| p.title.clone()).collect()
}

/// Runs the paginator over canned responses, recording each request's cursor.
fn drive(mut responses: Vec<PageResponse>) -> (Vec<Option<String>>, Result<Vec<PullRequest>, FetchError>) {
    responses.reverse();
    let mut requests = vec![];
    let mut paginator = Paginator::new();
    while let Some(cursor) = paginator.next_request() {
        requests.push(cursor);
        let response = responses.pop().expect("more requests than pages");
        match paginator.receive(response) {
            Ok(next) => paginator = next,
            Err(e) => return (requests, Err(e)),
        }
    }
    (requests, Ok(paginator.into_pull_requests()))
}

#[test]
fn collects_every_page_in_order() {
    let (requests, result) = drive(vec![
        page(vec![node("a"), node("b")], true, Some("c1")),
        page(vec![node("c")], true, Some("c2")),
        page(vec![node("d"), node("e")], false, Some("c3")),
    ]);
    assert_eq!(requests, vec![None, Some("c1".to_string()), Some("c2".to_string())]);
    assert_eq!(titles(&result.unwrap()), vec!["a", "b", "c", "d", "e"]);
}

#[test]
fn single_empty_page_ends_at_once() {
    let (requests, result) = drive(vec![page(vec![], false, None)]);
    assert_eq!(requests, vec![None]);
    assert!(result.unwrap().is_empty());
}

#[test]
fn null_nodes_are_skipped() {
    let (requests, result) = drive(vec![
        page(vec![node("a"), None, node("b")], true, Some("x")),
        page(vec![None], false, None),
    ]);
    assert_eq!(requests.len(), 2);
    assert_eq!(titles(&result.unwrap()), vec!["a", "b"]);
}

#[test]
fn reported_errors_abort() {
    let mut bad = page(vec![node("b")], false, None);
    bad.errors = vec!["rate limited".to_string(), "second".to_string()];
    let (requests, result) = drive(vec![page(vec![node("a")], true, Some("x")), bad]);
    assert_eq!(requests.len(), 2);
    assert_eq!(result.unwrap_err(), FetchError::Server("rate limited".to_string()));
}

#[test]
fn missing_data_aborts() {
    let (_, result) = drive(vec![PageResponse { errors: vec![], page: None }]);
    assert_eq!(result.unwrap_err(), FetchError::MissingData);
}

#[test]
fn missing_nodes_abort() {
    let response = PageResponse {
        errors: vec![],
        page: Some(PullRequestsPage { nodes: None, page_info: PageInfo { has_next_page: false, end_cursor: None } }),
    };
    let (_, result) = drive(vec![response]);
    assert_eq!(result.unwrap_err(), FetchError::MissingNodes);
}

#[test]
fn finished_paginator_asks_nothing() {
    let paginator = Paginator::new();
    assert!(!paginator.is_finished());
    let paginator = paginator.receive(page(vec![node("a")], false, Some("end"))).unwrap();
    assert!(paginator.is_finished());
    assert_eq!(paginator.next_request(), None);
}
