use rust_sysroot::bisect::least_satisfying;
use rust_sysroot::commit::{Commit, ResolveError};
use rust_sysroot::history::{
    absorb_page, check_order, finish_listing, get_commits, is_integration_author, parse_commit,
    next_page_link, position_of, LocalWalk, Node, Visit, EPOCH_COMMIT,
};

fn commit(sha: &str, date: i64) -> Commit {
    Commit::new(sha.to_string(), date, format!("merge {}", sha))
}

fn node(sha: &str, date: i64, author: &str) -> Node {
    Node { commit: commit(sha, date), author: Some(author.to_string()) }
}

/// A first-parent chain, newest first, as a repository would hand it out.
type Chain = Vec<(String, i64, String)>;

fn chain(specs: &[(&str, i64, &str)]) -> Chain {
    specs.iter().map(|(s, d, a)| (s.to_string(), *d, a.to_string())).collect()
}

fn node_at(c: &Chain, i: usize) -> Option<Node> {
    c.get(i).map(|(s, d, a)| node(s, *d, a))
}

fn walk(c: Chain, first: &Node) -> Result<Vec<Commit>, ResolveError> {
    let mut w = LocalWalk::start(first, &node_at(&c, 0).unwrap())?;
    let mut i = 0usize;
    loop {
        let current = node_at(&c, i).unwrap();
        match w.visit(current, node_at(&c, i + 1), node_at(&c, i + 2))? {
            Visit::Done(v) => return Ok(v),
            Visit::Next(n) => {
                i += if n.commit.sha == c[i + 1].0 { 1 } else { 2 };
            }
        }
    }
}

fn shas(v: &[Commit]) -> Vec<String> {
    v.iter().map(|c| c.sha.clone()).collect()
}

#[test]
fn author_check() {
    assert!(is_integration_author(&Some("bors".to_string())));
    assert!(!is_integration_author(&Some("alice".to_string())));
    assert!(!is_integration_author(&None));
}

#[test]
fn local_walk_reaches_first_boundary() {
    let c = chain(&[("e", 50, "bors"), ("d", 40, "bors"), ("c", 30, "bors"), ("b", 20, "bors"), ("a", 10, "bors")]);
    let first = node("b", 20, "bors");
    let got = walk(c, &first).unwrap();
    assert_eq!(shas(&got), vec!["b", "c", "d", "e"]);
}

#[test]
fn local_walk_skips_a_non_bot_parent() {
    let c = chain(&[("e", 50, "bors"), ("x", 45, "alice"), ("d", 40, "bors"), ("b", 20, "bors"), ("a", 10, "bors")]);
    let first = node("b", 20, "bors");
    let got = walk(c, &first).unwrap();
    assert_eq!(shas(&got), vec!["b", "d", "e"]);
}

#[test]
fn local_walk_exhausts() {
    let c = chain(&[("e", 50, "bors"), ("d", 40, "bors")]);
    let first = node("z", 1, "bors");
    assert_eq!(walk(c, &first).unwrap_err(), ResolveError::Exhausted);
}

#[test]
fn boundaries_must_be_bot_commits() {
    let first = node("a", 1, "alice");
    let last = node("b", 2, "bors");
    assert_eq!(LocalWalk::start(&first, &last).err(), Some(ResolveError::NotIntegrationCommit));
    assert_eq!(LocalWalk::start(&last, &first).err(), Some(ResolveError::NotIntegrationCommit));
    assert!(LocalWalk::start(&last, &last).is_ok());
}

#[test]
fn visit_rejects_non_bot_current() {
    let first = node("a", 1, "bors");
    let mut w = LocalWalk::start(&first, &first).unwrap();
    let r = w.visit(node("c", 3, "alice"), Some(node("a", 1, "bors")), None);
    assert_eq!(r.err(), Some(ResolveError::NotIntegrationCommit));
}

#[test]
fn visit_without_grandparent_after_non_bot_parent() {
    let first = node("a", 1, "bors");
    let mut w = LocalWalk::start(&first, &first).unwrap();
    let r = w.visit(node("c", 3, "bors"), Some(node("x", 2, "alice")), None);
    assert_eq!(r.err(), Some(ResolveError::Exhausted));
}

#[test]
fn listing_pages_stop_at_first_boundary() {
    let mut all = Vec::new();
    let page1 = vec![commit("e", 50), commit("d", 40)];
    let r = absorb_page(&mut all, page1, "b", Some("https://next/2".to_string()));
    assert_eq!(r, Ok(Some("https://next/2".to_string())));
    let page2 = vec![commit("c", 30), commit("b", 20), commit("a", 10)];
    assert_eq!(absorb_page(&mut all, page2, "b", None), Ok(None));
    assert_eq!(all.len(), 5);
    let seq = finish_listing(all, "b").unwrap();
    assert_eq!(shas(&seq), vec!["b", "c", "d", "e"]);
}

#[test]
fn listing_without_next_page_fails() {
    let mut all = Vec::new();
    let r = absorb_page(&mut all, vec![commit("e", 50)], "b", None);
    assert_eq!(r, Err(ResolveError::NoNextPage));
}

#[test]
fn finish_listing_without_boundary() {
    let r = finish_listing(vec![commit("e", 50)], "b");
    assert_eq!(r.err(), Some(ResolveError::FirstNotFound));
}

#[test]
fn position_of_finds_first() {
    let v = vec![commit("e", 5), commit("b", 4), commit("b", 3)];
    assert_eq!(position_of(&v, "b"), Some(1));
    assert_eq!(position_of(&v, "q"), None);
}

#[test]
fn local_and_remote_agree() {
    let c = chain(&[("e", 50, "bors"), ("x", 45, "alice"), ("d", 40, "bors"), ("b", 20, "bors"), ("a", 10, "bors")]);
    let first = node("b", 20, "bors");
    let local = walk(c, &first).unwrap();
    let mut all = Vec::new();
    let listing = vec![commit("e", 50), commit("d", 40), commit("b", 20), commit("a", 10)];
    assert_eq!(absorb_page(&mut all, listing, "b", None), Ok(None));
    let remote = finish_listing(all, "b").unwrap();
    assert_eq!(shas(&local), shas(&remote));
    let dates: Vec<i64> = local.iter().map(|c| c.date).collect();
    let rdates: Vec<i64> = remote.iter().map(|c| c.date).collect();
    assert_eq!(dates, rdates);
}

#[test]
fn resolving_twice_is_identical() {
    let make = || chain(&[("e", 50, "bors"), ("d", 40, "bors"), ("b", 20, "bors")]);
    let first = node("b", 20, "bors");
    assert_eq!(shas(&walk(make(), &first).unwrap()), shas(&walk(make(), &first).unwrap()));
}

#[test]
fn order_check() {
    assert!(check_order(&vec![commit("a", 1), commit("b", 2), commit("c", 3)]).is_ok());
    assert_eq!(check_order(&vec![commit("a", 1), commit("b", 1)]), Err(ResolveError::OutOfOrder));
    assert_eq!(check_order(&vec![commit("a", 2), commit("b", 1)]), Err(ResolveError::OutOfOrder));
    assert!(check_order(&Vec::new()).is_ok());
}

#[test]
fn get_commits_checks_start_and_order() {
    let good = vec![commit("s", 1), commit("t", 2)];
    assert_eq!(shas(&get_commits("s", good).unwrap()), vec!["s", "t"]);
    assert_eq!(get_commits("s", vec![commit("t", 1)]).err(), Some(ResolveError::WrongStart));
    assert_eq!(get_commits("s", Vec::new()).err(), Some(ResolveError::WrongStart));
    assert_eq!(
        get_commits("s", vec![commit("s", 3), commit("t", 2)]).err(),
        Some(ResolveError::OutOfOrder)
    );
}

#[test]
fn parse_commit_reads_rfc3339() {
    let c = parse_commit("abc".to_string(), "2017-03-20T00:00:00Z", String::new()).unwrap();
    assert_eq!(c.sha, "abc");
    assert_eq!(c.date, 1489968000);
    let c = parse_commit("abc".to_string(), "2017-03-20T02:00:00+02:00", String::new()).unwrap();
    assert_eq!(c.date, 1489968000);
    assert_eq!(
        parse_commit("abc".to_string(), "yesterday", String::new()).err(),
        Some(ResolveError::BadDate)
    );
}

#[test]
fn end_to_end_regression_at_tenth_commit() {
    let mut specs: Vec<(String, i64)> = vec![(EPOCH_COMMIT.to_string(), 100)];
    for i in 1..15 {
        specs.push((format!("{:040x}", i), 100 + i as i64));
    }
    let newest_first: Chain = specs
        .iter()
        .rev()
        .map(|(s, d)| (s.clone(), *d, "bors".to_string()))
        .collect();
    let first = node(EPOCH_COMMIT, 100, "bors");
    let resolved = walk(newest_first, &first).unwrap();
    let commits = get_commits(EPOCH_COMMIT, resolved).unwrap();
    assert_eq!(commits.len(), 15);
    let broken: Vec<String> = commits[9..].iter().map(|c| c.sha.clone()).collect();
    let found = least_satisfying(&commits, |c: &Commit| broken.contains(&c.sha));
    assert_eq!(found, 9);
    assert_eq!(commits[found].sha, commits[9].sha);
    assert_eq!(commits[found].sha(), format!("{:040x}", 9));
}

#[test]
fn next_page_link_from_header() {
    let h = "<https://api.github.com/x?page=2>; rel=\"next\", <https://api.github.com/x?page=9>; rel=\"last\"";
    assert_eq!(next_page_link(h), Some("https://api.github.com/x?page=2".to_string()));
    let h = "<https://api.github.com/x?page=1>; rel=\"prev\", <https://api.github.com/x?page=3>; rel=\"next\"";
    assert_eq!(next_page_link(h), Some("https://api.github.com/x?page=3".to_string()));
    assert_eq!(next_page_link("<https://a/1>; rel=\"last\""), None);
    assert_eq!(next_page_link(""), None);
    assert_eq!(next_page_link("rel=\"next\""), None);
}
