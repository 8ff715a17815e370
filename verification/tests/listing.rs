use pagelist::blobs::{leaf_names, BlobEntry};
use pagelist::config::{make_credentials, ConfigError};
use pagelist::pager::{enumerate, Lister, NextRequest, Page, PageResult};
use pagelist::render::{container_block, dash_line, render_runs, ContainerRun};

fn page<T>(items: Vec<T>, cursor: Option<&str>) -> PageResult<T> {
    PageResult::Fetched(Page { items, cursor: cursor.map(|c| c.to_string()) })
}

fn blob(name: &str) -> BlobEntry {
    BlobEntry::Blob(name.to_string())
}

fn prefix(name: &str) -> BlobEntry {
    BlobEntry::Prefix(name.to_string())
}

#[test]
fn completeness_under_no_failures() {
    let responses = vec![
        page(vec![1u64, 2], Some("c1")),
        page(vec![3, 4], Some("c2")),
        page(vec![5], None),
    ];
    let (lister, requests) = enumerate(responses);
    assert_eq!(lister.items, vec![1, 2, 3, 4, 5]);
    assert_eq!(requests, 3);
    assert!(!lister.truncated);
}

#[test]
fn empty_pages_yield_nothing() {
    let responses: Vec<PageResult<u64>> = vec![page(vec![], Some("c1")), page(vec![], None)];
    let (lister, requests) = enumerate(responses);
    assert_eq!(lister.items, Vec::<u64>::new());
    assert_eq!(requests, 2);
    assert!(!lister.truncated);
}

#[test]
fn termination_at_absent_cursor() {
    let responses = vec![page(vec![1u64], None), page(vec![2], Some("c"))];
    let (lister, requests) = enumerate(responses);
    assert_eq!(lister.items, vec![1]);
    assert_eq!(requests, 1);
    assert!(!lister.truncated);
}

#[test]
fn truncation_on_page_failure() {
    let responses = vec![
        page(vec![1u64, 2], Some("c1")),
        PageResult::Failed("request failed".to_string()),
        page(vec![3], None),
    ];
    let (lister, requests) = enumerate(responses);
    assert_eq!(lister.items, vec![1, 2]);
    assert_eq!(requests, 2);
    assert!(lister.truncated);
}

#[test]
fn failure_on_first_page_yields_nothing() {
    let responses: Vec<PageResult<u64>> =
        vec![PageResult::Failed("request failed".to_string()), page(vec![1], None)];
    let (lister, requests) = enumerate(responses);
    assert_eq!(lister.items, Vec::<u64>::new());
    assert_eq!(requests, 1);
    assert!(lister.truncated);
}

#[test]
fn lister_cursor_flow() {
    let mut lister: Lister<u32> = Lister::new();
    assert!(matches!(lister.next, NextRequest::First));
    lister.feed(page(vec![1], Some("token")));
    match &lister.next {
        NextRequest::Continue(c) => assert_eq!(c, "token"),
        _ => panic!("expected a continuation request"),
    }
    lister.feed(page(vec![2], None));
    assert!(lister.done());
    assert_eq!(lister.items, vec![1, 2]);
    assert!(!lister.truncated);
}

#[test]
fn filtering_drops_prefix_entries() {
    let entries = vec![blob("x.png"), prefix("thumbs/"), blob("y.png")];
    let names = leaf_names(entries);
    assert_eq!(names, vec!["x.png".to_string(), "y.png".to_string()]);
}

#[test]
fn filtering_keeps_nothing_of_prefixes_alone() {
    let entries = vec![prefix("a/"), prefix("b/")];
    assert_eq!(leaf_names(entries), Vec::<String>::new());
}

#[test]
fn dash_line_exact_length() {
    assert_eq!(dash_line(0), "");
    assert_eq!(dash_line(5), "-----");
}

#[test]
fn header_for_abc() {
    let lines = container_block(&"abc".to_string(), vec![]);
    assert_eq!(lines, vec!["".to_string(), "abc".to_string(), "---".to_string()]);
}

#[test]
fn container_block_lists_blobs_in_order() {
    let lines = container_block(
        &"logs".to_string(),
        vec!["a.txt".to_string(), "b.txt".to_string()],
    );
    assert_eq!(
        lines,
        vec![
            "".to_string(),
            "logs".to_string(),
            "----".to_string(),
            "a.txt".to_string(),
            "b.txt".to_string(),
        ]
    );
}

#[test]
fn end_to_end_two_containers() {
    let runs = vec![
        ContainerRun {
            name: "logs".to_string(),
            responses: vec![page(vec![blob("a.txt"), blob("b.txt")], None)],
        },
        ContainerRun {
            name: "images".to_string(),
            responses: vec![page(vec![blob("x.png"), prefix("thumbs/"), blob("y.png")], None)],
        },
    ];
    let lines = render_runs(runs);
    assert_eq!(
        lines,
        vec![
            "".to_string(),
            "logs".to_string(),
            "----".to_string(),
            "a.txt".to_string(),
            "b.txt".to_string(),
            "".to_string(),
            "images".to_string(),
            "------".to_string(),
            "x.png".to_string(),
            "y.png".to_string(),
        ]
    );
}

#[test]
fn independence_of_second_container() {
    let second = |responses: Vec<PageResult<BlobEntry>>| ContainerRun {
        name: "safe".to_string(),
        responses,
    };
    let truncated_first = vec![
        ContainerRun {
            name: "broken".to_string(),
            responses: vec![
                page(vec![blob("kept.txt")], Some("c1")),
                PageResult::Failed("request failed".to_string()),
            ],
        },
        second(vec![page(vec![blob("z.txt")], None)]),
    ];
    let intact_first = vec![
        ContainerRun {
            name: "broken".to_string(),
            responses: vec![
                page(vec![blob("kept.txt")], Some("c1")),
                page(vec![blob("more.txt")], None),
            ],
        },
        second(vec![page(vec![blob("z.txt")], None)]),
    ];
    let with_failure = render_runs(truncated_first);
    let without_failure = render_runs(intact_first);
    let tail_a = &with_failure[with_failure.len() - 4..];
    let tail_b = &without_failure[without_failure.len() - 4..];
    assert_eq!(tail_a, tail_b);
    assert_eq!(
        tail_a,
        &["".to_string(), "safe".to_string(), "----".to_string(), "z.txt".to_string()]
    );
}

#[test]
fn missing_account_is_fatal() {
    let r = make_credentials(None, Some("key".to_string()));
    assert!(matches!(r, Err(ConfigError::MissingAccount)));
    let r2 = make_credentials(None, None);
    assert!(matches!(r2, Err(ConfigError::MissingAccount)));
}

#[test]
fn missing_key_is_fatal() {
    let r = make_credentials(Some("acct".to_string()), None);
    assert!(matches!(r, Err(ConfigError::MissingKey)));
}

#[test]
fn credentials_built_from_both_settings() {
    let c = make_credentials(Some("acct".to_string()), Some("key".to_string())).unwrap();
    assert_eq!(c.account, "acct");
    assert_eq!(c.key, "key");
}
