use crawler::engine::{crawl_seeds, ListStep, SeedWalk};
use crawler::url_normalize::normalize_url;

#[test]
fn seeds_in_pure_template_mode() {
    let seeds = crawl_seeds("https://x.io/list?p={page}", 2, &Vec::new());
    assert_eq!(seeds, vec!["https://x.io/list?p=2"]);
    let entries = vec!["https://x.io/a".to_string()];
    assert_eq!(crawl_seeds("https://x.io/list?p={page}", 2, &entries), entries);
    assert!(crawl_seeds("no-placeholder", 1, &Vec::new()).is_empty());
}

#[test]
fn dom_walk_fetches_then_follows_next_link() {
    let mut w = SeedWalk::start("https://x.io/l1", "", 1, 0, 2, false, false);
    let mut visited: Vec<String> = Vec::new();
    assert_eq!(w.take_list_url(&mut visited), ListStep::Fetch("https://x.io/l1".into()));
    assert_eq!(visited, vec![normalize_url("https://x.io/l1")]);
    assert!(!w.list_page_done(0, 1, "https://x.io/l1", Some("https://x.io/l2".into())));
    assert_eq!(w.current.as_deref(), Some("https://x.io/l2"));
    assert_eq!(w.take_list_url(&mut visited), ListStep::Fetch("https://x.io/l2".into()));
    assert!(!w.list_page_done(1, 2, "https://x.io/l2", Some("https://x.io/l3".into())));
    // depth limit 2 reached
    assert_eq!(w.take_list_url(&mut visited), ListStep::Done);
    assert_eq!(visited.len(), 2);
}

#[test]
fn dom_walk_stops_on_a_visited_page() {
    let mut visited = vec![normalize_url("https://x.io/l1")];
    let mut w = SeedWalk::start("https://x.io/l1", "", 1, 0, 0, false, false);
    assert_eq!(w.take_list_url(&mut visited), ListStep::Done);
}

#[test]
fn template_walk_skips_visited_and_failed_pages() {
    let t = "https://x.io/list?p={page}";
    let mut visited = vec![normalize_url("https://x.io/list?p=1")];
    let mut w = SeedWalk::start("https://x.io/list?p=1", t, 1, 3, 0, false, true);
    assert_eq!(w.template_page, 2);
    assert_eq!(w.take_list_url(&mut visited), ListStep::Skipped);
    assert_eq!(w.current.as_deref(), Some("https://x.io/list?p=2"));
    assert_eq!(w.take_list_url(&mut visited), ListStep::Fetch("https://x.io/list?p=2".into()));
    w.list_fetch_failed();
    assert_eq!(w.current.as_deref(), Some("https://x.io/list?p=3"));
    assert_eq!(w.take_list_url(&mut visited), ListStep::Fetch("https://x.io/list?p=3".into()));
    assert!(!w.list_page_done(0, 1, "https://x.io/list?p=3", None));
    // page 4 is past page_end
    assert_eq!(w.current, None);
    assert_eq!(w.take_list_url(&mut visited), ListStep::Done);
}

#[test]
fn walk_stops_after_three_empty_pages() {
    let mut w = SeedWalk::start("https://x.io/l", "", 1, 0, 0, false, false);
    assert!(!w.list_page_done(5, 5, "u", Some("n".into())));
    assert!(!w.list_page_done(5, 5, "u", Some("n".into())));
    assert!(w.list_page_done(5, 5, "u", Some("n".into())));
    assert_eq!(w.current, None);
    let mut full = SeedWalk::start("https://x.io/l", "", 1, 0, 0, true, false);
    for _ in 0..5 {
        assert!(!full.list_page_done(5, 5, "u", Some("n".into())));
    }
    assert_eq!(full.empty_pages, 0);
}
