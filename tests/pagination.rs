use containrs::client::tags_path;
use containrs::error::ErrorKind;
use containrs::pagination::Paginate;

/// A registry with five tags that serves pages after the cursor's key.
fn serve(n: Option<u64>, last: &str) -> (Vec<String>, Option<String>) {
    let all = ["a", "b", "c", "d", "e"];
    let size = n.unwrap_or(100) as usize;
    let start = if last.is_empty() { 0 } else { all.iter().position(|t| *t == last).unwrap() + 1 };
    let end = std::cmp::min(start + size, all.len());
    let page: Vec<String> = all[start..end].iter().map(|s| s.to_string()).collect();
    let link = if end < all.len() {
        Some(format!("</v2/repo/tags/list?n={}&last={}>; rel=\"next\"", size, all[end - 1]))
    } else {
        None
    };
    (page, link)
}

#[test]
fn three_pages_chain_to_five_entries() {
    let mut cursor = Some(Paginate::new(2, String::new()));
    let mut seen: Vec<String> = Vec::new();
    let mut sizes = Vec::new();
    let mut rounds = 0;
    while let Some(c) = cursor {
        rounds += 1;
        assert!(rounds <= 10, "pagination does not end");
        let (page, link) = serve(c.n, &c.last);
        sizes.push(page.len());
        seen.extend(page);
        cursor = Paginate::from_link(link.as_deref()).unwrap();
    }
    assert_eq!(sizes, vec![2, 2, 1]);
    assert_eq!(seen, vec!["a", "b", "c", "d", "e"]);
}

#[test]
fn link_header_gives_the_next_cursor() {
    let c = Paginate::from_link(Some("</v2/_catalog?last=b&n=2>; rel=\"next\"")).unwrap().unwrap();
    assert_eq!(c.n, Some(2));
    assert_eq!(c.last, "b");
    let d = Paginate::from_link(Some("</v2/_catalog?n=50>; rel=\"next\"")).unwrap().unwrap();
    assert_eq!(d.n, Some(50));
    assert_eq!(d.last, "");
    assert!(Paginate::from_link(None).unwrap().is_none());
}

#[test]
fn malformed_link_header_is_a_protocol_error() {
    for h in ["/v2/_catalog?n=2", "</v2/_catalog?n=2>; rel=\"prev\"", "</v2/_catalog?n=x>; rel=\"next\"", "</v2/_catalog?n=99999999999999999999>; rel=\"next\""] {
        let e = Paginate::from_link(Some(h)).unwrap_err();
        assert_eq!(e.kind, ErrorKind::Protocol, "{}", h);
    }
}

#[test]
fn query_leaves_out_missing_parts() {
    assert_eq!(Paginate::new(2, String::new()).query(), "n=2");
    assert_eq!(Paginate::new(10, "b".to_string()).query(), "n=10&last=b");
    let c = Paginate { n: None, last: "x".to_string() };
    assert_eq!(c.query(), "last=x");
    assert_eq!(Paginate { n: None, last: String::new() }.query(), "");
    assert_eq!(tags_path("library/ubuntu", &Some(Paginate::new(0, "z".to_string()))), "/v2/library/ubuntu/tags/list?n=0&last=z");
    assert_eq!(tags_path("r", &None), "/v2/r/tags/list");
}
