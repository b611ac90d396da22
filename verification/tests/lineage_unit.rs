use workroot::lineage::parse_github_slug;

#[test]
fn parses_github_remote_urls() {
    assert_eq!(
        parse_github_slug("git@github.com:fridiculous/workroot.git").as_deref(),
        Some("fridiculous/workroot")
    );
    assert_eq!(
        parse_github_slug("https://github.com/fridiculous/workroot.git").as_deref(),
        Some("fridiculous/workroot")
    );
}
