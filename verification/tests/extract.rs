use mantra::extract::extract_from_wiki_content;

#[test]
fn wiki_headings_become_requirements() {
    let content = "# Intro\n\n## `req-1`: First\n\n```\n# `in-code`: not a requirement\n```\n\n### `req-2`(v2:next): Second\n#### `req-3`(draft): Third\n";
    let reqs = extract_from_wiki_content(content, "page.md", "https://wiki/page", Some(1));
    let ids: Vec<&str> = reqs.iter().map(|r| r.id.as_str()).collect();
    assert_eq!(ids, vec!["req-1", "req-2", "req-3"]);
    assert_eq!(reqs[0].line, 3);
    assert_eq!(reqs[0].annotation, None);
    assert_eq!(reqs[0].link, "https://wiki/page");
    assert_eq!(reqs[0].path, "page.md");
    assert_eq!(reqs[2].annotation, Some("draft".to_string()));
}
