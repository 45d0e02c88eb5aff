use webfetch::classify::is_docsrs_crate_page;
use webfetch::dispatch::{
    fetch_docsrs_outcome, fetch_docsrs_step, fetch_outcome, search_crate_outcome, search_results_json,
    search_url, document_json_text, DocsrsStep, ToolOutcome, TransportFailure,
};
use webfetch::page::{document_from_region, join_text_nodes, parse_docsrs_page_structured, DocsrsPageStructured};
use webfetch::search::{
    parse_crate_search_results, record_from_entry, records_from_entries, split_name_version,
    CrateSearchResult, ReleaseEntry,
};

fn rec(name: &str, version: &str, description: &str, url: &str) -> CrateSearchResult {
    CrateSearchResult {
        name: name.to_string(),
        version: version.to_string(),
        description: description.to_string(),
        url: url.to_string(),
    }
}

#[test]
fn test_parse_crate_search_results() {
    let html = r#"
        <a class="release" href="/serde/1.0.197/serde/">
            <div class="name">serde-1.0.197</div>
            <div class="description">A generic serialization/deserialization framework</div>
        </a>
        <a class="release" href="/tokio/1.36.0/tokio/">
            <div class="name">tokio-1.36.0</div>
            <div class="description">An event-driven, non-blocking I/O platform</div>
        </a>
        "#;
    let base_url = "https://docs.rs";
    let results = parse_crate_search_results(html, base_url);
    assert_eq!(results.len(), 2);
    assert_eq!(results[0], CrateSearchResult {
        name: "serde".to_string(),
        version: "1.0.197".to_string(),
        description: "A generic serialization/deserialization framework".to_string(),
        url: "https://docs.rs/serde/1.0.197/serde/".to_string(),
    });
    assert_eq!(results[1], CrateSearchResult {
        name: "tokio".to_string(),
        version: "1.36.0".to_string(),
        description: "An event-driven, non-blocking I/O platform".to_string(),
        url: "https://docs.rs/tokio/1.36.0/tokio/".to_string(),
    });
}

#[test]
fn landing_page_urls_are_recognised() {
    assert!(is_docsrs_crate_page("https://docs.rs/serde/1.0.219/serde/"));
    assert!(is_docsrs_crate_page("https://docs.rs/serde/1.0.219/serde"));
    assert!(is_docsrs_crate_page("https://docs.rs/rmcp/latest/rmcp/"));
    assert!(is_docsrs_crate_page("https://docs.rs/serde/1.0.219/serde/index.html"));
    assert!(is_docsrs_crate_page("https://docs.rs/serde/1.0.219/serde/index.html/"));
    assert!(is_docsrs_crate_page("https://docs.rs/tokio-util/0.7/tokio_util/"));
}

#[test]
fn other_urls_are_rejected() {
    assert!(!is_docsrs_crate_page(""));
    assert!(!is_docsrs_crate_page("https://docs.rs/serde/1.0.219/serde/extra/path"));
    assert!(!is_docsrs_crate_page("https://docs.rs/serde/1.0.219/serde/?q=1"));
    assert!(!is_docsrs_crate_page("https://docs.rs/serde/1.0.219/serde/#top"));
    assert!(!is_docsrs_crate_page("https://docs.rs/serde/1.0.219/serde?q=1"));
    assert!(!is_docsrs_crate_page("https://docs.rs/serde/latest/serde#top"));
    assert!(!is_docsrs_crate_page("https://docs.rs/serde/latest/serde/index.html?x"));
    assert!(!is_docsrs_crate_page("https://docs.rs/se#rde/latest/serde/"));
    assert!(!is_docsrs_crate_page("https://docs.rs/serde/stable/serde/"));
    assert!(!is_docsrs_crate_page("https://docs.rs/serde/1.0.0-beta/serde/"));
    assert!(!is_docsrs_crate_page("https://docs.rs/serde/v1/serde/"));
    assert!(!is_docsrs_crate_page("https://docs.rs/serde//serde/"));
    assert!(!is_docsrs_crate_page("https://docs.rs//1.0/serde/"));
    assert!(!is_docsrs_crate_page("http://docs.rs/serde/1.0/serde/"));
    assert!(!is_docsrs_crate_page("https://docs.rs/serde/1.0/"));
    assert!(!is_docsrs_crate_page("https://docs.rs/serde/1.0//"));
}

#[test]
fn split_uses_last_hyphen() {
    let (name, version) = split_name_version("tokio-util-1.2.0");
    assert_eq!(name, "tokio-util");
    assert_eq!(version, "1.2.0");
}

#[test]
fn split_without_hyphen_keeps_token_as_name() {
    let (name, version) = split_name_version("serde");
    assert_eq!(name, "serde");
    assert_eq!(version, "");
}

#[test]
fn single_release_entry_gives_one_record() {
    let html = r#"<a class="release" href="/serde/1.0.197/serde/"><div class="name">serde-1.0.197</div><div class="description">A generic serialization/deserialization framework</div></a>"#;
    let results = parse_crate_search_results(html, "https://docs.rs");
    assert_eq!(results, vec![rec(
        "serde",
        "1.0.197",
        "A generic serialization/deserialization framework",
        "https://docs.rs/serde/1.0.197/serde/",
    )]);
}

#[test]
fn incomplete_entries_are_dropped() {
    let html = r#"
        <a class="release" href="/a/"><div class="name">nohyphen</div></a>
        <a class="release" href="/b/"><div class="name">trailing-</div></a>
        <a class="release" href="/c/"><div class="description">no name</div></a>
        <a class="release"><div class="name">tokio-util-0.7.10</div></a>
        "#;
    let results = parse_crate_search_results(html, "https://docs.rs");
    assert_eq!(results, vec![rec("tokio-util", "0.7.10", "", "https://docs.rs")]);
    let again = parse_crate_search_results(html, "https://docs.rs");
    assert_eq!(results, again);
}

#[test]
fn records_from_plain_entries() {
    let entries = vec![
        ReleaseEntry {
            href: Some("/x/1/x/".to_string()),
            name_text: Some("x-1".to_string()),
            description_text: None,
        },
        ReleaseEntry { href: None, name_text: Some("-1".to_string()), description_text: None },
    ];
    let out = records_from_entries(&entries, "https://h");
    assert_eq!(out, vec![rec("x", "1", "", "https://h/x/1/x/")]);
    assert_eq!(record_from_entry(&entries[1], "https://h"), None);
}

#[test]
fn page_without_region_is_empty() {
    let doc = parse_docsrs_page_structured("<html><body><div id=\"other\">text</div></body></html>");
    assert_eq!(doc, DocsrsPageStructured { content: String::new() });
    assert_eq!(document_from_region(&None).content, "");
}

#[test]
fn page_region_text_is_trimmed_and_joined() {
    let html = "<div id=\"main-content\">  <h1> Crate serde </h1>\n  <p>\tA framework\n</p>  </div>";
    let doc = parse_docsrs_page_structured(html);
    assert_eq!(doc.content, "Crate serde\nA framework");
}

#[test]
fn primary_region_wins_over_fallback() {
    let html = "<div id=\"main\">fallback</div><div id=\"main-content\">primary</div>";
    assert_eq!(parse_docsrs_page_structured(html).content, "primary");
    let only_fallback = "<section id=\"main\"><p>one</p><p>two</p></section>";
    assert_eq!(parse_docsrs_page_structured(only_fallback).content, "one\ntwo");
}

#[test]
fn join_skips_blank_nodes() {
    let nodes = vec!["  ".to_string(), " a ".to_string(), "\n".to_string(), "b".to_string()];
    assert_eq!(join_text_nodes(&nodes), "a\nb");
    assert_eq!(join_text_nodes(&Vec::new()), "");
}

#[test]
fn malformed_url_is_rejected_without_fetch() {
    let step = fetch_docsrs_step("https://docs.rs/serde/1.0.219/serde/extra/path");
    assert_eq!(step, DocsrsStep::Reply(ToolOutcome::Error(
        "Not a recognized docs.rs crate page URL. The URL must be of the form https://docs.rs/cratename/version/cratename/".to_string(),
    )));
    let step = fetch_docsrs_step("https://docs.rs/serde/1.0.219/serde/index.html");
    assert_eq!(step, DocsrsStep::Fetch("https://docs.rs/serde/1.0.219/serde/index.html".to_string()));
}

#[test]
fn search_url_encodes_query() {
    assert_eq!(search_url("serde json"), "https://docs.rs/releases/search?query=serde%20json");
    assert_eq!(search_url("serde"), "https://docs.rs/releases/search?query=serde");
}

#[test]
fn search_results_serialize_and_round_trip() {
    let results = vec![
        rec("serde", "1.0.197", "say \"hi\"\\ now\n", "https://docs.rs/serde/1.0.197/serde/"),
        rec("tokio", "1.36.0", "An event-driven, non-blocking I/O platform", "https://docs.rs/tokio/1.36.0/tokio/"),
    ];
    let json = search_results_json(&results);
    let value: serde_json::Value = serde_json::from_str(&json).unwrap();
    let arr = value.as_array().unwrap();
    assert_eq!(arr.len(), 2);
    let back: Vec<CrateSearchResult> = arr
        .iter()
        .map(|o| rec(
            o["name"].as_str().unwrap(),
            o["version"].as_str().unwrap(),
            o["description"].as_str().unwrap(),
            o["url"].as_str().unwrap(),
        ))
        .collect();
    assert_eq!(back, results);
    assert_eq!(search_results_json(&Vec::new()), "[]");
}

#[test]
fn document_serializes_and_round_trips() {
    let doc = DocsrsPageStructured { content: "line \"one\"\nline two".to_string() };
    let json = document_json_text(&doc);
    assert_eq!(json, "{\"content\":\"line \\\"one\\\"\\nline two\"}");
    let value: serde_json::Value = serde_json::from_str(&json).unwrap();
    let back = DocsrsPageStructured { content: value["content"].as_str().unwrap().to_string() };
    assert_eq!(back, doc);
}

#[test]
fn fetch_outcomes() {
    assert_eq!(fetch_outcome(&Ok("body".to_string())), ToolOutcome::Success("body".to_string()));
    assert_eq!(
        fetch_outcome(&Err(TransportFailure::Request("dns".to_string()))),
        ToolOutcome::Error("Failed to fetch the web page: dns".to_string())
    );
    assert_eq!(
        fetch_outcome(&Err(TransportFailure::Body("bad".to_string()))),
        ToolOutcome::Error("Failed to read response body: bad".to_string())
    );
}

#[test]
fn search_outcomes() {
    let body = r#"<a class="release" href="/serde/1.0.197/serde/"><div class="name">serde-1.0.197</div><div class="description">Ser</div></a>"#;
    assert_eq!(
        search_crate_outcome(&Ok(body.to_string())),
        ToolOutcome::Success(
            "[{\"name\":\"serde\",\"version\":\"1.0.197\",\"description\":\"Ser\",\"url\":\"https://docs.rs/serde/1.0.197/serde/\"}]".to_string()
        )
    );
    assert_eq!(search_crate_outcome(&Ok("<p>nothing</p>".to_string())), ToolOutcome::Success("[]".to_string()));
    assert_eq!(
        search_crate_outcome(&Err(TransportFailure::Request("timeout".to_string()))),
        ToolOutcome::Error("Failed to search crates: timeout".to_string())
    );
    assert_eq!(
        search_crate_outcome(&Err(TransportFailure::Body("eof".to_string()))),
        ToolOutcome::Error("Failed to read response body: eof".to_string())
    );
}

#[test]
fn docsrs_outcomes() {
    let body = "<div id=\"main-content\"><p> serde </p></div>";
    assert_eq!(
        fetch_docsrs_outcome(&Ok(body.to_string())),
        ToolOutcome::Success("{\"content\":\"serde\"}".to_string())
    );
    assert_eq!(
        fetch_docsrs_outcome(&Ok("<p>x</p>".to_string())),
        ToolOutcome::Success("{\"content\":\"\"}".to_string())
    );
    assert_eq!(
        fetch_docsrs_outcome(&Err(TransportFailure::Request("refused".to_string()))),
        ToolOutcome::Error("Failed to fetch the docs.rs page: refused".to_string())
    );
}

#[test]
fn records_read_back_unchanged() {
    let html = r#"
        <a class="release" href="/tokio-util/0.7.10/tokio_util/"><div class="name">tokio-util-0.7.10</div><div class="description">Utilities</div></a>
        <a class="release" href="/x/"><div class="name">broken</div></a>
        <a class="release" href="/serde/1.0.197/serde/"><div class="name">serde-1.0.197</div></a>
        "#;
    let results = parse_crate_search_results(html, "https://docs.rs");
    assert_eq!(results.len(), 2);
    let entries: Vec<ReleaseEntry> = results
        .iter()
        .map(|r| ReleaseEntry {
            href: Some(r.url.clone()),
            name_text: Some(format!("{}-{}", r.name, r.version)),
            description_text: Some(r.description.clone()),
        })
        .collect();
    assert_eq!(records_from_entries(&entries, ""), results);
}

#[test]
fn control_characters_are_escaped_in_json() {
    let doc = DocsrsPageStructured { content: "a\u{1}b\tc\\d\u{8}\u{c}\r\u{1f}é".to_string() };
    let json = document_json_text(&doc);
    assert_eq!(json, "{\"content\":\"a\\u0001b\\tc\\\\d\\b\\f\\r\\u001fé\"}");
    let value: serde_json::Value = serde_json::from_str(&json).unwrap();
    assert_eq!(value["content"].as_str().unwrap(), doc.content);
}
