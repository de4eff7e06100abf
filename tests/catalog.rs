use ollama::catalog::{insert_name, model_name, models_from_hrefs, models_from_html};
use ollama::order::compare_names;

fn page(hrefs: &[&str]) -> String {
    let mut body = String::from("<html><body><ul>");
    for h in hrefs {
        body.push_str(&format!("<li><a href=\"{}\">{}</a></li>", h, h));
    }
    body.push_str("</ul></body></html>");
    body
}

#[test]
fn catalog_sorted_deduplicated_without_sub_paths() {
    let html = page(&["/library/b", "/library/a", "/library/a", "/library/a/tags"]);
    assert_eq!(models_from_html(&html), vec!["a".to_string(), "b".to_string()]);
}

#[test]
fn catalog_without_matching_anchors_is_empty() {
    let html = page(&["/blog/post", "https://example.com/library/x", "/libraryx/y"]);
    assert!(models_from_html(&html).is_empty());
}

#[test]
fn catalog_of_empty_or_malformed_document_is_empty() {
    assert!(models_from_html("").is_empty());
    assert!(models_from_html("<<<not html at all").is_empty());
}

#[test]
fn catalog_ignores_anchors_without_href_and_bare_prefix() {
    let html = "<a name=\"top\">top</a><a href=\"/library/\">all</a><a href=\"/library/mistral\">m</a>";
    assert_eq!(models_from_html(html), vec!["mistral".to_string()]);
}

#[test]
fn catalog_from_links_skips_missing_hrefs() {
    let hrefs = vec![
        None,
        Some("/library/zephyr".to_string()),
        Some("/library/llama2".to_string()),
        None,
        Some("/library/zephyr".to_string()),
        Some("/library/llama2/tags".to_string()),
    ];
    assert_eq!(
        models_from_hrefs(&hrefs),
        vec!["llama2".to_string(), "zephyr".to_string()]
    );
}

#[test]
fn model_name_of_links() {
    assert_eq!(model_name("/library/llama2"), Some("llama2".to_string()));
    assert_eq!(model_name("/library/a/tags"), None);
    assert_eq!(model_name("/library/"), None);
    assert_eq!(model_name("/models/llama2"), None);
    assert_eq!(model_name("library/llama2"), None);
}

#[test]
fn names_compare_by_bytes() {
    assert!(compare_names("a", "b") < 0);
    assert!(compare_names("b", "a") > 0);
    assert_eq!(compare_names("llama2", "llama2"), 0);
    assert!(compare_names("Zeta", "alpha") < 0);
    assert!(compare_names("llama", "llama2") < 0);
    assert!(compare_names("\u{e9}", "z") > 0);
}

#[test]
fn insert_name_keeps_order_and_drops_repeats() {
    let mut v: Vec<String> = Vec::new();
    insert_name(&mut v, "mistral".to_string());
    insert_name(&mut v, "codellama".to_string());
    insert_name(&mut v, "phi".to_string());
    insert_name(&mut v, "mistral".to_string());
    assert_eq!(v, vec!["codellama".to_string(), "mistral".to_string(), "phi".to_string()]);
}
