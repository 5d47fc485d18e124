use unified_audit::a11y::{audit_a11y, labels_can_be_looked_up};
use unified_audit::capo::{
    audit_capo, calculate_capo_score, classify_element, parse_head_elements, CapoPriority, CapoScore,
};
use unified_audit::crawler::{is_html_extension, parse_comma_list, retain_unignored, url_path};
use unified_audit::html::Document;
use unified_audit::images::audit_images;
use unified_audit::links::{
    audit_links, found_among, link_target, target_candidates, target_exists, target_lookup, LinkAuditConfig,
};
use unified_audit::report::{github_annotation, page_is_listed, strict_failure, total_count};
use unified_audit::schema::audit_schema;
use unified_audit::seo::audit_seo;
use unified_audit::text::{decimal_string, trim};
use unified_audit::{audit_html_file, AuditOptions, Category, Issue, PageAuditReport, ReportFormat, Severity};

fn codes(issues: &[Issue]) -> Vec<String> {
    issues.iter().map(|i| i.code.clone()).collect()
}

fn page(head: &str, body: &str) -> Document {
    Document::parse_document(&format!("<!DOCTYPE html><html lang=\"en\"><head>{}</head><body>{}</body></html>", head, body))
}

#[test]
fn category_names() {
    assert_eq!(Category::Seo.name(), "SEO");
    assert_eq!(Category::A11y.name(), "Accessibility");
    assert_eq!(Category::Schema.name(), "Schema.org");
    assert_eq!(Category::Links.name(), "Links");
    assert_eq!(Category::Images.name(), "Images");
    assert_eq!(Category::Capo.name(), "Capo");
}

#[test]
fn classify_lowercases_and_trims() {
    let el = classify_element("  <META CHARSET=\"utf-8\">  ", 4);
    assert_eq!(el.priority, CapoPriority::MetaCharset);
    assert_eq!(el.raw, "<META CHARSET=\"utf-8\">");
    assert_eq!(el.original_index, 4);
    assert_eq!(classify_element("<meta http-equiv=\"origin-trial\">", 0).priority, CapoPriority::OriginTrials);
    assert_eq!(classify_element("<meta http-equiv=\"Content-Security-Policy\">", 0).priority, CapoPriority::MetaCsp);
    assert_eq!(classify_element("<meta name=\"viewport\">", 0).priority, CapoPriority::MetaViewport);
    assert_eq!(classify_element("<meta name=\"author\">", 0).priority, CapoPriority::OtherMeta);
    assert_eq!(classify_element("<base href=\"/\">", 0).priority, CapoPriority::Title);
    assert_eq!(classify_element("<link rel=\"preconnect\">", 0).priority, CapoPriority::Preconnect);
    assert_eq!(classify_element("<link rel=\"modulepreload\">", 0).priority, CapoPriority::Preload);
    assert_eq!(classify_element("<link rel=\"stylesheet\">", 0).priority, CapoPriority::SyncStyles);
    assert_eq!(classify_element("<link rel=\"dns-prefetch\">", 0).priority, CapoPriority::PrefetchPrerender);
    assert_eq!(classify_element("<link rel=\"icon\">", 0).priority, CapoPriority::OtherMeta);
    assert_eq!(classify_element("<style>@import url(a.css);</style>", 0).priority, CapoPriority::ImportStyles);
    assert_eq!(classify_element("<style>p{}</style>", 0).priority, CapoPriority::SyncStyles);
    assert_eq!(classify_element("<script async src=a.js></script>", 0).priority, CapoPriority::AsyncScript);
    assert_eq!(classify_element("<script type='module'></script>", 0).priority, CapoPriority::DeferScript);
    assert_eq!(classify_element("<script src=a.js></script>", 0).priority, CapoPriority::SyncScript);
    assert_eq!(classify_element("<noscript></noscript>", 0).priority, CapoPriority::OtherMeta);
    assert_eq!(CapoPriority::OriginTrials.value(), 1);
    assert_eq!(CapoPriority::OtherMeta.value(), 14);
}

#[test]
fn head_elements_skip_comments_and_number_in_order() {
    let html = "<html><head>\n<!-- note -->\n<title>T</title>\n<meta charset=\"utf-8\">\n</head><body></body></html>";
    let els = parse_head_elements(html);
    assert_eq!(els.len(), 2);
    assert_eq!(els[0].priority, CapoPriority::Title);
    assert_eq!(els[0].original_index, 0);
    assert_eq!(els[1].priority, CapoPriority::MetaCharset);
    assert_eq!(els[1].original_index, 1);
    assert!(parse_head_elements("<html><body></body></html>").is_empty());
}

#[test]
fn capo_counts_out_of_order_pairs() {
    let bad = "<html><head><script defer src=a.js></script><title>T</title><meta charset=\"utf-8\"></head></html>";
    let els = parse_head_elements(bad);
    let score = calculate_capo_score(&els);
    assert_eq!(score, CapoScore { inversions: 3, total_pairs: 3 });
    let single = parse_head_elements("<html><head><title>T</title></head></html>");
    assert_eq!(calculate_capo_score(&single), CapoScore { inversions: 0, total_pairs: 0 });
    let (s, issues) = audit_capo(bad);
    assert_eq!(s.inversions, 3);
    assert_eq!(issues.len(), 1);
    assert_eq!(issues[0].code, "CAPO_HEAD_SUBOPTIMAL");
    assert_eq!(
        issues[0].message,
        "Head element loading order has a low Capo efficiency score (0.0%). Consider reordering <head> tags."
    );
    assert_eq!(issues[0].category, Category::Capo);
}

#[test]
fn capo_score_rounds_to_one_decimal() {
    // 3 elements, 1 inversion: 66.666...% shows as 66.7.
    let html = "<html><head><meta charset=\"utf-8\"><script defer src=a.js></script><title>T</title></head></html>";
    let (s, issues) = audit_capo(html);
    assert_eq!(s, CapoScore { inversions: 1, total_pairs: 3 });
    assert_eq!(issues[0].message, "Head element loading order has a low Capo efficiency score (66.7%). Consider reordering <head> tags.");
}

#[test]
fn capo_flags_sync_script_before_critical_tag() {
    let html = "<html><head><meta charset=\"utf-8\"><title>T</title><script src=a.js></script><link rel=\"stylesheet\" href=s.css></head></html>";
    let (_, issues) = audit_capo(html);
    assert_eq!(codes(&issues), vec!["CAPO_BLOCKING_SCRIPT_PRECEDES_CRITICAL"]);
    assert_eq!(
        issues[0].message,
        "Synchronous render-blocking script appears before critical tag: <link rel=\"stylesheet\" href=s.css>"
    );
    assert_eq!(issues[0].selector.as_deref(), Some("head script"));
}

#[test]
fn seo_title_length_messages() {
    let base = "<meta name=\"viewport\" content=\"w\"><link rel=\"canonical\" href=\"https://example.com/\"><meta property=\"og:title\" content=\"t\"><meta property=\"og:image\" content=\"i\"><meta name=\"twitter:card\" content=\"summary\"><meta name=\"description\" content=\"A description that is long enough to pass the minimum length check.\">";
    let doc = page(&format!("<title>  Short </title>{}", base), "<h1>H</h1>");
    let issues = audit_seo(&doc);
    assert_eq!(codes(&issues), vec!["SEO_TITLE_TOO_SHORT"]);
    assert_eq!(issues[0].message, "<title> is very short (5 chars). Recommended 30–65 chars: \"Short\"");
    let long = "x".repeat(66);
    let doc = page(&format!("<title>{}</title>{}", long, base), "<h1>H</h1>");
    let issues = audit_seo(&doc);
    assert_eq!(codes(&issues), vec!["SEO_TITLE_TOO_LONG"]);
    assert_eq!(issues[0].message, "<title> exceeds 65 chars (66 chars) and will likely be truncated in SERPs");
    let doc = page(&format!("<title>{}</title>{}", "x".repeat(65), base), "<h1>H</h1>");
    assert!(audit_seo(&doc).is_empty());
    let doc = page(&format!("<title>{}</title>{}", "x".repeat(30), base), "<h1>H</h1>");
    assert!(audit_seo(&doc).is_empty());
    let doc = page(&format!("<title>{}</title>{}", "x".repeat(25), base), "<h1>H</h1>");
    assert_eq!(codes(&audit_seo(&doc)), vec!["SEO_TITLE_TOO_SHORT"]);
    let doc = page(&format!("<title>A title of a fair length for the page</title><title>x</title>{}", base), "<h1>H</h1><h1>I</h1>");
    let issues = audit_seo(&doc);
    assert_eq!(codes(&issues), vec!["SEO_MULTIPLE_TITLES", "SEO_MULTIPLE_H1"]);
    assert_eq!(issues[0].message, "Multiple (2x) <title> tags found in <head>");
    assert_eq!(issues[1].message, "Page contains 2x <h1> tags (recommended: exactly 1 per page)");
}

#[test]
fn seo_title_length_counts_characters() {
    // 29 characters of two bytes each are 58 bytes, yet too short.
    let doc = page(&format!("<title>{}</title><meta name=\"viewport\" content=\"w\">", "é".repeat(29)), "<h1>H</h1>");
    let issues = audit_seo(&doc);
    assert_eq!(issues[0].code, "SEO_TITLE_TOO_SHORT");
    assert!(issues[0].message.starts_with("<title> is very short (29 chars)."));
    let doc = page(&format!("<title>{}</title><meta name=\"viewport\" content=\"w\">", "é".repeat(30)), "<h1>H</h1>");
    assert!(!codes(&audit_seo(&doc)).contains(&"SEO_TITLE_TOO_SHORT".to_string()));
}

#[test]
fn seo_description_and_canonical_checks() {
    let doc = page("<title>A title of a fair length for the page</title><meta name=\"description\" content=\"  \"><link rel=\"canonical\" href=\" \"><link rel=\"canonical\" href=\"/b\">", "<h1>H</h1>");
    let issues = audit_seo(&doc);
    assert_eq!(
        codes(&issues),
        vec![
            "SEO_EMPTY_DESCRIPTION",
            "SEO_MULTIPLE_CANONICALS",
            "SEO_EMPTY_CANONICAL",
            "SEO_MISSING_VIEWPORT",
            "SEO_MISSING_OG_TITLE",
            "SEO_MISSING_OG_IMAGE",
            "SEO_MISSING_TWITTER_CARD"
        ]
    );
    assert_eq!(issues[1].message, "Multiple (2x) canonical tags found");
    assert_eq!(issues[4].severity, Severity::Info);
    let doc = page("<title>A title of a fair length for the page</title><meta name=\"DESCRIPTION\" content=\"tiny\">", "");
    let issues = audit_seo(&doc);
    assert_eq!(issues[0].code, "SEO_DESCRIPTION_TOO_SHORT");
    assert_eq!(issues[0].message, "Meta description is very short (4 chars). Recommended 50–160 chars.");
    let long = "d".repeat(161);
    let doc = page(&format!("<title>A title of a fair length for the page</title><meta name=\"description\" content=\"{}\">", long), "");
    let issues = audit_seo(&doc);
    assert_eq!(issues[0].code, "SEO_DESCRIPTION_TOO_LONG");
    assert_eq!(issues[0].message, "Meta description exceeds 160 chars (161 chars) and will be truncated by Google");
    for (n, short, long) in [(49, true, false), (50, false, false), (160, false, false), (161, false, true)] {
        let doc = page(&format!("<title>A title of a fair length for the page</title><meta name=\"description\" content=\"{}\">", "ü".repeat(n)), "");
        let c = codes(&audit_seo(&doc));
        assert_eq!(c.contains(&"SEO_DESCRIPTION_TOO_SHORT".to_string()), short);
        assert_eq!(c.contains(&"SEO_DESCRIPTION_TOO_LONG".to_string()), long);
    }
}

#[test]
fn a11y_accepts_labelled_controls_and_named_buttons() {
    let doc = page(
        "",
        "<button><img src=a.png alt=\"Close\"></button><button aria-label=\"Open\"></button>\
         <label>Name <input type=text></label><label for=\"mail\">Mail</label><input id=\"mail\">\
         <input type=\"hidden\"><input type=\"submit\">",
    );
    assert!(audit_a11y(&doc).is_empty());
}

#[test]
fn a11y_messages() {
    let doc = Document::parse_document(
        "<html lang=\"  \"><body><a role=\"BUTTON\"></a><textarea id=\"note\" placeholder=\"Write\"></textarea>\
         <select></select><p id=\"x\"></p><span id=\" x \"></span></body></html>",
    );
    let issues = audit_a11y(&doc);
    assert_eq!(
        codes(&issues),
        vec!["A11Y_MISSING_LANG", "A11Y_EMPTY_BUTTON", "A11Y_UNLABELLED_INPUT", "A11Y_UNLABELLED_INPUT", "A11Y_DUPLICATE_ID"]
    );
    assert_eq!(issues[1].message, "Button lacks an accessible name / text label (WCAG 4.1.2)");
    assert_eq!(
        issues[2].message,
        "Form control <textarea> id=\"note\" lacks an associated <label> or aria-label (WCAG 1.3.1 / 4.1.2) (placeholder is not a sufficient label)"
    );
    assert_eq!(issues[2].selector.as_deref(), Some("input#note"));
    assert_eq!(issues[3].message, "Form control <select> lacks an associated <label> or aria-label (WCAG 1.3.1 / 4.1.2)");
    assert_eq!(issues[4].message, "Duplicate HTML id=\"x\" found on page (WCAG 4.1.1)");
    assert_eq!(issues[4].selector.as_deref(), Some("#x"));
    assert_eq!(issues[4].severity, Severity::Warning);
}

#[test]
fn a11y_svg_button_message() {
    let doc = page("", "<button><svg></svg></button>");
    let issues = audit_a11y(&doc);
    assert_eq!(issues[0].message, "Button containing SVG lacks an accessible name / text label (WCAG 4.1.2)");
}

#[test]
fn image_checks() {
    let doc = page("", "<img src=\" /a.jpg \" alt=\"  PHOTO \"><img src=\"/logo.svg\" alt=\"Logo\"><img src=\"/b.png\" alt=\"A chart\" width=\"1\" height=\"2\">");
    let issues = audit_images(&doc);
    assert_eq!(codes(&issues), vec!["IMG_SUSPICIOUS_ALT", "IMG_MISSING_DIMENSIONS"]);
    assert_eq!(issues[0].message, "Image \"/a.jpg\" has non-descriptive alt text: \"  PHOTO \"");
    assert_eq!(issues[0].selector.as_deref(), Some("img[src=\"/a.jpg\"]"));
    assert_eq!(issues[1].category, Category::Images);
    assert_eq!(
        issues[1].message,
        "Image \"/a.jpg\" lacks explicit width and/or height attributes, risking Cumulative Layout Shift (CLS)"
    );
    let doc = page("", "<img src=\"/c.png\" width=\"1\" height=\"1\">");
    let issues = audit_images(&doc);
    assert_eq!(issues[0].message, "Image \"/c.png\" is missing an 'alt' attribute entirely");
}

#[test]
fn image_empty_alt_is_flagged() {
    let doc = page("", "<img src=\"/a.png\" alt=\"\" width=\"10\" height=\"10\"><img src=\"/b.png\" alt=\"  \" width=\"1\" height=\"1\">");
    let issues = audit_images(&doc);
    assert_eq!(codes(&issues), vec!["IMG_EMPTY_ALT", "IMG_EMPTY_ALT"]);
    assert_eq!(issues[0].category, Category::A11y);
    assert_eq!(issues[0].severity, Severity::Warning);
    assert_eq!(issues[0].message, "Image \"/a.png\" has an empty 'alt' attribute");
    assert_eq!(issues[1].selector.as_deref(), Some("img[src=\"/b.png\"]"));
}

#[test]
fn schema_syntax_and_empty_blocks() {
    let html = "<script type=\"application/ld+json\">  </script><script type='application/ld+json'>{\"a\": }</script>";
    let issues = audit_schema(html);
    assert_eq!(codes(&issues), vec!["SCHEMA_EMPTY_JSON_LD", "SCHEMA_INVALID_SYNTAX"]);
    assert_eq!(issues[0].message, "Script block #1 contains empty JSON-LD content");
    assert!(issues[1].message.starts_with("JSON syntax error in structured data block #2: "));
    assert!(issues[1].message.len() > "JSON syntax error in structured data block #2: ".len());
}

#[test]
fn schema_nested_graph_and_lists() {
    let html = r#"<script type="application/ld+json">{"@graph": [
        {"@type": ["Thing", "BreadcrumbList"], "itemListElement": [{"name": "Home", "position": 1}, {"name": "Post", "position": 2}]},
        {"@type": "FAQPage", "mainEntity": []},
        {"@type": "WebSite", "name": " ", "url": null},
        {"@type": "NewsArticle", "headline": "HEADLINE", "image": "i", "datePublished": "d", "author": "a"}
    ]}</script>"#;
    let long = "h".repeat(116);
    let html = html.replace("HEADLINE", &long);
    let issues = audit_schema(&html);
    assert_eq!(
        codes(&issues),
        vec![
            "SCHEMA_BREADCRUMB_MISSING_ITEM",
            "SCHEMA_BREADCRUMB_MISSING_ITEM",
            "SCHEMA_FAQ_EMPTY",
            "SCHEMA_MISSING_REQUIRED_FIELD",
            "SCHEMA_MISSING_REQUIRED_FIELD",
            "SCHEMA_HEADLINE_TOO_LONG"
        ]
    );
    assert_eq!(
        issues[0].message,
        "block_1.@graph[0].itemListElement[0]: Breadcrumb item is missing target URL \"item\""
    );
    assert_eq!(
        issues[1].message,
        "block_1.@graph[0].itemListElement[1]: Breadcrumb item is missing target URL \"item\""
    );
    assert_eq!(issues[2].message, "block_1.@graph[1]: FAQPage \"mainEntity\" must be a non-empty array of Question objects");
    assert_eq!(issues[3].message, "block_1.@graph[2]: WebSite is missing required field \"name\"");
    assert_eq!(issues[4].message, "block_1.@graph[2]: WebSite is missing required field \"url\"");
    assert_eq!(
        issues[5].message,
        "block_1.@graph[3]: \"headline\" has 116 characters — Google typically truncates above 110"
    );
    assert!(issues.iter().all(|i| i.category == Category::Schema));
}

#[test]
fn schema_breadcrumb_and_faq_shapes() {
    let html = r#"<script type="application/ld+json">[{"@type": "BreadcrumbList"}, {"@type": "FAQPage", "mainEntity": [{"name": "Q"}]}]</script>"#;
    let issues = audit_schema(html);
    assert_eq!(codes(&issues), vec!["SCHEMA_BREADCRUMB_EMPTY", "SCHEMA_MISSING_REQUIRED_FIELD"]);
    assert_eq!(issues[0].message, "block_1[0]: BreadcrumbList \"itemListElement\" must be a non-empty array");
    assert_eq!(issues[1].message, "block_1[1].mainEntity[0]: Question is missing required field \"acceptedAnswer\"");
}

#[test]
fn links_skip_external_and_valid_anchors() {
    let doc = page(
        "",
        "<a href=\"https://example.com\">x</a><a href=\"mailto:a@b.c\">m</a><a href=\"#top\">t</a><p id=\"top\"></p>\
         <a href=\"#\">hash</a><a href=\"/api/v1\"></a><a href=\"#a&quot;b\">odd</a>",
    );
    let skip = vec!["/api/".to_string()];
    let cfg = LinkAuditConfig { root_dir: "/nonexistent-root-xyz", current_file: "/nonexistent-root-xyz/a.html", skip_patterns: &skip };
    let issues = audit_links(&doc, &cfg);
    assert_eq!(codes(&issues), vec!["LINK_EMPTY_TEXT"]);
    assert_eq!(issues[0].message, "Link to \"/api/v1\" has empty link text and no accessible label");
    assert_eq!(issues[0].category, Category::A11y);
}

#[test]
fn links_messages_and_targets() {
    let doc = page("", "<a href=\"#missing\">m</a><a href=\"docs/page?x=1#frag\">d</a>");
    let cfg = LinkAuditConfig { root_dir: "/nonexistent-root-xyz", current_file: "/nonexistent-root-xyz/sub/a.html", skip_patterns: &[] };
    let issues = audit_links(&doc, &cfg);
    assert_eq!(codes(&issues), vec!["LINK_BROKEN_INPAGE_ANCHOR", "LINK_BROKEN_INTERNAL"]);
    assert_eq!(issues[0].message, "In-page link \"#missing\" references non-existent id=\"missing\"");
    assert_eq!(
        issues[1].message,
        "Broken internal link: \"docs/page?x=1#frag\" does not resolve to an existing file in dist"
    );
    assert_eq!(link_target("docs/page?x=1#frag", &cfg), "/nonexistent-root-xyz/sub/docs/page");
    assert_eq!(link_target("///about#team", &cfg), "/nonexistent-root-xyz/about");
    let bare = LinkAuditConfig { root_dir: "/site", current_file: "/", skip_patterns: &[] };
    assert_eq!(link_target("x.html", &bare), "/site/x.html");
}

#[test]
fn target_probes_the_disk() {
    assert!(target_exists("/tmp"));
    assert!(!target_exists("/nonexistent-root-xyz/none"));
}

#[test]
fn target_candidates_in_order() {
    assert_eq!(
        target_candidates("/site/docs"),
        vec!["/site/docs".to_string(), "/site/docs.html".to_string(), "/site/docs/index.html".to_string()]
    );
}

#[test]
fn html_file_report_drops_ignored_rules() {
    let html = "<html><head><title>A title of a fair length</title></head><body><h1>H</h1><img src=\"/a.png\" alt=\"x\"></body></html>";
    let options = AuditOptions {
        skip_link_patterns: vec![],
        ignore_rules: vec!["IMG_MISSING_DIMENSIONS".to_string(), "SEO_MISSING_OG_TITLE".to_string()],
    };
    let report = audit_html_file("/site/blog/post.html", "/site", html, &options).unwrap();
    assert_eq!(report.url_path, "/blog/post.html");
    assert_eq!(report.file_path, "/site/blog/post.html");
    let c = codes(&report.issues);
    assert!(!c.contains(&"IMG_MISSING_DIMENSIONS".to_string()));
    assert!(!c.contains(&"SEO_MISSING_OG_TITLE".to_string()));
    assert!(c.contains(&"SEO_MISSING_OG_IMAGE".to_string()));
    assert!(c.contains(&"A11Y_MISSING_LANG".to_string()));
    assert_eq!(report.capo_score, CapoScore { inversions: 0, total_pairs: 0 });
    let all = audit_html_file("/site/blog/post.html", "/site", html, &AuditOptions::default()).unwrap();
    assert!(codes(&all.issues).contains(&"IMG_MISSING_DIMENSIONS".to_string()));
}

#[test]
fn url_paths() {
    assert_eq!(url_path("/site/index.html", "/site"), "/index.html");
    assert_eq!(url_path("/other/index.html", "/site"), "/other/index.html");
}

#[test]
fn default_options() {
    let o = AuditOptions::default();
    assert_eq!(o.skip_link_patterns, vec!["/cdn-cgi/".to_string(), "/api/".to_string()]);
    assert!(o.ignore_rules.is_empty());
}

#[test]
fn retain_keeps_order() {
    let mk = |code: &str| Issue {
        code: code.to_string(),
        category: Category::Seo,
        severity: Severity::Info,
        message: String::new(),
        selector: None,
    };
    let kept = retain_unignored(vec![mk("A"), mk("B"), mk("A"), mk("C")], &vec!["A".to_string()]);
    assert_eq!(codes(&kept), vec!["B", "C"]);
    let all = retain_unignored(vec![mk("A"), mk("B")], &vec![]);
    assert_eq!(codes(&all), vec!["A", "B"]);
}

#[test]
fn comma_lists() {
    assert_eq!(parse_comma_list(" /cdn-cgi/ , ,/api/,,"), vec!["/cdn-cgi/".to_string(), "/api/".to_string()]);
    assert!(parse_comma_list("").is_empty());
    assert_eq!(parse_comma_list("one"), vec!["one".to_string()]);
}

#[test]
fn html_extensions() {
    assert!(is_html_extension("html"));
    assert!(is_html_extension("HTM"));
    assert!(is_html_extension("HtMl"));
    assert!(!is_html_extension("xhtml"));
    assert!(!is_html_extension("php"));
}

#[test]
fn report_formats_and_annotations() {
    assert_eq!(ReportFormat::from_name("JSON"), ReportFormat::Json);
    assert_eq!(ReportFormat::from_name("GitHub"), ReportFormat::Github);
    assert_eq!(ReportFormat::from_name("plain"), ReportFormat::Terminal);
    let issue = Issue {
        code: "SEO_MISSING_H1".to_string(),
        category: Category::Seo,
        severity: Severity::Error,
        message: "Page has no <h1> heading".to_string(),
        selector: Some("body".to_string()),
    };
    assert_eq!(github_annotation("dist/index.html", &issue), "::error file=dist/index.html::[SEO_MISSING_H1] Page has no <h1> heading");
}

#[test]
fn report_counts() {
    let mk = |severity: Severity| Issue {
        code: "X".to_string(),
        category: Category::Seo,
        severity,
        message: String::new(),
        selector: None,
    };
    let a = PageAuditReport {
        file_path: "a.html".to_string(),
        url_path: "/a.html".to_string(),
        issues: vec![mk(Severity::Error), mk(Severity::Warning), mk(Severity::Warning), mk(Severity::Info)],
        capo_score: CapoScore { inversions: 0, total_pairs: 0 },
    };
    let b = PageAuditReport {
        file_path: "b.html".to_string(),
        url_path: "/b.html".to_string(),
        issues: vec![mk(Severity::Warning)],
        capo_score: CapoScore { inversions: 0, total_pairs: 0 },
    };
    assert_eq!(a.errors_count(), 1);
    assert_eq!(a.warnings_count(), 2);
    assert!(page_is_listed(&a, false));
    assert!(!page_is_listed(&b, false));
    assert!(page_is_listed(&b, true));
    let reports = vec![a, b];
    assert_eq!(total_count(&reports, Severity::Error), 1);
    assert_eq!(total_count(&reports, Severity::Warning), 3);
    assert_eq!(total_count(&reports, Severity::Info), 1);
    assert!(strict_failure(true, 1));
    assert!(!strict_failure(true, 0));
    assert!(!strict_failure(false, 5));
}

#[test]
fn text_helpers() {
    assert_eq!(trim("\u{3000}\t a b \u{2029}"), "a b");
    assert_eq!(decimal_string(0), "0");
    assert_eq!(decimal_string(1207), "1207");
}

#[test]
fn unparsable_label_selector_stops_the_page() {
    let html = "<html><head></head><body><input id='a\"b'></body></html>";
    let doc = Document::parse_document(html);
    assert!(!labels_can_be_looked_up(&doc));
    assert!(audit_html_file("/site/x.html", "/site", html, &AuditOptions::default()).is_none());
    let fine = Document::parse_document("<html><body><input id='ab'></body></html>");
    assert!(labels_can_be_looked_up(&fine));
}

#[test]
fn named_control_with_odd_id_is_audited() {
    let html = "<html lang=\"en\"><head></head><body><input aria-label=\"Phone\" id='a\"b'><input title=\"T\" id='c\"d'></body></html>";
    let doc = Document::parse_document(html);
    assert!(labels_can_be_looked_up(&doc));
    assert!(audit_a11y(&doc).is_empty());
    assert!(audit_html_file("/site/x.html", "/site", html, &AuditOptions::default()).is_some());
}

#[test]
fn svg_with_label_names_a_button() {
    let doc = page("", "<button><svg aria-label=\"Close\"><path d=\"M0\"></path></svg></button><button><svg aria-label=\" \"></svg></button>");
    let issues = audit_a11y(&doc);
    assert_eq!(codes(&issues), vec!["A11Y_EMPTY_BUTTON"]);
    assert_eq!(issues[0].message, "Button containing SVG lacks an accessible name / text label (WCAG 4.1.2)");
}

#[test]
fn twitter_card_and_canonical_format() {
    let head = "<title>A title of a fair length for the page</title><meta name=\"viewport\" content=\"w\"><meta name=\"description\" content=\"A description that is long enough to pass the minimum length check.\"><meta property=\"og:title\" content=\"t\"><meta property=\"og:image\" content=\"i\">";
    let doc = page(&format!("{}<link rel=\"canonical\" href=\"/about\">", head), "<h1>H</h1>");
    let issues = audit_seo(&doc);
    assert_eq!(codes(&issues), vec!["SEO_INVALID_CANONICAL", "SEO_MISSING_TWITTER_CARD"]);
    assert_eq!(issues[0].message, "Canonical URL is not an absolute http(s) URL: \"/about\"");
    assert_eq!(issues[0].severity, Severity::Warning);
    assert_eq!(issues[1].message, "Missing Twitter Card (twitter:*) metadata tags");
    assert_eq!(issues[1].severity, Severity::Info);
    let doc = page(&format!("{}<link rel=\"canonical\" href=\"https://x.org/\"><meta property=\"twitter:title\" content=\"t\">", head), "<h1>H</h1>");
    assert!(audit_seo(&doc).is_empty());
    let doc = page(&format!("{}<link rel=\"canonical\" href=\"https://\"><meta name=\"TWITTER:card\" content=\"s\">", head), "<h1>H</h1>");
    assert_eq!(codes(&audit_seo(&doc)), vec!["SEO_INVALID_CANONICAL"]);
}

#[test]
fn findings_belong_to_their_families() {
    let doc = Document::parse_document("<html><head></head><body><img src=a.png><a href=\"\"></a><a href=\"/x\"></a></body></html>");
    assert!(audit_seo(&doc).iter().all(|i| i.category == Category::Seo));
    assert!(audit_a11y(&doc).iter().all(|i| i.category == Category::A11y));
    let cfg = LinkAuditConfig { root_dir: "/nonexistent-root-xyz", current_file: "/nonexistent-root-xyz/a.html", skip_patterns: &[] };
    assert!(audit_links(&doc, &cfg)
        .iter()
        .all(|i| i.category == Category::Links || (i.category == Category::A11y && i.code == "LINK_EMPTY_TEXT")));
    let (_, capo) = audit_capo("<html><head><script src=a.js></script><meta charset=utf-8></head></html>");
    assert!(!capo.is_empty());
    assert!(capo.iter().all(|i| i.category == Category::Capo && i.severity == Severity::Warning));
}

#[test]
fn optimal_order_has_no_inversions() {
    let html = "<html><head><meta charset=utf-8><meta name=viewport><title>T</title><link rel=preconnect href=x><script async src=a.js></script><link rel=stylesheet href=s.css><script defer src=b.js></script></head></html>";
    let els = parse_head_elements(html);
    assert_eq!(els.len(), 7);
    let score = calculate_capo_score(&els);
    assert_eq!(score, CapoScore { inversions: 0, total_pairs: 21 });
}

#[test]
fn target_verdict_from_disk_answers() {
    assert!(!found_among(&vec![false, false, false], false));
    assert!(found_among(&vec![false, true, false], false));
    assert!(found_among(&vec![false, false, true], false));
    assert!(found_among(&vec![false, false, false], true));
    let (hits, entry, found) = target_lookup("/nonexistent-root-xyz/none");
    assert_eq!(hits, vec![false, false, false]);
    assert!(!entry);
    assert!(!found);
    let (hits, entry, found) = target_lookup("/tmp");
    assert_eq!(hits.len(), 3);
    assert!(entry);
    assert!(found);
}

#[test]
fn ascii_case_does_not_change_priority() {
    let pairs = [
        ("<meta charset=\"utf-8\">", CapoPriority::MetaCharset),
        ("<link rel=\"stylesheet\" href=\"a.css\">", CapoPriority::SyncStyles),
        ("<script src=\"a.js\"></script>", CapoPriority::SyncScript),
        ("<script defer src=\"a.js\"></script>", CapoPriority::DeferScript),
    ];
    for (raw, p) in pairs {
        assert_eq!(classify_element(raw, 0).priority, p);
        assert_eq!(classify_element(&raw.to_ascii_uppercase(), 0).priority, p);
    }
}
