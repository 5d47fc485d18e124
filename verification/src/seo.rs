use vstd::prelude::*;

use crate::html::{Document, Element, ElementView, attr_of, attr_or_empty, css_select, select_elements};
use crate::models::{Category, Issue, IssueView, Severity, concat3, finding, has_code, make_issue, owned, push_issue};
use crate::text::{decimal, decimal_string, starts_with, trim, trimmed};

verus! {

/// The findings on the `<title>` elements of `<head>`.
pub open spec fn title_findings(titles: Seq<ElementView>) -> Seq<IssueView> {
    if titles.len() == 0 {
        seq![finding("SEO_MISSING_TITLE"@, Category::Seo, Severity::Error, "Missing <title> tag in <head>"@, "head"@)]
    } else {
        let many = if titles.len() > 1 {
            seq![finding("SEO_MULTIPLE_TITLES"@, Category::Seo, Severity::Warning,
                "Multiple ("@ + decimal(titles.len()) + "x) <title> tags found in <head>"@, "head > title"@)]
        } else {
            seq![]
        };
        let t = trimmed(titles[0].text);
        let n = t.len();
        many + if t.len() == 0 {
            seq![finding("SEO_EMPTY_TITLE"@, Category::Seo, Severity::Error, "<title> tag is empty"@, "head > title"@)]
        } else if n < 30 {
            seq![finding("SEO_TITLE_TOO_SHORT"@, Category::Seo, Severity::Warning,
                "<title> is very short ("@ + decimal(n) + " chars). Recommended 30–65 chars: \""@ + t + "\""@,
                "head > title"@)]
        } else if n > 65 {
            seq![finding("SEO_TITLE_TOO_LONG"@, Category::Seo, Severity::Warning,
                "<title> exceeds 65 chars ("@ + decimal(n) + " chars) and will likely be truncated in SERPs"@,
                "head > title"@)]
        } else {
            seq![]
        }
    }
}

/// The findings on the description `<meta>` elements of `<head>`.
pub open spec fn description_findings(descs: Seq<ElementView>) -> Seq<IssueView> {
    if descs.len() == 0 {
        seq![finding("SEO_MISSING_DESCRIPTION"@, Category::Seo, Severity::Warning, "Missing meta description tag in <head>"@, "head"@)]
    } else {
        let many = if descs.len() > 1 {
            seq![finding("SEO_MULTIPLE_DESCRIPTIONS"@, Category::Seo, Severity::Warning,
                "Multiple ("@ + decimal(descs.len()) + "x) meta descriptions found in <head>"@,
                "meta[name=\"description\"]"@)]
        } else {
            seq![]
        };
        many + match attr_of(descs[0], "content"@) {
            None => seq![],
            Some(c) => {
                let t = trimmed(c);
                let n = t.len();
                if t.len() == 0 {
                    seq![finding("SEO_EMPTY_DESCRIPTION"@, Category::Seo, Severity::Error,
                        "Meta description content is empty"@, "meta[name=\"description\"]"@)]
                } else if n < 50 {
                    seq![finding("SEO_DESCRIPTION_TOO_SHORT"@, Category::Seo, Severity::Warning,
                        "Meta description is very short ("@ + decimal(n) + " chars). Recommended 50–160 chars."@,
                        "meta[name=\"description\"]"@)]
                } else if n > 160 {
                    seq![finding("SEO_DESCRIPTION_TOO_LONG"@, Category::Seo, Severity::Warning,
                        "Meta description exceeds 160 chars ("@ + decimal(n) + " chars) and will be truncated by Google"@,
                        "meta[name=\"description\"]"@)]
                } else {
                    seq![]
                }
            },
        }
    }
}

/// Whether a URL is absolute with an `http` or `https` scheme and a host part
/// after the `//`.
pub open spec fn is_absolute_http_url(u: Seq<char>) -> bool {
    ("http://"@.is_prefix_of(u) && u.len() > 7) || ("https://"@.is_prefix_of(u) && u.len() > 8)
}

/// The findings on the canonical `<link>` elements of `<head>`: none, several,
/// an empty `href`, or one that is not an absolute http(s) URL.
pub open spec fn canonical_findings(links: Seq<ElementView>) -> Seq<IssueView> {
    if links.len() == 0 {
        seq![finding("SEO_MISSING_CANONICAL"@, Category::Seo, Severity::Warning,
            "Missing <link rel=\"canonical\"> tag in <head>"@, "head"@)]
    } else {
        let many = if links.len() > 1 {
            seq![finding("SEO_MULTIPLE_CANONICALS"@, Category::Seo, Severity::Error,
                "Multiple ("@ + decimal(links.len()) + "x) canonical tags found"@, "link[rel=\"canonical\"]"@)]
        } else {
            seq![]
        };
        let href = trimmed(attr_or_empty(links[0], "href"@));
        many + if href.len() == 0 {
            seq![finding("SEO_EMPTY_CANONICAL"@, Category::Seo, Severity::Error,
                "Canonical href attribute is empty"@, "link[rel=\"canonical\"]"@)]
        } else if !is_absolute_http_url(href) {
            seq![finding("SEO_INVALID_CANONICAL"@, Category::Seo, Severity::Warning,
                "Canonical URL is not an absolute http(s) URL: \""@ + href + "\""@, "link[rel=\"canonical\"]"@)]
        } else {
            seq![]
        }
    }
}

/// The finding on a missing viewport `<meta>`.
pub open spec fn viewport_findings(viewports: Seq<ElementView>) -> Seq<IssueView> {
    if viewports.len() == 0 {
        seq![finding("SEO_MISSING_VIEWPORT"@, Category::Seo, Severity::Error, "Missing mobile viewport meta tag"@, "head"@)]
    } else {
        seq![]
    }
}

/// The findings on the `<h1>` headings of the page.
pub open spec fn heading_findings(headings: Seq<ElementView>) -> Seq<IssueView> {
    if headings.len() == 0 {
        seq![finding("SEO_MISSING_H1"@, Category::Seo, Severity::Error, "Page has no <h1> heading"@, "body"@)]
    } else if headings.len() > 1 {
        seq![finding("SEO_MULTIPLE_H1"@, Category::Seo, Severity::Warning,
            "Page contains "@ + decimal(headings.len()) + "x <h1> tags (recommended: exactly 1 per page)"@, "h1"@)]
    } else {
        seq![]
    }
}

/// The findings on missing Open Graph title and image tags.
pub open spec fn open_graph_findings(og_titles: Seq<ElementView>, og_images: Seq<ElementView>) -> Seq<IssueView> {
    (if og_titles.len() == 0 {
        seq![finding("SEO_MISSING_OG_TITLE"@, Category::Seo, Severity::Info, "Missing og:title social metadata tag"@, "head"@)]
    } else {
        seq![]
    }) + (if og_images.len() == 0 {
        seq![finding("SEO_MISSING_OG_IMAGE"@, Category::Seo, Severity::Info, "Missing og:image social card image tag"@, "head"@)]
    } else {
        seq![]
    })
}

/// The finding on a page whose `<head>` holds no Twitter Card (`twitter:*`) tag.
pub open spec fn twitter_card_findings(cards: Seq<ElementView>) -> Seq<IssueView> {
    if cards.len() == 0 {
        seq![finding("SEO_MISSING_TWITTER_CARD"@, Category::Seo, Severity::Info,
            "Missing Twitter Card (twitter:*) metadata tags"@, "head"@)]
    } else {
        seq![]
    }
}

/// The selector of the Twitter Card tags of `<head>`.
pub open spec fn twitter_card_selector() -> Seq<char> {
    "head > meta[name^=\"twitter:\" i], head > meta[property^=\"twitter:\" i]"@
}

/// All SEO findings, in the order the checks run.
pub open spec fn seo_issues(
    titles: Seq<ElementView>,
    descriptions: Seq<ElementView>,
    canonicals: Seq<ElementView>,
    viewports: Seq<ElementView>,
    headings: Seq<ElementView>,
    og_titles: Seq<ElementView>,
    og_images: Seq<ElementView>,
    twitter_cards: Seq<ElementView>,
) -> Seq<IssueView> {
    title_findings(titles) + description_findings(descriptions) + canonical_findings(canonicals)
        + viewport_findings(viewports) + heading_findings(headings) + open_graph_findings(og_titles, og_images)
        + twitter_card_findings(twitter_cards)
}

/// The SEO findings of a page, from what scraper selects of it.
pub open spec fn page_seo_issues(page: Seq<char>) -> Seq<IssueView> {
    seo_issues(
        css_select(page, "head > title"@),
        css_select(page, "head > meta[name=\"description\" i]"@),
        css_select(page, "head > link[rel=\"canonical\" i]"@),
        css_select(page, "head > meta[name=\"viewport\" i]"@),
        css_select(page, "h1"@),
        css_select(page, "head > meta[property=\"og:title\" i]"@),
        css_select(page, "head > meta[property=\"og:image\" i]"@),
        css_select(page, twitter_card_selector()),
    )
}

/// A message made of a text, a number and a text.
fn count_message(before: &str, n: usize, after: &str) -> (m: String)
    ensures
        m@ == before@ + decimal(n as nat) + after@,
{
    let d = decimal_string(n);
    concat3(before, d.as_str(), after)
}

fn check_titles(issues: &mut Vec<Issue>, titles: &Vec<Element>)
    ensures
        final(issues).deep_view() == old(issues).deep_view() + title_findings(titles.deep_view()),
{
    let ghost start = issues.deep_view();
    let ghost tv = titles.deep_view();
    if titles.len() == 0 {
        push_issue(issues, make_issue("SEO_MISSING_TITLE", Category::Seo, Severity::Error,
            owned("Missing <title> tag in <head>"), owned("head")));
        assert(issues.deep_view() =~= start + title_findings(tv));
        return;
    }
    if titles.len() > 1 {
        push_issue(issues, make_issue("SEO_MULTIPLE_TITLES", Category::Seo, Severity::Warning,
            count_message("Multiple (", titles.len(), "x) <title> tags found in <head>"), owned("head > title")));
    }
    let ghost mid = issues.deep_view();
    let t = trim(titles[0].text.as_str());
    let n = t.as_str().unicode_len();
    if t.as_str().is_empty() {
        push_issue(issues, make_issue("SEO_EMPTY_TITLE", Category::Seo, Severity::Error,
            owned("<title> tag is empty"), owned("head > title")));
    } else if n < 30 {
        let mut m = count_message("<title> is very short (", n, " chars). Recommended 30–65 chars: \"");
        m.append(t.as_str());
        m.append("\"");
        push_issue(issues, make_issue("SEO_TITLE_TOO_SHORT", Category::Seo, Severity::Warning, m, owned("head > title")));
    } else if n > 65 {
        push_issue(issues, make_issue("SEO_TITLE_TOO_LONG", Category::Seo, Severity::Warning,
            count_message("<title> exceeds 65 chars (", n, " chars) and will likely be truncated in SERPs"),
            owned("head > title")));
    }
    assert(issues.deep_view() =~= start + title_findings(tv));
}

fn check_descriptions(issues: &mut Vec<Issue>, descs: &Vec<Element>)
    ensures
        final(issues).deep_view() == old(issues).deep_view() + description_findings(descs.deep_view()),
{
    let ghost start = issues.deep_view();
    let ghost dv = descs.deep_view();
    if descs.len() == 0 {
        push_issue(issues, make_issue("SEO_MISSING_DESCRIPTION", Category::Seo, Severity::Warning,
            owned("Missing meta description tag in <head>"), owned("head")));
        assert(issues.deep_view() =~= start + description_findings(dv));
        return;
    }
    if descs.len() > 1 {
        push_issue(issues, make_issue("SEO_MULTIPLE_DESCRIPTIONS", Category::Seo, Severity::Warning,
            count_message("Multiple (", descs.len(), "x) meta descriptions found in <head>"),
            owned("meta[name=\"description\"]")));
    }
    match descs[0].attr("content") {
        None => {},
        Some(c) => {
            let t = trim(c.as_str());
            let n = t.as_str().unicode_len();
            if t.as_str().is_empty() {
                push_issue(issues, make_issue("SEO_EMPTY_DESCRIPTION", Category::Seo, Severity::Error,
                    owned("Meta description content is empty"), owned("meta[name=\"description\"]")));
            } else if n < 50 {
                push_issue(issues, make_issue("SEO_DESCRIPTION_TOO_SHORT", Category::Seo, Severity::Warning,
                    count_message("Meta description is very short (", n, " chars). Recommended 50–160 chars."),
                    owned("meta[name=\"description\"]")));
            } else if n > 160 {
                push_issue(issues, make_issue("SEO_DESCRIPTION_TOO_LONG", Category::Seo, Severity::Warning,
                    count_message("Meta description exceeds 160 chars (", n, " chars) and will be truncated by Google"),
                    owned("meta[name=\"description\"]")));
            }
        },
    }
    assert(issues.deep_view() =~= start + description_findings(dv));
}

fn check_canonicals(issues: &mut Vec<Issue>, links: &Vec<Element>)
    ensures
        final(issues).deep_view() == old(issues).deep_view() + canonical_findings(links.deep_view()),
{
    let ghost start = issues.deep_view();
    let ghost lv = links.deep_view();
    if links.len() == 0 {
        push_issue(issues, make_issue("SEO_MISSING_CANONICAL", Category::Seo, Severity::Warning,
            owned("Missing <link rel=\"canonical\"> tag in <head>"), owned("head")));
        assert(issues.deep_view() =~= start + canonical_findings(lv));
        return;
    }
    if links.len() > 1 {
        push_issue(issues, make_issue("SEO_MULTIPLE_CANONICALS", Category::Seo, Severity::Error,
            count_message("Multiple (", links.len(), "x) canonical tags found"), owned("link[rel=\"canonical\"]")));
    }
    let href = links[0].trimmed_attr("href");
    let n = href.as_str().unicode_len();
    if href.as_str().is_empty() {
        push_issue(issues, make_issue("SEO_EMPTY_CANONICAL", Category::Seo, Severity::Error,
            owned("Canonical href attribute is empty"), owned("link[rel=\"canonical\"]")));
    } else if !((starts_with(href.as_str(), "http://") && n > 7) || (starts_with(href.as_str(), "https://") && n > 8)) {
        push_issue(issues, make_issue("SEO_INVALID_CANONICAL", Category::Seo, Severity::Warning,
            concat3("Canonical URL is not an absolute http(s) URL: \"", href.as_str(), "\""),
            owned("link[rel=\"canonical\"]")));
    }
    assert(issues.deep_view() =~= start + canonical_findings(lv));
}

fn check_social(issues: &mut Vec<Issue>, og_titles: &Vec<Element>, og_images: &Vec<Element>, twitter_cards: &Vec<Element>)
    ensures
        final(issues).deep_view() == old(issues).deep_view() + open_graph_findings(og_titles.deep_view(), og_images.deep_view())
            + twitter_card_findings(twitter_cards.deep_view()),
{
    let ghost start = issues.deep_view();
    let ghost before_og = issues.deep_view();
    if og_titles.len() == 0 {
        push_issue(issues, make_issue("SEO_MISSING_OG_TITLE", Category::Seo, Severity::Info,
            owned("Missing og:title social metadata tag"), owned("head")));
    }
    if og_images.len() == 0 {
        push_issue(issues, make_issue("SEO_MISSING_OG_IMAGE", Category::Seo, Severity::Info,
            owned("Missing og:image social card image tag"), owned("head")));
    }
    assert(issues.deep_view() =~= before_og + open_graph_findings(og_titles.deep_view(), og_images.deep_view()));
    let ghost before_tw = issues.deep_view();
    if twitter_cards.len() == 0 {
        push_issue(issues, make_issue("SEO_MISSING_TWITTER_CARD", Category::Seo, Severity::Info,
            owned("Missing Twitter Card (twitter:*) metadata tags"), owned("head")));
    }
    assert(issues.deep_view() =~= before_tw + twitter_card_findings(twitter_cards.deep_view()));
    assert(issues.deep_view() =~= start + open_graph_findings(og_titles.deep_view(), og_images.deep_view())
        + twitter_card_findings(twitter_cards.deep_view()));
}

/// The SEO findings for the elements that the page's selectors picked, in the
/// order the checks run: title, description, canonical link, viewport, `<h1>`,
/// Open Graph title and image, Twitter Card.
pub fn seo_findings(
    titles: &Vec<Element>,
    descriptions: &Vec<Element>,
    canonicals: &Vec<Element>,
    viewports: &Vec<Element>,
    headings: &Vec<Element>,
    og_titles: &Vec<Element>,
    og_images: &Vec<Element>,
    twitter_cards: &Vec<Element>,
) -> (issues: Vec<Issue>)
    ensures
        issues.deep_view() == seo_issues(titles.deep_view(), descriptions.deep_view(), canonicals.deep_view(),
            viewports.deep_view(), headings.deep_view(), og_titles.deep_view(), og_images.deep_view(),
            twitter_cards.deep_view()),
{
    let mut issues: Vec<Issue> = Vec::new();
    check_titles(&mut issues, titles);
    check_descriptions(&mut issues, descriptions);
    check_canonicals(&mut issues, canonicals);
    let ghost before_vp = issues.deep_view();
    if viewports.len() == 0 {
        push_issue(&mut issues, make_issue("SEO_MISSING_VIEWPORT", Category::Seo, Severity::Error,
            owned("Missing mobile viewport meta tag"), owned("head")));
    }
    assert(issues.deep_view() =~= before_vp + viewport_findings(viewports.deep_view()));
    let ghost before_h1 = issues.deep_view();
    if headings.len() == 0 {
        push_issue(&mut issues, make_issue("SEO_MISSING_H1", Category::Seo, Severity::Error,
            owned("Page has no <h1> heading"), owned("body")));
    } else if headings.len() > 1 {
        push_issue(&mut issues, make_issue("SEO_MULTIPLE_H1", Category::Seo, Severity::Warning,
            count_message("Page contains ", headings.len(), "x <h1> tags (recommended: exactly 1 per page)"),
            owned("h1")));
    }
    assert(issues.deep_view() =~= before_h1 + heading_findings(headings.deep_view()));
    let ghost before_social = issues.deep_view();
    check_social(&mut issues, og_titles, og_images, twitter_cards);
    assert(issues.deep_view() =~= before_social + open_graph_findings(og_titles.deep_view(), og_images.deep_view())
        + twitter_card_findings(twitter_cards.deep_view()));
    assert(issues.deep_view() =~= seo_issues(titles.deep_view(), descriptions.deep_view(), canonicals.deep_view(),
        viewports.deep_view(), headings.deep_view(), og_titles.deep_view(), og_images.deep_view(),
        twitter_cards.deep_view()));
    issues
}

/// The SEO audit of a page: title, meta description, canonical link, viewport,
/// `<h1>` count, Open Graph tags and Twitter Card tags.
pub fn audit_seo(document: &Document) -> (issues: Vec<Issue>)
    ensures
        issues.deep_view() == page_seo_issues(document@),
{
    let titles = select_elements(document, "head > title");
    let descriptions = select_elements(document, "head > meta[name=\"description\" i]");
    let canonicals = select_elements(document, "head > link[rel=\"canonical\" i]");
    let viewports = select_elements(document, "head > meta[name=\"viewport\" i]");
    let headings = select_elements(document, "h1");
    let og_titles = select_elements(document, "head > meta[property=\"og:title\" i]");
    let og_images = select_elements(document, "head > meta[property=\"og:image\" i]");
    let twitter_cards = select_elements(
        document,
        "head > meta[name^=\"twitter:\" i], head > meta[property^=\"twitter:\" i]",
    );
    seo_findings(&titles, &descriptions, &canonicals, &viewports, &headings, &og_titles, &og_images, &twitter_cards)
}

/// The selector of the canonical links of `<head>`.
pub open spec fn canonical_selector() -> Seq<char> {
    "head > link[rel=\"canonical\" i]"@
}

proof fn lemma_other_codes_differ()
    ensures
        "SEO_MISSING_TITLE"@ != "SEO_MISSING_CANONICAL"@,
        "SEO_MULTIPLE_TITLES"@ != "SEO_MISSING_CANONICAL"@,
        "SEO_EMPTY_TITLE"@ != "SEO_MISSING_CANONICAL"@,
        "SEO_TITLE_TOO_SHORT"@ != "SEO_MISSING_CANONICAL"@,
        "SEO_TITLE_TOO_LONG"@ != "SEO_MISSING_CANONICAL"@,
        "SEO_MISSING_DESCRIPTION"@ != "SEO_MISSING_CANONICAL"@,
        "SEO_MULTIPLE_DESCRIPTIONS"@ != "SEO_MISSING_CANONICAL"@,
        "SEO_EMPTY_DESCRIPTION"@ != "SEO_MISSING_CANONICAL"@,
        "SEO_DESCRIPTION_TOO_SHORT"@ != "SEO_MISSING_CANONICAL"@,
        "SEO_DESCRIPTION_TOO_LONG"@ != "SEO_MISSING_CANONICAL"@,
        "SEO_MULTIPLE_CANONICALS"@ != "SEO_MISSING_CANONICAL"@,
        "SEO_EMPTY_CANONICAL"@ != "SEO_MISSING_CANONICAL"@,
        "SEO_INVALID_CANONICAL"@ != "SEO_MISSING_CANONICAL"@,
        "SEO_MISSING_VIEWPORT"@ != "SEO_MISSING_CANONICAL"@,
        "SEO_MISSING_H1"@ != "SEO_MISSING_CANONICAL"@,
        "SEO_MULTIPLE_H1"@ != "SEO_MISSING_CANONICAL"@,
        "SEO_MISSING_OG_TITLE"@ != "SEO_MISSING_CANONICAL"@,
        "SEO_MISSING_OG_IMAGE"@ != "SEO_MISSING_CANONICAL"@,
        "SEO_MISSING_TWITTER_CARD"@ != "SEO_MISSING_CANONICAL"@,
{
    reveal_strlit("SEO_MISSING_CANONICAL");
    reveal_strlit("SEO_MISSING_TITLE");
    assert("SEO_MISSING_TITLE"@.len() != "SEO_MISSING_CANONICAL"@.len());
    reveal_strlit("SEO_MULTIPLE_TITLES");
    assert("SEO_MULTIPLE_TITLES"@.len() != "SEO_MISSING_CANONICAL"@.len());
    reveal_strlit("SEO_EMPTY_TITLE");
    assert("SEO_EMPTY_TITLE"@.len() != "SEO_MISSING_CANONICAL"@.len());
    reveal_strlit("SEO_TITLE_TOO_SHORT");
    assert("SEO_TITLE_TOO_SHORT"@.len() != "SEO_MISSING_CANONICAL"@.len());
    reveal_strlit("SEO_TITLE_TOO_LONG");
    assert("SEO_TITLE_TOO_LONG"@.len() != "SEO_MISSING_CANONICAL"@.len());
    reveal_strlit("SEO_MISSING_DESCRIPTION");
    assert("SEO_MISSING_DESCRIPTION"@.len() != "SEO_MISSING_CANONICAL"@.len());
    reveal_strlit("SEO_MULTIPLE_DESCRIPTIONS");
    assert("SEO_MULTIPLE_DESCRIPTIONS"@.len() != "SEO_MISSING_CANONICAL"@.len());
    reveal_strlit("SEO_EMPTY_DESCRIPTION");
    assert("SEO_EMPTY_DESCRIPTION"@[4] != "SEO_MISSING_CANONICAL"@[4]);
    reveal_strlit("SEO_DESCRIPTION_TOO_SHORT");
    assert("SEO_DESCRIPTION_TOO_SHORT"@.len() != "SEO_MISSING_CANONICAL"@.len());
    reveal_strlit("SEO_DESCRIPTION_TOO_LONG");
    assert("SEO_DESCRIPTION_TOO_LONG"@.len() != "SEO_MISSING_CANONICAL"@.len());
    reveal_strlit("SEO_MULTIPLE_CANONICALS");
    assert("SEO_MULTIPLE_CANONICALS"@.len() != "SEO_MISSING_CANONICAL"@.len());
    reveal_strlit("SEO_EMPTY_CANONICAL");
    assert("SEO_EMPTY_CANONICAL"@.len() != "SEO_MISSING_CANONICAL"@.len());
    reveal_strlit("SEO_INVALID_CANONICAL");
    assert("SEO_INVALID_CANONICAL"@[4] != "SEO_MISSING_CANONICAL"@[4]);
    reveal_strlit("SEO_MISSING_VIEWPORT");
    assert("SEO_MISSING_VIEWPORT"@.len() != "SEO_MISSING_CANONICAL"@.len());
    reveal_strlit("SEO_MISSING_H1");
    assert("SEO_MISSING_H1"@.len() != "SEO_MISSING_CANONICAL"@.len());
    reveal_strlit("SEO_MULTIPLE_H1");
    assert("SEO_MULTIPLE_H1"@.len() != "SEO_MISSING_CANONICAL"@.len());
    reveal_strlit("SEO_MISSING_OG_TITLE");
    assert("SEO_MISSING_OG_TITLE"@.len() != "SEO_MISSING_CANONICAL"@.len());
    reveal_strlit("SEO_MISSING_OG_IMAGE");
    assert("SEO_MISSING_OG_IMAGE"@.len() != "SEO_MISSING_CANONICAL"@.len());
    reveal_strlit("SEO_MISSING_TWITTER_CARD");
    assert("SEO_MISSING_TWITTER_CARD"@.len() != "SEO_MISSING_CANONICAL"@.len());
}

/// The findings on titles and descriptions never report a missing canonical link.
proof fn lemma_title_description_codes(titles: Seq<ElementView>, descs: Seq<ElementView>)
    ensures
        forall|j: int| 0 <= j < title_findings(titles).len() ==> (#[trigger] title_findings(titles)[j]).code
            != "SEO_MISSING_CANONICAL"@,
        forall|j: int| 0 <= j < description_findings(descs).len() ==> (#[trigger] description_findings(descs)[j]).code
            != "SEO_MISSING_CANONICAL"@,
{
    lemma_other_codes_differ();
    let t = title_findings(titles);
    let d = description_findings(descs);
    assert forall|j: int| 0 <= j < t.len() implies (#[trigger] t[j]).code != "SEO_MISSING_CANONICAL"@ by {
        if titles.len() > 0 {
            let many = if titles.len() > 1 {
                seq![finding("SEO_MULTIPLE_TITLES"@, Category::Seo, Severity::Warning,
                    "Multiple ("@ + decimal(titles.len()) + "x) <title> tags found in <head>"@, "head > title"@)]
            } else {
                seq![]
            };
            let rest = t.subrange(many.len() as int, t.len() as int);
            assert(t =~= many + rest);
            if j < many.len() {
                assert(t[j] == many[j]);
            } else {
                assert(t[j] == rest[j - many.len()]);
            }
        }
    }
    assert forall|j: int| 0 <= j < d.len() implies (#[trigger] d[j]).code != "SEO_MISSING_CANONICAL"@ by {
        if descs.len() > 0 {
            let many = if descs.len() > 1 {
                seq![finding("SEO_MULTIPLE_DESCRIPTIONS"@, Category::Seo, Severity::Warning,
                    "Multiple ("@ + decimal(descs.len()) + "x) meta descriptions found in <head>"@,
                    "meta[name=\"description\"]"@)]
            } else {
                seq![]
            };
            let rest = d.subrange(many.len() as int, d.len() as int);
            assert(d =~= many + rest);
            if j < many.len() {
                assert(d[j] == many[j]);
            } else {
                assert(d[j] == rest[j - many.len()]);
            }
        }
    }
}

/// The findings that follow the canonical check never report a missing canonical link.
proof fn lemma_later_codes(
    viewports: Seq<ElementView>,
    headings: Seq<ElementView>,
    og_titles: Seq<ElementView>,
    og_images: Seq<ElementView>,
    cards: Seq<ElementView>,
)
    ensures
        ({
            let after = viewport_findings(viewports) + heading_findings(headings) + open_graph_findings(og_titles, og_images)
                + twitter_card_findings(cards);
            forall|j: int| 0 <= j < after.len() ==> (#[trigger] after[j]).code != "SEO_MISSING_CANONICAL"@
        }),
{
    lemma_other_codes_differ();
    let v = viewport_findings(viewports);
    let h = heading_findings(headings);
    let w = twitter_card_findings(cards);
    let o1 = if og_titles.len() == 0 {
        seq![finding("SEO_MISSING_OG_TITLE"@, Category::Seo, Severity::Info, "Missing og:title social metadata tag"@, "head"@)]
    } else {
        seq![]
    };
    let o2 = if og_images.len() == 0 {
        seq![finding("SEO_MISSING_OG_IMAGE"@, Category::Seo, Severity::Info, "Missing og:image social card image tag"@, "head"@)]
    } else {
        seq![]
    };
    assert(open_graph_findings(og_titles, og_images) == o1 + o2);
    let after = v + h + open_graph_findings(og_titles, og_images) + w;
    let parts = v + h + o1 + o2 + w;
    assert(after =~= parts);
    assert forall|j: int| 0 <= j < parts.len() implies (#[trigger] parts[j]).code != "SEO_MISSING_CANONICAL"@ by {
        if j < v.len() {
            assert(parts[j] == v[j]);
        } else if j < v.len() + h.len() {
            assert(parts[j] == h[j - v.len()]);
        } else if j < v.len() + h.len() + o1.len() {
            assert(parts[j] == o1[j - v.len() - h.len()]);
        } else if j < v.len() + h.len() + o1.len() + o2.len() {
            assert(parts[j] == o2[j - v.len() - h.len() - o1.len()]);
        } else {
            assert(parts[j] == w[j - v.len() - h.len() - o1.len() - o2.len()]);
        }
    }
}

/// The canonical findings report a missing canonical link exactly at their
/// start, and exactly when there is no canonical link.
proof fn lemma_canonical_codes(links: Seq<ElementView>)
    ensures
        forall|j: int| 0 <= j < canonical_findings(links).len() ==> ((#[trigger] canonical_findings(links)[j]).code
            == "SEO_MISSING_CANONICAL"@ <==> links.len() == 0 && j == 0),
        links.len() == 0 ==> canonical_findings(links).len() == 1,
{
    lemma_other_codes_differ();
    let c = canonical_findings(links);
    if links.len() > 0 {
        let many = if links.len() > 1 {
            seq![finding("SEO_MULTIPLE_CANONICALS"@, Category::Seo, Severity::Error,
                "Multiple ("@ + decimal(links.len()) + "x) canonical tags found"@, "link[rel=\"canonical\"]"@)]
        } else {
            seq![]
        };
        let rest = c.subrange(many.len() as int, c.len() as int);
        assert(c =~= many + rest);
        assert forall|j: int| 0 <= j < c.len() implies (#[trigger] c[j]).code != "SEO_MISSING_CANONICAL"@ by {
            if j < many.len() {
                assert(c[j] == many[j]);
            } else {
                assert(c[j] == rest[j - many.len()]);
            }
        }
    }
}

/// A page gets the finding on a missing canonical link exactly when its
/// `<head>` holds no canonical link, and then only once.
pub proof fn lemma_missing_canonical_iff(page: Seq<char>)
    ensures
        has_code(page_seo_issues(page), "SEO_MISSING_CANONICAL"@) <==> css_select(page, canonical_selector()).len() == 0,
        forall|i: int, j: int| 0 <= i < j < page_seo_issues(page).len() && (#[trigger] page_seo_issues(page)[i]).code
            == "SEO_MISSING_CANONICAL"@ ==> (#[trigger] page_seo_issues(page)[j]).code != "SEO_MISSING_CANONICAL"@,
{
    let code: Seq<char> = "SEO_MISSING_CANONICAL"@;
    let titles = css_select(page, "head > title"@);
    let descs = css_select(page, "head > meta[name=\"description\" i]"@);
    let links = css_select(page, canonical_selector());
    let t = title_findings(titles);
    let d = description_findings(descs);
    let c = canonical_findings(links);
    let after = viewport_findings(css_select(page, "head > meta[name=\"viewport\" i]"@)) + heading_findings(
        css_select(page, "h1"@),
    ) + open_graph_findings(css_select(page, "head > meta[property=\"og:title\" i]"@),
        css_select(page, "head > meta[property=\"og:image\" i]"@)) + twitter_card_findings(
        css_select(page, twitter_card_selector()),
    );
    lemma_title_description_codes(titles, descs);
    lemma_canonical_codes(links);
    lemma_later_codes(css_select(page, "head > meta[name=\"viewport\" i]"@), css_select(page, "h1"@),
        css_select(page, "head > meta[property=\"og:title\" i]"@),
        css_select(page, "head > meta[property=\"og:image\" i]"@), css_select(page, twitter_card_selector()));
    let all = page_seo_issues(page);
    assert(all =~= t + d + c + after);
    let n0: int = (t.len() + d.len()) as int;
    assert forall|j: int| 0 <= j < all.len() implies ((#[trigger] all[j]).code == code <==> (links.len() == 0 && j
        == n0)) by {
        if j < t.len() {
            assert(all[j] == t[j]);
        } else if j < n0 {
            assert(all[j] == d[j - t.len()]);
        } else if j < n0 + c.len() {
            assert(all[j] == c[j - n0]);
        } else {
            assert(all[j] == after[j - n0 - c.len()]);
        }
    }
    if links.len() == 0 {
        assert(all[n0].code == code);
    }
}

/// Whether every finding of `s` belongs to the family `c`.
pub open spec fn all_in_category(s: Seq<IssueView>, c: Category) -> bool {
    forall|j: int| 0 <= j < s.len() ==> (#[trigger] s[j]).category == c
}

/// The findings of two lists of one family are of that family together.
pub proof fn lemma_category_concat(a: Seq<IssueView>, b: Seq<IssueView>, c: Category)
    requires
        all_in_category(a, c),
        all_in_category(b, c),
    ensures
        all_in_category(a + b, c),
{
    assert forall|j: int| 0 <= j < (a + b).len() implies (#[trigger] (a + b)[j]).category == c by {
        if j < a.len() {
            assert((a + b)[j] == a[j]);
        } else {
            assert((a + b)[j] == b[j - a.len()]);
        }
    }
}

/// Every SEO finding belongs to the SEO family.
pub proof fn lemma_seo_findings_are_seo(
    titles: Seq<ElementView>,
    descriptions: Seq<ElementView>,
    canonicals: Seq<ElementView>,
    viewports: Seq<ElementView>,
    headings: Seq<ElementView>,
    og_titles: Seq<ElementView>,
    og_images: Seq<ElementView>,
    twitter_cards: Seq<ElementView>,
)
    ensures
        all_in_category(
            seo_issues(titles, descriptions, canonicals, viewports, headings, og_titles, og_images, twitter_cards),
            Category::Seo,
        ),
{
    let t = title_findings(titles);
    let d = description_findings(descriptions);
    let c = canonical_findings(canonicals);
    let v = viewport_findings(viewports);
    let h = heading_findings(headings);
    let o = open_graph_findings(og_titles, og_images);
    if titles.len() > 0 {
        let many = if titles.len() > 1 {
            seq![finding("SEO_MULTIPLE_TITLES"@, Category::Seo, Severity::Warning,
                "Multiple ("@ + decimal(titles.len()) + "x) <title> tags found in <head>"@, "head > title"@)]
        } else {
            seq![]
        };
        assert(all_in_category(many, Category::Seo));
        let rest = t.subrange(many.len() as int, t.len() as int);
        assert(t =~= many + rest);
        assert(all_in_category(rest, Category::Seo));
        lemma_category_concat(many, rest, Category::Seo);
    }
    assert(all_in_category(t, Category::Seo));
    if descriptions.len() > 0 {
        let many = if descriptions.len() > 1 {
            seq![finding("SEO_MULTIPLE_DESCRIPTIONS"@, Category::Seo, Severity::Warning,
                "Multiple ("@ + decimal(descriptions.len()) + "x) meta descriptions found in <head>"@,
                "meta[name=\"description\"]"@)]
        } else {
            seq![]
        };
        let rest = d.subrange(many.len() as int, d.len() as int);
        assert(d =~= many + rest);
        assert(all_in_category(rest, Category::Seo));
        lemma_category_concat(many, rest, Category::Seo);
    }
    assert(all_in_category(d, Category::Seo));
    if canonicals.len() > 0 {
        let many = if canonicals.len() > 1 {
            seq![finding("SEO_MULTIPLE_CANONICALS"@, Category::Seo, Severity::Error,
                "Multiple ("@ + decimal(canonicals.len()) + "x) canonical tags found"@, "link[rel=\"canonical\"]"@)]
        } else {
            seq![]
        };
        let rest = c.subrange(many.len() as int, c.len() as int);
        assert(c =~= many + rest);
        assert(all_in_category(rest, Category::Seo));
        lemma_category_concat(many, rest, Category::Seo);
    }
    assert(all_in_category(c, Category::Seo));
    assert(all_in_category(v, Category::Seo));
    assert(all_in_category(h, Category::Seo));
    let o1 = if og_titles.len() == 0 {
        seq![finding("SEO_MISSING_OG_TITLE"@, Category::Seo, Severity::Info, "Missing og:title social metadata tag"@, "head"@)]
    } else {
        seq![]
    };
    let o2 = if og_images.len() == 0 {
        seq![finding("SEO_MISSING_OG_IMAGE"@, Category::Seo, Severity::Info, "Missing og:image social card image tag"@, "head"@)]
    } else {
        seq![]
    };
    assert(all_in_category(o1, Category::Seo));
    assert(all_in_category(o2, Category::Seo));
    lemma_category_concat(o1, o2, Category::Seo);
    lemma_category_concat(t, d, Category::Seo);
    lemma_category_concat(t + d, c, Category::Seo);
    lemma_category_concat(t + d + c, v, Category::Seo);
    lemma_category_concat(t + d + c + v, h, Category::Seo);
    lemma_category_concat(t + d + c + v + h, o, Category::Seo);
    let w = twitter_card_findings(twitter_cards);
    assert(all_in_category(w, Category::Seo));
    lemma_category_concat(t + d + c + v + h + o, w, Category::Seo);
}

} // verus!
