use vstd::prelude::*;

use crate::html::{Document, Element, ElementView, attr_of, attr_or_empty, css_select, select_elements};
use crate::models::{
    Category, Issue, IssueView, Severity, concat3, concat_findings, finding, lemma_concat_findings_all, make_issue,
    push_issue,
};
use crate::text::{ends_with, lowercase, same_text, to_lowercase, trim, trimmed};

verus! {

/// Alt texts that describe nothing.
pub open spec fn is_placeholder_alt(t: Seq<char>) -> bool {
    t == "image"@ || t == "picture"@ || t == "photo"@ || t == "graphic"@ || t == "untitled"@
}

/// The selector that names an image by its source.
pub open spec fn image_selector(src: Seq<char>) -> Seq<char> {
    "img[src=\""@ + src + "\"]"@
}

/// The finding on the `alt` attribute of an image whose trimmed source is `src`:
/// missing, empty once trimmed, or one of the non-descriptive texts.
pub open spec fn alt_finding(alt: Option<Seq<char>>, src: Seq<char>) -> Seq<IssueView> {
    match alt {
        None => seq![finding("IMG_MISSING_ALT"@, Category::A11y, Severity::Error,
            "Image \""@ + src + "\" is missing an 'alt' attribute entirely"@, image_selector(src))],
        Some(a) => if trimmed(a).len() == 0 {
            seq![finding("IMG_EMPTY_ALT"@, Category::A11y, Severity::Warning,
                "Image \""@ + src + "\" has an empty 'alt' attribute"@, image_selector(src))]
        } else if is_placeholder_alt(lowercase(trimmed(a))) {
            seq![finding("IMG_SUSPICIOUS_ALT"@, Category::A11y, Severity::Warning,
                "Image \""@ + src + "\" has non-descriptive alt text: \""@ + a + "\""@, image_selector(src))]
        } else {
            seq![]
        },
    }
}

/// The findings on one `<img>` element: a missing, empty or non-descriptive `alt`, then
/// missing dimensions of an image that is not SVG.
pub open spec fn image_finding(img: ElementView) -> Seq<IssueView> {
    let src = trimmed(attr_or_empty(img, "src"@));
    let alt_part = alt_finding(attr_of(img, "alt"@), src);
    let sized = attr_of(img, "width"@) is Some && attr_of(img, "height"@) is Some;
    let dim_part = if !sized && !".svg"@.is_suffix_of(src) {
        seq![finding("IMG_MISSING_DIMENSIONS"@, Category::Images, Severity::Warning,
            "Image \""@ + src
                + "\" lacks explicit width and/or height attributes, risking Cumulative Layout Shift (CLS)"@,
            image_selector(src))]
    } else {
        seq![]
    };
    alt_part + dim_part
}

/// The image findings for the `<img>` elements of a page, in order.
pub open spec fn image_issues(imgs: Seq<ElementView>) -> Seq<IssueView> {
    concat_findings(imgs.len(), |i: int| image_finding(imgs[i]))
}

/// Whether `t` is one of the non-descriptive alt texts.
fn placeholder_alt(t: &str) -> (b: bool)
    ensures
        b == is_placeholder_alt(t@),
{
    same_text(t, "image") || same_text(t, "picture") || same_text(t, "photo") || same_text(t, "graphic")
        || same_text(t, "untitled")
}

fn image_check(issues: &mut Vec<Issue>, img: &Element)
    ensures
        final(issues).deep_view() == old(issues).deep_view() + image_finding(img.deep_view()),
{
    let ghost start = issues.deep_view();
    let src = img.trimmed_attr("src");
    let selector = concat3("img[src=\"", src.as_str(), "\"]");
    match img.attr("alt") {
        None => {
            push_issue(issues, make_issue("IMG_MISSING_ALT", Category::A11y, Severity::Error,
                concat3("Image \"", src.as_str(), "\" is missing an 'alt' attribute entirely"), selector));
        },
        Some(a) => {
            let t = trim(a.as_str());
            let lower = to_lowercase(t.as_str());
            if t.as_str().is_empty() {
                push_issue(issues, make_issue("IMG_EMPTY_ALT", Category::A11y, Severity::Warning,
                    concat3("Image \"", src.as_str(), "\" has an empty 'alt' attribute"), selector));
            } else if placeholder_alt(lower.as_str()) {
                let mut message = concat3("Image \"", src.as_str(), "\" has non-descriptive alt text: \"");
                message.append(a.as_str());
                message.append("\"");
                push_issue(issues, make_issue("IMG_SUSPICIOUS_ALT", Category::A11y, Severity::Warning, message,
                    concat3("img[src=\"", src.as_str(), "\"]")));
            }
        },
    }
    let ghost mid = issues.deep_view();
    let sized = img.attr("width").is_some() && img.attr("height").is_some();
    if !sized && !ends_with(src.as_str(), ".svg") {
        push_issue(issues, make_issue("IMG_MISSING_DIMENSIONS", Category::Images, Severity::Warning,
            concat3("Image \"", src.as_str(),
                "\" lacks explicit width and/or height attributes, risking Cumulative Layout Shift (CLS)"),
            concat3("img[src=\"", src.as_str(), "\"]")));
    }
    assert(issues.deep_view() =~= start + image_finding(img.deep_view()));
}

/// The image findings for the `<img>` elements of a page, in document order.
#[verifier::loop_isolation(false)]
pub fn image_findings(imgs: &Vec<Element>) -> (issues: Vec<Issue>)
    ensures
        issues.deep_view() == image_issues(imgs.deep_view()),
{
    let mut issues: Vec<Issue> = Vec::new();
    let ghost f = |i: int| image_finding(imgs.deep_view()[i]);
    let mut i: usize = 0;
    while i < imgs.len()
        invariant
            i <= imgs@.len(),
            issues.deep_view() == concat_findings(i as nat, f),
        decreases imgs.len() - i,
    {
        image_check(&mut issues, &imgs[i]);
        assert(f(i as int) == image_finding(imgs@[i as int].deep_view()));
        assert(concat_findings((i + 1) as nat, f) == concat_findings(i as nat, f) + f(i as int));
        assert(issues.deep_view() =~= concat_findings((i + 1) as nat, f));
        i = i + 1;
    }
    assert(issues.deep_view() =~= image_issues(imgs.deep_view()));
    issues
}

/// The image audit of a page: `alt` texts and explicit dimensions of `<img>`.
pub fn audit_images(document: &Document) -> (issues: Vec<Issue>)
    ensures
        issues.deep_view() == image_issues(css_select(document@, "img"@)),
{
    let imgs = select_elements(document, "img");
    image_findings(&imgs)
}

/// Findings on `alt` texts belong to the accessibility family, those on missing
/// dimensions to the images family.
pub proof fn lemma_image_finding_families(imgs: Seq<ElementView>)
    ensures
        forall|j: int| 0 <= j < image_issues(imgs).len() ==> {
            let x = #[trigger] image_issues(imgs)[j];
            (x.category == Category::A11y && (x.code == "IMG_MISSING_ALT"@ || x.code == "IMG_EMPTY_ALT"@
                || x.code == "IMG_SUSPICIOUS_ALT"@))
                || (x.category == Category::Images && x.code == "IMG_MISSING_DIMENSIONS"@)
        },
{
    let p = |x: IssueView| (x.category == Category::A11y && (x.code == "IMG_MISSING_ALT"@ || x.code
        == "IMG_EMPTY_ALT"@ || x.code == "IMG_SUSPICIOUS_ALT"@)) || (x.category == Category::Images && x.code == "IMG_MISSING_DIMENSIONS"@);
    let f = |i: int| image_finding(imgs[i]);
    assert forall|i: int, j: int| 0 <= i < imgs.len() && 0 <= j < f(i).len() implies #[trigger] p(f(i)[j]) by {
        let img = imgs[i];
        let src = trimmed(attr_or_empty(img, "src"@));
        let alt_part = alt_finding(attr_of(img, "alt"@), src);
        let rest = f(i).subrange(alt_part.len() as int, f(i).len() as int);
        assert(f(i) =~= alt_part + rest);
        if j < alt_part.len() {
            assert(f(i)[j] == alt_part[j]);
        } else {
            assert(f(i)[j] == rest[j - alt_part.len()]);
        }
    }
    lemma_concat_findings_all(imgs.len(), f, p);
    assert forall|j: int| 0 <= j < image_issues(imgs).len() implies {
        let x = #[trigger] image_issues(imgs)[j];
        (x.category == Category::A11y && (x.code == "IMG_MISSING_ALT"@ || x.code == "IMG_EMPTY_ALT"@
                || x.code == "IMG_SUSPICIOUS_ALT"@))
            || (x.category == Category::Images && x.code == "IMG_MISSING_DIMENSIONS"@)
    } by {
        assert(p(concat_findings(imgs.len(), f)[j]));
    }
}

} // verus!
