use vstd::prelude::*;

use crate::html::{
    Document, Element, ElementView, attr_of, attr_or_empty, css_select, css_select_within, css_valid, select_elements,
    select_within, selector_is_valid,
};
use crate::models::{
    Category, Issue, IssueView, Severity, concat3, concat_findings, finding, lemma_concat_findings_all, make_issue,
    owned, push_issue,
};
use crate::paths::{path_exists, path_is_file, path_join, path_joined, path_parent, path_parent_of};
use crate::text::{before_char, prefix_before, starts_with, strip_leading, strip_leading_char, trim, trimmed};

verus! {

/// Where and how links are checked: the site's root directory, the page being
/// audited, and the URL prefixes that are not checked.
pub struct LinkAuditConfig<'a> {
    pub root_dir: &'a str,
    pub current_file: &'a str,
    pub skip_patterns: &'a [String],
}

/// Whether a link points off the site or to another protocol.
pub open spec fn is_external_link(h: Seq<char>) -> bool {
    "http://"@.is_prefix_of(h) || "https://"@.is_prefix_of(h) || "//"@.is_prefix_of(h) || "mailto:"@.is_prefix_of(h)
        || "tel:"@.is_prefix_of(h) || "javascript:"@.is_prefix_of(h) || "data:"@.is_prefix_of(h)
}

/// Whether one of the configured prefixes starts `h`.
pub open spec fn skipped_by(h: Seq<char>, patterns: Seq<String>) -> bool {
    exists|k: int| 0 <= k < patterns.len() && (#[trigger] patterns[k])@.is_prefix_of(h)
}

/// The selector of the elements whose id is `id`.
pub open spec fn id_selector(id: Seq<char>) -> Seq<char> {
    "[id=\""@ + id + "\"]"@
}

/// The file that a local link `h` points at: root-relative links are resolved
/// against the root, others against the directory of the current page (or the
/// root when the page has none), after dropping the query and the fragment.
pub open spec fn local_target(h: Seq<char>, root: Seq<char>, current: Seq<char>) -> Seq<char> {
    let clean = prefix_before(prefix_before(h, '?'), '#');
    if "/"@.is_prefix_of(clean) {
        path_joined(root, strip_leading(clean, '/'))
    } else {
        path_joined(
            match path_parent_of(current) {
                Some(d) => d,
                None => root,
            },
            clean,
        )
    }
}

/// The selector that names a link by its target.
pub open spec fn anchor_selector(h: Seq<char>) -> Seq<char> {
    "a[href=\""@ + h + "\"]"@
}

/// Whether link checking goes on to the in-page or file check for `h`.
pub open spec fn checked_link(h: Seq<char>, patterns: Seq<String>) -> bool {
    h.len() > 0 && !is_external_link(h) && !skipped_by(h, patterns)
}

/// The findings on one link `a`: `imgs` and `svgs` are the images and SVG
/// drawings inside it; `id_valid` and `id_hits` tell whether the selector of its
/// in-page target parses and what it selects; `found` whether its file target
/// was found on disk.
pub open spec fn link_finding(
    a: ElementView,
    imgs: Seq<ElementView>,
    svgs: Seq<ElementView>,
    id_valid: bool,
    id_hits: Seq<ElementView>,
    patterns: Seq<String>,
    found: bool,
) -> Seq<IssueView> {
    let h = trimmed(attr_or_empty(a, "href"@));
    if h.len() == 0 {
        seq![finding("LINK_EMPTY_HREF"@, Category::Links, Severity::Error, "Anchor <a> has an empty href attribute"@,
            "a[href=\"\"]"@)]
    } else {
        let unlabelled = trimmed(a.text).len() == 0 && imgs.len() == 0 && svgs.len() == 0
            && attr_of(a, "aria-label"@) is None && attr_of(a, "title"@) is None;
        (if unlabelled {
            seq![finding("LINK_EMPTY_TEXT"@, Category::A11y, Severity::Warning,
                "Link to \""@ + h + "\" has empty link text and no accessible label"@, anchor_selector(h))]
        } else {
            seq![]
        }) + if !checked_link(h, patterns) {
            seq![]
        } else if "#"@.is_prefix_of(h) {
            let id = strip_leading(h, '#');
            if id.len() > 0 && id_valid && id_hits.len() == 0 {
                seq![finding("LINK_BROKEN_INPAGE_ANCHOR"@, Category::Links, Severity::Warning,
                    "In-page link \""@ + h + "\" references non-existent id=\""@ + id + "\""@, anchor_selector(h))]
            } else {
                seq![]
            }
        } else if !found {
            seq![finding("LINK_BROKEN_INTERNAL"@, Category::Links, Severity::Error,
                "Broken internal link: \""@ + h + "\" does not resolve to an existing file in dist"@, anchor_selector(h))]
        } else {
            seq![]
        }
    }
}

/// The link findings for the links of a page, in order.
pub open spec fn link_issues(
    anchors: Seq<ElementView>,
    imgs: Seq<Seq<ElementView>>,
    svgs: Seq<Seq<ElementView>>,
    id_valid: Seq<bool>,
    id_hits: Seq<Seq<ElementView>>,
    patterns: Seq<String>,
    found: Seq<bool>,
) -> Seq<IssueView> {
    concat_findings(anchors.len(), |i: int| link_finding(anchors[i], imgs[i], svgs[i], id_valid[i], id_hits[i], patterns, found[i]))
}

/// The trimmed target of a link element.
pub open spec fn href_of(a: ElementView) -> Seq<char> {
    trimmed(attr_or_empty(a, "href"@))
}

/// The link findings of a page, given for each link whether its file target was
/// found on disk.
pub open spec fn page_link_issues(page: Seq<char>, patterns: Seq<String>, found: Seq<bool>) -> Seq<IssueView> {
    let anchors = css_select(page, "a[href]"@);
    link_issues(
        anchors,
        Seq::new(anchors.len(), |i: int| css_select_within(page, "a[href]"@, i, "img"@)),
        Seq::new(anchors.len(), |i: int| css_select_within(page, "a[href]"@, i, "svg"@)),
        Seq::new(anchors.len(), |i: int| css_valid(id_selector(strip_leading(href_of(anchors[i]), '#')))),
        Seq::new(anchors.len(), |i: int| if "#"@.is_prefix_of(href_of(anchors[i])) {
            css_select(page, id_selector(strip_leading(href_of(anchors[i]), '#')))
        } else {
            seq![]
        }),
        patterns,
        found,
    )
}

/// Whether `h` points off the site or to another protocol.
fn external_link(h: &str) -> (b: bool)
    ensures
        b == is_external_link(h@),
{
    starts_with(h, "http://") || starts_with(h, "https://") || starts_with(h, "//") || starts_with(h, "mailto:")
        || starts_with(h, "tel:") || starts_with(h, "javascript:") || starts_with(h, "data:")
}

/// Whether one of `patterns` starts `h`.
fn skipped(h: &str, patterns: &[String]) -> (b: bool)
    ensures
        b == skipped_by(h@, patterns@),
{
    let n = patterns.len();
    let mut k: usize = 0;
    while k < n
        invariant
            n == patterns@.len(),
            k <= n,
            forall|j: int| 0 <= j < k ==> !(#[trigger] patterns@[j])@.is_prefix_of(h@),
        decreases n - k,
    {
        if starts_with(h, patterns[k].as_str()) {
            return true;
        }
        k = k + 1;
    }
    false
}

/// The file that the local link `h` points at (see [`local_target`]).
pub fn link_target(h: &str, config: &LinkAuditConfig) -> (target: String)
    ensures
        target@ == local_target(h@, config.root_dir@, config.current_file@),
{
    let no_query = before_char(h, '?');
    let clean = before_char(no_query.as_str(), '#');
    if starts_with(clean.as_str(), "/") {
        let rel = strip_leading_char(clean.as_str(), '/');
        path_join(config.root_dir, rel.as_str())
    } else {
        match path_parent(config.current_file) {
            Some(dir) => path_join(dir.as_str(), clean.as_str()),
            None => path_join(config.root_dir, clean.as_str()),
        }
    }
}

/// The files that stand for a link target `path`, in the order they are tried:
/// the path itself, the path with `.html` added, and `index.html` inside it.
pub fn target_candidates(path: &str) -> (files: Vec<String>)
    ensures
        files.len() == 3,
        files[0]@ == path@,
        files[1]@ == path@ + ".html"@,
        files[2]@ == path_joined(path@, "index.html"@),
{
    let mut html_variant = owned(path);
    html_variant.append(".html");
    let index_variant = path_join(path, "index.html");
    let mut files: Vec<String> = Vec::new();
    files.push(owned(path));
    files.push(html_variant);
    files.push(index_variant);
    files
}

/// Whether a link target is found, from what the disk answered: `file_hits`
/// tells for each of [`target_candidates`] whether it is a regular file, and
/// `entry_exists` whether anything is at the target itself.
pub open spec fn target_found(file_hits: Seq<bool>, entry_exists: bool) -> bool {
    file_hits.contains(true) || entry_exists
}

/// Combines the disk's answers on a link target (see [`target_found`]).
pub fn found_among(file_hits: &Vec<bool>, entry_exists: bool) -> (found: bool)
    requires
        file_hits@.len() == 3,
    ensures
        found == target_found(file_hits@, entry_exists),
{
    let mut i: usize = 0;
    while i < file_hits.len()
        invariant
            i <= file_hits@.len(),
            forall|j: int| 0 <= j < i ==> !(#[trigger] file_hits@[j]),
        decreases file_hits.len() - i,
    {
        if file_hits[i] {
            assert(file_hits@[i as int]);
            return true;
        }
        i = i + 1;
    }
    assert(!file_hits@.contains(true));
    entry_exists
}

/// A link target is found exactly when the target itself, the target with
/// `.html` added, or `index.html` inside it is a regular file, or when anything
/// at all is at the target.
pub proof fn lemma_target_found_cases(file_hits: Seq<bool>, entry_exists: bool)
    requires
        file_hits.len() == 3,
    ensures
        target_found(file_hits, entry_exists) <==> file_hits[0] || file_hits[1] || file_hits[2] || entry_exists,
{
    if file_hits[0] || file_hits[1] || file_hits[2] {
        if file_hits[0] {
            assert(file_hits[0] == true);
        } else if file_hits[1] {
            assert(file_hits[1] == true);
        } else {
            assert(file_hits[2] == true);
        }
    }
}

/// More answers of yes never turn a found target into a missing one: the
/// verdict on a link target grows with what the disk holds.
pub proof fn lemma_target_found_monotone(hits1: Seq<bool>, exists1: bool, hits2: Seq<bool>, exists2: bool)
    requires
        hits1.len() == hits2.len(),
        forall|i: int| 0 <= i < hits1.len() && #[trigger] hits1[i] ==> hits2[i],
        exists1 ==> exists2,
        target_found(hits1, exists1),
    ensures
        target_found(hits2, exists2),
{
    if hits1.contains(true) {
        let i = choose|i: int| 0 <= i < hits1.len() && hits1[i] == true;
        assert(hits2[i]);
    }
}

/// What the disk answers on a link target `path`: for each of
/// [`target_candidates`], in order, whether it is a regular file; whether
/// anything is at `path`; and the verdict that [`found_among`] draws from them.
/// The answers themselves depend on the disk, of which nothing is stated.
pub fn target_lookup(path: &str) -> (lookup: (Vec<bool>, bool, bool))
    ensures
        lookup.0@.len() == 3,
        lookup.2 == target_found(lookup.0@, lookup.1),
{
    let files = target_candidates(path);
    let mut file_hits: Vec<bool> = Vec::new();
    let mut i: usize = 0;
    while i < files.len()
        invariant
            files@.len() == 3,
            i <= 3,
            file_hits@.len() == i,
        decreases files.len() - i,
    {
        file_hits.push(path_is_file(files[i].as_str()));
        i = i + 1;
    }
    let entry_exists = path_exists(path);
    let found = found_among(&file_hits, entry_exists);
    (file_hits, entry_exists, found)
}

/// Whether something is found at `path` on disk: a regular file at one of
/// [`target_candidates`] (the path itself, the path with `.html` added, or
/// `index.html` inside it), or anything at all at `path`. The verdict is
/// [`target_found`] of the answers that [`target_lookup`] gathers; the answers
/// depend on the disk, so no clause here can name them.
pub fn target_exists(path: &str) -> bool {
    let (_, _, found) = target_lookup(path);
    found
}

/// Whether the disk is asked about link `a`: it is checked (see
/// [`checked_link`]) and is not an in-page anchor.
pub open spec fn probes_disk(a: ElementView, patterns: Seq<String>) -> bool {
    checked_link(href_of(a), patterns) && !"#"@.is_prefix_of(href_of(a))
}

/// The file that the disk is asked about for link `a`: its local target (see
/// [`local_target`]) where the link is checked and is not an in-page anchor,
/// else none.
pub open spec fn probe_target(a: ElementView, patterns: Seq<String>, root: Seq<char>, current: Seq<char>) -> Option<
    Seq<char>,
> {
    if probes_disk(a, patterns) {
        Some(local_target(href_of(a), root, current))
    } else {
        None
    }
}

/// The file that the disk is asked about for each link of `anchors`, in order
/// (see [`probe_target`]).
pub fn link_probe_targets(anchors: &Vec<Element>, config: &LinkAuditConfig) -> (targets: Vec<Option<String>>)
    ensures
        targets.deep_view() == Seq::new(anchors@.len(), |i: int| probe_target(anchors.deep_view()[i],
            config.skip_patterns@, config.root_dir@, config.current_file@)),
{
    let ghost av = anchors.deep_view();
    let mut targets: Vec<Option<String>> = Vec::new();
    let n = anchors.len();
    let mut i: usize = 0;
    while i < n
        invariant
            n == anchors@.len() == av.len(),
            av == anchors.deep_view(),
            i <= n,
            targets@.len() == i,
            forall|j: int| 0 <= j < i ==> #[trigger] targets.deep_view()[j] == probe_target(av[j], config.skip_patterns@,
                config.root_dir@, config.current_file@),
        decreases n - i,
    {
        let h = anchors[i].trimmed_attr("href");
        assert(h@ == href_of(av[i as int]));
        let probe = !h.as_str().is_empty() && !external_link(h.as_str()) && !skipped(h.as_str(), config.skip_patterns)
            && !starts_with(h.as_str(), "#");
        let ghost before = targets.deep_view();
        let ghost want = probe_target(av[i as int], config.skip_patterns@, config.root_dir@, config.current_file@);
        if probe {
            let t = link_target(h.as_str(), config);
            targets.push(Some(t));
        } else {
            targets.push(None);
        }
        assert(targets.deep_view() =~= before.push(want));
        i = i + 1;
    }
    assert(targets.deep_view() =~= Seq::new(anchors@.len(), |i: int| probe_target(anchors.deep_view()[i],
        config.skip_patterns@, config.root_dir@, config.current_file@)));
    targets
}

fn link_check(
    issues: &mut Vec<Issue>,
    a: &Element,
    imgs: &Vec<Element>,
    svgs: &Vec<Element>,
    id_valid: bool,
    id_hits: &Vec<Element>,
    patterns: &[String],
    found: bool,
)
    ensures
        final(issues).deep_view() == old(issues).deep_view() + link_finding(a.deep_view(), imgs.deep_view(),
            svgs.deep_view(), id_valid, id_hits.deep_view(), patterns@, found),
{
    let ghost start = issues.deep_view();
    let h = a.trimmed_attr("href");
    let h = h.as_str();
    if h.is_empty() {
        push_issue(issues, make_issue("LINK_EMPTY_HREF", Category::Links, Severity::Error,
            owned("Anchor <a> has an empty href attribute"), owned("a[href=\"\"]")));
        assert(issues.deep_view() =~= start + link_finding(a.deep_view(), imgs.deep_view(), svgs.deep_view(),
            id_valid, id_hits.deep_view(), patterns@, found));
        return;
    }
    let text = trim(a.text.as_str());
    if text.as_str().is_empty() && imgs.len() == 0 && svgs.len() == 0 && a.attr("aria-label").is_none()
        && a.attr("title").is_none() {
        push_issue(issues, make_issue("LINK_EMPTY_TEXT", Category::A11y, Severity::Warning,
            concat3("Link to \"", h, "\" has empty link text and no accessible label"), concat3("a[href=\"", h, "\"]")));
    }
    let ghost mid = issues.deep_view();
    if !external_link(h) && !skipped(h, patterns) {
        if starts_with(h, "#") {
            let id = strip_leading_char(h, '#');
            if !id.as_str().is_empty() && id_valid && id_hits.len() == 0 {
                let mut m = concat3("In-page link \"", h, "\" references non-existent id=\"");
                m.append(id.as_str());
                m.append("\"");
                push_issue(issues, make_issue("LINK_BROKEN_INPAGE_ANCHOR", Category::Links, Severity::Warning, m,
                    concat3("a[href=\"", h, "\"]")));
            }
        } else if !found {
            push_issue(issues, make_issue("LINK_BROKEN_INTERNAL", Category::Links, Severity::Error,
                concat3("Broken internal link: \"", h, "\" does not resolve to an existing file in dist"),
                concat3("a[href=\"", h, "\"]")));
        }
    }
    assert(issues.deep_view() =~= start + link_finding(a.deep_view(), imgs.deep_view(), svgs.deep_view(), id_valid,
        id_hits.deep_view(), patterns@, found));
}

/// The link findings for the links of a page (`anchors`), given for each link
/// the images and SVG drawings inside it, whether the selector of its in-page
/// target parses and what it selects, and whether its file target was found.
#[verifier::loop_isolation(false)]
pub fn link_findings(
    anchors: &Vec<Element>,
    imgs: &Vec<Vec<Element>>,
    svgs: &Vec<Vec<Element>>,
    id_valid: &Vec<bool>,
    id_hits: &Vec<Vec<Element>>,
    found: &Vec<bool>,
    config: &LinkAuditConfig,
) -> (issues: Vec<Issue>)
    requires
        imgs@.len() == anchors@.len(),
        svgs@.len() == anchors@.len(),
        id_valid@.len() == anchors@.len(),
        id_hits@.len() == anchors@.len(),
        found@.len() == anchors@.len(),
    ensures
        issues.deep_view() == link_issues(anchors.deep_view(), imgs.deep_view(), svgs.deep_view(), id_valid@,
            id_hits.deep_view(), config.skip_patterns@, found@),
{
    let mut issues: Vec<Issue> = Vec::new();
    let ghost f = |i: int| link_finding(anchors.deep_view()[i], imgs.deep_view()[i], svgs.deep_view()[i], id_valid@[i],
        id_hits.deep_view()[i], config.skip_patterns@, found@[i]);
    let n = anchors.len();
    let mut i: usize = 0;
    while i < n
        invariant
            n == anchors@.len(),
            i <= n,
            issues.deep_view() == concat_findings(i as nat, f),
        decreases n - i,
    {
        link_check(&mut issues, &anchors[i], &imgs[i], &svgs[i], id_valid[i], &id_hits[i], config.skip_patterns, found[i]);
        assert(f(i as int) == link_finding(anchors@[i as int].deep_view(), imgs@[i as int].deep_view(),
            svgs@[i as int].deep_view(), id_valid@[i as int], id_hits@[i as int].deep_view(), config.skip_patterns@,
            found@[i as int]));
        assert(concat_findings((i + 1) as nat, f) == concat_findings(i as nat, f) + f(i as int));
        assert(issues.deep_view() =~= concat_findings((i + 1) as nat, f));
        i = i + 1;
    }
    issues
}

/// The link audit of a page: empty targets, links without an accessible label,
/// in-page anchors to missing ids, and local targets not found on disk. Which
/// local targets are found depends on the disk: the findings are those of
/// [`page_link_issues`] for some outcome of the disk checks, in which every link
/// that the disk is not asked about (see [`probes_disk`]) counts as found. The disk is asked about the
/// files that [`link_probe_targets`] gives.
#[verifier::loop_isolation(false)]
pub fn audit_links(document: &Document, config: &LinkAuditConfig) -> (issues: Vec<Issue>)
    ensures
        exists|found: Seq<bool>| {
            &&& found.len() == css_select(document@, "a[href]"@).len()
            &&& forall|j: int| 0 <= j < found.len() && !probes_disk(css_select(document@, "a[href]"@)[j],
                config.skip_patterns@) ==> #[trigger] found[j]
            &&& issues.deep_view() == #[trigger] page_link_issues(document@, config.skip_patterns@, found)
        },
{
    let anchors = select_elements(document, "a[href]");
    let ghost av = anchors.deep_view();
    let n = anchors.len();
    let mut imgs: Vec<Vec<Element>> = Vec::new();
    let mut svgs: Vec<Vec<Element>> = Vec::new();
    let mut valid: Vec<bool> = Vec::new();
    let mut hits: Vec<Vec<Element>> = Vec::new();
    let mut found: Vec<bool> = Vec::new();
    let targets = link_probe_targets(&anchors, config);
    assert(targets.deep_view().len() == targets@.len());
    let mut i: usize = 0;
    while i < n
        invariant
            n == anchors@.len() == av.len(),
            targets@.len() == n,
            forall|j: int| 0 <= j < n ==> #[trigger] targets.deep_view()[j] == probe_target(av[j], config.skip_patterns@,
                config.root_dir@, config.current_file@),
            forall|j: int| 0 <= j < i && probe_target(av[j], config.skip_patterns@, config.root_dir@,
                config.current_file@) is None ==> #[trigger] found@[j],
            av == css_select(document@, "a[href]"@),
            i <= n,
            imgs@.len() == i,
            svgs@.len() == i,
            valid@.len() == i,
            hits@.len() == i,
            found@.len() == i,
            forall|j: int| 0 <= j < i ==> #[trigger] imgs@[j].deep_view() == css_select_within(document@, "a[href]"@, j, "img"@),
            forall|j: int| 0 <= j < i ==> #[trigger] svgs@[j].deep_view() == css_select_within(document@, "a[href]"@, j, "svg"@),
            forall|j: int| 0 <= j < i ==> #[trigger] valid@[j] == css_valid(id_selector(strip_leading(href_of(av[j]), '#'))),
            forall|j: int| 0 <= j < i ==> #[trigger] hits@[j].deep_view() == (if "#"@.is_prefix_of(href_of(av[j])) {
                css_select(document@, id_selector(strip_leading(href_of(av[j]), '#')))
            } else {
                seq![]
            }),
        decreases n - i,
    {
        imgs.push(select_within(document, "a[href]", i, "img"));
        svgs.push(select_within(document, "a[href]", i, "svg"));
        let h = anchors[i].trimmed_attr("href");
        assert(h@ == href_of(av[i as int]));
        let id = strip_leading_char(h.as_str(), '#');
        let selector = concat3("[id=\"", id.as_str(), "\"]");
        valid.push(selector_is_valid(selector.as_str()));
        if starts_with(h.as_str(), "#") {
            hits.push(select_elements(document, selector.as_str()));
        } else {
            let none: Vec<Element> = Vec::new();
            assert(none.deep_view() =~= Seq::<ElementView>::empty());
            hits.push(none);
        }
        assert(targets.deep_view()[i as int] == targets@[i as int].deep_view());
        match &targets[i] {
            Some(target) => found.push(target_exists(target.as_str())),
            None => found.push(true),
        }
        i = i + 1;
    }
    let issues = link_findings(&anchors, &imgs, &svgs, &valid, &hits, &found, config);
    assert(imgs.deep_view() =~= Seq::new(av.len(), |i: int| css_select_within(document@, "a[href]"@, i, "img"@)));
    assert(svgs.deep_view() =~= Seq::new(av.len(), |i: int| css_select_within(document@, "a[href]"@, i, "svg"@)));
    assert(valid@ =~= Seq::new(av.len(), |i: int| css_valid(id_selector(strip_leading(href_of(av[i]), '#')))));
    assert(hits.deep_view() =~= Seq::new(av.len(), |i: int| if "#"@.is_prefix_of(href_of(av[i])) {
        css_select(document@, id_selector(strip_leading(href_of(av[i]), '#')))
    } else {
        seq![]
    }));
    assert(issues.deep_view() == page_link_issues(document@, config.skip_patterns@, found@));
    issues
}

/// Links that point off the site, that a configured prefix skips, or that are
/// empty are never reported as broken, and only local file links depend on
/// what the disk holds.
pub proof fn lemma_unchecked_links_not_broken(
    a: ElementView,
    imgs: Seq<ElementView>,
    svgs: Seq<ElementView>,
    id_valid: bool,
    id_hits: Seq<ElementView>,
    patterns: Seq<String>,
    found: bool,
)
    ensures
        !checked_link(href_of(a), patterns) ==> forall|j: int| 0 <= j < link_finding(a, imgs, svgs, id_valid, id_hits, patterns, found).len()
            ==> (#[trigger] link_finding(a, imgs, svgs, id_valid, id_hits, patterns, found)[j]).code == "LINK_EMPTY_HREF"@
            || link_finding(a, imgs, svgs, id_valid, id_hits, patterns, found)[j].code == "LINK_EMPTY_TEXT"@,
        (!checked_link(href_of(a), patterns) || "#"@.is_prefix_of(href_of(a))) ==> link_finding(a, imgs, svgs, id_valid, id_hits, patterns, true)
            == link_finding(a, imgs, svgs, id_valid, id_hits, patterns, false),
{
    let h = href_of(a);
    let f = link_finding(a, imgs, svgs, id_valid, id_hits, patterns, found);
    if !checked_link(h, patterns) && h.len() > 0 {
        let unlabelled = trimmed(a.text).len() == 0 && imgs.len() == 0 && svgs.len() == 0
            && attr_of(a, "aria-label"@) is None && attr_of(a, "title"@) is None;
        let first = if unlabelled {
            seq![finding("LINK_EMPTY_TEXT"@, Category::A11y, Severity::Warning,
                "Link to \""@ + h + "\" has empty link text and no accessible label"@, anchor_selector(h))]
        } else {
            seq![]
        };
        assert(f == first + Seq::<IssueView>::empty());
        assert(f =~= first);
    }
}

/// Every link finding belongs to the links family, except the missing
/// accessible label, which belongs to the accessibility family.
pub proof fn lemma_link_finding_families(
    anchors: Seq<ElementView>,
    imgs: Seq<Seq<ElementView>>,
    svgs: Seq<Seq<ElementView>>,
    id_valid: Seq<bool>,
    id_hits: Seq<Seq<ElementView>>,
    patterns: Seq<String>,
    found: Seq<bool>,
)
    ensures
        forall|j: int| 0 <= j < link_issues(anchors, imgs, svgs, id_valid, id_hits, patterns, found).len() ==> {
            let x = #[trigger] link_issues(anchors, imgs, svgs, id_valid, id_hits, patterns, found)[j];
            x.category == Category::Links || (x.category == Category::A11y && x.code == "LINK_EMPTY_TEXT"@)
        },
{
    let p = |x: IssueView| x.category == Category::Links || (x.category == Category::A11y && x.code == "LINK_EMPTY_TEXT"@);
    let f = |i: int| link_finding(anchors[i], imgs[i], svgs[i], id_valid[i], id_hits[i], patterns, found[i]);
    assert forall|i: int, j: int| 0 <= i < anchors.len() && 0 <= j < f(i).len() implies #[trigger] p(f(i)[j]) by {
        let a = anchors[i];
        let h = href_of(a);
        if h.len() > 0 {
            let unlabelled = trimmed(a.text).len() == 0 && imgs[i].len() == 0 && svgs[i].len() == 0
                && attr_of(a, "aria-label"@) is None && attr_of(a, "title"@) is None;
            let first = if unlabelled {
                seq![finding("LINK_EMPTY_TEXT"@, Category::A11y, Severity::Warning,
                    "Link to \""@ + h + "\" has empty link text and no accessible label"@, anchor_selector(h))]
            } else {
                seq![]
            };
            let rest = f(i).subrange(first.len() as int, f(i).len() as int);
            assert(f(i) =~= first + rest);
            if j < first.len() {
                assert(f(i)[j] == first[j]);
            } else {
                assert(f(i)[j] == rest[j - first.len()]);
            }
        }
    }
    lemma_concat_findings_all(anchors.len(), f, p);
    assert forall|j: int| 0 <= j < link_issues(anchors, imgs, svgs, id_valid, id_hits, patterns, found).len() implies {
        let x = #[trigger] link_issues(anchors, imgs, svgs, id_valid, id_hits, patterns, found)[j];
        x.category == Category::Links || (x.category == Category::A11y && x.code == "LINK_EMPTY_TEXT"@)
    } by {
        assert(p(concat_findings(anchors.len(), f)[j]));
    }
}

} // verus!
