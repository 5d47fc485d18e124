use vstd::prelude::*;

use crate::a11y::{audit_a11y, label_selectors_parse, labels_can_be_looked_up, page_a11y_issues};
use crate::capo::{CapoScore, audit_capo, capo_issues, head_elements, inversion_count, pair_count, parse_head_elements};
use crate::html::{Document, css_select};
use crate::images::{audit_images, image_issues};
use crate::links::{LinkAuditConfig, audit_links, page_link_issues, probes_disk};
use crate::models::{Issue, IssueView, PageAuditReport, append_issues, owned};
use crate::paths::{path_strip_prefix, path_stripped};
use crate::schema::{audit_schema, page_schema_issues};
use crate::seo::{audit_seo, page_seo_issues};
use crate::text::{ascii_lower, lower_ascii_char, same_text, trimmed};

verus! {

/// What the audit of a site skips: URL prefixes not checked as links, and rule
/// codes whose findings are dropped.
pub struct AuditOptions {
    pub skip_link_patterns: Vec<String>,
    pub ignore_rules: Vec<String>,
}

impl Default for AuditOptions {
    /// Skips links under `/cdn-cgi/` and `/api/`; ignores no rule.
    fn default() -> (o: Self)
        ensures
            o.skip_link_patterns.deep_view() == seq!["/cdn-cgi/"@, "/api/"@],
            o.ignore_rules@.len() == 0,
    {
        let mut skip: Vec<String> = Vec::new();
        skip.push(owned("/cdn-cgi/"));
        skip.push(owned("/api/"));
        assert(skip.deep_view() =~= seq!["/cdn-cgi/"@, "/api/"@]);
        AuditOptions { skip_link_patterns: skip, ignore_rules: Vec::new() }
    }
}

/// Whether the rule `code` is among the ignored ones.
pub open spec fn is_ignored(code: Seq<char>, ignore: Seq<String>) -> bool {
    exists|k: int| 0 <= k < ignore.len() && (#[trigger] ignore[k])@ == code
}

/// `s` without the findings of ignored rules, in order.
pub open spec fn without_ignored(s: Seq<IssueView>, ignore: Seq<String>) -> Seq<IssueView>
    decreases s.len(),
{
    if s.len() == 0 {
        s
    } else {
        without_ignored(s.drop_last(), ignore) + if is_ignored(s.last().code, ignore) {
            Seq::empty()
        } else {
            seq![s.last()]
        }
    }
}

/// The URL path of a page: its file path below the root, after a `/`, or the
/// file path itself when it is not below the root.
pub open spec fn url_path_of(file: Seq<char>, root: Seq<char>) -> Seq<char> {
    match path_stripped(file, root) {
        Some(rest) => "/"@ + rest,
        None => file,
    }
}

/// All findings on a page with content `html`, before ignored rules are dropped,
/// in the order the audits run: SEO, accessibility, images, structured data,
/// links (given for each link whether its file target was found), `<head>` order.
pub open spec fn all_page_issues(html: Seq<char>, skip: Seq<String>, found: Seq<bool>, score: CapoScore) -> Seq<IssueView> {
    page_seo_issues(html) + page_a11y_issues(html) + image_issues(css_select(html, "img"@)) + page_schema_issues(html)
        + page_link_issues(html, skip, found) + capo_issues(head_elements(html), score)
}

/// Whether `issues` are the findings on a page with content `html` for some
/// outcome of the disk checks of its links (a link the disk is not asked about
/// counts as found), without those of ignored rules.
pub open spec fn audited_issues(issues: Seq<IssueView>, html: Seq<char>, skip: Seq<String>, ignore: Seq<String>, score: CapoScore) -> bool {
    exists|found: Seq<bool>| {
        &&& found.len() == css_select(html, "a[href]"@).len()
        &&& forall|j: int| 0 <= j < found.len() && !probes_disk(css_select(html, "a[href]"@)[j], skip) ==> #[trigger] found[j]
        &&& issues == without_ignored(#[trigger] all_page_issues(html, skip, found, score), ignore)
    }
}

/// Whether the rule `code` is ignored.
fn ignored(code: &str, ignore: &Vec<String>) -> (b: bool)
    ensures
        b == is_ignored(code@, ignore@),
{
    let mut k: usize = 0;
    while k < ignore.len()
        invariant
            k <= ignore@.len(),
            forall|j: int| 0 <= j < k ==> (#[trigger] ignore@[j])@ != code@,
        decreases ignore.len() - k,
    {
        if same_text(ignore[k].as_str(), code) {
            return true;
        }
        k = k + 1;
    }
    false
}

/// The findings of `issues` whose rules are not ignored, in order.
pub fn retain_unignored(issues: Vec<Issue>, ignore: &Vec<String>) -> (kept: Vec<Issue>)
    ensures
        kept.deep_view() == without_ignored(issues.deep_view(), ignore@),
{
    let ghost all = issues.deep_view();
    let total = issues.len();
    let mut rest = issues;
    let mut kept: Vec<Issue> = Vec::new();
    let mut done: usize = 0;
    while rest.len() > 0
        invariant
            total == all.len(),
            done + rest@.len() == all.len(),
            rest.deep_view() == all.skip(done as int),
            kept.deep_view() == without_ignored(all.take(done as int), ignore@),
        decreases rest@.len(),
    {
        let ghost before = rest.deep_view();
        let ghost before_items = rest@;
        let item = rest.remove(0);
        assert(item == before_items[0]);
        assert(before[0] == all[done as int]);
        assert(item.deep_view() == all[done as int]);
        assert(rest@ =~= before_items.drop_first());
        assert(rest.deep_view() =~= before.drop_first());
        assert(rest.deep_view() =~= all.skip(done + 1));
        assert(all.take(done + 1).drop_last() =~= all.take(done as int));
        if !ignored(item.code.as_str(), ignore) {
            let ghost k0 = kept.deep_view();
            kept.push(item);
            assert(kept.deep_view() =~= k0.push(item.deep_view()));
        }
        assert(kept.deep_view() =~= without_ignored(all.take(done + 1), ignore@));
        done = done + 1;
    }
    assert(all.take(done as int) =~= all);
    kept
}

/// The URL path of the page at `file_path` below `root_dir` (see [`url_path_of`]).
pub fn url_path(file_path: &str, root_dir: &str) -> (url: String)
    ensures
        url@ == url_path_of(file_path@, root_dir@),
{
    match path_strip_prefix(file_path, root_dir) {
        Some(rest) => {
            let mut url = owned("/");
            url.append(rest.as_str());
            url
        },
        None => owned(file_path),
    }
}

/// Whether a page can be audited: the pairs of its `<head>` elements can be
/// counted in a `usize`, and the labels of its form controls can be looked up.
pub open spec fn page_auditable(html: Seq<char>) -> bool {
    &&& head_elements(html).len() * (head_elements(html).len() - 1) <= usize::MAX
    &&& label_selectors_parse(html)
}

/// Audits one page whose content `html` was read from `file_path` below
/// `root_dir`: all rule families run, then the findings of ignored rules are
/// dropped. None when the page cannot be audited (see [`page_auditable`]).
pub fn audit_html_file(file_path: &str, root_dir: &str, html: &str, options: &AuditOptions) -> (report: Option<PageAuditReport>)
    ensures
        report is None <==> !page_auditable(html@),
        report matches Some(r) ==> r.file_path@ == file_path@,
        report matches Some(r) ==> r.url_path@ == url_path_of(file_path@, root_dir@),
        report matches Some(r) ==> r.capo_score.inversions == inversion_count(head_elements(html@)),
        report matches Some(r) ==> r.capo_score.total_pairs == pair_count(head_elements(html@).len()),
        report matches Some(r) ==> audited_issues(r.issues.deep_view(), html@, options.skip_link_patterns@,
            options.ignore_rules@, r.capo_score),
{
    let elements = parse_head_elements(html);
    let n = elements.len();
    assert(elements.deep_view().len() == n);
    assert(head_elements(html@).len() == n);
    if n > 1 && (n - 1) > usize::MAX / n {
        proof {
            assert((n - 1) * n > usize::MAX) by (nonlinear_arith)
                requires
                    n > 1,
                    (n - 1) > usize::MAX / n,
            ;
            assert(n * (n - 1) == (n - 1) * n) by (nonlinear_arith);
        }
        return None;
    }
    proof {
        if n > 1 {
            assert(n * (n - 1) <= usize::MAX) by (nonlinear_arith)
                requires
                    n > 1,
                    (n - 1) <= usize::MAX / n,
            ;
        } else {
            assert(n * (n - 1) == 0) by (nonlinear_arith)
                requires
                    n <= 1,
            ;
        }
    }
    let document = Document::parse_document(html);
    if !labels_can_be_looked_up(&document) {
        return None;
    }
    let mut issues = audit_seo(&document);
    append_issues(&mut issues, audit_a11y(&document));
    append_issues(&mut issues, audit_images(&document));
    append_issues(&mut issues, audit_schema(html));
    let config = LinkAuditConfig {
        root_dir,
        current_file: file_path,
        skip_patterns: options.skip_link_patterns.as_slice(),
    };
    let links = audit_links(&document, &config);
    let ghost found = choose|found: Seq<bool>| {
        &&& found.len() == css_select(html@, "a[href]"@).len()
        &&& forall|j: int| 0 <= j < found.len() && !probes_disk(css_select(html@, "a[href]"@)[j],
            config.skip_patterns@) ==> #[trigger] found[j]
        &&& links.deep_view() == #[trigger] page_link_issues(html@, config.skip_patterns@, found)
    };
    assert(config.skip_patterns@ == options.skip_link_patterns@);
    assert(links.deep_view() == page_link_issues(html@, options.skip_link_patterns@, found));
    append_issues(&mut issues, links);
    let (capo_score, capo_issues_found) = audit_capo(html);
    append_issues(&mut issues, capo_issues_found);
    assert(issues.deep_view() =~= all_page_issues(html@, options.skip_link_patterns@, found, capo_score));
    let issues = retain_unignored(issues, &options.ignore_rules);
    assert(found.len() == css_select(html@, "a[href]"@).len());
    let r = PageAuditReport { file_path: owned(file_path), url_path: url_path(file_path, root_dir), issues, capo_score };
    assert(r.issues.deep_view() == without_ignored(
        all_page_issues(html@, options.skip_link_patterns@, found, r.capo_score),
        options.ignore_rules@,
    ));
    assert(audited_issues(r.issues.deep_view(), html@, options.skip_link_patterns@, options.ignore_rules@, r.capo_score));
    Some(r)
}

/// Whether a file extension names an HTML page (`html` or `htm`, in any ASCII case).
pub open spec fn is_html_ext(ext: Seq<char>) -> bool {
    ascii_lower(ext) == "html"@ || ascii_lower(ext) == "htm"@
}

/// `char::to_ascii_lowercase`.
fn to_ascii_lower(c: char) -> (l: char)
    ensures
        l == lower_ascii_char(c),
{
    if 'A' <= c && c <= 'Z' {
        ((c as u8) + 32) as char
    } else {
        c
    }
}

/// Whether `s` equals `lower` (all small ASCII) ignoring ASCII case.
fn eq_ascii_lower(s: &str, lower: &str) -> (b: bool)
    ensures
        b == (ascii_lower(s@) == lower@),
{
    let x = crate::text::chars_of(s);
    let y = crate::text::chars_of(lower);
    if x.len() != y.len() {
        assert(ascii_lower(s@).len() != lower@.len());
        return false;
    }
    let mut i: usize = 0;
    while i < x.len()
        invariant
            x@ == s@,
            y@ == lower@,
            x@.len() == y@.len(),
            i <= x@.len(),
            forall|k: int| 0 <= k < i ==> lower_ascii_char(x@[k]) == y@[k],
        decreases x.len() - i,
    {
        if to_ascii_lower(x[i]) != y[i] {
            assert(ascii_lower(s@)[i as int] != lower@[i as int]);
            return false;
        }
        i = i + 1;
    }
    assert(ascii_lower(s@) =~= lower@);
    true
}

/// Whether a file with extension `ext` is an HTML page to audit.
pub fn is_html_extension(ext: &str) -> (b: bool)
    ensures
        b == is_html_ext(ext@),
{
    eq_ascii_lower(ext, "html") || eq_ascii_lower(ext, "htm")
}

/// The fields of `s` between commas, the first of them starting with `cur`.
pub open spec fn fields_from(s: Seq<char>, cur: Seq<char>) -> Seq<Seq<char>>
    decreases s.len(),
{
    if s.len() == 0 {
        seq![cur]
    } else if s[0] == ',' {
        seq![cur] + fields_from(s.drop_first(), Seq::empty())
    } else {
        fields_from(s.drop_first(), cur.push(s[0]))
    }
}

/// The trimmed fields that are not blank, in order.
pub open spec fn nonblank_trimmed(fields: Seq<Seq<char>>) -> Seq<Seq<char>>
    decreases fields.len(),
{
    if fields.len() == 0 {
        seq![]
    } else {
        (if trimmed(fields[0]).len() > 0 { seq![trimmed(fields[0])] } else { seq![] })
            + nonblank_trimmed(fields.drop_first())
    }
}

/// The entries of a comma-separated list: the fields between commas, trimmed,
/// without the blank ones.
pub open spec fn list_entries(s: Seq<char>) -> Seq<Seq<char>> {
    nonblank_trimmed(fields_from(s, Seq::empty()))
}

/// Splits a comma-separated list into its trimmed, non-blank entries
/// (`s.split(',').map(str::trim).filter(|e| !e.is_empty())`).
pub fn parse_comma_list(s: &str) -> (entries: Vec<String>)
    ensures
        entries.deep_view() == list_entries(s@),
{
    let v = crate::text::chars_of(s);
    let n = v.len();
    let mut out: Vec<String> = Vec::new();
    let mut cur = String::new();
    let mut i: usize = 0;
    assert(v@.skip(0) =~= v@);
    while i < n
        invariant
            n == v@.len(),
            v@ == s@,
            i <= n,
            list_entries(s@) == out.deep_view() + nonblank_trimmed(fields_from(v@.skip(i as int), cur@)),
        decreases n - i,
    {
        let ghost rest = v@.skip(i as int);
        assert(rest.drop_first() =~= v@.skip(i + 1));
        if v[i] == ',' {
            let t = crate::text::trim(cur.as_str());
            let ghost parts = seq![cur@] + fields_from(v@.skip(i + 1), Seq::empty());
            assert(parts.drop_first() =~= fields_from(v@.skip(i + 1), Seq::empty()));
            let ghost before = out.deep_view();
            if !t.as_str().is_empty() {
                out.push(t);
                assert(out.deep_view() =~= before.push(t@));
            }
            assert(out.deep_view() + nonblank_trimmed(fields_from(v@.skip(i + 1), Seq::<char>::empty()))
                =~= before + nonblank_trimmed(parts));
            cur = String::new();
        } else {
            crate::text::push_char(&mut cur, v[i]);
        }
        i = i + 1;
    }
    let t = crate::text::trim(cur.as_str());
    let ghost before = out.deep_view();
    let ghost last = seq![cur@];
    assert(v@.skip(n as int) =~= Seq::<char>::empty());
    assert(fields_from(v@.skip(n as int), cur@) == last);
    assert(last.drop_first() =~= Seq::<Seq<char>>::empty());
    assert(nonblank_trimmed(last.drop_first()) == Seq::<Seq<char>>::empty());
    if !t.as_str().is_empty() {
        out.push(t);
        assert(out.deep_view() =~= before.push(t@));
    }
    assert(out.deep_view() =~= before + nonblank_trimmed(last));
    out
}

/// Dropping ignored rules keeps exactly the other findings, in order: no
/// finding of an ignored rule remains, every remaining finding comes from `s`,
/// and a list with no ignored finding is kept whole.
pub proof fn lemma_ignored_rules_dropped(s: Seq<IssueView>, ignore: Seq<String>)
    ensures
        forall|j: int| 0 <= j < without_ignored(s, ignore).len() ==> !is_ignored(
            (#[trigger] without_ignored(s, ignore)[j]).code,
            ignore,
        ) && s.contains(without_ignored(s, ignore)[j]),
        (forall|i: int| 0 <= i < s.len() ==> !is_ignored((#[trigger] s[i]).code, ignore)) ==> without_ignored(s, ignore) == s,
    decreases s.len(),
{
    if s.len() > 0 {
        let p = s.drop_last();
        lemma_ignored_rules_dropped(p, ignore);
        let w = without_ignored(p, ignore);
        let tail = if is_ignored(s.last().code, ignore) { Seq::<IssueView>::empty() } else { seq![s.last()] };
        assert forall|j: int| 0 <= j < (w + tail).len() implies !is_ignored((#[trigger] (w + tail)[j]).code, ignore)
            && s.contains((w + tail)[j]) by {
            if j < w.len() {
                assert((w + tail)[j] == w[j]);
                let k = choose|k: int| 0 <= k < p.len() && p[k] == w[j];
                assert(s[k] == w[j]);
            } else {
                assert((w + tail)[j] == s.last());
                assert(s[s.len() - 1] == s.last());
            }
        }
        if forall|i: int| 0 <= i < s.len() ==> !is_ignored((#[trigger] s[i]).code, ignore) {
            assert forall|i: int| 0 <= i < p.len() implies !is_ignored((#[trigger] p[i]).code, ignore) by {
                assert(p[i] == s[i]);
            }
            assert(!is_ignored(s[s.len() - 1].code, ignore));
            assert(w + tail =~= s);
        }
    }
}

/// With no rule ignored, every finding is kept.
pub proof fn lemma_nothing_ignored(s: Seq<IssueView>)
    ensures
        without_ignored(s, Seq::<String>::empty()) == s,
{
    lemma_ignored_rules_dropped(s, Seq::<String>::empty());
}

/// The entries of a comma-separated list are never blank and have no white
/// space at either end.
pub proof fn lemma_list_entries_trimmed(fields: Seq<Seq<char>>)
    ensures
        forall|j: int| 0 <= j < nonblank_trimmed(fields).len() ==> (#[trigger] nonblank_trimmed(fields)[j]).len() > 0
            && trimmed(nonblank_trimmed(fields)[j]) == nonblank_trimmed(fields)[j],
    decreases fields.len(),
{
    if fields.len() > 0 {
        lemma_list_entries_trimmed(fields.drop_first());
        crate::text::lemma_trimmed_idempotent(fields[0]);
        let head = if trimmed(fields[0]).len() > 0 { seq![trimmed(fields[0])] } else { Seq::<Seq<char>>::empty() };
        let rest = nonblank_trimmed(fields.drop_first());
        assert forall|j: int| 0 <= j < (head + rest).len() implies (#[trigger] (head + rest)[j]).len() > 0
            && trimmed((head + rest)[j]) == (head + rest)[j] by {
            if j >= head.len() {
                assert((head + rest)[j] == rest[j - head.len()]);
            }
        }
    }
}

} // verus!
