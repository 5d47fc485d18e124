use vstd::prelude::*;

use crate::capo::CapoScore;

verus! {

/// How serious a finding is; ordered from least to most serious.
#[derive(Debug, Clone, Copy, PartialEq, Eq, PartialOrd, Ord, Structural)]
pub enum Severity {
    Info,
    Warning,
    Error,
}

/// The family of rules a finding belongs to.
#[derive(Debug, Clone, Copy, PartialEq, Eq, Hash, Structural)]
pub enum Category {
    Seo,
    A11y,
    Schema,
    Links,
    Images,
    Capo,
}

/// The display name of each category.
pub open spec fn category_name(c: Category) -> Seq<char> {
    match c {
        Category::Seo => "SEO"@,
        Category::A11y => "Accessibility"@,
        Category::Schema => "Schema.org"@,
        Category::Links => "Links"@,
        Category::Images => "Images"@,
        Category::Capo => "Capo"@,
    }
}

impl Category {
    /// The human-readable name of the category.
    pub fn name(&self) -> (name: &'static str)
        ensures
            name@ == category_name(*self),
    {
        match self {
            Category::Seo => "SEO",
            Category::A11y => "Accessibility",
            Category::Schema => "Schema.org",
            Category::Links => "Links",
            Category::Images => "Images",
            Category::Capo => "Capo",
        }
    }
}

} // verus!

verus! {

/// One finding of an audit rule on a page.
#[derive(Debug, Clone)]
pub struct Issue {
    pub code: String,
    pub category: Category,
    pub severity: Severity,
    pub message: String,
    pub selector: Option<String>,
}

/// The mathematical content of an [`Issue`]: its texts as character sequences.
pub struct IssueView {
    pub code: Seq<char>,
    pub category: Category,
    pub severity: Severity,
    pub message: Seq<char>,
    pub selector: Option<Seq<char>>,
}

impl DeepView for Issue {
    type V = IssueView;

    open spec fn deep_view(&self) -> IssueView {
        IssueView {
            code: self.code@,
            category: self.category,
            severity: self.severity,
            message: self.message@,
            selector: match self.selector {
                Some(s) => Some(s@),
                None => None,
            },
        }
    }
}

/// The finding with the given code, family, severity, message and selector.
pub open spec fn finding(
    code: Seq<char>,
    category: Category,
    severity: Severity,
    message: Seq<char>,
    selector: Seq<char>,
) -> IssueView {
    IssueView { code, category, severity, message, selector: Some(selector) }
}

/// Whether one of `issues` has the code `code`.
pub open spec fn has_code(issues: Seq<IssueView>, code: Seq<char>) -> bool {
    exists|j: int| 0 <= j < issues.len() && (#[trigger] issues[j]).code == code
}

/// A code occurs in two lists of findings together exactly when it occurs in one of them.
pub proof fn lemma_has_code_concat(a: Seq<IssueView>, b: Seq<IssueView>, code: Seq<char>)
    ensures
        has_code(a + b, code) <==> has_code(a, code) || has_code(b, code),
{
    if has_code(a, code) {
        let j = choose|j: int| 0 <= j < a.len() && (#[trigger] a[j]).code == code;
        assert((a + b)[j] == a[j]);
    }
    if has_code(b, code) {
        let j = choose|j: int| 0 <= j < b.len() && (#[trigger] b[j]).code == code;
        assert((a + b)[a.len() + j] == b[j]);
    }
    if has_code(a + b, code) {
        let j = choose|j: int| 0 <= j < (a + b).len() && (#[trigger] (a + b)[j]).code == code;
        if j < a.len() {
            assert((a + b)[j] == a[j]);
        } else {
            assert((a + b)[j] == b[j - a.len()]);
        }
    }
}

/// A fresh string holding `s`.
pub fn owned(s: &str) -> (r: String)
    ensures
        r@ == s@,
{
    s.to_owned()
}

/// The concatenation of three texts.
pub fn concat3(a: &str, b: &str, c: &str) -> (r: String)
    ensures
        r@ == a@ + b@ + c@,
{
    let mut r = owned(a);
    r.append(b);
    r.append(c);
    r
}

/// Builds an issue whose selector is present.
pub fn make_issue(
    code: &str,
    category: Category,
    severity: Severity,
    message: String,
    selector: String,
) -> (i: Issue)
    ensures
        i.deep_view() == finding(code@, category, severity, message@, selector@),
{
    Issue { code: owned(code), category, severity, message, selector: Some(selector) }
}

/// Appends `issue` to `issues`.
pub fn push_issue(issues: &mut Vec<Issue>, issue: Issue)
    ensures
        final(issues).deep_view() == old(issues).deep_view().push(issue.deep_view()),
{
    issues.push(issue);
    assert(issues.deep_view() =~= old(issues).deep_view().push(issue.deep_view()));
}

/// Appends all of `more` to `issues`.
pub fn append_issues(issues: &mut Vec<Issue>, more: Vec<Issue>)
    ensures
        final(issues).deep_view() == old(issues).deep_view() + more.deep_view(),
{
    let mut more = more;
    let ghost before = issues.deep_view();
    let ghost extra = more.deep_view();
    issues.append(&mut more);
    assert(issues.deep_view() =~= before + extra);
}

/// The number of findings in `s` with severity `sev`.
pub open spec fn count_severity(s: Seq<IssueView>, sev: Severity) -> nat
    decreases s.len(),
{
    if s.len() == 0 {
        0
    } else {
        count_severity(s.drop_last(), sev) + if s.last().severity == sev { 1nat } else { 0nat }
    }
}

} // verus!

verus! {

/// The findings `f(0) + f(1) + ... + f(n - 1)`, for a check that runs once per
/// element of a selection.
pub open spec fn concat_findings(n: nat, f: spec_fn(int) -> Seq<IssueView>) -> Seq<IssueView>
    decreases n,
{
    if n == 0 {
        seq![]
    } else {
        concat_findings((n - 1) as nat, f) + f(n - 1)
    }
}

/// Two per-element checks that agree on the first `n` elements give the same findings.
pub proof fn lemma_concat_findings_agree(n: nat, f: spec_fn(int) -> Seq<IssueView>, g: spec_fn(int) -> Seq<IssueView>)
    requires
        forall|k: int| 0 <= k < n ==> #[trigger] f(k) == g(k),
    ensures
        concat_findings(n, f) == concat_findings(n, g),
    decreases n,
{
    if n > 0 {
        lemma_concat_findings_agree((n - 1) as nat, f, g);
    }
}

/// The audit of one page: where it was read from, the URL path it is served
/// at, its findings, and the ordering score of its `<head>`.
pub struct PageAuditReport {
    pub file_path: String,
    pub url_path: String,
    pub issues: Vec<Issue>,
    pub capo_score: CapoScore,
}

/// Counts the findings of `issues` with severity `sev`.
fn count_with_severity(issues: &Vec<Issue>, sev: Severity) -> (n: usize)
    ensures
        n == count_severity(issues.deep_view(), sev),
{
    let ghost v = issues.deep_view();
    let mut n: usize = 0;
    let mut i: usize = 0;
    while i < issues.len()
        invariant
            v == issues.deep_view(),
            i <= issues@.len(),
            n <= i,
            n == count_severity(v.take(i as int), sev),
        decreases issues.len() - i,
    {
        assert(v.take(i + 1).drop_last() =~= v.take(i as int));
        if issues[i].severity == sev {
            n = n + 1;
        }
        i = i + 1;
    }
    assert(v.take(i as int) =~= v);
    n
}

impl PageAuditReport {
    /// The number of findings of severity `Error`.
    pub fn errors_count(&self) -> (n: usize)
        ensures
            n == count_severity(self.issues.deep_view(), Severity::Error),
    {
        count_with_severity(&self.issues, Severity::Error)
    }

    /// The number of findings of severity `Warning`.
    pub fn warnings_count(&self) -> (n: usize)
        ensures
            n == count_severity(self.issues.deep_view(), Severity::Warning),
    {
        count_with_severity(&self.issues, Severity::Warning)
    }
}

/// When every per-element check yields only findings with property `p`, so do
/// all of them together.
pub proof fn lemma_concat_findings_all(n: nat, f: spec_fn(int) -> Seq<IssueView>, p: spec_fn(IssueView) -> bool)
    requires
        forall|i: int, j: int| 0 <= i < n && 0 <= j < f(i).len() ==> #[trigger] p(f(i)[j]),
    ensures
        forall|j: int| 0 <= j < concat_findings(n, f).len() ==> #[trigger] p(concat_findings(n, f)[j]),
    decreases n,
{
    if n > 0 {
        lemma_concat_findings_all((n - 1) as nat, f, p);
        let a = concat_findings((n - 1) as nat, f);
        let b = f(n - 1);
        assert forall|j: int| 0 <= j < (a + b).len() implies #[trigger] p((a + b)[j]) by {
            if j >= a.len() {
                assert((a + b)[j] == b[j - a.len()]);
            }
        }
    }
}

/// Every finding has exactly one severity: the errors, warnings and notices of
/// a list of findings add up to its length.
pub proof fn lemma_severities_partition(s: Seq<IssueView>)
    ensures
        count_severity(s, Severity::Error) + count_severity(s, Severity::Warning) + count_severity(s, Severity::Info)
            == s.len(),
    decreases s.len(),
{
    if s.len() > 0 {
        lemma_severities_partition(s.drop_last());
    }
}

} // verus!
