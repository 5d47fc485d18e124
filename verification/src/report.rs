use vstd::prelude::*;

use crate::models::{Issue, IssueView, PageAuditReport, Severity, count_severity, owned};
use crate::text::{lowercase, same_text, to_lowercase};

verus! {

/// How the findings are printed.
#[derive(Debug, Clone, Copy, PartialEq, Eq, Structural)]
pub enum ReportFormat {
    Terminal,
    Json,
    Github,
}

/// The format that a lower-cased format name selects; unknown names select the terminal.
pub open spec fn format_named(l: Seq<char>) -> ReportFormat {
    if l == "json"@ {
        ReportFormat::Json
    } else if l == "github"@ {
        ReportFormat::Github
    } else {
        ReportFormat::Terminal
    }
}

impl ReportFormat {
    /// The format named `name`, in any case: `json`, `github`, or else the terminal.
    pub fn from_name(name: &str) -> (f: ReportFormat)
        ensures
            f == format_named(lowercase(name@)),
    {
        let l = to_lowercase(name);
        if same_text(l.as_str(), "json") {
            ReportFormat::Json
        } else if same_text(l.as_str(), "github") {
            ReportFormat::Github
        } else {
            ReportFormat::Terminal
        }
    }
}

/// The GitHub workflow command for each severity.
pub open spec fn github_level_of(s: Severity) -> Seq<char> {
    match s {
        Severity::Error => "error"@,
        Severity::Warning => "warning"@,
        Severity::Info => "notice"@,
    }
}

/// The GitHub workflow command for a severity.
pub fn github_level(s: Severity) -> (level: &'static str)
    ensures
        level@ == github_level_of(s),
{
    match s {
        Severity::Error => "error",
        Severity::Warning => "warning",
        Severity::Info => "notice",
    }
}

/// The GitHub Actions annotation line of a finding on the page at `file_path`.
pub open spec fn annotation_of(file_path: Seq<char>, i: IssueView) -> Seq<char> {
    "::"@ + github_level_of(i.severity) + " file="@ + file_path + "::["@ + i.code + "] "@ + i.message
}

/// The GitHub Actions annotation line of `issue` on the page at `file_path`.
pub fn github_annotation(file_path: &str, issue: &Issue) -> (line: String)
    ensures
        line@ == annotation_of(file_path@, issue.deep_view()),
{
    let mut line = owned("::");
    line.append(github_level(issue.severity));
    line.append(" file=");
    line.append(file_path);
    line.append("::[");
    line.append(issue.code.as_str());
    line.append("] ");
    line.append(issue.message.as_str());
    line
}

/// Whether the terminal report lists a page: it has errors, or warnings in verbose mode.
pub fn page_is_listed(report: &PageAuditReport, verbose: bool) -> (b: bool)
    ensures
        b == (count_severity(report.issues.deep_view(), Severity::Error) > 0 || (count_severity(
            report.issues.deep_view(),
            Severity::Warning,
        ) > 0 && verbose)),
{
    report.errors_count() > 0 || (report.warnings_count() > 0 && verbose)
}

/// Whether the terminal report lists a finding of a listed page: errors always,
/// the others in verbose mode.
pub fn issue_is_listed(issue: &Issue, verbose: bool) -> (b: bool)
    ensures
        b == (issue.severity == Severity::Error || verbose),
{
    issue.severity == Severity::Error || verbose
}

/// The status label of a listed page.
pub fn page_status(report: &PageAuditReport) -> (label: &'static str)
    ensures
        label@ == if count_severity(report.issues.deep_view(), Severity::Error) > 0 { "FAIL"@ } else { "WARN"@ },
{
    if report.errors_count() > 0 {
        "FAIL"
    } else {
        "WARN"
    }
}

/// The badge of a finding in the terminal report.
pub fn severity_badge(s: Severity) -> (badge: &'static str)
    ensures
        badge@ == match s {
            Severity::Error => "✗ ERROR"@,
            Severity::Warning => "⚠ WARN "@,
            Severity::Info => "ℹ INFO "@,
        },
{
    match s {
        Severity::Error => "✗ ERROR",
        Severity::Warning => "⚠ WARN ",
        Severity::Info => "ℹ INFO ",
    }
}

/// The number of findings of severity `sev` over the first `k` reports.
pub open spec fn total_severity(reports: Seq<PageAuditReport>, sev: Severity, k: int) -> nat
    decreases k,
{
    if k <= 0 {
        0
    } else {
        total_severity(reports, sev, k - 1) + count_severity(reports[k - 1].issues.deep_view(), sev)
    }
}

proof fn lemma_total_monotone(reports: Seq<PageAuditReport>, sev: Severity, i: int, k: int)
    requires
        0 <= i <= k,
    ensures
        total_severity(reports, sev, i) <= total_severity(reports, sev, k),
    decreases k - i,
{
    if i < k {
        lemma_total_monotone(reports, sev, i, k - 1);
    }
}

/// The number of findings of severity `sev` over all `reports`.
pub fn total_count(reports: &Vec<PageAuditReport>, sev: Severity) -> (n: usize)
    requires
        total_severity(reports@, sev, reports@.len() as int) <= usize::MAX,
    ensures
        n == total_severity(reports@, sev, reports@.len() as int),
{
    let mut n: usize = 0;
    let mut i: usize = 0;
    while i < reports.len()
        invariant
            i <= reports@.len(),
            total_severity(reports@, sev, reports@.len() as int) <= usize::MAX,
            n == total_severity(reports@, sev, i as int),
        decreases reports.len() - i,
    {
        let c = if sev == Severity::Error {
            reports[i].errors_count()
        } else if sev == Severity::Warning {
            reports[i].warnings_count()
        } else {
            count_info(&reports[i])
        };
        proof {
            lemma_total_monotone(reports@, sev, i + 1, reports@.len() as int);
        }
        n = n + c;
        i = i + 1;
    }
    n
}

/// The number of findings of severity `Info` of a report.
fn count_info(report: &PageAuditReport) -> (n: usize)
    ensures
        n == count_severity(report.issues.deep_view(), Severity::Info),
{
    let ghost v = report.issues.deep_view();
    let mut n: usize = 0;
    let mut i: usize = 0;
    while i < report.issues.len()
        invariant
            v == report.issues.deep_view(),
            i <= report.issues@.len(),
            n <= i,
            n == count_severity(v.take(i as int), Severity::Info),
        decreases report.issues.len() - i,
    {
        assert(v.take(i + 1).drop_last() =~= v.take(i as int));
        if report.issues[i].severity == Severity::Info {
            n = n + 1;
        }
        i = i + 1;
    }
    assert(v.take(i as int) =~= v);
    n
}

/// Whether a strict run fails: strict mode and at least one error.
pub fn strict_failure(strict: bool, total_errors: usize) -> (fail: bool)
    ensures
        fail == (strict && total_errors > 0),
{
    strict && total_errors > 0
}

} // verus!
