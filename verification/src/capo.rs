use vstd::prelude::*;

use crate::models::{Category, Issue, IssueView, Severity, concat3, finding, has_code, make_issue, owned, push_issue};
use crate::pattern::{all_matches, first_capture, regex_all_matches, regex_first_capture};
use crate::text::{
    ascii_lower, ascii_upper, contains, contains_text, decimal, decimal_string, is_ascii_text, lemma_ascii_lower_of_upper,
    lowercase, starts_with, to_lowercase, trim, trimmed,
};

verus! {

/// Where a `<head>` element belongs in the loading order that lets the browser
/// pre-parse best; earlier variants should come first.
#[derive(Debug, Clone, Copy, PartialEq, Eq, PartialOrd, Ord, Structural)]
pub enum CapoPriority {
    OriginTrials,
    MetaCharset,
    MetaCsp,
    MetaViewport,
    Title,
    Preconnect,
    AsyncScript,
    ImportStyles,
    SyncScript,
    SyncStyles,
    Preload,
    DeferScript,
    PrefetchPrerender,
    OtherMeta,
}

/// The weight of each priority: 1 for the element that should come first, 14 for the last.
pub open spec fn weight(p: CapoPriority) -> nat {
    match p {
        CapoPriority::OriginTrials => 1,
        CapoPriority::MetaCharset => 2,
        CapoPriority::MetaCsp => 3,
        CapoPriority::MetaViewport => 4,
        CapoPriority::Title => 5,
        CapoPriority::Preconnect => 6,
        CapoPriority::AsyncScript => 7,
        CapoPriority::ImportStyles => 8,
        CapoPriority::SyncScript => 9,
        CapoPriority::SyncStyles => 10,
        CapoPriority::Preload => 11,
        CapoPriority::DeferScript => 12,
        CapoPriority::PrefetchPrerender => 13,
        CapoPriority::OtherMeta => 14,
    }
}

impl CapoPriority {
    /// The weight of the priority (see [`weight`]).
    pub fn value(&self) -> (w: u8)
        ensures
            w as nat == weight(*self),
    {
        match self {
            CapoPriority::OriginTrials => 1,
            CapoPriority::MetaCharset => 2,
            CapoPriority::MetaCsp => 3,
            CapoPriority::MetaViewport => 4,
            CapoPriority::Title => 5,
            CapoPriority::Preconnect => 6,
            CapoPriority::AsyncScript => 7,
            CapoPriority::ImportStyles => 8,
            CapoPriority::SyncScript => 9,
            CapoPriority::SyncStyles => 10,
            CapoPriority::Preload => 11,
            CapoPriority::DeferScript => 12,
            CapoPriority::PrefetchPrerender => 13,
            CapoPriority::OtherMeta => 14,
        }
    }
}

/// One element of `<head>`: its trimmed markup, its priority and its position
/// among the elements that were kept.
#[derive(Debug, Clone)]
pub struct HeadElement {
    pub raw: String,
    pub priority: CapoPriority,
    pub original_index: usize,
}

/// The mathematical content of a [`HeadElement`].
pub struct HeadElementView {
    pub raw: Seq<char>,
    pub priority: CapoPriority,
    pub original_index: usize,
}

impl DeepView for HeadElement {
    type V = HeadElementView;

    open spec fn deep_view(&self) -> HeadElementView {
        HeadElementView { raw: self.raw@, priority: self.priority, original_index: self.original_index }
    }
}

/// The priority of a `<meta>` tag, from its lower-cased markup.
pub open spec fn meta_priority(t: Seq<char>) -> CapoPriority {
    if contains_text(t, "origin-trial"@) {
        CapoPriority::OriginTrials
    } else if contains_text(t, "charset="@) || contains_text(t, "content-type"@) {
        CapoPriority::MetaCharset
    } else if contains_text(t, "content-security-policy"@) {
        CapoPriority::MetaCsp
    } else if contains_text(t, "viewport"@) {
        CapoPriority::MetaViewport
    } else {
        CapoPriority::OtherMeta
    }
}

/// The priority of a `<link>` tag, from its lower-cased markup.
pub open spec fn link_priority(t: Seq<char>) -> CapoPriority {
    if contains_text(t, "preconnect"@) {
        CapoPriority::Preconnect
    } else if contains_text(t, "preload"@) || contains_text(t, "modulepreload"@) {
        CapoPriority::Preload
    } else if contains_text(t, "stylesheet"@) {
        if contains_text(t, "@import"@) { CapoPriority::ImportStyles } else { CapoPriority::SyncStyles }
    } else if contains_text(t, "prefetch"@) || contains_text(t, "prerender"@) || contains_text(t, "dns-prefetch"@) {
        CapoPriority::PrefetchPrerender
    } else {
        CapoPriority::OtherMeta
    }
}

/// The priority of a `<script>` tag, from its lower-cased markup.
pub open spec fn script_priority(t: Seq<char>) -> CapoPriority {
    if contains_text(t, "async"@) {
        CapoPriority::AsyncScript
    } else if contains_text(t, "defer"@) || contains_text(t, "type=\"module\""@) || contains_text(t, "type='module'"@) {
        CapoPriority::DeferScript
    } else {
        CapoPriority::SyncScript
    }
}

/// The priority of a `<head>` element, from its trimmed lower-cased markup `t`.
pub open spec fn capo_priority(t: Seq<char>) -> CapoPriority {
    if "<meta"@.is_prefix_of(t) {
        meta_priority(t)
    } else if "<title"@.is_prefix_of(t) || "<base"@.is_prefix_of(t) {
        CapoPriority::Title
    } else if "<link"@.is_prefix_of(t) {
        link_priority(t)
    } else if "<style"@.is_prefix_of(t) {
        if contains_text(t, "@import"@) { CapoPriority::ImportStyles } else { CapoPriority::SyncStyles }
    } else if "<script"@.is_prefix_of(t) {
        script_priority(t)
    } else {
        CapoPriority::OtherMeta
    }
}

/// The element that `classify_element` makes of the markup `raw` at position `index`.
pub open spec fn classified(raw: Seq<char>, index: usize) -> HeadElementView {
    HeadElementView { raw: trimmed(raw), priority: capo_priority(trimmed(lowercase(raw))), original_index: index }
}

/// The priority of ASCII markup `raw`: that of its trimmed markup with ASCII
/// capitals made small.
pub open spec fn ascii_priority(raw: Seq<char>) -> CapoPriority {
    capo_priority(trimmed(ascii_lower(raw)))
}

/// The case of ASCII letters does not change how ASCII markup is classified:
/// markup with its letters made capital has the priority of the markup itself.
pub proof fn lemma_ascii_case_keeps_priority(raw: Seq<char>)
    requires
        is_ascii_text(raw),
    ensures
        is_ascii_text(ascii_upper(raw)),
        ascii_priority(ascii_upper(raw)) == ascii_priority(raw),
{
    lemma_ascii_lower_of_upper(raw);
}

/// The kind of a `<link>` tag, from its lower-cased trimmed markup `t`: a
/// preconnect hint first, then a preload (or module preload), then a stylesheet
/// (an `@import` one or a plain one), then prefetch and prerender hints; any
/// other link is ranked last.
pub proof fn lemma_link_priorities(t: Seq<char>)
    requires
        "<link"@.is_prefix_of(t),
    ensures
        contains_text(t, "preconnect"@) ==> capo_priority(t) == CapoPriority::Preconnect,
        !contains_text(t, "preconnect"@) && contains_text(t, "preload"@) ==> capo_priority(t) == CapoPriority::Preload,
        !contains_text(t, "preconnect"@) && !contains_text(t, "preload"@) && contains_text(t, "stylesheet"@)
            ==> capo_priority(t) == (if contains_text(t, "@import"@) {
            CapoPriority::ImportStyles
        } else {
            CapoPriority::SyncStyles
        }),
        !contains_text(t, "preconnect"@) && !contains_text(t, "preload"@) && !contains_text(t, "stylesheet"@)
            && (contains_text(t, "prefetch"@) || contains_text(t, "prerender"@)) ==> capo_priority(t)
            == CapoPriority::PrefetchPrerender,
        !contains_text(t, "preconnect"@) && !contains_text(t, "preload"@) && !contains_text(t, "stylesheet"@)
            && !contains_text(t, "prefetch"@) && !contains_text(t, "prerender"@) ==> capo_priority(t)
            == CapoPriority::OtherMeta,
{
    reveal_strlit("<link");
    reveal_strlit("<meta");
    reveal_strlit("<title");
    reveal_strlit("<base");
    assert(t.subrange(0, 5) == "<link"@);
    assert(t[1] == t.subrange(0, 5)[1]);
    assert(t[1] == 'l');
    assert(!"<meta"@.is_prefix_of(t)) by {
        if "<meta"@.is_prefix_of(t) {
            assert(t.subrange(0, "<meta"@.len() as int)[1] == t[1]);
            assert(t[1] == "<meta"@[1]);
        }
    }
    assert(!"<title"@.is_prefix_of(t)) by {
        if "<title"@.is_prefix_of(t) {
            assert(t.subrange(0, "<title"@.len() as int)[1] == t[1]);
            assert(t[1] == "<title"@[1]);
        }
    }
    assert(!"<base"@.is_prefix_of(t)) by {
        if "<base"@.is_prefix_of(t) {
            assert(t.subrange(0, "<base"@.len() as int)[1] == t[1]);
            assert(t[1] == "<base"@[1]);
        }
    }
    if contains_text(t, "modulepreload"@) {
        reveal_strlit("modulepreload");
        reveal_strlit("preload");
        let i = choose|i: int| 0 <= i && i + "modulepreload"@.len() <= t.len() && #[trigger] t.subrange(i, i
            + "modulepreload"@.len()) == "modulepreload"@;
        let big = t.subrange(i, i + 13);
        assert forall|k: int| 0 <= k < 7 implies #[trigger] t.subrange(i + 6, i + 13)[k] == "preload"@[k] by {
            assert(big[6 + k] == t[i + 6 + k]);
            assert("modulepreload"@[6 + k] == "preload"@[k]);
        }
        assert(t.subrange(i + 6, i + 13) =~= "preload"@);
        assert(t.subrange(i + 6, i + 6 + "preload"@.len()) == "preload"@);
        assert(contains_text(t, "preload"@));
    }
    if contains_text(t, "dns-prefetch"@) {
        reveal_strlit("dns-prefetch");
        reveal_strlit("prefetch");
        let i = choose|i: int| 0 <= i && i + "dns-prefetch"@.len() <= t.len() && #[trigger] t.subrange(i, i
            + "dns-prefetch"@.len()) == "dns-prefetch"@;
        let big = t.subrange(i, i + 12);
        assert forall|k: int| 0 <= k < 8 implies #[trigger] t.subrange(i + 4, i + 12)[k] == "prefetch"@[k] by {
            assert(big[4 + k] == t[i + 4 + k]);
            assert("dns-prefetch"@[4 + k] == "prefetch"@[k]);
        }
        assert(t.subrange(i + 4, i + 12) =~= "prefetch"@);
        assert(t.subrange(i + 4, i + 4 + "prefetch"@.len()) == "prefetch"@);
        assert(contains_text(t, "prefetch"@));
    }
}

/// The Capo.js loading order, earliest first: origin trials, charset, content
/// security policy, viewport, title, preconnect hints, async scripts, `@import`
/// styles, synchronous scripts, synchronous styles, preloads, deferred scripts,
/// prefetch and prerender hints, and everything else.
pub proof fn lemma_capo_order()
    ensures
        weight(CapoPriority::OriginTrials) < weight(CapoPriority::MetaCharset),
        weight(CapoPriority::MetaCharset) < weight(CapoPriority::MetaCsp),
        weight(CapoPriority::MetaCsp) < weight(CapoPriority::MetaViewport),
        weight(CapoPriority::MetaViewport) < weight(CapoPriority::Title),
        weight(CapoPriority::Title) < weight(CapoPriority::Preconnect),
        weight(CapoPriority::Preconnect) < weight(CapoPriority::AsyncScript),
        weight(CapoPriority::AsyncScript) < weight(CapoPriority::ImportStyles),
        weight(CapoPriority::ImportStyles) < weight(CapoPriority::SyncScript),
        weight(CapoPriority::SyncScript) < weight(CapoPriority::SyncStyles),
        weight(CapoPriority::SyncStyles) < weight(CapoPriority::Preload),
        weight(CapoPriority::Preload) < weight(CapoPriority::DeferScript),
        weight(CapoPriority::DeferScript) < weight(CapoPriority::PrefetchPrerender),
        weight(CapoPriority::PrefetchPrerender) < weight(CapoPriority::OtherMeta),
{
}

/// A head whose elements come as a charset tag, a title, a preload and a
/// deferred script is in the optimal order: none of its pairs is inverted.
pub proof fn lemma_charset_title_preload_defer_optimal(els: Seq<HeadElementView>)
    requires
        els.len() == 4,
        els[0].priority == CapoPriority::MetaCharset,
        els[1].priority == CapoPriority::Title,
        els[2].priority == CapoPriority::Preload,
        els[3].priority == CapoPriority::DeferScript,
    ensures
        inversion_count(els) == 0,
{
    lemma_capo_order();
    lemma_no_inversions_iff_optimal(els);
    assert forall|i: int, j: int| 0 <= i < j < els.len() implies weight(#[trigger] els[i].priority) <= weight(
        #[trigger] els[j].priority,
    ) by {}
}

fn meta_kind(t: &str) -> (p: CapoPriority)
    ensures
        p == meta_priority(t@),
{
    if contains(t, "origin-trial") {
        CapoPriority::OriginTrials
    } else if contains(t, "charset=") || contains(t, "content-type") {
        CapoPriority::MetaCharset
    } else if contains(t, "content-security-policy") {
        CapoPriority::MetaCsp
    } else if contains(t, "viewport") {
        CapoPriority::MetaViewport
    } else {
        CapoPriority::OtherMeta
    }
}

fn link_kind(t: &str) -> (p: CapoPriority)
    ensures
        p == link_priority(t@),
{
    if contains(t, "preconnect") {
        CapoPriority::Preconnect
    } else if contains(t, "preload") || contains(t, "modulepreload") {
        CapoPriority::Preload
    } else if contains(t, "stylesheet") {
        if contains(t, "@import") { CapoPriority::ImportStyles } else { CapoPriority::SyncStyles }
    } else if contains(t, "prefetch") || contains(t, "prerender") || contains(t, "dns-prefetch") {
        CapoPriority::PrefetchPrerender
    } else {
        CapoPriority::OtherMeta
    }
}

fn script_kind(t: &str) -> (p: CapoPriority)
    ensures
        p == script_priority(t@),
{
    if contains(t, "async") {
        CapoPriority::AsyncScript
    } else if contains(t, "defer") || contains(t, "type=\"module\"") || contains(t, "type='module'") {
        CapoPriority::DeferScript
    } else {
        CapoPriority::SyncScript
    }
}

/// Classifies one `<head>` element by its markup: its priority comes from the
/// lower-cased trimmed markup, and it keeps the trimmed markup and `index`.
pub fn classify_element(raw: &str, index: usize) -> (el: HeadElement)
    ensures
        el.deep_view() == classified(raw@, index),
        is_ascii_text(raw@) ==> el.priority == ascii_priority(raw@),
{
    let lower = to_lowercase(raw);
    let t = trim(lower.as_str());
    let t = t.as_str();
    let priority = if starts_with(t, "<meta") {
        meta_kind(t)
    } else if starts_with(t, "<title") || starts_with(t, "<base") {
        CapoPriority::Title
    } else if starts_with(t, "<link") {
        link_kind(t)
    } else if starts_with(t, "<style") {
        if contains(t, "@import") { CapoPriority::ImportStyles } else { CapoPriority::SyncStyles }
    } else if starts_with(t, "<script") {
        script_kind(t)
    } else {
        CapoPriority::OtherMeta
    };
    HeadElement { raw: trim(raw), priority, original_index: index }
}

/// The pattern that captures the inside of `<head>`.
pub open spec fn head_pattern() -> Seq<char> {
    "(?is)<head\\b[^>]*>(.*?)</head>"@
}

/// The pattern of the tags of `<head>` that are classified (and of comments,
/// which are skipped).
pub open spec fn tag_pattern() -> Seq<char> {
    "(?is)(<!--.*?-->|<title\\b[^>]*>.*?</title>|<style\\b[^>]*>.*?</style>|<script\\b[^>]*>.*?</script>|<(?:meta|link|base)\\b[^>]*>)"@
}

/// Whether a matched snippet is kept: it is not blank and not a comment.
pub open spec fn kept_snippet(m: Seq<char>) -> bool {
    trimmed(m).len() > 0 && !"<!--"@.is_prefix_of(trimmed(m))
}

/// The elements classified from the first `k` matched snippets, numbered in order.
pub open spec fn elements_of(snippets: Seq<Seq<char>>, k: int) -> Seq<HeadElementView>
    decreases k,
{
    if k <= 0 {
        seq![]
    } else {
        let prev = elements_of(snippets, k - 1);
        if kept_snippet(snippets[k - 1]) {
            prev.push(classified(trimmed(snippets[k - 1]), prev.len() as usize))
        } else {
            prev
        }
    }
}

/// The `<head>` elements of a page, in order: none where the page has no `<head>`.
pub open spec fn head_elements(html: Seq<char>) -> Seq<HeadElementView> {
    match regex_first_capture(head_pattern(), html) {
        None => seq![],
        Some(inner) => {
            let snippets = regex_all_matches(tag_pattern(), inner);
            elements_of(snippets, snippets.len() as int)
        },
    }
}

/// The classified elements of the matched snippets of `<head>`, skipping blank
/// snippets and comments.
#[verifier::loop_isolation(false)]
pub fn elements_from_snippets(snippets: &Vec<String>) -> (els: Vec<HeadElement>)
    ensures
        els.deep_view() == elements_of(snippets.deep_view(), snippets@.len() as int),
{
    let mut els: Vec<HeadElement> = Vec::new();
    let mut index: usize = 0;
    let mut k: usize = 0;
    while k < snippets.len()
        invariant
            k <= snippets@.len(),
            index == els@.len(),
            index <= k,
            els.deep_view() == elements_of(snippets.deep_view(), k as int),
        decreases snippets.len() - k,
    {
        let snippet = trim(snippets[k].as_str());
        if !snippet.as_str().is_empty() && !starts_with(snippet.as_str(), "<!--") {
            let el = classify_element(snippet.as_str(), index);
            let ghost before = els.deep_view();
            els.push(el);
            assert(els.deep_view() =~= before.push(el.deep_view()));
            index = index + 1;
        }
        assert(snippets.deep_view()[k as int] == snippets@[k as int]@);
        k = k + 1;
    }
    els
}

/// Parses the `<head>` of a page into its classified elements, in order.
pub fn parse_head_elements(html: &str) -> (els: Vec<HeadElement>)
    ensures
        els.deep_view() == head_elements(html@),
{
    let head = first_capture("(?is)<head\\b[^>]*>(.*?)</head>", html);
    match head {
        None => Vec::new(),
        Some(inner) => {
            let snippets = all_matches(
                "(?is)(<!--.*?-->|<title\\b[^>]*>.*?</title>|<style\\b[^>]*>.*?</style>|<script\\b[^>]*>.*?</script>|<(?:meta|link|base)\\b[^>]*>)",
                inner.as_str(),
            );
            elements_from_snippets(&snippets)
        },
    }
}

/// The outcome of the ordering check: how many pairs of `<head>` elements are
/// out of order, among how many pairs. The efficiency score is 100% when there
/// are no pairs, else `100 * (1 - inversions / total_pairs)` percent.
#[derive(Debug, Clone, Copy, PartialEq, Eq, Structural)]
pub struct CapoScore {
    pub inversions: usize,
    pub total_pairs: usize,
}

/// The mathematical content of a slice of head elements.
pub open spec fn head_view(s: Seq<HeadElement>) -> Seq<HeadElementView> {
    s.map_values(|e: HeadElement| e.deep_view())
}

/// The number of elements after position `i` and before `n` that should come before element `i`.
pub open spec fn row_inversions(els: Seq<HeadElementView>, i: int, n: int) -> nat
    decreases n - i,
{
    if n <= i + 1 {
        0
    } else {
        row_inversions(els, i, n - 1) + if weight(els[i].priority) > weight(els[n - 1].priority) {
            1nat
        } else {
            0nat
        }
    }
}

/// The number of out-of-order pairs whose first element is among the first `m`.
pub open spec fn inversions_upto(els: Seq<HeadElementView>, m: int) -> nat
    decreases m,
{
    if m <= 0 {
        0
    } else {
        inversions_upto(els, m - 1) + row_inversions(els, m - 1, els.len() as int)
    }
}

/// The number of pairs `i < j` with element `j` of higher priority than element `i`.
pub open spec fn inversion_count(els: Seq<HeadElementView>) -> nat {
    inversions_upto(els, els.len() as int)
}

/// The number of pairs of `n` elements.
pub open spec fn pair_count(n: nat) -> nat {
    if n == 0 { 0 } else { (n * (n - 1) / 2) as nat }
}

proof fn lemma_step_bound(i: int, n: int)
    requires
        0 <= i < n,
    ensures
        2 * i * (n - 1) - i * (i - 1) + 2 * (n - 1 - i) == 2 * (i + 1) * (n - 1) - (i + 1) * i,
        2 * (i + 1) * (n - 1) - (i + 1) * i <= n * (n - 1),
{
    assert(2 * i * (n - 1) - i * (i - 1) + 2 * (n - 1 - i) == 2 * (i + 1) * (n - 1) - (i + 1) * i)
        by (nonlinear_arith);
    assert(2 * (i + 1) * (n - 1) - (i + 1) * i <= n * (n - 1)) by (nonlinear_arith)
        requires
            0 <= i < n,
    ;
}

proof fn lemma_pairs_even(n: int)
    requires
        n >= 1,
    ensures
        (n * (n - 1)) % 2 == 0,
        2 * (n * (n - 1) / 2) == n * (n - 1),
{
    let k = n / 2;
    if n % 2 == 0 {
        assert(n * (n - 1) == 2 * (k * (n - 1))) by (nonlinear_arith)
            requires
                n == 2 * k,
        ;
    } else {
        assert(n * (n - 1) == 2 * (n * k)) by (nonlinear_arith)
            requires
                n == 2 * k + 1,
        ;
    }
}

/// Counts the out-of-order pairs of `<head>` elements: the Kendall tau distance
/// of their priorities to the optimal order. There are never more inversions
/// than pairs.
#[verifier::loop_isolation(false)]
pub fn calculate_capo_score(elements: &[HeadElement]) -> (score: CapoScore)
    requires
        elements@.len() * (elements@.len() - 1) <= usize::MAX,
    ensures
        score.inversions == inversion_count(head_view(elements@)),
        score.total_pairs == pair_count(elements@.len()),
        score.inversions <= score.total_pairs,
{
    let n = elements.len();
    let ghost els = head_view(elements@);
    if n <= 1 {
        proof {
            if n == 1 {
                assert(inversions_upto(els, 0) == 0);
                assert(row_inversions(els, 0, 1) == 0);
                assert(pair_count(1) == 0) by (nonlinear_arith);
            }
        }
        return CapoScore { inversions: 0, total_pairs: 0 };
    }
    let total = n * (n - 1) / 2;
    let mut inversions: usize = 0;
    let mut i: usize = 0;
    while i < n
        invariant
            n == elements@.len() == els.len(),
            n > 1,
            i <= n,
            inversions == inversions_upto(els, i as int),
            2 * inversions <= 2 * i * (n - 1) - i * (i - 1),
        decreases n - i,
    {
        let wi = elements[i].priority.value();
        proof {
            lemma_step_bound(i as int, n as int);
        }
        let mut j: usize = i + 1;
        while j < n
            invariant
                i < n,
                i + 1 <= j <= n,
                wi as nat == weight(els[i as int].priority),
                inversions == inversions_upto(els, i as int) + row_inversions(els, i as int, j as int),
                2 * inversions <= 2 * i * (n - 1) - i * (i - 1) + 2 * (j - i - 1),
            decreases n - j,
        {
            if wi > elements[j].priority.value() {
                inversions = inversions + 1;
            }
            j = j + 1;
        }
        i = i + 1;
    }
    proof {
        lemma_pairs_even(n as int);
        assert(2 * n * (n - 1) - n * (n - 1) == n * (n - 1)) by (nonlinear_arith);
    }
    CapoScore { inversions, total_pairs: total }
}

/// The priorities whose tags a synchronous script should not precede.
pub open spec fn is_critical(p: CapoPriority) -> bool {
    p == CapoPriority::SyncStyles || p == CapoPriority::MetaCharset || p == CapoPriority::MetaViewport
}

/// The finding on the first critical element, from position `k` on, that comes
/// after a synchronous script (`after_sync` tells whether one came before `k`).
pub open spec fn blocking_findings(els: Seq<HeadElementView>, k: int, after_sync: bool) -> Seq<IssueView>
    decreases els.len() - k,
{
    if k < 0 || k >= els.len() {
        seq![]
    } else if els[k].priority == CapoPriority::SyncScript {
        blocking_findings(els, k + 1, true)
    } else if after_sync && is_critical(els[k].priority) {
        seq![finding("CAPO_BLOCKING_SCRIPT_PRECEDES_CRITICAL"@, Category::Capo, Severity::Warning,
            "Synchronous render-blocking script appears before critical tag: "@ + els[k].raw, "head script"@)]
    } else {
        blocking_findings(els, k + 1, after_sync)
    }
}

/// Whether the efficiency score is below 70%: more than 3 pairs in 10 are out of order.
pub open spec fn score_suboptimal(s: CapoScore) -> bool {
    10 * s.inversions > 3 * s.total_pairs
}

/// The efficiency score in tenths of a percent, rounded half to even.
pub open spec fn score_tenths(s: CapoScore) -> nat {
    if s.total_pairs == 0 {
        1000
    } else {
        let num = 1000 * (s.total_pairs - s.inversions);
        let q = num / (s.total_pairs as int);
        let r = num % (s.total_pairs as int);
        if 2 * r > s.total_pairs || (2 * r == s.total_pairs && q % 2 == 1) {
            (q + 1) as nat
        } else {
            q as nat
        }
    }
}

/// The efficiency score as a percentage with one decimal, such as "66.7".
pub open spec fn score_text(s: CapoScore) -> Seq<char> {
    decimal(score_tenths(s) / 10) + "."@ + decimal(score_tenths(s) % 10)
}

/// The ordering findings for the `<head>` elements `els` with score `s`.
pub open spec fn capo_issues(els: Seq<HeadElementView>, s: CapoScore) -> Seq<IssueView> {
    (if score_suboptimal(s) {
        seq![finding("CAPO_HEAD_SUBOPTIMAL"@, Category::Capo, Severity::Warning,
            "Head element loading order has a low Capo efficiency score ("@ + score_text(s)
                + "%). Consider reordering <head> tags."@, "head"@)]
    } else {
        seq![]
    }) + blocking_findings(els, 0, false)
}

proof fn lemma_quotient_bound(num: int, t: int)
    requires
        t > 0,
        0 <= num <= 1000 * t,
    ensures
        num / t <= 1000,
        num / t == 1000 ==> num % t == 0,
{
    assert(num / t <= 1000) by (nonlinear_arith)
        requires
            t > 0,
            0 <= num <= 1000 * t,
    ;
    assert(num == t * (num / t) + num % t) by (nonlinear_arith)
        requires
            t > 0,
    ;
    if num / t == 1000 {
        assert(num % t == 0) by (nonlinear_arith)
            requires
                t > 0,
                num == t * 1000 + num % t,
                num <= 1000 * t,
                num % t >= 0,
        ;
    }
}

/// The score in tenths of a percent (see [`score_tenths`]).
fn tenths_of(s: CapoScore) -> (t: usize)
    requires
        s.inversions <= s.total_pairs,
    ensures
        t == score_tenths(s),
        t <= 1000,
{
    if s.total_pairs == 0 {
        return 1000;
    }
    let total = s.total_pairs as u128;
    let num = 1000 * (total - s.inversions as u128);
    let q = num / total;
    let r = num % total;
    proof {
        lemma_quotient_bound(num as int, total as int);
    }
    let t = if 2 * r > total || (2 * r == total && q % 2 == 1) { q + 1 } else { q };
    t as usize
}

/// The score as a percentage with one decimal.
fn score_string(s: CapoScore) -> (text: String)
    requires
        s.inversions <= s.total_pairs,
    ensures
        text@ == score_text(s),
{
    let t = tenths_of(s);
    let whole = decimal_string(t / 10);
    let frac = decimal_string(t % 10);
    concat3(whole.as_str(), ".", frac.as_str())
}

/// The ordering audit of given `<head>` elements: their score, a finding when
/// the score is below 70%, and a finding on the first critical tag that a
/// synchronous script precedes.
#[verifier::loop_isolation(false)]
pub fn capo_audit_of(elements: &Vec<HeadElement>) -> (result: (CapoScore, Vec<Issue>))
    requires
        elements@.len() * (elements@.len() - 1) <= usize::MAX,
    ensures
        result.0.inversions == inversion_count(elements.deep_view()),
        result.0.total_pairs == pair_count(elements@.len()),
        result.0.inversions <= result.0.total_pairs,
        result.1.deep_view() == capo_issues(elements.deep_view(), result.0),
{
    assert(head_view(elements@) =~= elements.deep_view());
    let score = calculate_capo_score(elements.as_slice());
    let mut issues: Vec<Issue> = Vec::new();
    if 10 * (score.inversions as u128) > 3 * (score.total_pairs as u128) {
        let text = score_string(score);
        let message = concat3("Head element loading order has a low Capo efficiency score (", text.as_str(),
            "%). Consider reordering <head> tags.");
        push_issue(&mut issues, make_issue("CAPO_HEAD_SUBOPTIMAL", Category::Capo, Severity::Warning, message,
            owned("head")));
    }
    let ghost els = elements.deep_view();
    let ghost first = issues.deep_view();
    let mut after_sync = false;
    let mut k: usize = 0;
    while k < elements.len()
        invariant
            k <= elements@.len(),
            els == elements.deep_view(),
            issues.deep_view() == first,
            blocking_findings(els, 0, false) == blocking_findings(els, k as int, after_sync),
        decreases elements.len() - k,
    {
        let p = elements[k].priority;
        assert(els[k as int].priority == p);
        if p == CapoPriority::SyncScript {
            after_sync = true;
        } else if after_sync && (p == CapoPriority::SyncStyles || p == CapoPriority::MetaCharset
            || p == CapoPriority::MetaViewport) {
            let mut message = owned("Synchronous render-blocking script appears before critical tag: ");
            message.append(elements[k].raw.as_str());
            push_issue(&mut issues, make_issue("CAPO_BLOCKING_SCRIPT_PRECEDES_CRITICAL", Category::Capo,
                Severity::Warning, message, owned("head script")));
            assert(issues.deep_view() =~= first + blocking_findings(els, 0, false));
            return (score, issues);
        }
        k = k + 1;
    }
    assert(issues.deep_view() =~= first + blocking_findings(els, 0, false));
    (score, issues)
}

/// The ordering audit of a page's `<head>`: the score of its element order and
/// the findings of [`capo_audit_of`].
pub fn audit_capo(html: &str) -> (result: (CapoScore, Vec<Issue>))
    requires
        head_elements(html@).len() * (head_elements(html@).len() - 1) <= usize::MAX,
    ensures
        result.0.inversions == inversion_count(head_elements(html@)),
        result.0.total_pairs == pair_count(head_elements(html@).len()),
        result.1.deep_view() == capo_issues(head_elements(html@), result.0),
{
    let elements = parse_head_elements(html);
    capo_audit_of(&elements)
}

/// Whether the elements come in the optimal order: no element should come
/// before an earlier one.
pub open spec fn in_optimal_order(els: Seq<HeadElementView>) -> bool {
    forall|i: int, j: int| 0 <= i < j < els.len() ==> weight(#[trigger] els[i].priority) <= weight(#[trigger] els[j].priority)
}

proof fn lemma_row_zero(els: Seq<HeadElementView>, i: int, n: int)
    requires
        0 <= i < n <= els.len(),
    ensures
        row_inversions(els, i, n) == 0 <==> forall|j: int| i < j < n ==> weight(els[i].priority) <= weight(#[trigger] els[j].priority),
    decreases n - i,
{
    if n > i + 1 {
        lemma_row_zero(els, i, n - 1);
    }
}

proof fn lemma_upto_zero(els: Seq<HeadElementView>, m: int)
    requires
        0 <= m <= els.len(),
    ensures
        inversions_upto(els, m) == 0 <==> forall|i: int| 0 <= i < m ==> #[trigger] row_inversions(els, i, els.len() as int) == 0,
    decreases m,
{
    if m > 0 {
        lemma_upto_zero(els, m - 1);
    }
}

/// The ordering score is 100% exactly when the `<head>` elements come in the
/// optimal order: there are no out-of-order pairs just when no element should
/// come before an earlier one.
pub proof fn lemma_no_inversions_iff_optimal(els: Seq<HeadElementView>)
    ensures
        inversion_count(els) == 0 <==> in_optimal_order(els),
{
    let n = els.len() as int;
    lemma_upto_zero(els, n);
    assert forall|i: int| 0 <= i < n implies (#[trigger] row_inversions(els, i, n) == 0 <==> forall|j: int|
        i < j < n ==> weight(els[i].priority) <= weight(#[trigger] els[j].priority)) by {
        lemma_row_zero(els, i, n);
    }
    if inversion_count(els) == 0 {
        assert forall|i: int, j: int| 0 <= i < j < n implies weight(#[trigger] els[i].priority) <= weight(
            #[trigger] els[j].priority,
        ) by {
            assert(row_inversions(els, i, n) == 0);
        }
    }
    if in_optimal_order(els) {
        assert forall|i: int| 0 <= i < n implies #[trigger] row_inversions(els, i, n) == 0 by {
            assert forall|j: int| i < j < n implies weight(els[i].priority) <= weight(#[trigger] els[j].priority) by {
                assert(weight(els[i].priority) <= weight(els[j].priority));
            }
        }
    }
}

/// The classified `<head>` elements are numbered in order: the element at
/// position `j` has index `j`.
pub proof fn lemma_elements_numbered(snippets: Seq<Seq<char>>, k: int)
    requires
        0 <= k,
    ensures
        forall|j: int| 0 <= j < elements_of(snippets, k).len() ==> (#[trigger] elements_of(snippets, k)[j]).original_index
            == j as usize,
        elements_of(snippets, k).len() <= k,
    decreases k,
{
    if k > 0 {
        lemma_elements_numbered(snippets, k - 1);
    }
}

/// At most one finding names a synchronous script before a critical tag.
pub proof fn lemma_one_blocking_finding(els: Seq<HeadElementView>, k: int, after_sync: bool)
    ensures
        blocking_findings(els, k, after_sync).len() <= 1,
    decreases els.len() - k,
{
    if 0 <= k < els.len() {
        if els[k].priority == CapoPriority::SyncScript {
            lemma_one_blocking_finding(els, k + 1, true);
        } else if !(after_sync && is_critical(els[k].priority)) {
            lemma_one_blocking_finding(els, k + 1, after_sync);
        }
    }
}

/// Whether a critical element at position `j` comes after a synchronous script
/// at or after position `k`, or after position `k` at all when `after_sync`.
pub open spec fn critical_after_sync_at(els: Seq<HeadElementView>, k: int, after_sync: bool, j: int) -> bool {
    &&& k <= j < els.len()
    &&& is_critical(els[j].priority)
    &&& (after_sync || exists|i: int| k <= i < j && (#[trigger] els[i]).priority == CapoPriority::SyncScript)
}

/// Whether some synchronous script of `els` precedes some critical element.
pub open spec fn script_precedes_critical(els: Seq<HeadElementView>) -> bool {
    exists|i: int, j: int|
        0 <= i < j < els.len() && (#[trigger] els[i]).priority == CapoPriority::SyncScript && is_critical(
            (#[trigger] els[j]).priority,
        )
}

proof fn lemma_blocking_iff(els: Seq<HeadElementView>, k: int, after_sync: bool)
    requires
        0 <= k <= els.len(),
    ensures
        blocking_findings(els, k, after_sync).len() > 0 <==> exists|j: int| #[trigger] critical_after_sync_at(els, k, after_sync, j),
    decreases els.len() - k,
{
    if k < els.len() {
        let p = els[k].priority;
        if p == CapoPriority::SyncScript {
            lemma_blocking_iff(els, k + 1, true);
            if blocking_findings(els, k, after_sync).len() > 0 {
                let j = choose|j: int| #[trigger] critical_after_sync_at(els, k + 1, true, j);
                assert(critical_after_sync_at(els, k, after_sync, j));
            }
            if exists|j: int| #[trigger] critical_after_sync_at(els, k, after_sync, j) {
                let j = choose|j: int| #[trigger] critical_after_sync_at(els, k, after_sync, j);
                assert(j != k);
                assert(critical_after_sync_at(els, k + 1, true, j));
            }
        } else if after_sync && is_critical(p) {
            assert(critical_after_sync_at(els, k, after_sync, k));
        } else {
            lemma_blocking_iff(els, k + 1, after_sync);
            if blocking_findings(els, k, after_sync).len() > 0 {
                let j = choose|j: int| #[trigger] critical_after_sync_at(els, k + 1, after_sync, j);
                if !after_sync {
                    let i = choose|i: int| k + 1 <= i < j && (#[trigger] els[i]).priority == CapoPriority::SyncScript;
                    assert(k <= i < j && els[i].priority == CapoPriority::SyncScript);
                }
                assert(critical_after_sync_at(els, k, after_sync, j));
            }
            if exists|j: int| #[trigger] critical_after_sync_at(els, k, after_sync, j) {
                let j = choose|j: int| #[trigger] critical_after_sync_at(els, k, after_sync, j);
                if !after_sync {
                    let i = choose|i: int| k <= i < j && (#[trigger] els[i]).priority == CapoPriority::SyncScript;
                    assert(i != k);
                    assert(k + 1 <= i < j && els[i].priority == CapoPriority::SyncScript);
                }
                assert(j != k);
                assert(critical_after_sync_at(els, k + 1, after_sync, j));
            }
        }
    }
}

/// The finding on a synchronous script before a critical tag is given exactly
/// when some synchronous script precedes some critical element.
pub proof fn lemma_blocking_finding_iff_script_first(els: Seq<HeadElementView>)
    ensures
        blocking_findings(els, 0, false).len() == 1 <==> script_precedes_critical(els),
{
    lemma_blocking_iff(els, 0, false);
    lemma_one_blocking_finding(els, 0, false);
    if script_precedes_critical(els) {
        let (i, j) = choose|i: int, j: int|
            0 <= i < j < els.len() && (#[trigger] els[i]).priority == CapoPriority::SyncScript && is_critical(
                (#[trigger] els[j]).priority,
            );
        assert(critical_after_sync_at(els, 0, false, j));
    }
    if blocking_findings(els, 0, false).len() == 1 {
        let j = choose|j: int| #[trigger] critical_after_sync_at(els, 0, false, j);
        let i = choose|i: int| 0 <= i < j && (#[trigger] els[i]).priority == CapoPriority::SyncScript;
        assert(els[i].priority == CapoPriority::SyncScript && is_critical(els[j].priority));
    }
}

/// Every ordering finding is a warning of the Capo family.
pub proof fn lemma_capo_findings_are_capo_warnings(els: Seq<HeadElementView>, s: CapoScore)
    ensures
        forall|j: int| 0 <= j < capo_issues(els, s).len() ==> (#[trigger] capo_issues(els, s)[j]).category == Category::Capo
            && capo_issues(els, s)[j].severity == Severity::Warning,
{
    lemma_blocking_capo(els, 0, false);
    let a = if score_suboptimal(s) {
        seq![finding("CAPO_HEAD_SUBOPTIMAL"@, Category::Capo, Severity::Warning,
            "Head element loading order has a low Capo efficiency score ("@ + score_text(s)
                + "%). Consider reordering <head> tags."@, "head"@)]
    } else {
        seq![]
    };
    let b = blocking_findings(els, 0, false);
    assert forall|j: int| 0 <= j < (a + b).len() implies (#[trigger] (a + b)[j]).category == Category::Capo
        && (a + b)[j].severity == Severity::Warning by {
        if j >= a.len() {
            assert((a + b)[j] == b[j - a.len()]);
        }
    }
}

/// The ordering findings of a page: the low-score finding is given exactly when
/// the score is below 70% (more than 3 pairs in 10 out of order), the blocking
/// finding exactly when a synchronous script precedes a critical element, no
/// code occurs twice, and every finding is a warning of the Capo family.
pub proof fn lemma_capo_findings_summary(els: Seq<HeadElementView>, s: CapoScore)
    ensures
        has_code(capo_issues(els, s), "CAPO_HEAD_SUBOPTIMAL"@) <==> score_suboptimal(s),
        has_code(capo_issues(els, s), "CAPO_BLOCKING_SCRIPT_PRECEDES_CRITICAL"@) <==> script_precedes_critical(els),
        forall|i: int, j: int| 0 <= i < j < capo_issues(els, s).len() ==> (#[trigger] capo_issues(els, s)[i]).code
            != (#[trigger] capo_issues(els, s)[j]).code,
        forall|j: int| 0 <= j < capo_issues(els, s).len() ==> (#[trigger] capo_issues(els, s)[j]).category == Category::Capo
            && capo_issues(els, s)[j].severity == Severity::Warning,
{
    reveal_strlit("CAPO_HEAD_SUBOPTIMAL");
    reveal_strlit("CAPO_BLOCKING_SCRIPT_PRECEDES_CRITICAL");
    let sub: Seq<char> = "CAPO_HEAD_SUBOPTIMAL"@;
    let blk: Seq<char> = "CAPO_BLOCKING_SCRIPT_PRECEDES_CRITICAL"@;
    assert(sub.len() != blk.len());
    assert(sub != blk);
    lemma_blocking_capo(els, 0, false);
    lemma_one_blocking_finding(els, 0, false);
    lemma_blocking_finding_iff_script_first(els);
    lemma_capo_findings_are_capo_warnings(els, s);
    let a = if score_suboptimal(s) {
        seq![finding("CAPO_HEAD_SUBOPTIMAL"@, Category::Capo, Severity::Warning,
            "Head element loading order has a low Capo efficiency score ("@ + score_text(s)
                + "%). Consider reordering <head> tags."@, "head"@)]
    } else {
        seq![]
    };
    let b = blocking_findings(els, 0, false);
    let all = capo_issues(els, s);
    assert(all == a + b);
    assert forall|j: int| 0 <= j < all.len() implies (#[trigger] all[j]).code == (if j < a.len() { sub } else { blk }) by {
        if j >= a.len() {
            assert(all[j] == b[j - a.len()]);
        } else {
            assert(all[j] == a[j]);
        }
    }
    if score_suboptimal(s) {
        assert(all[0].code == sub);
    }
    if has_code(all, sub) {
        let j = choose|j: int| 0 <= j < all.len() && (#[trigger] all[j]).code == sub;
        assert(j < a.len());
    }
    if script_precedes_critical(els) {
        assert(all[a.len() as int].code == blk);
    }
    if has_code(all, blk) {
        let j = choose|j: int| 0 <= j < all.len() && (#[trigger] all[j]).code == blk;
        assert(j >= a.len());
        assert(b.len() == 1);
    }
}

proof fn lemma_blocking_capo(els: Seq<HeadElementView>, k: int, after_sync: bool)
    ensures
        forall|j: int| 0 <= j < blocking_findings(els, k, after_sync).len() ==> (#[trigger] blocking_findings(els, k, after_sync)[j]).category
            == Category::Capo && blocking_findings(els, k, after_sync)[j].severity == Severity::Warning
            && blocking_findings(els, k, after_sync)[j].code == "CAPO_BLOCKING_SCRIPT_PRECEDES_CRITICAL"@,
    decreases els.len() - k,
{
    if 0 <= k < els.len() {
        if els[k].priority == CapoPriority::SyncScript {
            lemma_blocking_capo(els, k + 1, true);
        } else if !(after_sync && is_critical(els[k].priority)) {
            lemma_blocking_capo(els, k + 1, after_sync);
        }
    }
}

} // verus!
