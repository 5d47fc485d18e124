use vstd::prelude::*;

use crate::html::{
    Document, Element, ElementView, ancestor_names, attr_of, attr_or_empty, css_ancestors, css_select,
    css_select_within, css_valid, select_elements, select_within, selector_is_valid,
};
use crate::models::{
    Category, Issue, IssueView, Severity, concat3, concat_findings, finding, lemma_concat_findings_all, make_issue,
    owned, push_issue,
};
use crate::seo::{all_in_category, lemma_category_concat};
use crate::text::{same_text, trim, trimmed};

verus! {

/// The selector of elements that act as buttons.
pub open spec fn button_selector() -> Seq<char> {
    "button, a[role=\"button\" i]"@
}

/// The selector of form controls that need a label.
pub open spec fn control_selector() -> Seq<char> {
    "input:not([type=\"hidden\"]):not([type=\"submit\"]):not([type=\"button\"]):not([type=\"reset\"]), textarea, select"@
}

/// The selector of the `<label>` elements whose `for` names `id`.
pub open spec fn label_selector(id: Seq<char>) -> Seq<char> {
    "label[for=\""@ + id + "\"]"@
}

/// Whether the trimmed value of attribute `name` of `e` is empty.
pub open spec fn blank_attr(e: ElementView, name: Seq<char>) -> bool {
    trimmed(attr_or_empty(e, name)).len() == 0
}

/// The finding on a missing `lang` of the root `<html>` element.
pub open spec fn lang_findings(roots: Seq<ElementView>) -> Seq<IssueView> {
    if roots.len() > 0 && blank_attr(roots[0], "lang"@) {
        seq![finding("A11Y_MISSING_LANG"@, Category::A11y, Severity::Error,
            "<html> element is missing a valid 'lang' attribute (WCAG 3.1.1)"@, "html"@)]
    } else {
        seq![]
    }
}

/// Whether one of `imgs` has a non-blank `alt`.
pub open spec fn has_img_with_alt(imgs: Seq<ElementView>) -> bool {
    exists|j: int| 0 <= j < imgs.len() && !blank_attr(#[trigger] imgs[j], "alt"@)
}

/// Whether one of `svgs` has a non-blank `aria-label`.
pub open spec fn has_labelled_svg(svgs: Seq<ElementView>) -> bool {
    exists|j: int| 0 <= j < svgs.len() && !blank_attr(#[trigger] svgs[j], "aria-label"@)
}

/// The finding on a button `b` that has no accessible name: no text, no
/// `aria-label`, `aria-labelledby` or `title`, no `<img>` inside it with an
/// `alt` and no `<svg>` inside it with an `aria-label`. `imgs` and `svgs` are
/// the `<img>` and `<svg>` elements inside it.
pub open spec fn button_finding(b: ElementView, imgs: Seq<ElementView>, svgs: Seq<ElementView>) -> Seq<IssueView> {
    let unnamed = trimmed(b.text).len() == 0 && blank_attr(b, "aria-label"@) && blank_attr(b, "aria-labelledby"@)
        && blank_attr(b, "title"@);
    if unnamed && !has_img_with_alt(imgs) && !has_labelled_svg(svgs) {
        seq![finding("A11Y_EMPTY_BUTTON"@, Category::A11y, Severity::Error,
            if svgs.len() > 0 {
                "Button containing SVG lacks an accessible name / text label (WCAG 4.1.2)"@
            } else {
                "Button lacks an accessible name / text label (WCAG 4.1.2)"@
            }, "button"@)]
    } else {
        seq![]
    }
}

/// Whether a form control is named by a non-blank `aria-label`,
/// `aria-labelledby` or `title`.
pub open spec fn control_named(e: ElementView) -> bool {
    !blank_attr(e, "aria-label"@) || !blank_attr(e, "aria-labelledby"@) || !blank_attr(e, "title"@)
}

/// Whether the labels of a form control are looked up by its id: it is not
/// named otherwise and has a non-blank trimmed id.
pub open spec fn needs_label_lookup(e: ElementView) -> bool {
    !control_named(e) && trimmed(attr_or_empty(e, "id"@)).len() > 0
}

/// The finding on a form control `e` that has no label; `labels` are the labels
/// whose `for` names its id and `ancestors` the names of the nodes above it.
pub open spec fn control_finding(e: ElementView, labels: Seq<ElementView>, ancestors: Seq<Option<Seq<char>>>) -> Seq<IssueView> {
    let id = trimmed(attr_or_empty(e, "id"@));
    let named = control_named(e);
    let labelled = named || (id.len() > 0 && labels.len() > 0) || ancestors.contains(Some("label"@));
    if labelled {
        seq![]
    } else {
        seq![finding("A11Y_UNLABELLED_INPUT"@, Category::A11y, Severity::Error,
            "Form control <"@ + e.name + ">"@
                + (if id.len() > 0 { " id=\""@ + id + "\""@ } else { Seq::empty() })
                + " lacks an associated <label> or aria-label (WCAG 1.3.1 / 4.1.2)"@
                + (if !blank_attr(e, "placeholder"@) { " (placeholder is not a sufficient label)"@ } else { Seq::empty() }),
            "input#"@ + id)]
    }
}

/// The non-blank trimmed id of `e`, if it has one.
pub open spec fn id_key(e: ElementView) -> Option<Seq<char>> {
    match attr_of(e, "id"@) {
        Some(v) => if trimmed(v).len() > 0 { Some(trimmed(v)) } else { None },
        None => None,
    }
}

/// The non-blank trimmed ids of the first `k` elements of `els`, in order.
pub open spec fn seen_ids(els: Seq<ElementView>, k: int) -> Seq<Seq<char>>
    decreases k,
{
    if k <= 0 {
        seq![]
    } else {
        match id_key(els[k - 1]) {
            Some(t) => seen_ids(els, k - 1).push(t),
            None => seen_ids(els, k - 1),
        }
    }
}

/// The finding on the `k`-th element with an id when an earlier element has the same id.
pub open spec fn duplicate_finding(els: Seq<ElementView>, k: int) -> Seq<IssueView> {
    match id_key(els[k]) {
        Some(t) => if seen_ids(els, k).contains(t) {
            seq![finding("A11Y_DUPLICATE_ID"@, Category::A11y, Severity::Warning,
                "Duplicate HTML id=\""@ + t + "\" found on page (WCAG 4.1.1)"@, "#"@ + t)]
        } else {
            seq![]
        },
        None => seq![],
    }
}

/// All accessibility findings, in the order the checks run.
pub open spec fn a11y_issues(
    roots: Seq<ElementView>,
    buttons: Seq<ElementView>,
    button_imgs: Seq<Seq<ElementView>>,
    button_svgs: Seq<Seq<ElementView>>,
    controls: Seq<ElementView>,
    control_labels: Seq<Seq<ElementView>>,
    control_ancestors: Seq<Seq<Option<Seq<char>>>>,
    with_ids: Seq<ElementView>,
) -> Seq<IssueView> {
    lang_findings(roots)
        + concat_findings(buttons.len(), |i: int| button_finding(buttons[i], button_imgs[i], button_svgs[i]))
        + concat_findings(controls.len(), |i: int| control_finding(controls[i], control_labels[i], control_ancestors[i]))
        + concat_findings(with_ids.len(), |k: int| duplicate_finding(with_ids, k))
}

/// The labels looked up for a form control `e` of the page: those whose `for`
/// names its trimmed id where [`needs_label_lookup`] holds, else none.
pub open spec fn control_labels_of(page: Seq<char>, e: ElementView) -> Seq<ElementView> {
    if needs_label_lookup(e) {
        css_select(page, label_selector(trimmed(attr_or_empty(e, "id"@))))
    } else {
        Seq::empty()
    }
}

/// The accessibility findings of a page, from what scraper selects of it.
pub open spec fn page_a11y_issues(page: Seq<char>) -> Seq<IssueView> {
    let buttons = css_select(page, button_selector());
    let controls = css_select(page, control_selector());
    a11y_issues(
        css_select(page, "html"@),
        buttons,
        Seq::new(buttons.len(), |i: int| css_select_within(page, button_selector(), i, "img"@)),
        Seq::new(buttons.len(), |i: int| css_select_within(page, button_selector(), i, "svg"@)),
        controls,
        Seq::new(controls.len(), |i: int| control_labels_of(page, controls[i])),
        Seq::new(controls.len(), |i: int| css_ancestors(page, control_selector(), i)),
        css_select(page, "[id]"@),
    )
}

/// Whether the trimmed attribute `name` of `e` is empty.
fn attr_is_blank(e: &Element, name: &str) -> (b: bool)
    ensures
        b == blank_attr(e.deep_view(), name@),
{
    let v = e.trimmed_attr(name);
    v.as_str().is_empty()
}

fn any_img_with_alt(imgs: &Vec<Element>) -> (b: bool)
    ensures
        b == has_img_with_alt(imgs.deep_view()),
{
    let mut j: usize = 0;
    while j < imgs.len()
        invariant
            j <= imgs@.len(),
            forall|k: int| 0 <= k < j ==> blank_attr(#[trigger] imgs.deep_view()[k], "alt"@),
        decreases imgs.len() - j,
    {
        if !attr_is_blank(&imgs[j], "alt") {
            assert(!blank_attr(imgs.deep_view()[j as int], "alt"@));
            return true;
        }
        j = j + 1;
    }
    false
}

fn any_labelled_svg(svgs: &Vec<Element>) -> (b: bool)
    ensures
        b == has_labelled_svg(svgs.deep_view()),
{
    let mut j: usize = 0;
    while j < svgs.len()
        invariant
            j <= svgs@.len(),
            forall|k: int| 0 <= k < j ==> blank_attr(#[trigger] svgs.deep_view()[k], "aria-label"@),
        decreases svgs.len() - j,
    {
        if !attr_is_blank(&svgs[j], "aria-label") {
            assert(!blank_attr(svgs.deep_view()[j as int], "aria-label"@));
            return true;
        }
        j = j + 1;
    }
    false
}

fn has_label_ancestor(ancestors: &Vec<Option<String>>) -> (b: bool)
    ensures
        b == ancestors.deep_view().contains(Some("label"@)),
{
    let mut j: usize = 0;
    while j < ancestors.len()
        invariant
            j <= ancestors@.len(),
            forall|k: int| 0 <= k < j ==> ancestors.deep_view()[k] != Some("label"@),
        decreases ancestors.len() - j,
    {
        match &ancestors[j] {
            Some(name) => {
                if same_text(name.as_str(), "label") {
                    assert(ancestors.deep_view()[j as int] == Some("label"@));
                    return true;
                }
            },
            None => {},
        }
        j = j + 1;
    }
    false
}

fn button_check(issues: &mut Vec<Issue>, b: &Element, imgs: &Vec<Element>, svgs: &Vec<Element>)
    ensures
        final(issues).deep_view() == old(issues).deep_view() + button_finding(b.deep_view(), imgs.deep_view(), svgs.deep_view()),
{
    let ghost start = issues.deep_view();
    let text = trim(b.text.as_str());
    if text.as_str().is_empty() && attr_is_blank(b, "aria-label") && attr_is_blank(b, "aria-labelledby")
        && attr_is_blank(b, "title") {
        if !any_img_with_alt(imgs) && !any_labelled_svg(svgs) {
            let message = if svgs.len() > 0 {
                owned("Button containing SVG lacks an accessible name / text label (WCAG 4.1.2)")
            } else {
                owned("Button lacks an accessible name / text label (WCAG 4.1.2)")
            };
            push_issue(issues, make_issue("A11Y_EMPTY_BUTTON", Category::A11y, Severity::Error, message, owned("button")));
        }
    }
    assert(issues.deep_view() =~= start + button_finding(b.deep_view(), imgs.deep_view(), svgs.deep_view()));
}

fn control_check(issues: &mut Vec<Issue>, e: &Element, labels: &Vec<Element>, ancestors: &Vec<Option<String>>)
    ensures
        final(issues).deep_view() == old(issues).deep_view() + control_finding(e.deep_view(), labels.deep_view(), ancestors.deep_view()),
{
    let ghost start = issues.deep_view();
    let id = e.trimmed_attr("id");
    let mut labelled = !attr_is_blank(e, "aria-label") || !attr_is_blank(e, "aria-labelledby") || !attr_is_blank(e, "title");
    if !labelled && !id.as_str().is_empty() && labels.len() > 0 {
        labelled = true;
    }
    if !labelled {
        labelled = has_label_ancestor(ancestors);
    }
    if !labelled {
        let mut message = concat3("Form control <", e.name.as_str(), ">");
        if !id.as_str().is_empty() {
            let part = concat3(" id=\"", id.as_str(), "\"");
            message.append(part.as_str());
        }
        message.append(" lacks an associated <label> or aria-label (WCAG 1.3.1 / 4.1.2)");
        if !attr_is_blank(e, "placeholder") {
            message.append(" (placeholder is not a sufficient label)");
        }
        let mut selector = owned("input#");
        selector.append(id.as_str());
        push_issue(issues, make_issue("A11Y_UNLABELLED_INPUT", Category::A11y, Severity::Error, message, selector));
    }
    proof {
        let ev = e.deep_view();
        let idv = trimmed(attr_or_empty(ev, "id"@));
        assert(("Form control <"@ + ev.name + ">"@ + (if idv.len() > 0 { " id=\""@ + idv + "\""@ } else { Seq::empty() })
            + " lacks an associated <label> or aria-label (WCAG 1.3.1 / 4.1.2)"@)
            =~= ("Form control <"@ + ev.name + ">"@ + (if idv.len() > 0 { " id=\""@ + idv + "\""@ } else { Seq::empty() }))
            + " lacks an associated <label> or aria-label (WCAG 1.3.1 / 4.1.2)"@);
    }
    assert(issues.deep_view() =~= start + control_finding(e.deep_view(), labels.deep_view(), ancestors.deep_view()));
}

fn seen_contains(seen: &Vec<String>, t: &str) -> (b: bool)
    ensures
        b == seen.deep_view().contains(t@),
{
    let mut j: usize = 0;
    while j < seen.len()
        invariant
            j <= seen@.len(),
            forall|k: int| 0 <= k < j ==> seen.deep_view()[k] != t@,
        decreases seen.len() - j,
    {
        if same_text(seen[j].as_str(), t) {
            assert(seen.deep_view()[j as int] == t@);
            return true;
        }
        j = j + 1;
    }
    false
}

/// The accessibility findings for what the page's selectors picked: the root
/// `<html>` elements, the buttons with the `<img>` and `<svg>` elements inside
/// each, the form controls with the labels naming each one's id and the names
/// of each one's ancestors, and the elements that carry an id.
#[verifier::loop_isolation(false)]
pub fn a11y_findings(
    roots: &Vec<Element>,
    buttons: &Vec<Element>,
    button_imgs: &Vec<Vec<Element>>,
    button_svgs: &Vec<Vec<Element>>,
    controls: &Vec<Element>,
    control_labels: &Vec<Vec<Element>>,
    control_ancestors: &Vec<Vec<Option<String>>>,
    with_ids: &Vec<Element>,
) -> (issues: Vec<Issue>)
    requires
        button_imgs@.len() == buttons@.len(),
        button_svgs@.len() == buttons@.len(),
        control_labels@.len() == controls@.len(),
        control_ancestors@.len() == controls@.len(),
    ensures
        issues.deep_view() == a11y_issues(roots.deep_view(), buttons.deep_view(), button_imgs.deep_view(),
            button_svgs.deep_view(), controls.deep_view(), control_labels.deep_view(), control_ancestors.deep_view(),
            with_ids.deep_view()),
{
    let mut issues: Vec<Issue> = Vec::new();
    if roots.len() > 0 && attr_is_blank(&roots[0], "lang") {
        push_issue(&mut issues, make_issue("A11Y_MISSING_LANG", Category::A11y, Severity::Error,
            owned("<html> element is missing a valid 'lang' attribute (WCAG 3.1.1)"), owned("html")));
    }
    assert(issues.deep_view() =~= lang_findings(roots.deep_view()));
    let ghost after_lang = issues.deep_view();
    let ghost bf = |i: int| button_finding(buttons.deep_view()[i], button_imgs.deep_view()[i], button_svgs.deep_view()[i]);
    let mut i: usize = 0;
    while i < buttons.len()
        invariant
            i <= buttons@.len(),
            button_imgs@.len() == buttons@.len(),
            button_svgs@.len() == buttons@.len(),
            issues.deep_view() == after_lang + concat_findings(i as nat, bf),
        decreases buttons.len() - i,
    {
        button_check(&mut issues, &buttons[i], &button_imgs[i], &button_svgs[i]);
        assert(bf(i as int) == button_finding(buttons@[i as int].deep_view(), button_imgs@[i as int].deep_view(),
            button_svgs@[i as int].deep_view()));
        assert(concat_findings((i + 1) as nat, bf) == concat_findings(i as nat, bf) + bf(i as int));
        assert(issues.deep_view() =~= after_lang + concat_findings((i + 1) as nat, bf));
        i = i + 1;
    }
    let ghost after_buttons = issues.deep_view();
    let ghost cf = |i: int| control_finding(controls.deep_view()[i], control_labels.deep_view()[i], control_ancestors.deep_view()[i]);
    let mut i: usize = 0;
    while i < controls.len()
        invariant
            i <= controls@.len(),
            control_labels@.len() == controls@.len(),
            control_ancestors@.len() == controls@.len(),
            issues.deep_view() == after_buttons + concat_findings(i as nat, cf),
        decreases controls.len() - i,
    {
        control_check(&mut issues, &controls[i], &control_labels[i], &control_ancestors[i]);
        assert(cf(i as int) == control_finding(controls@[i as int].deep_view(), control_labels@[i as int].deep_view(),
            control_ancestors@[i as int].deep_view()));
        assert(concat_findings((i + 1) as nat, cf) == concat_findings(i as nat, cf) + cf(i as int));
        assert(issues.deep_view() =~= after_buttons + concat_findings((i + 1) as nat, cf));
        i = i + 1;
    }
    let ghost after_controls = issues.deep_view();
    let ghost els = with_ids.deep_view();
    let ghost df = |k: int| duplicate_finding(els, k);
    let mut seen: Vec<String> = Vec::new();
    let mut k: usize = 0;
    while k < with_ids.len()
        invariant
            k <= with_ids@.len(),
            els == with_ids.deep_view(),
            seen.deep_view() == seen_ids(els, k as int),
            issues.deep_view() == after_controls + concat_findings(k as nat, df),
        decreases with_ids.len() - k,
    {
        let ghost before = issues.deep_view();
        match with_ids[k].attr("id") {
            Some(v) => {
                let t = trim(v.as_str());
                if !t.as_str().is_empty() {
                    if seen_contains(&seen, t.as_str()) {
                        let message = concat3("Duplicate HTML id=\"", t.as_str(), "\" found on page (WCAG 4.1.1)");
                        let mut selector = owned("#");
                        selector.append(t.as_str());
                        push_issue(&mut issues, make_issue("A11Y_DUPLICATE_ID", Category::A11y, Severity::Warning,
                            message, selector));
                    }
                    let ghost old_seen = seen.deep_view();
                    seen.push(t);
                    assert(seen.deep_view() =~= old_seen.push(t@));
                }
            },
            None => {},
        }
        assert(els[k as int] == with_ids@[k as int].deep_view());
        assert(issues.deep_view() =~= before + df(k as int));
        assert(concat_findings((k + 1) as nat, df) == concat_findings(k as nat, df) + df(k as int));
        assert(issues.deep_view() =~= after_controls + concat_findings((k + 1) as nat, df));
        k = k + 1;
    }
    assert(issues.deep_view() =~= a11y_issues(roots.deep_view(), buttons.deep_view(), button_imgs.deep_view(),
        button_svgs.deep_view(), controls.deep_view(), control_labels.deep_view(), control_ancestors.deep_view(),
        with_ids.deep_view()));
    issues
}

/// The trimmed id of a form control.
pub open spec fn control_id(e: ElementView) -> Seq<char> {
    trimmed(attr_or_empty(e, "id"@))
}

/// Whether the label selector of every form control whose labels are looked up
/// (see [`needs_label_lookup`]) parses. Where it does not (an id holding a
/// quote, say), looking up that control's labels fails.
pub open spec fn label_selectors_parse(page: Seq<char>) -> bool {
    let controls = css_select(page, control_selector());
    forall|i: int| 0 <= i < controls.len() && needs_label_lookup(#[trigger] controls[i]) ==> css_valid(label_selector(control_id(controls[i])))
}

fn is_named_control(e: &Element) -> (b: bool)
    ensures
        b == control_named(e.deep_view()),
{
    !attr_is_blank(e, "aria-label") || !attr_is_blank(e, "aria-labelledby") || !attr_is_blank(e, "title")
}

/// Whether the labels of every form control of the page can be looked up (see
/// [`label_selectors_parse`]).
pub fn labels_can_be_looked_up(document: &Document) -> (ok: bool)
    ensures
        ok == label_selectors_parse(document@),
{
    let controls = select_elements(document, "input:not([type=\"hidden\"]):not([type=\"submit\"]):not([type=\"button\"]):not([type=\"reset\"]), textarea, select");
    let ghost cv = controls.deep_view();
    let mut i: usize = 0;
    while i < controls.len()
        invariant
            cv == controls.deep_view(),
            cv == css_select(document@, control_selector()),
            i <= cv.len(),
            forall|j: int| 0 <= j < i && needs_label_lookup(#[trigger] cv[j]) ==> css_valid(label_selector(control_id(cv[j]))),
        decreases controls.len() - i,
    {
        let id = controls[i].trimmed_attr("id");
        if !is_named_control(&controls[i]) && !id.as_str().is_empty() {
            let selector = concat3("label[for=\"", id.as_str(), "\"]");
            if !selector_is_valid(selector.as_str()) {
                assert(needs_label_lookup(cv[i as int]));
                return false;
            }
        }
        i = i + 1;
    }
    true
}

/// The accessibility audit of a page: `lang` on `<html>`, accessible names of
/// buttons, labels of form controls, and duplicate ids. The label selector of
/// each form control whose labels are looked up by its id must parse.
pub fn audit_a11y(document: &Document) -> (issues: Vec<Issue>)
    requires
        label_selectors_parse(document@),
    ensures
        issues.deep_view() == page_a11y_issues(document@),
{
    let button_sel = "button, a[role=\"button\" i]";
    let control_sel = "input:not([type=\"hidden\"]):not([type=\"submit\"]):not([type=\"button\"]):not([type=\"reset\"]), textarea, select";
    let roots = select_elements(document, "html");
    let buttons = select_elements(document, button_sel);
    let mut button_imgs: Vec<Vec<Element>> = Vec::new();
    let mut button_svgs: Vec<Vec<Element>> = Vec::new();
    let mut i: usize = 0;
    while i < buttons.len()
        invariant
            i <= buttons@.len(),
            button_sel@ == button_selector(),
            button_imgs@.len() == i,
            button_svgs@.len() == i,
            forall|j: int| 0 <= j < i ==> #[trigger] button_imgs@[j].deep_view() == css_select_within(document@, button_selector(), j, "img"@),
            forall|j: int| 0 <= j < i ==> #[trigger] button_svgs@[j].deep_view() == css_select_within(document@, button_selector(), j, "svg"@),
        decreases buttons.len() - i,
    {
        button_imgs.push(select_within(document, button_sel, i, "img"));
        button_svgs.push(select_within(document, button_sel, i, "svg"));
        i = i + 1;
    }
    let controls = select_elements(document, control_sel);
    let mut labels: Vec<Vec<Element>> = Vec::new();
    let mut ancestors: Vec<Vec<Option<String>>> = Vec::new();
    let mut i: usize = 0;
    while i < controls.len()
        invariant
            i <= controls@.len(),
            control_sel@ == control_selector(),
            controls.deep_view() == css_select(document@, control_selector()),
            labels@.len() == i,
            ancestors@.len() == i,
            forall|j: int| 0 <= j < i ==> #[trigger] labels@[j].deep_view() == control_labels_of(document@,
                controls.deep_view()[j]),
            forall|j: int| 0 <= j < i ==> #[trigger] ancestors@[j].deep_view() == css_ancestors(document@, control_selector(), j),
        decreases controls.len() - i,
    {
        let id = controls[i].trimmed_attr("id");
        if !is_named_control(&controls[i]) && !id.as_str().is_empty() {
            let selector = concat3("label[for=\"", id.as_str(), "\"]");
            labels.push(select_elements(document, selector.as_str()));
        } else {
            let none: Vec<Element> = Vec::new();
            proof {
                assert(none.deep_view() =~= control_labels_of(document@, controls.deep_view()[i as int]));
            }
            labels.push(none);
        }
        ancestors.push(ancestor_names(document, control_sel, i));
        i = i + 1;
    }
    let with_ids = select_elements(document, "[id]");
    let issues = a11y_findings(&roots, &buttons, &button_imgs, &button_svgs, &controls, &labels, &ancestors, &with_ids);
    assert(button_imgs.deep_view() =~= Seq::new(buttons.deep_view().len(), |i: int| css_select_within(document@, button_selector(), i, "img"@)));
    assert(button_svgs.deep_view() =~= Seq::new(buttons.deep_view().len(), |i: int| css_select_within(document@, button_selector(), i, "svg"@)));
    assert(labels.deep_view() =~= Seq::new(controls.deep_view().len(), |i: int| control_labels_of(document@,
        controls.deep_view()[i])));
    assert(ancestors.deep_view() =~= Seq::new(controls.deep_view().len(), |i: int| css_ancestors(document@, control_selector(), i)));
    issues
}

proof fn lemma_seen_ids_earlier(els: Seq<ElementView>, k: int, t: Seq<char>)
    requires
        0 <= k <= els.len(),
        seen_ids(els, k).contains(t),
    ensures
        exists|j: int| 0 <= j < k && id_key(#[trigger] els[j]) == Some(t),
    decreases k,
{
    if k > 0 {
        let prev = seen_ids(els, k - 1);
        match id_key(els[k - 1]) {
            Some(u) => {
                if u == t {
                    assert(id_key(els[k - 1]) == Some(t));
                } else {
                    let i = choose|i: int| 0 <= i < prev.push(u).len() && prev.push(u)[i] == t;
                    assert(prev[i] == t);
                    lemma_seen_ids_earlier(els, k - 1, t);
                }
            },
            None => {
                lemma_seen_ids_earlier(els, k - 1, t);
            },
        }
    }
}

/// A duplicate id is reported only on a later element: when the `k`-th element
/// with an id is reported, an earlier element carries the same trimmed id.
pub proof fn lemma_duplicate_has_earlier(els: Seq<ElementView>, k: int)
    requires
        0 <= k < els.len(),
        duplicate_finding(els, k).len() > 0,
    ensures
        id_key(els[k]) is Some,
        exists|j: int| 0 <= j < k && id_key(#[trigger] els[j]) == id_key(els[k]),
{
    let t = id_key(els[k])->Some_0;
    lemma_seen_ids_earlier(els, k, t);
}

/// A button is named by its text, a non-blank `aria-label`, `aria-labelledby`
/// or `title`, an `<img>` inside it with a non-blank `alt`, or an `<svg>` inside
/// it with a non-blank `aria-label`. A named button gets no finding; any other
/// gets exactly one error of the accessibility family, `A11Y_EMPTY_BUTTON`.
pub proof fn lemma_button_named_iff_no_finding(b: ElementView, imgs: Seq<ElementView>, svgs: Seq<ElementView>)
    ensures
        ({
            let named = trimmed(b.text).len() > 0 || trimmed(attr_or_empty(b, "aria-label"@)).len() > 0
                || trimmed(attr_or_empty(b, "aria-labelledby"@)).len() > 0 || trimmed(attr_or_empty(b, "title"@)).len() > 0
                || (exists|j: int| 0 <= j < imgs.len() && trimmed(attr_or_empty(#[trigger] imgs[j], "alt"@)).len() > 0)
                || (exists|j: int| 0 <= j < svgs.len() && trimmed(attr_or_empty(#[trigger] svgs[j], "aria-label"@)).len() > 0);
            &&& named ==> button_finding(b, imgs, svgs).len() == 0
            &&& !named ==> button_finding(b, imgs, svgs).len() == 1
                && button_finding(b, imgs, svgs)[0].code == "A11Y_EMPTY_BUTTON"@
                && button_finding(b, imgs, svgs)[0].severity == Severity::Error
                && button_finding(b, imgs, svgs)[0].category == Category::A11y
        }),
{
    if exists|j: int| 0 <= j < imgs.len() && trimmed(attr_or_empty(#[trigger] imgs[j], "alt"@)).len() > 0 {
        let j = choose|j: int| 0 <= j < imgs.len() && trimmed(attr_or_empty(#[trigger] imgs[j], "alt"@)).len() > 0;
        assert(!blank_attr(imgs[j], "alt"@));
    }
    if exists|j: int| 0 <= j < svgs.len() && trimmed(attr_or_empty(#[trigger] svgs[j], "aria-label"@)).len() > 0 {
        let j = choose|j: int| 0 <= j < svgs.len() && trimmed(attr_or_empty(#[trigger] svgs[j], "aria-label"@)).len() > 0;
        assert(!blank_attr(svgs[j], "aria-label"@));
    }
    if has_img_with_alt(imgs) {
        let j = choose|j: int| 0 <= j < imgs.len() && !blank_attr(#[trigger] imgs[j], "alt"@);
        assert(trimmed(attr_or_empty(imgs[j], "alt"@)).len() > 0);
    }
    if has_labelled_svg(svgs) {
        let j = choose|j: int| 0 <= j < svgs.len() && !blank_attr(#[trigger] svgs[j], "aria-label"@);
        assert(trimmed(attr_or_empty(svgs[j], "aria-label"@)).len() > 0);
    }
}

/// Every accessibility finding belongs to the accessibility family.
pub proof fn lemma_a11y_findings_are_a11y(
    roots: Seq<ElementView>,
    buttons: Seq<ElementView>,
    button_imgs: Seq<Seq<ElementView>>,
    button_svgs: Seq<Seq<ElementView>>,
    controls: Seq<ElementView>,
    control_labels: Seq<Seq<ElementView>>,
    control_ancestors: Seq<Seq<Option<Seq<char>>>>,
    with_ids: Seq<ElementView>,
)
    ensures
        all_in_category(a11y_issues(roots, buttons, button_imgs, button_svgs, controls, control_labels,
            control_ancestors, with_ids), Category::A11y),
{
    let p = |x: IssueView| x.category == Category::A11y;
    let bf = |i: int| button_finding(buttons[i], button_imgs[i], button_svgs[i]);
    let cf = |i: int| control_finding(controls[i], control_labels[i], control_ancestors[i]);
    let df = |k: int| duplicate_finding(with_ids, k);
    lemma_concat_findings_all(buttons.len(), bf, p);
    lemma_concat_findings_all(controls.len(), cf, p);
    lemma_concat_findings_all(with_ids.len(), df, p);
    let a = lang_findings(roots);
    let b = concat_findings(buttons.len(), bf);
    let c = concat_findings(controls.len(), cf);
    let d = concat_findings(with_ids.len(), df);
    assert(all_in_category(a, Category::A11y));
    assert forall|j: int| 0 <= j < b.len() implies (#[trigger] b[j]).category == Category::A11y by {
        assert(p(b[j]));
    }
    assert forall|j: int| 0 <= j < c.len() implies (#[trigger] c[j]).category == Category::A11y by {
        assert(p(c[j]));
    }
    assert forall|j: int| 0 <= j < d.len() implies (#[trigger] d[j]).category == Category::A11y by {
        assert(p(d[j]));
    }
    lemma_category_concat(a, b, Category::A11y);
    lemma_category_concat(a + b, c, Category::A11y);
    lemma_category_concat(a + b + c, d, Category::A11y);
}

} // verus!
