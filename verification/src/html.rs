use vstd::prelude::*;

use crate::models::owned;

verus! {

/// scraper's parsed document tree; opaque to Verus.
#[verifier::external_type_specification]
#[verifier::external_body]
pub struct ExHtml(scraper::Html);

/// A parsed HTML page: its source text together with scraper's tree of that text.
///
/// The fields are private and set only by [`Document::parse_document`], so `tree`
/// is always scraper's parse of `source`; the selection functions below rely on it.
pub struct Document {
    source: String,
    tree: scraper::Html,
}

impl View for Document {
    type V = Seq<char>;

    closed spec fn view(&self) -> Seq<char> {
        self.source@
    }
}

/// One element picked by a CSS selector: its local name, its attributes as
/// (namespace, local name, value) in scraper's order, and the concatenation of
/// all text below it.
#[derive(Debug, Clone)]
pub struct Element {
    pub name: String,
    pub attrs: Vec<(String, String, String)>,
    pub text: String,
}

/// The mathematical content of an [`Element`].
pub struct ElementView {
    pub name: Seq<char>,
    pub attrs: Seq<(Seq<char>, Seq<char>, Seq<char>)>,
    pub text: Seq<char>,
}

impl DeepView for Element {
    type V = ElementView;

    open spec fn deep_view(&self) -> ElementView {
        ElementView { name: self.name@, attrs: self.attrs.deep_view(), text: self.text@ }
    }
}

/// The elements of the page `source` that scraper's `Html::select` yields for
/// `selector`, in its order (none where the selector does not parse).
pub uninterp spec fn css_select(source: Seq<char>, selector: Seq<char>) -> Seq<ElementView>;

/// The elements below the `index`-th match of `selector` that match `inner`
/// (scraper's `ElementRef::select`), in its order.
pub uninterp spec fn css_select_within(
    source: Seq<char>,
    selector: Seq<char>,
    index: int,
    inner: Seq<char>,
) -> Seq<ElementView>;

/// The ancestors of the `index`-th match of `selector`, nearest first: the
/// element name of each, or none for a node that is not an element.
pub uninterp spec fn css_ancestors(source: Seq<char>, selector: Seq<char>, index: int) -> Seq<
    Option<Seq<char>>,
>;

/// Whether scraper's `Selector::parse` accepts `selector`.
pub uninterp spec fn css_valid(selector: Seq<char>) -> bool;

/// The value of the attribute `name` without namespace, as scraper's
/// `Element::attr` looks it up (the first such attribute).
pub open spec fn attr_in(attrs: Seq<(Seq<char>, Seq<char>, Seq<char>)>, name: Seq<char>) -> Option<
    Seq<char>,
>
    decreases attrs.len(),
{
    if attrs.len() == 0 {
        None
    } else if attrs[0].0.len() == 0 && attrs[0].1 == name {
        Some(attrs[0].2)
    } else {
        attr_in(attrs.drop_first(), name)
    }
}

/// The value of attribute `name` of `e`.
pub open spec fn attr_of(e: ElementView, name: Seq<char>) -> Option<Seq<char>> {
    attr_in(e.attrs, name)
}

/// The value of attribute `name` of `e`, or the empty text when it is absent.
pub open spec fn attr_or_empty(e: ElementView, name: Seq<char>) -> Seq<char> {
    match attr_of(e, name) {
        Some(v) => v,
        None => Seq::empty(),
    }
}

/// `scraper::Html::parse_document`: the tree of `html`. Nothing is stated of the
/// tree; what the library reads of it goes through the selection functions below.
#[verifier::external_body]
fn parse_tree(html: &str) -> scraper::Html {
    scraper::Html::parse_document(html)
}

/// `scraper::Selector::parse`: whether the selector text parses.
#[verifier::external_body]
pub(crate) fn selector_is_valid(selector: &str) -> (ok: bool)
    ensures
        ok == css_valid(selector@),
{
    scraper::Selector::parse(selector).is_ok()
}

/// `scraper::Html::select`: the elements of the page that match `selector`, each
/// with its name, attributes and text; empty when the selector does not parse.
#[verifier::external_body]
pub(crate) fn select_elements(doc: &Document, selector: &str) -> (found: Vec<Element>)
    ensures
        found.deep_view() == css_select(doc@, selector@),
{
    let sel = match scraper::Selector::parse(selector) {
        Ok(s) => s,
        Err(_) => return Vec::new(),
    };
    doc.tree.select(&sel).map(|e| Element {
        name: e.value().name().to_string(),
        attrs: e.value().attrs.iter().map(|(q, v)| (q.ns.to_string(), q.local.to_string(), v.to_string())).collect(),
        text: e.text().collect(),
    }).collect()
}

/// `scraper::ElementRef::select` on the `index`-th match of `selector`: the
/// elements below it that match `inner`.
#[verifier::external_body]
pub(crate) fn select_within(doc: &Document, selector: &str, index: usize, inner: &str) -> (found: Vec<Element>)
    ensures
        found.deep_view() == css_select_within(doc@, selector@, index as int, inner@),
{
    let (outer, inner) = match (scraper::Selector::parse(selector), scraper::Selector::parse(inner)) {
        (Ok(o), Ok(i)) => (o, i),
        _ => return Vec::new(),
    };
    doc.tree.select(&outer).nth(index).map(|e| e.select(&inner).map(|d| Element {
        name: d.value().name().to_string(),
        attrs: d.value().attrs.iter().map(|(q, v)| (q.ns.to_string(), q.local.to_string(), v.to_string())).collect(),
        text: d.text().collect(),
    }).collect()).unwrap_or_default()
}

/// `ego_tree::NodeRef::ancestors` of the `index`-th match of `selector`: the name
/// of each ancestor element, nearest first (none for the document node).
#[verifier::external_body]
pub(crate) fn ancestor_names(doc: &Document, selector: &str, index: usize) -> (names: Vec<Option<String>>)
    ensures
        names.deep_view() == css_ancestors(doc@, selector@, index as int),
{
    let sel = match scraper::Selector::parse(selector) {
        Ok(s) => s,
        Err(_) => return Vec::new(),
    };
    doc.tree.select(&sel).nth(index).map(|e| e.ancestors().map(|n| n.value().as_element().map(|a| a.name().to_string())).collect()).unwrap_or_default()
}

impl Document {
    /// Parses a page (`scraper::Html::parse_document`).
    pub fn parse_document(html: &str) -> (doc: Document)
        ensures
            doc@ == html@,
    {
        Document { source: owned(html), tree: parse_tree(html) }
    }
}

impl Element {
    /// The value of the attribute `name` (`scraper::node::Element::attr`).
    pub fn attr(&self, name: &str) -> (v: Option<String>)
        ensures
            v.deep_view() == attr_of(self.deep_view(), name@),
    {
        let n = self.attrs.len();
        let mut i: usize = 0;
        assert(self.attrs.deep_view().skip(0) =~= self.attrs.deep_view());
        while i < n
            invariant
                n == self.attrs@.len(),
                i <= n,
                attr_of(self.deep_view(), name@) == attr_in(self.attrs.deep_view().skip(i as int), name@),
            decreases n - i,
        {
            let ghost rest = self.attrs.deep_view().skip(i as int);
            assert(rest.drop_first() =~= self.attrs.deep_view().skip(i + 1));
            let entry = &self.attrs[i];
            if entry.0.as_str().is_empty() && crate::text::same_text(entry.1.as_str(), name) {
                return Some(owned(entry.2.as_str()));
            }
            i = i + 1;
        }
        None
    }

    /// The trimmed value of attribute `name`, or the empty text when it is absent
    /// (`attr(name).unwrap_or("").trim()`).
    pub fn trimmed_attr(&self, name: &str) -> (v: String)
        ensures
            v@ == crate::text::trimmed(attr_or_empty(self.deep_view(), name@)),
    {
        match self.attr(name) {
            Some(a) => crate::text::trim(a.as_str()),
            None => {
                let empty = String::new();
                crate::text::trim(empty.as_str())
            },
        }
    }
}

} // verus!
