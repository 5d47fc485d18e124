use vstd::prelude::*;
use vstd::utf8::encode_utf8;

use crate::json::{JsonValue, get_member, json_get, json_parse, key_index, lemma_key_index_range, parse_json};
use crate::models::{
    Category, Issue, IssueView, Severity, concat3, concat_findings, finding, lemma_concat_findings_agree,
    lemma_concat_findings_all, make_issue, owned, push_issue,
};
use crate::pattern::{all_captures, regex_all_captures};
use crate::seo::{all_in_category, lemma_category_concat};
use crate::text::{decimal, decimal_string, same_text, trim, trimmed};

verus! {

/// The selector that all structured-data findings point at.
pub open spec fn schema_selector() -> Seq<char> {
    "script[type=\"application/ld+json\"]"@
}

/// The pattern that captures the content of each JSON-LD script block.
pub open spec fn json_ld_pattern() -> Seq<char> {
    "(?is)<script[^>]*type=(?:[\"']?application/ld\\+json[\"']?)[^>]*>(.*?)</script>"@
}

/// Whether a member is missing, null, or a blank string.
pub open spec fn is_blank(v: Option<JsonValue>) -> bool {
    match v {
        None => true,
        Some(JsonValue::Null) => true,
        Some(JsonValue::Str(s)) => trimmed(s@).len() == 0,
        _ => false,
    }
}

/// The finding on a required member `field` that is blank in an entity of type `kind` at `path`.
pub open spec fn required(entries: Seq<(String, JsonValue)>, field: Seq<char>, path: Seq<char>, kind: Seq<char>) -> Seq<IssueView> {
    if is_blank(json_get(entries, field)) {
        seq![finding("SCHEMA_MISSING_REQUIRED_FIELD"@, Category::Schema, Severity::Error,
            path + ": "@ + kind + " is missing required field \""@ + field + "\""@, schema_selector())]
    } else {
        seq![]
    }
}

/// The length of a text in UTF-8 bytes.
pub open spec fn byte_len(s: Seq<char>) -> nat {
    encode_utf8(s).len()
}

/// The finding on a string headline longer than 115 bytes.
pub open spec fn headline_findings(entries: Seq<(String, JsonValue)>, path: Seq<char>) -> Seq<IssueView> {
    match json_get(entries, "headline"@) {
        Some(JsonValue::Str(h)) => if byte_len(h@) > 115 {
            seq![finding("SCHEMA_HEADLINE_TOO_LONG"@, Category::Schema, Severity::Warning,
                path + ": \"headline\" has "@ + decimal(byte_len(h@)) + " characters — Google typically truncates above 110"@,
                schema_selector())]
        } else {
            seq![]
        },
        _ => seq![],
    }
}

/// The findings on item `i` of a breadcrumb list at `path`: each item needs a
/// name, a position and a target URL (`item`).
pub open spec fn list_item_findings(items: Seq<JsonValue>, i: int, path: Seq<char>) -> Seq<IssueView> {
    let item_path = path + ".itemListElement["@ + decimal(i as nat) + "]"@;
    match items[i] {
        JsonValue::Object(m) => required(m@, "name"@, item_path, "ListItem"@) + required(m@, "position"@, item_path, "ListItem"@)
            + if is_blank(json_get(m@, "item"@)) {
            seq![finding("SCHEMA_BREADCRUMB_MISSING_ITEM"@, Category::Schema, Severity::Error,
                item_path + ": Breadcrumb item is missing target URL \"item\""@, schema_selector())]
        } else {
            seq![]
        },
        _ => seq![],
    }
}

/// The findings on question `i` of an FAQ page at `path`.
pub open spec fn question_findings(items: Seq<JsonValue>, i: int, path: Seq<char>) -> Seq<IssueView> {
    let q_path = path + ".mainEntity["@ + decimal(i as nat) + "]"@;
    match items[i] {
        JsonValue::Object(m) => required(m@, "name"@, q_path, "Question"@) + required(m@, "acceptedAnswer"@, q_path, "Question"@),
        _ => seq![],
    }
}

/// Whether an entity type is an article.
pub open spec fn is_article_type(kind: Seq<char>) -> bool {
    kind == "BlogPosting"@ || kind == "Article"@ || kind == "NewsArticle"@
}

/// Whether an entity type is an organisation or a web site, which need a name and a URL.
pub open spec fn is_named_site_type(kind: Seq<char>) -> bool {
    kind == "Organization"@ || kind == "LegalService"@ || kind == "LocalBusiness"@ || kind == "Attorney"@
        || kind == "WebSite"@
}

/// The findings on an entity of type `kind` with members `entries` at `path`.
pub open spec fn entity_findings(kind: Seq<char>, entries: Seq<(String, JsonValue)>, path: Seq<char>) -> Seq<IssueView> {
    if is_article_type(kind) {
        required(entries, "headline"@, path, kind) + headline_findings(entries, path) + required(entries, "image"@, path, kind)
            + required(entries, "datePublished"@, path, kind) + required(entries, "author"@, path, kind)
    } else if is_named_site_type(kind) {
        required(entries, "name"@, path, kind) + required(entries, "url"@, path, kind)
    } else if kind == "BreadcrumbList"@ {
        match json_get(entries, "itemListElement"@) {
            Some(JsonValue::Array(items)) => if items@.len() > 0 {
                concat_findings(items@.len(), |i: int| list_item_findings(items@, i, path))
            } else {
                seq![finding("SCHEMA_BREADCRUMB_EMPTY"@, Category::Schema, Severity::Error,
                    path + ": BreadcrumbList \"itemListElement\" must be a non-empty array"@, schema_selector())]
            },
            _ => seq![finding("SCHEMA_BREADCRUMB_EMPTY"@, Category::Schema, Severity::Error,
                path + ": BreadcrumbList \"itemListElement\" must be a non-empty array"@, schema_selector())],
        }
    } else if kind == "FAQPage"@ {
        match json_get(entries, "mainEntity"@) {
            Some(JsonValue::Array(items)) => if items@.len() > 0 {
                concat_findings(items@.len(), |i: int| question_findings(items@, i, path))
            } else {
                seq![finding("SCHEMA_FAQ_EMPTY"@, Category::Schema, Severity::Error,
                    path + ": FAQPage \"mainEntity\" must be a non-empty array of Question objects"@, schema_selector())]
            },
            _ => seq![finding("SCHEMA_FAQ_EMPTY"@, Category::Schema, Severity::Error,
                path + ": FAQPage \"mainEntity\" must be a non-empty array of Question objects"@, schema_selector())],
        }
    } else {
        seq![]
    }
}

/// An article (`Article`, `BlogPosting` or `NewsArticle`) needs a headline, an
/// image, a publication date and an author: for each of these members that is
/// missing, null or a blank string, the entity's findings hold the error that
/// names it.
pub proof fn lemma_article_needs_fields(
    kind: Seq<char>,
    entries: Seq<(String, JsonValue)>,
    path: Seq<char>,
    field: Seq<char>,
)
    requires
        kind == "Article"@ || kind == "BlogPosting"@ || kind == "NewsArticle"@,
        field == "headline"@ || field == "image"@ || field == "datePublished"@ || field == "author"@,
        json_get(entries, field) is None || json_get(entries, field) == Some(JsonValue::Null) || (exists|s: String|
            json_get(entries, field) == Some(JsonValue::Str(s)) && trimmed(s@).len() == 0),
    ensures
        exists|j: int| 0 <= j < entity_findings(kind, entries, path).len() && #[trigger] entity_findings(kind, entries, path)[j]
            == finding("SCHEMA_MISSING_REQUIRED_FIELD"@, Category::Schema, Severity::Error,
                path + ": "@ + kind + " is missing required field \""@ + field + "\""@, schema_selector()),
{
    let r1 = required(entries, "headline"@, path, kind);
    let hl = headline_findings(entries, path);
    let r2 = required(entries, "image"@, path, kind);
    let r3 = required(entries, "datePublished"@, path, kind);
    let r4 = required(entries, "author"@, path, kind);
    let all = entity_findings(kind, entries, path);
    assert(all == r1 + hl + r2 + r3 + r4);
    assert(is_blank(json_get(entries, field)));
    let f = finding("SCHEMA_MISSING_REQUIRED_FIELD"@, Category::Schema, Severity::Error,
        path + ": "@ + kind + " is missing required field \""@ + field + "\""@, schema_selector());
    if field == "headline"@ {
        assert(all[0] == f);
    } else if field == "image"@ {
        assert(all[(r1.len() + hl.len()) as int] == f);
    } else if field == "datePublished"@ {
        assert(all[(r1.len() + hl.len() + r2.len()) as int] == f);
    } else {
        assert(all[(r1.len() + hl.len() + r2.len() + r3.len()) as int] == f);
    }
}

/// An object whose `@type` is one type name gets the findings of an entity of
/// that type.
pub proof fn lemma_single_type_findings(entries: Seq<(String, JsonValue)>, path: Seq<char>, kind: String)
    requires
        json_get(entries, "@type"@) == Some(JsonValue::Str(kind)),
    ensures
        typed_findings(entries, path) == entity_findings(kind@, entries, path),
{
    let names = type_names(JsonValue::Str(kind));
    assert(names =~= seq![kind@]);
    lemma_names_push(Seq::empty(), kind@, entries, path);
    assert(seq![kind@] =~= Seq::<Seq<char>>::empty().push(kind@));
    assert(names_findings(Seq::empty(), entries, path) =~= Seq::<IssueView>::empty());
}

/// The strings among `arr`, in order.
pub open spec fn string_items(arr: Seq<JsonValue>) -> Seq<Seq<char>>
    decreases arr.len(),
{
    if arr.len() == 0 {
        seq![]
    } else {
        string_items(arr.drop_last()) + match arr.last() {
            JsonValue::Str(s) => seq![s@],
            _ => seq![],
        }
    }
}

/// The type names that an `@type` member gives: one string, or the strings of an array.
pub open spec fn type_names(t: JsonValue) -> Seq<Seq<char>> {
    match t {
        JsonValue::Str(s) => seq![s@],
        JsonValue::Array(arr) => string_items(arr@),
        _ => seq![],
    }
}

/// The findings on an entity for each of the type names `names`, in order.
pub open spec fn names_findings(names: Seq<Seq<char>>, entries: Seq<(String, JsonValue)>, path: Seq<char>) -> Seq<IssueView> {
    concat_findings(names.len(), |k: int| entity_findings(names[k], entries, path))
}

/// The findings on the entity types of an object with members `entries` at `path`.
pub open spec fn typed_findings(entries: Seq<(String, JsonValue)>, path: Seq<char>) -> Seq<IssueView> {
    match json_get(entries, "@type"@) {
        Some(t) => names_findings(type_names(t), entries, path),
        None => seq![],
    }
}

proof fn lemma_names_push(names: Seq<Seq<char>>, x: Seq<char>, entries: Seq<(String, JsonValue)>, path: Seq<char>)
    ensures
        names_findings(names.push(x), entries, path) == names_findings(names, entries, path) + entity_findings(x, entries, path),
{
    let f = |k: int| entity_findings(names.push(x)[k], entries, path);
    let g = |k: int| entity_findings(names[k], entries, path);
    assert forall|k: int| 0 <= k < names.len() implies #[trigger] f(k) == g(k) by {
        assert(names.push(x)[k] == names[k]);
    }
    lemma_concat_findings_agree(names.len(), f, g);
    assert(concat_findings(names.len() + 1, f) == concat_findings(names.len(), f) + f(names.len() as int));
}

/// The findings on a JSON value at `path` and everything nested in it through
/// arrays and `@graph`.
pub open spec fn value_findings(val: JsonValue, path: Seq<char>) -> Seq<IssueView>
    decreases val, 0int,
{
    match val {
        JsonValue::Array(items) => items_findings(items@, items@.len() as int, path),
        JsonValue::Object(entries) => {
            let g = key_index(entries@, "@graph"@, 0);
            proof {
                lemma_key_index_range(entries@, "@graph"@, 0);
            }
            (if 0 <= g < entries@.len() {
                value_findings(entries@[g].1, path + ".@graph"@)
            } else {
                seq![]
            }) + typed_findings(entries@, path)
        },
        _ => seq![],
    }
}

/// The findings on the first `n` items of an array at `path`.
pub open spec fn items_findings(items: Seq<JsonValue>, n: int, path: Seq<char>) -> Seq<IssueView>
    decreases items, n,
{
    if n <= 0 || n > items.len() {
        seq![]
    } else {
        items_findings(items, n - 1, path) + value_findings(items[n - 1], path + "["@ + decimal((n - 1) as nat) + "]"@)
    }
}

/// The `Option` of a member as a value.
pub open spec fn member(v: Option<&JsonValue>) -> Option<JsonValue> {
    match v {
        Some(x) => Some(*x),
        None => None,
    }
}

fn blank(v: Option<&JsonValue>) -> (b: bool)
    ensures
        b == is_blank(member(v)),
{
    match v {
        None => true,
        Some(JsonValue::Null) => true,
        Some(JsonValue::Str(s)) => {
            let t = trim(s.as_str());
            t.as_str().is_empty()
        },
        _ => false,
    }
}

/// `path + ": " + kind + " is missing required field \"" + field + "\""`.
fn missing_message(path: &str, kind: &str, field: &str) -> (m: String)
    ensures
        m@ == path@ + ": "@ + kind@ + " is missing required field \""@ + field@ + "\""@,
{
    let mut m = owned(path);
    m.append(": ");
    m.append(kind);
    m.append(" is missing required field \"");
    m.append(field);
    m.append("\"");
    m
}

fn required_check(issues: &mut Vec<Issue>, entries: &Vec<(String, JsonValue)>, field: &str, path: &str, kind: &str)
    ensures
        final(issues).deep_view() == old(issues).deep_view() + required(entries@, field@, path@, kind@),
{
    let ghost start = issues.deep_view();
    if blank(get_member(entries, field)) {
        push_issue(issues, make_issue("SCHEMA_MISSING_REQUIRED_FIELD", Category::Schema, Severity::Error,
            missing_message(path, kind, field), owned("script[type=\"application/ld+json\"]")));
    }
    assert(issues.deep_view() =~= start + required(entries@, field@, path@, kind@));
}

fn headline_check(issues: &mut Vec<Issue>, entries: &Vec<(String, JsonValue)>, path: &str)
    ensures
        final(issues).deep_view() == old(issues).deep_view() + headline_findings(entries@, path@),
{
    let ghost start = issues.deep_view();
    match get_member(entries, "headline") {
        Some(JsonValue::Str(h)) => {
            let n = h.as_str().as_bytes().len();
            if n > 115 {
                let mut m = owned(path);
                m.append(": \"headline\" has ");
                let d = decimal_string(n);
                m.append(d.as_str());
                m.append(" characters — Google typically truncates above 110");
                push_issue(issues, make_issue("SCHEMA_HEADLINE_TOO_LONG", Category::Schema, Severity::Warning, m,
                    owned("script[type=\"application/ld+json\"]")));
            }
        },
        _ => {},
    }
    assert(issues.deep_view() =~= start + headline_findings(entries@, path@));
}

/// `path + before + decimal(i) + "]"`.
fn indexed_path(path: &str, before: &str, i: usize) -> (p: String)
    ensures
        p@ == path@ + before@ + decimal(i as nat) + "]"@,
{
    let mut p = owned(path);
    p.append(before);
    let d = decimal_string(i);
    p.append(d.as_str());
    p.append("]");
    p
}

#[verifier::loop_isolation(false)]
fn list_items_check(issues: &mut Vec<Issue>, items: &Vec<JsonValue>, path: &str)
    requires
        items@.len() > 0,
    ensures
        final(issues).deep_view() == old(issues).deep_view() + concat_findings(items@.len(), |i: int| list_item_findings(items@, i, path@)),
{
    let ghost start = issues.deep_view();
    let ghost f = |i: int| list_item_findings(items@, i, path@);
    let n = items.len();
    let mut i: usize = 0;
    while i < n
        invariant
            n == items@.len(),
            i <= n,
            issues.deep_view() == start + concat_findings(i as nat, f),
        decreases n - i,
    {
        let ghost before = issues.deep_view();
        let item_path = indexed_path(path, ".itemListElement[", i);
        match &items[i] {
            JsonValue::Object(m) => {
                required_check(issues, m, "name", item_path.as_str(), "ListItem");
                required_check(issues, m, "position", item_path.as_str(), "ListItem");
                if blank(get_member(m, "item")) {
                    let mut msg = owned(item_path.as_str());
                    msg.append(": Breadcrumb item is missing target URL \"item\"");
                    push_issue(issues, make_issue("SCHEMA_BREADCRUMB_MISSING_ITEM", Category::Schema, Severity::Error,
                        msg, owned("script[type=\"application/ld+json\"]")));
                }
            },
            _ => {},
        }
        assert(issues.deep_view() =~= before + f(i as int));
        assert(concat_findings((i + 1) as nat, f) == concat_findings(i as nat, f) + f(i as int));
        assert(issues.deep_view() =~= start + concat_findings((i + 1) as nat, f));
        i = i + 1;
    }
}

#[verifier::loop_isolation(false)]
fn questions_check(issues: &mut Vec<Issue>, items: &Vec<JsonValue>, path: &str)
    ensures
        final(issues).deep_view() == old(issues).deep_view() + concat_findings(items@.len(), |i: int| question_findings(items@, i, path@)),
{
    let ghost start = issues.deep_view();
    let ghost f = |i: int| question_findings(items@, i, path@);
    let n = items.len();
    let mut i: usize = 0;
    while i < n
        invariant
            n == items@.len(),
            i <= n,
            issues.deep_view() == start + concat_findings(i as nat, f),
        decreases n - i,
    {
        let ghost before = issues.deep_view();
        let q_path = indexed_path(path, ".mainEntity[", i);
        match &items[i] {
            JsonValue::Object(m) => {
                required_check(issues, m, "name", q_path.as_str(), "Question");
                required_check(issues, m, "acceptedAnswer", q_path.as_str(), "Question");
            },
            _ => {},
        }
        assert(issues.deep_view() =~= before + f(i as int));
        assert(concat_findings((i + 1) as nat, f) == concat_findings(i as nat, f) + f(i as int));
        assert(issues.deep_view() =~= start + concat_findings((i + 1) as nat, f));
        i = i + 1;
    }
}

fn article_type(kind: &str) -> (b: bool)
    ensures
        b == is_article_type(kind@),
{
    same_text(kind, "BlogPosting") || same_text(kind, "Article") || same_text(kind, "NewsArticle")
}

fn named_site_type(kind: &str) -> (b: bool)
    ensures
        b == is_named_site_type(kind@),
{
    same_text(kind, "Organization") || same_text(kind, "LegalService") || same_text(kind, "LocalBusiness")
        || same_text(kind, "Attorney") || same_text(kind, "WebSite")
}

/// Checks one entity of type `kind` against the members its type requires.
fn validate_entity_type(issues: &mut Vec<Issue>, kind: &str, entries: &Vec<(String, JsonValue)>, path: &str)
    ensures
        final(issues).deep_view() == old(issues).deep_view() + entity_findings(kind@, entries@, path@),
{
    let ghost start = issues.deep_view();
    if article_type(kind) {
        required_check(issues, entries, "headline", path, kind);
        headline_check(issues, entries, path);
        required_check(issues, entries, "image", path, kind);
        required_check(issues, entries, "datePublished", path, kind);
        required_check(issues, entries, "author", path, kind);
    } else if named_site_type(kind) {
        required_check(issues, entries, "name", path, kind);
        required_check(issues, entries, "url", path, kind);
    } else if same_text(kind, "BreadcrumbList") {
        let mut done = false;
        match get_member(entries, "itemListElement") {
            Some(JsonValue::Array(items)) => {
                if items.len() > 0 {
                    list_items_check(issues, items, path);
                    done = true;
                }
            },
            _ => {},
        }
        if !done {
            let mut msg = owned(path);
            msg.append(": BreadcrumbList \"itemListElement\" must be a non-empty array");
            push_issue(issues, make_issue("SCHEMA_BREADCRUMB_EMPTY", Category::Schema, Severity::Error, msg,
                owned("script[type=\"application/ld+json\"]")));
        }
    } else if same_text(kind, "FAQPage") {
        let mut done = false;
        match get_member(entries, "mainEntity") {
            Some(JsonValue::Array(items)) => {
                if items.len() > 0 {
                    questions_check(issues, items, path);
                    done = true;
                }
            },
            _ => {},
        }
        if !done {
            let mut msg = owned(path);
            msg.append(": FAQPage \"mainEntity\" must be a non-empty array of Question objects");
            push_issue(issues, make_issue("SCHEMA_FAQ_EMPTY", Category::Schema, Severity::Error, msg,
                owned("script[type=\"application/ld+json\"]")));
        }
    }
    assert(issues.deep_view() =~= start + entity_findings(kind@, entries@, path@));
}

/// Checks the entity types that the `@type` member of an object names.
#[verifier::loop_isolation(false)]
fn types_check(issues: &mut Vec<Issue>, entries: &Vec<(String, JsonValue)>, path: &str)
    ensures
        final(issues).deep_view() == old(issues).deep_view() + typed_findings(entries@, path@),
{
    let ghost start = issues.deep_view();
    match get_member(entries, "@type") {
        None => {},
        Some(t) => {
            let ghost names = type_names(*t);
            let ghost f = |k: int| entity_findings(names[k], entries@, path@);
            match t {
                JsonValue::Str(s) => {
                    validate_entity_type(issues, s.as_str(), entries, path);
                    assert(names =~= seq![s@]);
                    assert(concat_findings(1, f) == concat_findings(0, f) + f(0));
                },
                JsonValue::Array(arr) => {
                    let n = arr.len();
                    let mut i: usize = 0;
                    assert(string_items(arr@.take(0)) =~= Seq::<Seq<char>>::empty());
                    while i < n
                        invariant
                            n == arr@.len(),
                            i <= n,
                            issues.deep_view() == start + names_findings(string_items(arr@.take(i as int)), entries@, path@),
                        decreases n - i,
                    {
                        let ghost before = string_items(arr@.take(i as int));
                        assert(arr@.take(i + 1).drop_last() =~= arr@.take(i as int));
                        match &arr[i] {
                            JsonValue::Str(s) => {
                                validate_entity_type(issues, s.as_str(), entries, path);
                                assert(string_items(arr@.take(i + 1)) =~= before.push(s@));
                                proof {
                                    lemma_names_push(before, s@, entries@, path@);
                                }
                            },
                            _ => {
                                assert(string_items(arr@.take(i + 1)) =~= before);
                            },
                        }
                        i = i + 1;
                    }
                    assert(arr@.take(n as int) =~= arr@);
                },
                _ => {},
            }
        },
    }
    assert(issues.deep_view() =~= start + typed_findings(entries@, path@));
}

/// Checks a JSON value at `path` and everything nested in it through arrays and
/// `@graph`, validating the entity types that objects name.
pub fn check_value(val: &JsonValue, issues: &mut Vec<Issue>, path: &str)
    ensures
        final(issues).deep_view() == old(issues).deep_view() + value_findings(*val, path@),
    decreases val,
{
    let ghost start = issues.deep_view();
    match val {
        JsonValue::Array(items) => {
            let n = items.len();
            let mut i: usize = 0;
            while i < n
                invariant
                    n == items@.len(),
                    i <= n,
                    *val == JsonValue::Array(*items),
                    issues.deep_view() == start + items_findings(items@, i as int, path@),
                decreases n - i,
            {
                let p = indexed_path(path, "[", i);
                assert(*items == (*val)->Array_0);
                assert(decreases_to!(*val => (*val)->Array_0));
                assert(decreases_to!(*items => items@));
                assert(decreases_to!(items@ => items@[i as int]));
                assert(decreases_to!(*val => items@[i as int]));
                check_value(&items[i], issues, p.as_str());
                assert(issues.deep_view() =~= start + items_findings(items@, i + 1, path@));
                i = i + 1;
            }
        },
        JsonValue::Object(entries) => {
            proof {
                lemma_key_index_range(entries@, "@graph"@, 0);
            }
            match get_member(entries, "@graph") {
                Some(g) => {
                    let mut p = owned(path);
                    p.append(".@graph");
                    let ghost gi = key_index(entries@, "@graph"@, 0);
                    assert(decreases_to!(*val => entries@[gi].1));
                    check_value(g, issues, p.as_str());
                },
                None => {},
            }
            types_check(issues, entries, path);
        },
        _ => {},
    }
    assert(issues.deep_view() =~= start + value_findings(*val, path@));
}

/// The findings on one JSON-LD block, the `number`-th of the page (from 1).
pub open spec fn block_findings(block: Seq<char>, number: nat) -> Seq<IssueView> {
    let t = trimmed(block);
    if t.len() == 0 {
        seq![finding("SCHEMA_EMPTY_JSON_LD"@, Category::Schema, Severity::Error,
            "Script block #"@ + decimal(number) + " contains empty JSON-LD content"@, schema_selector())]
    } else {
        match json_parse(t) {
            Err(e) => seq![finding("SCHEMA_INVALID_SYNTAX"@, Category::Schema, Severity::Error,
                "JSON syntax error in structured data block #"@ + decimal(number) + ": "@ + e, schema_selector())],
            Ok(v) => value_findings(v, "block_"@ + decimal(number)),
        }
    }
}

/// The structured-data findings for the contents of the JSON-LD blocks of a page.
pub open spec fn schema_issues(blocks: Seq<Seq<char>>) -> Seq<IssueView> {
    concat_findings(blocks.len(), |k: int| block_findings(blocks[k], (k + 1) as nat))
}

/// The structured-data findings of a page.
pub open spec fn page_schema_issues(html: Seq<char>) -> Seq<IssueView> {
    schema_issues(regex_all_captures(json_ld_pattern(), html))
}

/// The structured-data findings for the contents of the JSON-LD blocks of a
/// page, numbered from 1 in order.
#[verifier::loop_isolation(false)]
pub fn schema_findings(blocks: &Vec<String>) -> (issues: Vec<Issue>)
    ensures
        issues.deep_view() == schema_issues(blocks.deep_view()),
{
    let mut issues: Vec<Issue> = Vec::new();
    let ghost f = |k: int| block_findings(blocks.deep_view()[k], (k + 1) as nat);
    let n = blocks.len();
    let mut k: usize = 0;
    while k < n
        invariant
            n == blocks@.len(),
            k <= n,
            issues.deep_view() == concat_findings(k as nat, f),
        decreases n - k,
    {
        let ghost before = issues.deep_view();
        let number = k + 1;
        let text = trim(blocks[k].as_str());
        if text.as_str().is_empty() {
            push_issue(&mut issues, make_issue("SCHEMA_EMPTY_JSON_LD", Category::Schema, Severity::Error,
                concat3("Script block #", decimal_string(number).as_str(), " contains empty JSON-LD content"),
                owned("script[type=\"application/ld+json\"]")));
        } else {
            match parse_json(text.as_str()) {
                Err(e) => {
                    let mut m = concat3("JSON syntax error in structured data block #", decimal_string(number).as_str(), ": ");
                    m.append(e.as_str());
                    push_issue(&mut issues, make_issue("SCHEMA_INVALID_SYNTAX", Category::Schema, Severity::Error, m,
                        owned("script[type=\"application/ld+json\"]")));
                },
                Ok(v) => {
                    let mut path = owned("block_");
                    path.append(decimal_string(number).as_str());
                    check_value(&v, &mut issues, path.as_str());
                },
            }
        }
        assert(f(k as int) == block_findings(blocks@[k as int]@, (k + 1) as nat));
        assert(issues.deep_view() =~= before + f(k as int));
        assert(concat_findings((k + 1) as nat, f) == concat_findings(k as nat, f) + f(k as int));
        k = k + 1;
    }
    issues
}

/// The structured-data audit of a page: JSON-LD syntax and the required members
/// of articles, organisations, web sites, breadcrumbs and FAQ pages.
pub fn audit_schema(html: &str) -> (issues: Vec<Issue>)
    ensures
        issues.deep_view() == page_schema_issues(html@),
{
    let blocks = all_captures(
        "(?is)<script[^>]*type=(?:[\"']?application/ld\\+json[\"']?)[^>]*>(.*?)</script>",
        html,
    );
    schema_findings(&blocks)
}

proof fn lemma_concat_schema(n: nat, f: spec_fn(int) -> Seq<IssueView>)
    requires
        forall|i: int| 0 <= i < n ==> all_in_category(#[trigger] f(i), Category::Schema),
    ensures
        all_in_category(concat_findings(n, f), Category::Schema),
{
    let p = |x: IssueView| x.category == Category::Schema;
    assert forall|i: int, j: int| 0 <= i < n && 0 <= j < f(i).len() implies #[trigger] p(f(i)[j]) by {
        assert(all_in_category(f(i), Category::Schema));
    }
    lemma_concat_findings_all(n, f, p);
    assert forall|j: int| 0 <= j < concat_findings(n, f).len() implies (#[trigger] concat_findings(n, f)[j]).category
        == Category::Schema by {
        assert(p(concat_findings(n, f)[j]));
    }
}

proof fn lemma_entity_schema(kind: Seq<char>, entries: Seq<(String, JsonValue)>, path: Seq<char>)
    ensures
        all_in_category(entity_findings(kind, entries, path), Category::Schema),
{
    let r = |f: Seq<char>| required(entries, f, path, kind);
    if is_article_type(kind) {
        lemma_category_concat(r("headline"@), headline_findings(entries, path), Category::Schema);
        lemma_category_concat(r("headline"@) + headline_findings(entries, path), r("image"@), Category::Schema);
        lemma_category_concat(r("headline"@) + headline_findings(entries, path) + r("image"@), r("datePublished"@), Category::Schema);
        lemma_category_concat(r("headline"@) + headline_findings(entries, path) + r("image"@) + r("datePublished"@),
            r("author"@), Category::Schema);
    } else if is_named_site_type(kind) {
        lemma_category_concat(r("name"@), r("url"@), Category::Schema);
    } else if kind == "BreadcrumbList"@ {
        match json_get(entries, "itemListElement"@) {
            Some(JsonValue::Array(items)) => if items@.len() > 0 {
                let f = |i: int| list_item_findings(items@, i, path);
                assert forall|i: int| 0 <= i < items@.len() implies all_in_category(#[trigger] f(i), Category::Schema) by {
                    let item_path = path + ".itemListElement["@ + decimal(i as nat) + "]"@;
                    match items@[i] {
                        JsonValue::Object(m) => {
                            let a = required(m@, "name"@, item_path, "ListItem"@);
                            let b = required(m@, "position"@, item_path, "ListItem"@);
                            let c = if is_blank(json_get(m@, "item"@)) {
                                seq![finding("SCHEMA_BREADCRUMB_MISSING_ITEM"@, Category::Schema, Severity::Error,
                                    item_path + ": Breadcrumb item is missing target URL \"item\""@, schema_selector())]
                            } else {
                                seq![]
                            };
                            lemma_category_concat(a, b, Category::Schema);
                            lemma_category_concat(a + b, c, Category::Schema);
                        },
                        _ => {},
                    }
                }
                lemma_concat_schema(items@.len(), f);
            },
            _ => {},
        }
    } else if kind == "FAQPage"@ {
        match json_get(entries, "mainEntity"@) {
            Some(JsonValue::Array(items)) => if items@.len() > 0 {
                let f = |i: int| question_findings(items@, i, path);
                assert forall|i: int| 0 <= i < items@.len() implies all_in_category(#[trigger] f(i), Category::Schema) by {
                    let q_path = path + ".mainEntity["@ + decimal(i as nat) + "]"@;
                    match items@[i] {
                        JsonValue::Object(m) => {
                            lemma_category_concat(required(m@, "name"@, q_path, "Question"@),
                                required(m@, "acceptedAnswer"@, q_path, "Question"@), Category::Schema);
                        },
                        _ => {},
                    }
                }
                lemma_concat_schema(items@.len(), f);
            },
            _ => {},
        }
    }
}

proof fn lemma_typed_schema(entries: Seq<(String, JsonValue)>, path: Seq<char>)
    ensures
        all_in_category(typed_findings(entries, path), Category::Schema),
{
    match json_get(entries, "@type"@) {
        Some(t) => {
            let names = type_names(t);
            let f = |k: int| entity_findings(names[k], entries, path);
            assert forall|k: int| 0 <= k < names.len() implies all_in_category(#[trigger] f(k), Category::Schema) by {
                lemma_entity_schema(names[k], entries, path);
            }
            lemma_concat_schema(names.len(), f);
        },
        None => {},
    }
}

proof fn lemma_value_schema(val: JsonValue, path: Seq<char>)
    ensures
        all_in_category(value_findings(val, path), Category::Schema),
    decreases val, 0int,
{
    match val {
        JsonValue::Array(items) => {
            lemma_items_schema(items@, items@.len() as int, path);
        },
        JsonValue::Object(entries) => {
            let g = key_index(entries@, "@graph"@, 0);
            lemma_key_index_range(entries@, "@graph"@, 0);
            let first = if 0 <= g < entries@.len() {
                lemma_value_schema(entries@[g].1, path + ".@graph"@);
                value_findings(entries@[g].1, path + ".@graph"@)
            } else {
                seq![]
            };
            lemma_typed_schema(entries@, path);
            lemma_category_concat(first, typed_findings(entries@, path), Category::Schema);
        },
        _ => {},
    }
}

proof fn lemma_items_schema(items: Seq<JsonValue>, n: int, path: Seq<char>)
    ensures
        all_in_category(items_findings(items, n, path), Category::Schema),
    decreases items, n,
{
    if 0 < n <= items.len() {
        lemma_items_schema(items, n - 1, path);
        lemma_value_schema(items[n - 1], path + "["@ + decimal((n - 1) as nat) + "]"@);
        lemma_category_concat(items_findings(items, n - 1, path),
            value_findings(items[n - 1], path + "["@ + decimal((n - 1) as nat) + "]"@), Category::Schema);
    }
}

/// Every structured-data finding belongs to the Schema.org family.
pub proof fn lemma_schema_findings_are_schema(blocks: Seq<Seq<char>>)
    ensures
        all_in_category(schema_issues(blocks), Category::Schema),
{
    let f = |k: int| block_findings(blocks[k], (k + 1) as nat);
    assert forall|k: int| 0 <= k < blocks.len() implies all_in_category(#[trigger] f(k), Category::Schema) by {
        let t = trimmed(blocks[k]);
        if t.len() > 0 {
            match json_parse(t) {
                Ok(v) => lemma_value_schema(v, "block_"@ + decimal((k + 1) as nat)),
                Err(_) => {},
            }
        }
    }
    lemma_concat_schema(blocks.len(), f);
}

} // verus!
