//! Reading HTML with the `scraper` crate, and joining addresses with the `url` crate.
//! Elements are handed over as their HTML text, so that a later selection within an
//! element reads that text as a fragment.

use vstd::prelude::*;
use crate::text::views;
use crate::post::opt_view;

verus! {

/// The HTML of the elements of the document `html` that match the CSS selector
/// `selector`, in document order; none when the selector does not parse.
pub uninterp spec fn document_matches(html: Seq<char>, selector: Seq<char>) -> Seq<Seq<char>>;

/// The HTML of the elements of the fragment `html` that match `selector`, in document
/// order; none when the selector does not parse.
pub uninterp spec fn fragment_matches(html: Seq<char>, selector: Seq<char>) -> Seq<Seq<char>>;

/// The text nodes of the fragment `html`, in document order.
pub uninterp spec fn fragment_text_nodes(html: Seq<char>) -> Seq<Seq<char>>;

/// The attribute `attr` of the first element of the fragment `html` that matches
/// `selector`, if there is such an element and it has the attribute.
pub uninterp spec fn fragment_first_attr(html: Seq<char>, selector: Seq<char>, attr: Seq<char>) -> Option<Seq<char>>;

/// The address that `reference` denotes relative to `base`, as the `url` crate
/// serializes it; `None` when `base` is no URL or the reference cannot be resolved.
pub uninterp spec fn joined_url(base: Seq<char>, reference: Seq<char>) -> Option<Seq<char>>;

/// The HTML of the elements of the document that match the selector
/// (`Html::parse_document`, `Html::select`, `ElementRef::html`).
#[verifier::external_body]
pub(crate) fn select_in_document(html: &str, selector: &str) -> (r: Vec<String>)
    ensures
        views(r@) == document_matches(html@, selector@),
{
    let mut out = Vec::new();
    if let Ok(sel) = scraper::Selector::parse(selector) {
        for e in scraper::Html::parse_document(html).select(&sel) {
            out.push(e.html());
        }
    }
    out
}

/// The HTML of the elements of the fragment that match the selector
/// (`Html::parse_fragment`, `Html::select`, `ElementRef::html`).
#[verifier::external_body]
pub(crate) fn select_in_fragment(html: &str, selector: &str) -> (r: Vec<String>)
    ensures
        views(r@) == fragment_matches(html@, selector@),
{
    let mut out = Vec::new();
    if let Ok(sel) = scraper::Selector::parse(selector) {
        for e in scraper::Html::parse_fragment(html).select(&sel) {
            out.push(e.html());
        }
    }
    out
}

/// The text nodes of the fragment (`Html::parse_fragment`, `ElementRef::text` of its
/// root element).
#[verifier::external_body]
pub(crate) fn fragment_texts(html: &str) -> (r: Vec<String>)
    ensures
        views(r@) == fragment_text_nodes(html@),
{
    let mut out = Vec::new();
    for t in scraper::Html::parse_fragment(html).root_element().text() {
        out.push(t.to_string());
    }
    out
}

/// The attribute `attr` of the first element of the fragment that matches the selector
/// (`Html::parse_fragment`, `Html::select`, `Element::attr`).
#[verifier::external_body]
pub(crate) fn first_attr_in_fragment(html: &str, selector: &str, attr: &str) -> (r: Option<String>)
    ensures
        opt_view(r) == fragment_first_attr(html@, selector@, attr@),
{
    let sel = match scraper::Selector::parse(selector) {
        Ok(sel) => sel,
        Err(_) => return None,
    };
    let doc = scraper::Html::parse_fragment(html);
    match doc.select(&sel).next() {
        Some(e) => match e.value().attr(attr) {
            Some(a) => Some(a.to_string()),
            None => None,
        },
        None => None,
    }
}

/// `reference` resolved against `base` (`Url::parse`, `Url::join`), or `None`.
#[verifier::external_body]
pub(crate) fn join_url(base: &str, reference: &str) -> (r: Option<String>)
    ensures
        opt_view(r) == joined_url(base@, reference@),
{
    match url::Url::parse(base) {
        Ok(b) => match b.join(reference) {
            Ok(u) => Some(u.to_string()),
            Err(_) => None,
        },
        Err(_) => None,
    }
}

/// Pieces of text joined by single spaces (`join(" ")`).
pub open spec fn join_space(pieces: Seq<Seq<char>>) -> Seq<char>
    decreases pieces.len(),
{
    if pieces.len() == 0 {
        Seq::empty()
    } else if pieces.len() == 1 {
        pieces[0]
    } else {
        join_space(pieces.drop_last()) + seq![' '] + pieces.last()
    }
}

/// Joins pieces of text with single spaces.
pub fn join_with_space(pieces: &Vec<String>) -> (out: String)
    ensures
        out@ == join_space(views(pieces@)),
{
    let mut out = String::new();
    let mut i: usize = 0;
    while i < pieces.len()
        invariant
            i <= pieces.len(),
            out@ == join_space(views(pieces@.take(i as int))),
        decreases pieces.len() - i,
    {
        proof {
            assert(views(pieces@.take(i + 1)).drop_last() =~= views(pieces@.take(i as int)));
            assert(views(pieces@.take(i + 1)).last() == pieces@[i as int]@);
        }
        if i > 0 {
            crate::text::push_char(&mut out, ' ');
        } else {
            assert(views(pieces@.take(i as int)).len() == 0);
        }
        out.append(pieces[i].as_str());
        proof {
            if i == 0 {
                assert(views(pieces@.take(1)) =~= seq![pieces@[0]@]);
            }
            assert(out@ =~= join_space(views(pieces@.take(i + 1))));
        }
        i += 1;
    }
    proof {
        assert(pieces@.take(pieces@.len() as int) == pieces@);
    }
    out
}

/// The views of a list of query pairs.
pub open spec fn pair_views(pairs: Seq<(String, String)>) -> Seq<(Seq<char>, Seq<char>)> {
    pairs.map_values(|p: (String, String)| (p.0@, p.1@))
}

/// The address `base` with the query pairs `pairs` appended in order, as the `url` crate
/// serializes it; `None` when `base` is no URL.
pub uninterp spec fn url_with_pairs(base: Seq<char>, pairs: Seq<(Seq<char>, Seq<char>)>) -> Option<Seq<char>>;

/// `base` with the query pairs appended in order (`Url::parse`, then
/// `query_pairs_mut().append_pair` for each pair), or `None` when `base` is no URL.
#[verifier::external_body]
pub(crate) fn append_query_pairs(base: &str, pairs: &Vec<(String, String)>) -> (r: Option<String>)
    ensures
        opt_view(r) == url_with_pairs(base@, pair_views(pairs@)),
{
    match url::Url::parse(base) {
        Ok(mut u) => {
            for (k, v) in pairs.iter() {
                u.query_pairs_mut().append_pair(k, v);
            }
            Some(u.to_string())
        },
        Err(_) => None,
    }
}

/// The query pairs of the address `url`, percent-decoded, in order, as the `url` crate
/// reads them; `None` when `url` is no URL.
pub uninterp spec fn url_query_pairs(url: Seq<char>) -> Option<Seq<(Seq<char>, Seq<char>)>>;

/// The decoded query pairs of an address (`Url::parse`, then `query_pairs`), or `None`
/// when the text is no URL.
#[verifier::external_body]
pub(crate) fn query_pairs_of(url: &str) -> (r: Option<Vec<(String, String)>>)
    ensures
        match r {
            Some(pairs) => url_query_pairs(url@) == Some(pair_views(pairs@)),
            None => url_query_pairs(url@) is None,
        },
{
    match url::Url::parse(url) {
        Ok(u) => Some(u.query_pairs().map(|(k, v)| (k.into_owned(), v.into_owned())).collect()),
        Err(_) => None,
    }
}

/// The value of the first query pair named `key`, if there is one.
pub open spec fn first_value_for(pairs: Seq<(Seq<char>, Seq<char>)>, key: Seq<char>) -> Option<Seq<char>>
    decreases pairs.len(),
{
    if pairs.len() == 0 {
        None
    } else if pairs[0].0 == key {
        Some(pairs[0].1)
    } else {
        first_value_for(pairs.drop_first(), key)
    }
}

/// The value of the first pair named `key` (see `first_value_for`).
pub fn find_pair_value(pairs: &Vec<(String, String)>, key: &str) -> (r: Option<String>)
    ensures
        opt_view(r) == first_value_for(pair_views(pairs@), key@),
{
    let wanted = String::from_str(key);
    let mut i: usize = 0;
    proof {
        assert(pair_views(pairs@).skip(0) =~= pair_views(pairs@));
    }
    while i < pairs.len()
        invariant
            i <= pairs.len(),
            wanted@ == key@,
            first_value_for(pair_views(pairs@), key@) == first_value_for(pair_views(pairs@).skip(i as int), key@),
        decreases pairs.len() - i,
    {
        let ghost rest = pair_views(pairs@).skip(i as int);
        proof {
            assert(rest[0] == (pairs@[i as int].0@, pairs@[i as int].1@));
            assert(rest.drop_first() =~= pair_views(pairs@).skip(i + 1));
        }
        if pairs[i].0 == wanted {
            return Some(pairs[i].1.clone());
        }
        i += 1;
    }
    None
}

/// For each element of the document `html` that matches `outer`, in document order, the
/// HTML of its first descendant that matches `inner`, if it has one; none at all when a
/// selector does not parse.
pub uninterp spec fn first_matches_in_each(html: Seq<char>, outer: Seq<char>, inner: Seq<char>) -> Seq<Option<Seq<char>>>;

/// The attribute `attr` of each element of the document `html` that matches `selector`,
/// in document order; none at all when the selector does not parse.
pub uninterp spec fn document_attrs(html: Seq<char>, selector: Seq<char>, attr: Seq<char>) -> Seq<Option<Seq<char>>>;

/// Whether the `url` crate reads the text as an absolute URL.
pub uninterp spec fn url_parses(url: Seq<char>) -> bool;

/// The entry of a list of optional cells at `i`, or none.
pub open spec fn cell_at(cells: Seq<Option<Seq<char>>>, i: int) -> Option<Seq<char>> {
    if 0 <= i < cells.len() { cells[i] } else { None }
}

/// The views of a list of optional texts.
pub open spec fn opt_views(v: Seq<Option<String>>) -> Seq<Option<Seq<char>>> {
    v.map_values(|o: Option<String>| opt_view(o))
}

/// For each element that matches `outer`, the HTML of its first descendant that matches
/// `inner` (`Html::parse_document`, `Html::select`, `ElementRef::select`, `ElementRef::html`).
#[verifier::external_body]
pub(crate) fn first_in_each(html: &str, outer: &str, inner: &str) -> (r: Vec<Option<String>>)
    ensures
        opt_views(r@) == first_matches_in_each(html@, outer@, inner@),
{
    let mut out = Vec::new();
    if let (Ok(o), Ok(i)) = (scraper::Selector::parse(outer), scraper::Selector::parse(inner)) {
        for e in scraper::Html::parse_document(html).select(&o) {
            out.push(e.select(&i).next().map(|m| m.html()));
        }
    }
    out
}

/// The attribute of each element that matches the selector (`Html::parse_document`,
/// `Html::select`, `Element::attr`).
#[verifier::external_body]
pub(crate) fn attrs_in_document(html: &str, selector: &str, attr: &str) -> (r: Vec<Option<String>>)
    ensures
        opt_views(r@) == document_attrs(html@, selector@, attr@),
{
    let mut out = Vec::new();
    if let Ok(sel) = scraper::Selector::parse(selector) {
        for e in scraper::Html::parse_document(html).select(&sel) {
            out.push(e.value().attr(attr).map(|a| a.to_string()));
        }
    }
    out
}

/// Whether the text is an absolute URL (`Url::parse`).
#[verifier::external_body]
pub(crate) fn is_url(url: &str) -> (b: bool)
    ensures
        b == url_parses(url@),
{
    url::Url::parse(url).is_ok()
}

/// Pieces of text one after another.
pub open spec fn concat_all(pieces: Seq<Seq<char>>) -> Seq<char>
    decreases pieces.len(),
{
    if pieces.len() == 0 {
        Seq::empty()
    } else {
        concat_all(pieces.drop_last()) + pieces.last()
    }
}

/// Joins pieces of text with nothing between them.
pub fn concat_strings(pieces: &Vec<String>) -> (out: String)
    ensures
        out@ == concat_all(views(pieces@)),
{
    let mut out = String::new();
    let mut i: usize = 0;
    while i < pieces.len()
        invariant
            i <= pieces.len(),
            out@ == concat_all(views(pieces@.take(i as int))),
        decreases pieces.len() - i,
    {
        proof {
            assert(views(pieces@.take(i + 1)).drop_last() =~= views(pieces@.take(i as int)));
            assert(views(pieces@.take(i + 1)).last() == pieces@[i as int]@);
        }
        out.append(pieces[i].as_str());
        i += 1;
    }
    proof {
        assert(pieces@.take(pieces@.len() as int) == pieces@);
    }
    out
}

/// The text of an element given by its HTML: its text nodes one after another.
pub open spec fn text_concat(html: Seq<char>) -> Seq<char> {
    concat_all(fragment_text_nodes(html))
}

/// The text of an element given by its HTML (see `text_concat`).
pub fn text_of_element(html: &str) -> (out: String)
    ensures
        out@ == text_concat(html@),
{
    let nodes = fragment_texts(html);
    concat_strings(&nodes)
}

/// The inner HTML of the first element of the document `html` that matches `selector`,
/// if there is one.
pub uninterp spec fn first_inner_html(html: Seq<char>, selector: Seq<char>) -> Option<Seq<char>>;

/// The inner HTML of the first element that matches the selector (`Html::parse_document`,
/// `Html::select`, `ElementRef::inner_html`).
#[verifier::external_body]
pub(crate) fn first_inner_html_in_document(html: &str, selector: &str) -> (r: Option<String>)
    ensures
        opt_view(r) == first_inner_html(html@, selector@),
{
    match scraper::Selector::parse(selector) {
        Ok(sel) => scraper::Html::parse_document(html).select(&sel).next().map(|e| e.inner_html()),
        Err(_) => None,
    }
}

/// For the first element of the fragment `html`, the text nodes of each of its child
/// elements, in order; none when the fragment has no element.
pub uninterp spec fn first_element_child_texts(html: Seq<char>) -> Seq<Seq<Seq<char>>>;

/// The views of nested lists of texts.
pub open spec fn nested_views(v: Seq<Vec<String>>) -> Seq<Seq<Seq<char>>> {
    v.map_values(|w: Vec<String>| views(w@))
}

/// The text nodes of each child element of the fragment's first element
/// (`Html::parse_fragment`, `ElementRef::child_elements`, `ElementRef::text`).
#[verifier::external_body]
pub(crate) fn child_texts_of_first(html: &str) -> (r: Vec<Vec<String>>)
    ensures
        nested_views(r@) == first_element_child_texts(html@),
{
    let doc = scraper::Html::parse_fragment(html);
    let mut out = Vec::new();
    if let Some(first) = doc.root_element().child_elements().next() {
        for child in first.child_elements() {
            out.push(child.text().map(|t| t.to_string()).collect());
        }
    }
    out
}

/// What the `serde_json` crate reads from a JSON text at the key `key` of its top-level
/// object: the error's text when the text is no JSON; else the string there, if the
/// value is an object whose entry at the key is a string.
pub uninterp spec fn json_str_field(text: Seq<char>, key: Seq<char>) -> Result<Option<Seq<char>>, Seq<char>>;

/// Reads a JSON text (`serde_json::from_str` into a `Value`), then the string at `key`
/// of its top-level object (`Value::get`, `Value::as_str`).
#[verifier::external_body]
pub(crate) fn json_string_at(text: &str, key: &str) -> (r: Result<Option<String>, String>)
    ensures
        match r {
            Ok(v) => json_str_field(text@, key@) == Ok::<Option<Seq<char>>, Seq<char>>(opt_view(v)),
            Err(m) => json_str_field(text@, key@) == Err::<Option<Seq<char>>, Seq<char>>(m@),
        },
{
    match serde_json::from_str::<serde_json::Value>(text) {
        Ok(v) => Ok(v.get(key).and_then(|x| x.as_str()).map(|s| s.to_string())),
        Err(e) => Err(e.to_string()),
    }
}

/// The path segments of the address `url`, percent-encoded as the `url` crate keeps them;
/// `None` when `url` is no URL or cannot be a base.
pub uninterp spec fn url_path_segments(url: Seq<char>) -> Option<Seq<Seq<char>>>;

/// The path segments of an address (`Url::parse`, then `path_segments`), or `None`.
#[verifier::external_body]
pub(crate) fn path_segments_of(url: &str) -> (r: Option<Vec<String>>)
    ensures
        match r {
            Some(s) => url_path_segments(url@) == Some(views(s@)),
            None => url_path_segments(url@) is None,
        },
{
    match url::Url::parse(url) {
        Ok(u) => u.path_segments().map(|s| s.map(|x| x.to_string()).collect()),
        Err(_) => None,
    }
}

/// For each element of the document `html` that matches `outer`, in document order, the
/// HTML of its descendants that match `inner`, in document order; none at all when a
/// selector does not parse.
pub uninterp spec fn all_matches_in_each(html: Seq<char>, outer: Seq<char>, inner: Seq<char>) -> Seq<Seq<Seq<char>>>;

/// For each element that matches `outer`, the HTML of its descendants that match `inner`
/// (`Html::parse_document`, `Html::select`, `ElementRef::select`, `ElementRef::html`).
#[verifier::external_body]
pub(crate) fn matches_in_each(html: &str, outer: &str, inner: &str) -> (r: Vec<Vec<String>>)
    ensures
        nested_views(r@) == all_matches_in_each(html@, outer@, inner@),
{
    let mut out = Vec::new();
    if let (Ok(o), Ok(i)) = (scraper::Selector::parse(outer), scraper::Selector::parse(inner)) {
        for e in scraper::Html::parse_document(html).select(&o) {
            out.push(e.select(&i).map(|m| m.html()).collect());
        }
    }
    out
}


/// What the `url` crate makes of a text: the URL as it serializes it, or the text of its
/// refusal.
pub uninterp spec fn url_parse_outcome(url: Seq<char>) -> Result<Seq<char>, Seq<char>>;

/// Reads an absolute URL (`Url::parse`): its serialization (`to_string`), or the text of
/// the refusal.
#[verifier::external_body]
pub(crate) fn parse_url(url: &str) -> (r: Result<String, String>)
    ensures
        match r {
            Ok(u) => url_parse_outcome(url@) == Ok::<Seq<char>, Seq<char>>(u@),
            Err(m) => url_parse_outcome(url@) == Err::<Seq<char>, Seq<char>>(m@),
        },
{
    match url::Url::parse(url) {
        Ok(u) => Ok(u.to_string()),
        Err(e) => Err(e.to_string()),
    }
}

/// The scheme of an absolute URL and its host (empty when it has none), or the text of
/// the `url` crate's refusal of the text.
pub uninterp spec fn url_scheme_and_host(url: Seq<char>) -> Result<(Seq<char>, Seq<char>), Seq<char>>;

/// The scheme and host of an absolute URL (`Url::parse`, `scheme`, `host_str` or the
/// empty text), or the text of the refusal.
#[verifier::external_body]
pub(crate) fn scheme_and_host(url: &str) -> (r: Result<(String, String), String>)
    ensures
        match r {
            Ok((a, b)) => url_scheme_and_host(url@) == Ok::<(Seq<char>, Seq<char>), Seq<char>>((a@, b@)),
            Err(m) => url_scheme_and_host(url@) == Err::<(Seq<char>, Seq<char>), Seq<char>>(m@),
        },
{
    match url::Url::parse(url) {
        Ok(u) => Ok((u.scheme().to_string(), u.host_str().unwrap_or_default().to_string())),
        Err(e) => Err(e.to_string()),
    }
}

/// The trimmed text of the first element of the document `html` that matches `selector`,
/// if any.
pub open spec fn first_text(html: Seq<char>, selector: Seq<char>) -> Option<Seq<char>> {
    let m = document_matches(html, selector);
    if m.len() > 0 { Some(crate::text::trim(text_concat(m[0]))) } else { None }
}

/// The trimmed text of the first element of a document that matches `selector` (see
/// `first_text`).
pub fn first_text_of(html: &str, selector: &str) -> (r: Option<String>)
    ensures
        opt_view(r) == first_text(html@, selector@),
{
    let m = select_in_document(html, selector);
    if m.len() == 0 {
        return None;
    }
    proof {
        assert(views(m@)[0] == m@[0]@);
    }
    Some(crate::text::trim_str(text_of_element(m[0].as_str()).as_str()))
}

/// The value of the first query pair named `key` whose value is not empty, if there is
/// one.
pub open spec fn first_filled_value_for(pairs: Seq<(Seq<char>, Seq<char>)>, key: Seq<char>) -> Option<Seq<char>>
    decreases pairs.len(),
{
    if pairs.len() == 0 {
        None
    } else if pairs[0].0 == key && pairs[0].1.len() > 0 {
        Some(pairs[0].1)
    } else {
        first_filled_value_for(pairs.drop_first(), key)
    }
}

/// The value of the first pair named `key` whose value is not empty (see
/// `first_filled_value_for`).
pub fn find_filled_pair_value(pairs: &Vec<(String, String)>, key: &str) -> (r: Option<String>)
    ensures
        opt_view(r) == first_filled_value_for(pair_views(pairs@), key@),
{
    let wanted = String::from_str(key);
    let mut i: usize = 0;
    proof {
        assert(pair_views(pairs@).skip(0) =~= pair_views(pairs@));
    }
    while i < pairs.len()
        invariant
            i <= pairs.len(),
            wanted@ == key@,
            first_filled_value_for(pair_views(pairs@), key@) == first_filled_value_for(pair_views(pairs@).skip(i as int), key@),
        decreases pairs.len() - i,
    {
        let ghost rest = pair_views(pairs@).skip(i as int);
        proof {
            assert(rest[0] == (pairs@[i as int].0@, pairs@[i as int].1@));
            assert(rest.drop_first() =~= pair_views(pairs@).skip(i + 1));
        }
        if pairs[i].0 == wanted && pairs[i].1.as_str().unicode_len() > 0 {
            return Some(pairs[i].1.clone());
        }
        i += 1;
    }
    None
}

/// For each child element of the first element of the document `html` that matches
/// `outer`, in order, the HTML of its first descendant that matches `inner`, if it has
/// one; `None` when no element matches `outer` or a selector does not parse.
pub uninterp spec fn child_first_matches(html: Seq<char>, outer: Seq<char>, inner: Seq<char>) -> Option<Seq<Option<Seq<char>>>>;

/// For each child element of the first element that matches `outer`, the HTML of its
/// first descendant that matches `inner` (`Html::parse_document`, `Html::select`,
/// `ElementRef::child_elements`, `ElementRef::select`, `ElementRef::html`).
#[verifier::external_body]
pub(crate) fn first_in_children(html: &str, outer: &str, inner: &str) -> (r: Option<Vec<Option<String>>>)
    ensures
        match r {
            Some(v) => child_first_matches(html@, outer@, inner@) == Some(opt_views(v@)),
            None => child_first_matches(html@, outer@, inner@) is None,
        },
{
    let (o, i) = match (scraper::Selector::parse(outer), scraper::Selector::parse(inner)) {
        (Ok(o), Ok(i)) => (o, i),
        _ => return None,
    };
    let doc = scraper::Html::parse_document(html);
    let first = doc.select(&o).next()?;
    Some(first.child_elements().map(|c| c.select(&i).next().map(|m| m.html())).collect())
}

/// The HTML of the child elements of the first element of the document `html` that
/// matches `selector`, in order; `None` when no element matches or the selector does not
/// parse.
pub uninterp spec fn first_match_children(html: Seq<char>, selector: Seq<char>) -> Option<Seq<Seq<char>>>;

/// The child elements of the first element that matches the selector
/// (`Html::parse_document`, `Html::select`, `ElementRef::child_elements`,
/// `ElementRef::html`).
#[verifier::external_body]
pub(crate) fn children_of_first(html: &str, selector: &str) -> (r: Option<Vec<String>>)
    ensures
        match r {
            Some(v) => first_match_children(html@, selector@) == Some(views(v@)),
            None => first_match_children(html@, selector@) is None,
        },
{
    let sel = scraper::Selector::parse(selector).ok()?;
    let doc = scraper::Html::parse_document(html);
    let first = doc.select(&sel).next()?;
    Some(first.child_elements().map(|c| c.html()).collect())
}

/// The HTML of the first child element of the first element of the fragment `html`, if
/// there is one.
pub uninterp spec fn fragment_first_child(html: Seq<char>) -> Option<Seq<char>>;

/// The first child element of the fragment's first element (`Html::parse_fragment`,
/// `ElementRef::child_elements`, `Element::first_element_child`, `ElementRef::html`).
#[verifier::external_body]
pub(crate) fn first_child_in_fragment(html: &str) -> (r: Option<String>)
    ensures
        opt_view(r) == fragment_first_child(html@),
{
    let doc = scraper::Html::parse_fragment(html);
    let first = doc.root_element().child_elements().next()?;
    scraper::Element::first_element_child(&first).map(|c| c.html())
}

/// For each element of the document `html` that matches `selector`, in document order,
/// the HTML of its child elements, in order; none at all when the selector does not parse.
pub uninterp spec fn children_of_matches(html: Seq<char>, selector: Seq<char>) -> Seq<Seq<Seq<char>>>;

/// The child elements of each element that matches the selector (`Html::parse_document`,
/// `Html::select`, `ElementRef::child_elements`, `ElementRef::html`).
#[verifier::external_body]
pub(crate) fn children_in_each(html: &str, selector: &str) -> (r: Vec<Vec<String>>)
    ensures
        nested_views(r@) == children_of_matches(html@, selector@),
{
    let mut out = Vec::new();
    if let Ok(sel) = scraper::Selector::parse(selector) {
        for e in scraper::Html::parse_document(html).select(&sel) {
            out.push(e.child_elements().map(|c| c.html()).collect());
        }
    }
    out
}

/// The HTML of the first element of the fragment `html`, if it has one.
pub uninterp spec fn fragment_first_element(html: Seq<char>) -> Option<Seq<char>>;

/// The fragment's first element (`Html::parse_fragment`, `ElementRef::child_elements`,
/// `ElementRef::html`).
#[verifier::external_body]
pub(crate) fn first_element_in_fragment(html: &str) -> (r: Option<String>)
    ensures
        opt_view(r) == fragment_first_element(html@),
{
    let doc = scraper::Html::parse_fragment(html);
    let first = doc.root_element().child_elements().next().map(|c| c.html());
    first
}

/// The attribute `attr` of the first element of the fragment `html`, if it has one and
/// the attribute.
pub uninterp spec fn fragment_element_attr(html: Seq<char>, attr: Seq<char>) -> Option<Seq<char>>;

/// The attribute of the fragment's first element (`Html::parse_fragment`,
/// `ElementRef::child_elements`, `Element::attr`).
#[verifier::external_body]
pub(crate) fn first_element_attr(html: &str, attr: &str) -> (r: Option<String>)
    ensures
        opt_view(r) == fragment_element_attr(html@, attr@),
{
    let doc = scraper::Html::parse_fragment(html);
    let first = doc.root_element().child_elements().next().and_then(|c| c.value().attr(attr).map(|a| a.to_string()));
    first
}

/// The inner HTML of each element of the document `html` that matches `selector`, in
/// document order; none at all when the selector does not parse.
pub uninterp spec fn document_inner_htmls(html: Seq<char>, selector: Seq<char>) -> Seq<Seq<char>>;

/// The inner HTML of each element that matches the selector (`Html::parse_document`,
/// `Html::select`, `ElementRef::inner_html`).
#[verifier::external_body]
pub(crate) fn inner_htmls_in_document(html: &str, selector: &str) -> (r: Vec<String>)
    ensures
        views(r@) == document_inner_htmls(html@, selector@),
{
    let mut out = Vec::new();
    if let Ok(sel) = scraper::Selector::parse(selector) {
        for e in scraper::Html::parse_document(html).select(&sel) {
            out.push(e.inner_html());
        }
    }
    out
}

/// For each element of the document `html` that matches `selector`, in document order,
/// its child elements in order, each as its attribute `attr` (if it has one) and the HTML
/// of its own child elements, in order; none at all when the selector does not parse.
pub uninterp spec fn child_rows_of_matches(html: Seq<char>, selector: Seq<char>, attr: Seq<char>) -> Seq<Seq<(Option<Seq<char>>, Seq<Seq<char>>)>>;

/// The views of the rows of several tables.
pub open spec fn row_views(v: Seq<Vec<(Option<String>, Vec<String>)>>) -> Seq<Seq<(Option<Seq<char>>, Seq<Seq<char>>)>> {
    v.map_values(|w: Vec<(Option<String>, Vec<String>)>| w@.map_values(|r: (Option<String>, Vec<String>)| (opt_view(r.0), views(r.1@))))
}

/// The child elements of each element that matches the selector, with their attribute
/// `attr` and their own child elements (`Html::parse_document`, `Html::select`,
/// `ElementRef::child_elements`, `Element::attr`, `ElementRef::html`).
#[verifier::external_body]
pub(crate) fn child_rows_in_each(html: &str, selector: &str, attr: &str) -> (r: Vec<Vec<(Option<String>, Vec<String>)>>)
    ensures
        row_views(r@) == child_rows_of_matches(html@, selector@, attr@),
{
    let mut out = Vec::new();
    if let Ok(sel) = scraper::Selector::parse(selector) {
        for e in scraper::Html::parse_document(html).select(&sel) {
            out.push(e.child_elements().map(|row| (row.value().attr(attr).map(|a| a.to_string()), row.child_elements().map(|c| c.html()).collect())).collect());
        }
    }
    out
}

/// For the first element of the document `html` that matches `outer`: the HTML of its
/// descendants that match `heads`, in document order, and for each of its descendants
/// that match `rows`, in document order, the HTML of that one's child elements; `None`
/// when no element matches `outer` or a selector does not parse.
pub uninterp spec fn first_match_heads_and_rows(html: Seq<char>, outer: Seq<char>, heads: Seq<char>, rows: Seq<char>) -> Option<(Seq<Seq<char>>, Seq<Seq<Seq<char>>>)>;

/// The heads and the rows' cells within the first element that matches `outer`
/// (`Html::parse_document`, `Html::select`, `ElementRef::select`,
/// `ElementRef::child_elements`, `ElementRef::html`).
#[verifier::external_body]
pub(crate) fn heads_and_rows_of_first(html: &str, outer: &str, heads: &str, rows: &str) -> (r: Option<(Vec<String>, Vec<Vec<String>>)>)
    ensures
        match r {
            Some(p) => first_match_heads_and_rows(html@, outer@, heads@, rows@) == Some((views(p.0@), nested_views(p.1@))),
            None => first_match_heads_and_rows(html@, outer@, heads@, rows@) is None,
        },
{
    let (o, h, w) = (scraper::Selector::parse(outer).ok()?, scraper::Selector::parse(heads).ok()?, scraper::Selector::parse(rows).ok()?);
    let doc = scraper::Html::parse_document(html);
    let first = doc.select(&o).next()?;
    let hs = first.select(&h).map(|e| e.html()).collect();
    let rs = first.select(&w).map(|e| e.child_elements().map(|c| c.html()).collect()).collect();
    Some((hs, rs))
}

} // verus!
