//! HTML parsing of the `scraper` crate, as the library uses it: CSS
//! selection and the `<meta>` / `<script>` elements of a page.
//!
//! The parser's tree construction and selector matching are the crate's;
//! their results are named here rather than restated.
use vstd::prelude::*;

verus! {

/// An element as (text content, outer HTML, value of the requested
/// attribute).
pub type ElementView = (Seq<char>, Seq<char>, Option<Seq<char>>);

/// Elements of `html` matched by `selector`, in document order, each with
/// its text, outer HTML and the value of attribute `attr`; the text of the
/// selector's parse error when it does not parse.
pub uninterp spec fn css_select_result(html: Seq<char>, selector: Seq<char>, attr: Seq<char>) -> Result<Seq<ElementView>, Seq<char>>;

pub open spec fn opt_string_view(o: Option<String>) -> Option<Seq<char>> {
    match o {
        Some(s) => Some(s@),
        None => None,
    }
}

pub open spec fn element_views(v: Seq<(String, String, Option<String>)>) -> Seq<ElementView> {
    Seq::new(v.len(), |i: int| (v[i].0@, v[i].1@, opt_string_view(v[i].2)))
}

/// `scraper::Selector::parse(selector)`, then `Html::parse_document(html)
/// .select(..)`, each element given as `text().collect()`, `html()` and
/// `value().attr(attr)`. The error is the selector error's text.
#[verifier::external_body]
pub(crate) fn css_select(html: &str, selector: &str, attr: &str) -> (r: Result<Vec<(String, String, Option<String>)>, String>)
    ensures
        match r {
            Ok(v) => css_select_result(html@, selector@, attr@) == Ok::<Seq<ElementView>, Seq<char>>(element_views(v@)),
            Err(e) => css_select_result(html@, selector@, attr@) == Err::<Seq<ElementView>, Seq<char>>(e@),
        },
{
    let sel = scraper::Selector::parse(selector).map_err(|e| e.to_string())?;
    let doc = scraper::Html::parse_document(html);
    Ok(doc.select(&sel).map(|el| (el.text().collect::<String>(), el.html(), el.value().attr(attr).map(|s| s.to_string()))).collect())
}

/// Attributes of a `<meta>` element: charset, name, property, http-equiv,
/// content.
pub type MetaAttrsView = (Option<Seq<char>>, Option<Seq<char>>, Option<Seq<char>>, Option<Seq<char>>, Option<Seq<char>>);

/// The `<meta>` elements of `html` in document order, as their attributes.
pub uninterp spec fn meta_elements_result(html: Seq<char>) -> Seq<MetaAttrsView>;

pub open spec fn meta_attr_views(
    v: Seq<(Option<String>, Option<String>, Option<String>, Option<String>, Option<String>)>,
) -> Seq<MetaAttrsView> {
    Seq::new(
        v.len(),
        |i: int|
            (
                opt_string_view(v[i].0),
                opt_string_view(v[i].1),
                opt_string_view(v[i].2),
                opt_string_view(v[i].3),
                opt_string_view(v[i].4),
            ),
    )
}

/// `Html::parse_document(html).select("meta")`, each element given as its
/// `charset`, `name`, `property`, `http-equiv` and `content` attributes.
#[verifier::external_body]
pub(crate) fn meta_elements(html: &str) -> (r: Vec<(Option<String>, Option<String>, Option<String>, Option<String>, Option<String>)>)
    ensures
        meta_attr_views(r@) == meta_elements_result(html@),
{
    let sel = scraper::Selector::parse("meta").expect("the selector `meta` parses");
    let doc = scraper::Html::parse_document(html);
    let a = |el: &scraper::ElementRef, n: &str| el.value().attr(n).map(|s| s.to_string());
    doc.select(&sel).map(|el| (a(&el, "charset"), a(&el, "name"), a(&el, "property"), a(&el, "http-equiv"), a(&el, "content"))).collect()
}

/// The `<script>` elements of `html` in document order, as their `src`
/// attribute and text.
pub uninterp spec fn script_elements_result(html: Seq<char>) -> Seq<(Option<Seq<char>>, Seq<char>)>;

pub open spec fn script_views(v: Seq<(Option<String>, String)>) -> Seq<(Option<Seq<char>>, Seq<char>)> {
    Seq::new(v.len(), |i: int| (opt_string_view(v[i].0), v[i].1@))
}

/// `Html::parse_document(html).select("script")`, each element given as its
/// `src` attribute and `text().collect()`.
#[verifier::external_body]
pub(crate) fn script_elements(html: &str) -> (r: Vec<(Option<String>, String)>)
    ensures
        script_views(r@) == script_elements_result(html@),
{
    let sel = scraper::Selector::parse("script").expect("the selector `script` parses");
    let doc = scraper::Html::parse_document(html);
    doc.select(&sel).map(|el| (el.value().attr("src").map(|s| s.to_string()), el.text().collect::<String>())).collect()
}

} // verus!
