//! The calls into `scraper` (HTML parsing and CSS selectors) and `regex`
//! that the pages make. Each is a trusted item: its result is named by an
//! uninterpreted spec function of its arguments, since HTML5 parsing, CSS
//! selector matching and regex matching take pages to state.

use vstd::prelude::*;

verus! {

/// The text content of each element of the document `html` that the CSS
/// selector `selector` matches, in document order; `None` where `selector`
/// is not a valid selector.
pub uninterp spec fn spec_select_texts(html: Seq<char>, selector: Seq<char>) -> Option<
    Seq<Seq<char>>,
>;

/// For each element of the document `html` that `rows` matches, in document
/// order, the text content of each of its descendants that `cells` matches;
/// `None` where either selector is not valid.
pub uninterp spec fn spec_select_cell_texts(
    html: Seq<char>,
    rows: Seq<char>,
    cells: Seq<char>,
) -> Option<Seq<Seq<Seq<char>>>>;

/// The document `html` as parsed and serialized back by `scraper`.
pub uninterp spec fn spec_document_html(html: Seq<char>) -> Seq<char>;

/// The text of capture group `group` in the leftmost-first match of the
/// regular expression `pattern` in `haystack`: `None` where `pattern` does
/// not compile, `Some(None)` where there is no match or the group took no
/// part in it.
pub uninterp spec fn spec_regex_capture(pattern: Seq<char>, haystack: Seq<char>, group: usize) -> Option<
    Option<Seq<char>>,
>;

/// Parses `html` with `scraper::Html::parse_document`, parses `selector`
/// with `scraper::Selector::parse`, and collects the text of each element
/// that `Html::select` yields. Claimed: the result is
/// `spec_select_texts(html, selector)`, a function of the two texts alone.
#[verifier::external_body]
pub(crate) fn select_texts(html: &str, selector: &str) -> (res: Option<Vec<String>>)
    ensures
        res.deep_view() == spec_select_texts(html@, selector@),
{
    let selector = scraper::Selector::parse(selector).ok()?;
    let document = scraper::Html::parse_document(html);
    let mut texts = Vec::new();
    for element in document.select(&selector) {
        texts.push(element.text().collect::<String>());
    }
    Some(texts)
}

/// Parses `html` with `scraper::Html::parse_document` and both selectors
/// with `scraper::Selector::parse`; for each element that `rows` selects,
/// collects the text of each element that `ElementRef::select` with `cells`
/// yields under it. Claimed: the result is `spec_select_cell_texts` of the
/// three texts.
#[verifier::external_body]
pub(crate) fn select_cell_texts(html: &str, rows: &str, cells: &str) -> (res: Option<
    Vec<Vec<String>>,
>)
    ensures
        res.deep_view() == spec_select_cell_texts(html@, rows@, cells@),
{
    let rows = scraper::Selector::parse(rows).ok()?;
    let cells = scraper::Selector::parse(cells).ok()?;
    let document = scraper::Html::parse_document(html);
    let mut table = Vec::new();
    for row in document.select(&rows) {
        let mut texts = Vec::new();
        for cell in row.select(&cells) {
            texts.push(cell.text().collect::<String>());
        }
        table.push(texts);
    }
    Some(table)
}

/// Parses `html` with `scraper::Html::parse_document` and serializes it back
/// with `Html::html`. Claimed: the result is `spec_document_html(html)`.
#[verifier::external_body]
pub(crate) fn document_html(html: &str) -> (res: String)
    ensures
        res@ == spec_document_html(html@),
{
    scraper::Html::parse_document(html).html()
}

/// Compiles `pattern` with `regex::Regex::new` and returns the text of
/// capture group `group` of `Regex::captures` on `haystack`. Claimed: the
/// result is `spec_regex_capture(pattern, haystack, group)`.
#[verifier::external_body]
pub(crate) fn regex_capture(pattern: &str, haystack: &str, group: usize) -> (res: Option<
    Option<String>,
>)
    ensures
        res.deep_view() == spec_regex_capture(pattern@, haystack@, group),
{
    let re = regex::Regex::new(pattern).ok()?;
    let captures = match re.captures(haystack) {
        Some(c) => c,
        None => return Some(None),
    };
    match captures.get(group) {
        Some(m) => Some(Some(m.as_str().to_string())),
        None => Some(None),
    }
}

} // verus!
