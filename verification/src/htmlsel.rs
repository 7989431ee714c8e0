//! Trusted boundary to the visdom HTML engine: the structural queries the
//! mirror-instance extractor runs over fetched markup. Parsing and
//! selection are pure functions of the markup and the selector.
use vstd::prelude::*;

use visdom::html::ParseOptions;
use visdom::Vis;

verus! {

/// Declares visdom's element collection so the loader below may return
/// it; the value stays opaque to the verifier.
#[verifier::external_type_specification]
#[verifier::external_body]
pub struct ExElements<'a>(visdom::types::Elements<'a>);

/// Relies on visdom's `Vis::load_options_catch`: parses markup with the
/// fix-ups mirror pages need (unclosed tags, unescaped brackets); a pure
/// function of the markup.
#[verifier::external_body]
fn load<'a>(html: &'a str) -> visdom::types::Elements<'a> {
    Vis::load_options_catch(
        html,
        ParseOptions {
            allow_self_closing: true,
            auto_fix_unclosed_tag: true,
            auto_fix_unescaped_lt: true,
            auto_fix_unexpected_endtag: true,
            ..Default::default()
        },
        Box::new(|_| {}),
    )
}

/// The concatenated text of the elements the selector finds in the
/// parsed markup.
pub uninterp spec fn html_text(html: Seq<char>, sel: Seq<char>) -> Seq<char>;

/// Relies on visdom's `Vis::load_options_catch`, `Elements::find` and
/// `Elements::text`: the selection's text is a function of markup and
/// selector alone. An unparseable page (an empty collection) yields the
/// empty text outright, since `find` on an empty collection faults on a
/// malformed selector.
#[verifier::external_body]
pub fn select_text(html: &str, sel: &str) -> (r: String)
    ensures
        r@ == html_text(html@, sel@),
{
    let root = load(html);
    if root.is_empty() {
        return String::new();
    }
    root.find(sel).text()
}

/// The text of the first element the selector finds in the parsed
/// markup.
pub uninterp spec fn html_first_text(html: Seq<char>, sel: Seq<char>) -> Seq<char>;

/// Relies on visdom's `Elements::first` and `Elements::text`: the first
/// selected element's text is a function of markup and selector alone,
/// with the same empty-collection guard as the query above.
#[verifier::external_body]
pub fn select_first_text(html: &str, sel: &str) -> (r: String)
    ensures
        r@ == html_first_text(html@, sel@),
{
    let root = load(html);
    if root.is_empty() {
        return String::new();
    }
    root.find(sel).first().text()
}

/// The named attribute of the first element the selector finds, if that
/// element carries it.
pub uninterp spec fn html_attr(html: Seq<char>, sel: Seq<char>, attr: Seq<char>) -> Option<
    Seq<char>,
>;

/// Relies on visdom's `Elements::first` and `Elements::attr`: the first
/// selected element's attribute is a function of markup, selector and
/// attribute name alone, with the same empty-collection guard.
#[verifier::external_body]
pub fn select_first_attr(html: &str, sel: &str, attr: &str) -> (r: Option<String>)
    ensures
        match r {
            Some(v) => html_attr(html@, sel@, attr@) matches Some(w) && v@ == w,
            None => html_attr(html@, sel@, attr@) is None,
        },
{
    let root = load(html);
    if root.is_empty() {
        return None;
    }
    root.find(sel).first().attr(attr).map(|v| v.to_string())
}

/// How many elements the selector finds in the parsed markup.
pub uninterp spec fn html_count(html: Seq<char>, sel: Seq<char>) -> int;

/// Relies on visdom's `Elements::length`: the size of a selection is a
/// function of markup and selector alone, with the same empty-collection
/// guard.
#[verifier::external_body]
pub fn select_count(html: &str, sel: &str) -> (r: usize)
    ensures
        r == html_count(html@, sel@),
{
    let root = load(html);
    if root.is_empty() {
        return 0;
    }
    root.find(sel).length()
}

/// The named attribute of the first `inner`-selected element under the
/// `index`-th `sel`-selected element.
pub uninterp spec fn html_nth_attr(
    html: Seq<char>,
    sel: Seq<char>,
    index: int,
    inner: Seq<char>,
    attr: Seq<char>,
) -> Option<Seq<char>>;

/// Relies on visdom's `Elements::eq` beside the calls above: the lookup
/// is a function of its five inputs alone, with the empty-collection
/// guard before each of the two selector queries.
#[verifier::external_body]
pub fn select_nth_inner_attr(html: &str, sel: &str, index: usize, inner: &str, attr: &str) -> (r:
    Option<String>)
    ensures
        match r {
            Some(v) => html_nth_attr(html@, sel@, index as int, inner@, attr@) matches Some(w)
                && v@ == w,
            None => html_nth_attr(html@, sel@, index as int, inner@, attr@) is None,
        },
{
    let root = load(html);
    if root.is_empty() {
        return None;
    }
    let picked = root.find(sel).eq(index);
    if picked.is_empty() {
        return None;
    }
    picked.find(inner).first().attr(attr).map(|v| v.to_string())
}

} // verus!
