//! The boundary to the `scraper` crate, which parses HTML and answers CSS
//! selector queries.
//!
//! Nothing in this file is proved about `scraper`. Each function marked
//! `external_body` makes one call into it, and its contract gives the result a
//! name: a specification function without a body, of which only this is
//! claimed, that the same arguments give the same result. In contracts an
//! element stands for a place in a parsed document, so that two parses of one
//! text hold the same elements. What the rest of the library states of a
//! document is stated over these names.
//!
//! `scraper` keeps text in buffers whose lengths are 32-bit numbers. A buffer
//! that grows takes the next power of two as its capacity, and the program
//! stops with a panic where that capacity is out of reach, which is the case
//! beyond 2^31 bytes. A page is therefore parsed only if it is within
//! [`PAGE_LIMIT`], which keeps every buffer far below that.

use vstd::prelude::*;
use vstd::utf8::encode_utf8;

verus! {

/// The most bytes that a page may hold to be parsed: 2^28, a quarter of a
/// gibibyte.
///
/// The parser copies the page into one buffer and gathers text, attribute
/// values and comments in buffers that grow. A growing buffer rounds the
/// length it needs up to a power of two and panics where the result does not
/// fit 32 bits, so it cannot pass 2^31 bytes; where a vector holds at most
/// 2^31 - 1 bytes, as on a 32-bit machine, it cannot pass 2^30. What the
/// parser stores can be longer than what it read: for a NUL character of one
/// byte it writes the three bytes of U+FFFD. No other rewriting makes text
/// longer by more than that, so a buffer holds at most three times the bytes
/// of the page. Three times this limit is below 2^30.
pub const PAGE_LIMIT: usize = 0x1000_0000;

/// The number of bytes that `text` takes as a string.
pub open spec fn byte_length(text: Seq<char>) -> nat {
    encode_utf8(text).len()
}

/// `text` is short enough to be parsed.
pub open spec fn page_fits(text: Seq<char>) -> bool {
    byte_length(text) <= PAGE_LIMIT
}

/// Whether `text` is short enough to be parsed.
pub fn fits_page_limit(text: &str) -> (fits: bool)
    ensures
        fits == page_fits(text@),
{
    text.as_bytes().len() <= PAGE_LIMIT
}

/// A parsed HTML document: `scraper::Html`.
#[verifier::external_type_specification]
#[verifier::external_body]
pub struct ExHtml(scraper::Html);

/// A parsed group of CSS selectors: `scraper::Selector`.
#[verifier::external_type_specification]
#[verifier::external_body]
pub struct ExSelector(scraper::Selector);

/// A reference to one element of a parsed document: `scraper::ElementRef`.
#[verifier::external_type_specification]
#[verifier::external_body]
pub struct ExElementRef<'a>(scraper::ElementRef<'a>);

/// The document that `scraper::Html::parse_document` builds from `text`.
pub uninterp spec fn parsed_document(text: Seq<char>) -> scraper::Html;

/// What `scraper::Selector::parse` makes of `css`: the selector, or `None`
/// where it rejects the text.
pub uninterp spec fn parsed_selector(css: Seq<char>) -> Option<scraper::Selector>;

/// The elements that `scraper::Html::select` yields for `selector`, in the
/// order in which it yields them.
pub uninterp spec fn document_matches(
    document: &scraper::Html,
    selector: scraper::Selector,
) -> Seq<scraper::ElementRef<'_>>;

/// The elements that `scraper::ElementRef::select` yields for `selector`: the
/// matching descendants of `element`, in the order in which it yields them.
pub uninterp spec fn element_matches(
    element: scraper::ElementRef<'_>,
    selector: scraper::Selector,
) -> Seq<scraper::ElementRef<'_>>;

/// What `scraper::ElementRef::attr` returns for the attribute `name`: its
/// value, or `None` where the element has no such attribute.
pub uninterp spec fn element_attribute(
    element: scraper::ElementRef<'_>,
    name: Seq<char>,
) -> Option<Seq<char>>;

/// The text that `scraper::ElementRef::inner_html` returns: the markup of
/// what stands inside the element, as `scraper` writes it out again.
pub uninterp spec fn element_inner_html(element: scraper::ElementRef<'_>) -> Seq<char>;

/// Calls `scraper::Html::parse_document`, which builds a document from any
/// markup as well as it can, but panics on a text of more than `u32::MAX`
/// bytes and where a growing buffer of its own would pass 2^31 bytes. The
/// precondition keeps such texts out, by the reckoning at [`PAGE_LIMIT`];
/// the contract only names the result.
#[verifier::external_body]
pub(crate) fn parse_document(text: &str) -> (document: scraper::Html)
    requires
        page_fits(text@),
    ensures
        document == parsed_document(text@),
{
    scraper::Html::parse_document(text)
}

/// Calls `scraper::Selector::parse` and drops what the error says. The
/// contract only names the result; it does not say which texts are accepted.
#[verifier::external_body]
pub(crate) fn parse_selector(css: &str) -> (selector: Option<scraper::Selector>)
    ensures
        selector == parsed_selector(css@),
{
    scraper::Selector::parse(css).ok()
}

/// Calls `scraper::Html::select` and gathers what the iterator yields. The
/// contract only names the elements and their order.
#[verifier::external_body]
pub(crate) fn select_in_document<'a>(
    document: &'a scraper::Html,
    selector: &scraper::Selector,
) -> (found: Vec<scraper::ElementRef<'a>>)
    ensures
        found@ == document_matches(document, *selector),
{
    document.select(selector).collect()
}

/// Calls `scraper::ElementRef::select` and gathers what the iterator yields.
/// The contract only names the elements and their order.
#[verifier::external_body]
pub(crate) fn select_in_element<'a>(
    element: &scraper::ElementRef<'a>,
    selector: &scraper::Selector,
) -> (found: Vec<scraper::ElementRef<'a>>)
    ensures
        found@ == element_matches(*element, *selector),
{
    element.select(selector).collect()
}

/// Calls `scraper::ElementRef::attr` and copies the value. The contract only
/// names the result.
#[verifier::external_body]
pub(crate) fn attribute(element: &scraper::ElementRef<'_>, name: &str) -> (value: Option<String>)
    ensures
        value.deep_view() == element_attribute(*element, name@),
{
    element.attr(name).map(String::from)
}

/// Calls `scraper::ElementRef::inner_html`. The contract only names the
/// result.
#[verifier::external_body]
pub(crate) fn inner_html(element: &scraper::ElementRef<'_>) -> (markup: String)
    ensures
        markup@ == element_inner_html(*element),
{
    element.inner_html()
}

/// The value of the attribute `name` on each of `elements`, in their order.
pub open spec fn attributes_of(
    elements: Seq<scraper::ElementRef<'_>>,
    name: Seq<char>,
) -> Seq<Option<Seq<char>>> {
    Seq::new(elements.len(), |i: int| element_attribute(elements[i], name))
}

/// The inner markup of each of `elements`, in their order.
pub open spec fn inner_html_of(elements: Seq<scraper::ElementRef<'_>>) -> Seq<Seq<char>> {
    Seq::new(elements.len(), |i: int| element_inner_html(elements[i]))
}

/// Reads the attribute `name` from each of `elements`.
pub(crate) fn read_attributes(elements: &Vec<scraper::ElementRef<'_>>, name: &str) -> (values: Vec<
    Option<String>,
>)
    ensures
        values.deep_view() == attributes_of(elements@, name@),
{
    let mut values: Vec<Option<String>> = Vec::new();
    let mut i: usize = 0;
    while i < elements.len()
        invariant
            i <= elements.len(),
            values.len() == i,
            forall|j: int|
                0 <= j < i ==> (#[trigger] values@[j]).deep_view() == element_attribute(
                    elements@[j],
                    name@,
                ),
        decreases elements.len() - i,
    {
        let value = attribute(&elements[i], name);
        values.push(value);
        i += 1;
    }
    assert(values.deep_view() =~= attributes_of(elements@, name@));
    values
}

/// Reads the inner markup of each of `elements`.
pub(crate) fn read_inner_html(elements: &Vec<scraper::ElementRef<'_>>) -> (markup: Vec<String>)
    ensures
        markup.deep_view() == inner_html_of(elements@),
{
    let mut markup: Vec<String> = Vec::new();
    let mut i: usize = 0;
    while i < elements.len()
        invariant
            i <= elements.len(),
            markup.len() == i,
            forall|j: int|
                0 <= j < i ==> (#[trigger] markup@[j])@ == element_inner_html(elements@[j]),
        decreases elements.len() - i,
    {
        let inner = inner_html(&elements[i]);
        markup.push(inner);
        i += 1;
    }
    assert(markup.deep_view() =~= inner_html_of(elements@));
    markup
}

} // verus!
