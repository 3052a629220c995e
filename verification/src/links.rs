//! Link discovery: the detail pages that a summary page refers to.
//!
//! A summary page holds one table that serves as its index of hyperlinks. Its
//! `id` attribute contains the text `hyperlink-info`, and each anchor in it
//! points, by its `href` attribute, to one detail page. Where several tables
//! carry the mark, the first one counts.

use crate::html::{
    attribute, attributes_of, document_matches, element_attribute, element_matches,
    fits_page_limit, page_fits, parse_document, parse_selector, parsed_document,
    parsed_selector, read_attributes, select_in_document, select_in_element,
};
use crate::text::{contains, occurs_in};
use vstd::prelude::*;

verus! {

/// Why no links could be taken from a summary page.
#[derive(Debug, Clone, Copy, PartialEq, Eq, Structural)]
pub enum DiscoveryError {
    /// The summary page could not be read.
    Io,
    /// The page holds more bytes than the page limit and was not parsed.
    TooLarge,
    /// The page holds no table at all.
    NoTable,
    /// The page holds tables, but none is marked as the hyperlink index.
    NoHyperlinkTable,
    /// An anchor of the hyperlink index has no `href` attribute. The links
    /// decide what the whole run reads, so this is not passed over.
    MissingTarget,
    /// The selector engine rejected the selector for tables or for anchors.
    Selector,
}

/// What link discovery reads of one table: its `id` attribute, and the `href`
/// attribute of each anchor inside it, in the order of the anchors.
#[derive(Debug, Clone, PartialEq, Eq)]
pub struct LinkTable {
    pub id: Option<String>,
    pub targets: Vec<Option<String>>,
}

/// The mathematical value of a [`LinkTable`].
pub ghost struct LinkTableView {
    pub id: Option<Seq<char>>,
    pub targets: Seq<Option<Seq<char>>>,
}

impl View for LinkTable {
    type V = LinkTableView;

    open spec fn view(&self) -> LinkTableView {
        LinkTableView { id: self.id.deep_view(), targets: self.targets.deep_view() }
    }
}

impl DeepView for LinkTable {
    type V = LinkTableView;

    open spec fn deep_view(&self) -> LinkTableView {
        self@
    }
}

/// The text that marks the hyperlink index.
pub open spec fn hyperlink_marker() -> Seq<char> {
    "hyperlink-info"@
}

/// An `id` attribute that marks its table as the hyperlink index: it is
/// present and contains the marker.
pub open spec fn is_index_id(id: Option<Seq<char>>) -> bool {
    id matches Some(text) && occurs_in(text, hyperlink_marker())
}

/// Table `i` is the hyperlink index: it is marked, and no table before it is.
pub open spec fn is_first_index(tables: Seq<LinkTableView>, i: int) -> bool {
    &&& 0 <= i < tables.len()
    &&& is_index_id(tables[i].id)
    &&& forall|j: int| 0 <= j < i ==> !is_index_id(#[trigger] tables[j].id)
}

/// No table is marked as the hyperlink index.
pub open spec fn no_index(tables: Seq<LinkTableView>) -> bool {
    forall|j: int| 0 <= j < tables.len() ==> !is_index_id(#[trigger] tables[j].id)
}

/// The link targets of a run of anchors: every `href`, in order and with
/// duplicates, or an error where one anchor has none.
pub open spec fn gathered(targets: Seq<Option<Seq<char>>>) -> Result<
    Seq<Seq<char>>,
    DiscoveryError,
> {
    if forall|k: int| 0 <= k < targets.len() ==> (#[trigger] targets[k]) is Some {
        Ok(Seq::new(targets.len(), |k: int| targets[k]->0))
    } else {
        Err(DiscoveryError::MissingTarget)
    }
}

/// The links of a summary page with these tables.
pub open spec fn discovered(tables: Seq<LinkTableView>) -> Result<Seq<Seq<char>>, DiscoveryError> {
    if tables.len() == 0 {
        Err(DiscoveryError::NoTable)
    } else if exists|i: int| is_first_index(tables, i) {
        gathered(tables[choose|i: int| is_first_index(tables, i)].targets)
    } else {
        Err(DiscoveryError::NoHyperlinkTable)
    }
}

/// The mathematical value of a discovery result.
pub open spec fn links_view(outcome: Result<Vec<String>, DiscoveryError>) -> Result<
    Seq<Seq<char>>,
    DiscoveryError,
> {
    match outcome {
        Ok(links) => Ok(links.deep_view()),
        Err(error) => Err(error),
    }
}

/// At most one table is the hyperlink index.
pub proof fn lemma_first_index_unique(tables: Seq<LinkTableView>, i: int, j: int)
    requires
        is_first_index(tables, i),
        is_first_index(tables, j),
    ensures
        i == j,
{
    if i < j {
        assert(!is_index_id(tables[i].id));
    } else if j < i {
        assert(!is_index_id(tables[j].id));
    }
}

/// Either some table is the hyperlink index or none is marked.
pub proof fn lemma_index_or_none(tables: Seq<LinkTableView>)
    ensures
        no_index(tables) <==> !exists|i: int| is_first_index(tables, i),
{
    if !no_index(tables) {
        let marked = choose|j: int| 0 <= j < tables.len() && is_index_id(#[trigger] tables[j].id);
        lemma_marked_has_first(tables, marked);
    }
    if exists|i: int| is_first_index(tables, i) {
        let first = choose|i: int| is_first_index(tables, i);
        assert(is_index_id(tables[first].id));
    }
}

/// A marked table has a first marked table at or before it.
proof fn lemma_marked_has_first(tables: Seq<LinkTableView>, marked: int)
    requires
        0 <= marked < tables.len(),
        is_index_id(tables[marked].id),
    ensures
        exists|i: int| is_first_index(tables, i),
    decreases marked,
{
    if exists|j: int| 0 <= j < marked && is_index_id(#[trigger] tables[j].id) {
        let earlier = choose|j: int| 0 <= j < marked && is_index_id(#[trigger] tables[j].id);
        lemma_marked_has_first(tables, earlier);
    } else {
        assert(is_first_index(tables, marked));
    }
}

/// Whether an `id` attribute marks its table as the hyperlink index.
pub fn marks_index(id: &Option<String>) -> (marked: bool)
    ensures
        marked == is_index_id(id.deep_view()),
{
    match id {
        Some(text) => contains(text.as_str(), "hyperlink-info"),
        None => false,
    }
}

/// The position of the hyperlink index among `tables`: the first marked
/// table. The scan stops there and does not look at later tables.
pub fn find_index_table(tables: &Vec<LinkTable>) -> (found: Option<usize>)
    ensures
        match found {
            Some(i) => is_first_index(tables.deep_view(), i as int),
            None => no_index(tables.deep_view()),
        },
{
    let mut i: usize = 0;
    while i < tables.len()
        invariant
            i <= tables.len(),
            forall|j: int| 0 <= j < i ==> !is_index_id(#[trigger] tables.deep_view()[j].id),
        decreases tables.len() - i,
    {
        if marks_index(&tables[i].id) {
            return Some(i);
        }
        i += 1;
    }
    None
}

/// The link targets of the anchors of one table, in order and with
/// duplicates. One anchor without a target fails the whole table.
pub fn gather_targets(targets: &Vec<Option<String>>) -> (outcome: Result<
    Vec<String>,
    DiscoveryError,
>)
    ensures
        links_view(outcome) == gathered(targets.deep_view()),
{
    let mut links: Vec<String> = Vec::new();
    let mut k: usize = 0;
    while k < targets.len()
        invariant
            k <= targets.len(),
            links.len() == k,
            forall|j: int| 0 <= j < k ==> (#[trigger] targets@[j]) is Some,
            forall|j: int| 0 <= j < k ==> (#[trigger] links@[j])@ == targets@[j]->0@,
        decreases targets.len() - k,
    {
        match &targets[k] {
            Some(target) => {
                links.push(target.clone());
            },
            None => {
                assert(targets.deep_view()[k as int] is None);
                return Err(DiscoveryError::MissingTarget);
            },
        }
        k += 1;
    }
    proof {
        let all = targets.deep_view();
        assert forall|j: int| 0 <= j < all.len() implies (#[trigger] all[j]) is Some by {
            assert(targets@[j] is Some);
        }
        assert(links.deep_view() =~= Seq::new(all.len(), |j: int| all[j]->0));
    }
    Ok(links)
}

/// The links of a summary page, from what was read of its tables.
///
/// A page without tables gives `NoTable`, one whose tables are all unmarked
/// gives `NoHyperlinkTable`. Otherwise the first marked table decides alone:
/// its link targets in order, which may be none, or `MissingTarget`.
pub fn links_from_tables(tables: &Vec<LinkTable>) -> (outcome: Result<Vec<String>, DiscoveryError>)
    ensures
        links_view(outcome) == discovered(tables.deep_view()),
        tables.len() == 0 ==> outcome == Err::<Vec<String>, DiscoveryError>(
            DiscoveryError::NoTable,
        ),
        tables.len() > 0 && no_index(tables.deep_view()) ==> outcome == Err::<
            Vec<String>,
            DiscoveryError,
        >(DiscoveryError::NoHyperlinkTable),
{
    if tables.len() == 0 {
        return Err(DiscoveryError::NoTable);
    }
    proof {
        lemma_index_or_none(tables.deep_view());
    }
    match find_index_table(tables) {
        None => Err(DiscoveryError::NoHyperlinkTable),
        Some(i) => {
            proof {
                let chosen = choose|c: int| is_first_index(tables.deep_view(), c);
                lemma_first_index_unique(tables.deep_view(), i as int, chosen);
            }
            gather_targets(&tables[i].targets)
        },
    }
}

/// What link discovery reads of the table `table` of a parsed page.
pub open spec fn link_table_at(
    table: scraper::ElementRef<'_>,
    anchors: scraper::Selector,
) -> LinkTableView {
    LinkTableView {
        id: element_attribute(table, "id"@),
        targets: attributes_of(element_matches(table, anchors), "href"@),
    }
}

/// What link discovery reads of the tables of the page `text`, where `tables`
/// selects the tables and `anchors` the anchors.
pub open spec fn summary_tables(
    text: Seq<char>,
    tables: scraper::Selector,
    anchors: scraper::Selector,
) -> Seq<LinkTableView> {
    let found = document_matches(&parsed_document(text), tables);
    Seq::new(found.len(), |i: int| link_table_at(found[i], anchors))
}

/// What link discovery reads of the tables of the page `text`: `None` where
/// the selector engine rejects the selector `table` or the selector `a`.
pub open spec fn page_tables(text: Seq<char>) -> Option<Seq<LinkTableView>> {
    match (parsed_selector("table"@), parsed_selector("a"@)) {
        (Some(tables), Some(anchors)) => Some(summary_tables(text, tables, anchors)),
        _ => None,
    }
}

/// The links of the summary page `text`. A page over the page limit is not
/// parsed and gives `TooLarge`.
pub open spec fn summary_links(text: Seq<char>) -> Result<Seq<Seq<char>>, DiscoveryError> {
    if !page_fits(text) {
        Err(DiscoveryError::TooLarge)
    } else {
        match page_tables(text) {
            Some(tables) => discovered(tables),
            None => Err(DiscoveryError::Selector),
        }
    }
}

/// Discovery from tables never gives the errors that are decided before the
/// tables are read.
pub proof fn lemma_discovered_errors(tables: Seq<LinkTableView>)
    ensures
        discovered(tables) != Err::<Seq<Seq<char>>, DiscoveryError>(DiscoveryError::TooLarge),
        discovered(tables) != Err::<Seq<Seq<char>>, DiscoveryError>(DiscoveryError::Io),
        discovered(tables) != Err::<Seq<Seq<char>>, DiscoveryError>(DiscoveryError::Selector),
{
}

/// Reads what link discovery needs of every table of the page `text`. A
/// page over the page limit is not parsed.
pub fn read_link_tables(text: &str) -> (outcome: Result<Vec<LinkTable>, DiscoveryError>)
    ensures
        !page_fits(text@) <==> outcome == Err::<Vec<LinkTable>, DiscoveryError>(
            DiscoveryError::TooLarge,
        ),
        page_fits(text@) ==> match page_tables(text@) {
            Some(tables) => outcome is Ok && outcome->Ok_0.deep_view() == tables,
            None => outcome == Err::<Vec<LinkTable>, DiscoveryError>(DiscoveryError::Selector),
        },
{
    if !fits_page_limit(text) {
        return Err(DiscoveryError::TooLarge);
    }
    let table_selector = match parse_selector("table") {
        Some(selector) => selector,
        None => {
            return Err(DiscoveryError::Selector);
        },
    };
    let anchor_selector = match parse_selector("a") {
        Some(selector) => selector,
        None => {
            return Err(DiscoveryError::Selector);
        },
    };
    let document = parse_document(text);
    let found = select_in_document(&document, &table_selector);
    let mut tables: Vec<LinkTable> = Vec::new();
    let mut i: usize = 0;
    while i < found.len()
        invariant
            i <= found.len(),
            tables.len() == i,
            forall|j: int|
                0 <= j < i ==> (#[trigger] tables@[j])@ == link_table_at(
                    found@[j],
                    anchor_selector,
                ),
        decreases found.len() - i,
    {
        let id = attribute(&found[i], "id");
        let anchors = select_in_element(&found[i], &anchor_selector);
        let targets = read_attributes(&anchors, "href");
        tables.push(LinkTable { id, targets });
        i += 1;
    }
    assert(tables.deep_view() =~= summary_tables(text@, table_selector, anchor_selector));
    Ok(tables)
}

/// The links of the summary page `text`: the `href` of each anchor of its
/// hyperlink index, in the order of the anchors and with duplicates.
///
/// An index without anchors gives no links and is no error. A page over the
/// page limit, a page without tables, one without a marked table, and an
/// anchor of the index without `href` are errors.
pub fn discover_links(text: &str) -> (outcome: Result<Vec<String>, DiscoveryError>)
    ensures
        links_view(outcome) == summary_links(text@),
        !page_fits(text@) <==> outcome == Err::<Vec<String>, DiscoveryError>(
            DiscoveryError::TooLarge,
        ),
        page_tables(text@) matches Some(tables) && page_fits(text@) && tables.len() == 0
            ==> outcome == Err::<Vec<String>, DiscoveryError>(DiscoveryError::NoTable),
        page_tables(text@) matches Some(tables) && page_fits(text@) && tables.len() > 0
            && no_index(tables) ==> outcome == Err::<Vec<String>, DiscoveryError>(
            DiscoveryError::NoHyperlinkTable,
        ),
{
    match read_link_tables(text) {
        Ok(tables) => {
            proof {
                lemma_discovered_errors(tables.deep_view());
            }
            links_from_tables(&tables)
        },
        Err(error) => Err(error),
    }
}

/// The links of a summary page from what reading it gave: its text, or
/// nothing where it could not be read, which is the error `Io`.
pub fn discover_links_in(page: Option<&str>) -> (outcome: Result<Vec<String>, DiscoveryError>)
    ensures
        links_view(outcome) == match page {
            Some(text) => summary_links(text@),
            None => Err(DiscoveryError::Io),
        },
{
    match page {
        Some(text) => discover_links(text),
        None => Err(DiscoveryError::Io),
    }
}

} // verus!
