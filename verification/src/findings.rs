//! Row extraction: the findings that a detail page reports.
//!
//! A detail page holds its findings in its first table. The first two rows of
//! that table are headers. Every later row with at least five cells whose
//! second cell is a decimal number is one finding: file, line, tag, severity
//! and message, in this order. Other rows are noise and are left out without
//! an error.

use crate::html::{
    document_matches, element_matches, fits_page_limit, inner_html_of, page_fits,
    parse_document, parse_selector, parsed_document, parsed_selector, read_inner_html,
    select_in_document, select_in_element,
};
use crate::text::{decimal_value, parse_decimal};
use vstd::prelude::*;

verus! {

/// The number of header rows at the top of a findings table.
pub const HEADER_ROWS: usize = 2;

/// The number of cells that a row needs to be a finding.
pub const FINDING_CELLS: usize = 5;

/// One diagnostic of the analysed source code.
#[derive(Debug, Clone, PartialEq, Eq)]
pub struct Finding {
    /// The source file, as the cell gives it.
    pub file: String,
    /// The line in that file.
    pub line: usize,
    /// The category of the diagnostic.
    pub tag: String,
    /// How severe it is.
    pub severity: String,
    /// The description, with the markup that the cell holds.
    pub message: String,
}

/// The mathematical value of a [`Finding`].
pub ghost struct FindingView {
    pub file: Seq<char>,
    pub line: usize,
    pub tag: Seq<char>,
    pub severity: Seq<char>,
    pub message: Seq<char>,
}

impl View for Finding {
    type V = FindingView;

    open spec fn view(&self) -> FindingView {
        FindingView {
            file: self.file@,
            line: self.line,
            tag: self.tag@,
            severity: self.severity@,
            message: self.message@,
        }
    }
}

impl DeepView for Finding {
    type V = FindingView;

    open spec fn deep_view(&self) -> FindingView {
        self@
    }
}

/// Why no findings could be taken from a detail page.
///
/// A row never fails: it is a finding or it is left out. The content of a
/// cell, unlike the target of an anchor, cannot be missing, so there is no
/// counterpart here to a link without target.
#[derive(Debug, Clone, Copy, PartialEq, Eq, Structural)]
pub enum ExtractionError {
    /// The detail page could not be read.
    Io,
    /// The page holds more bytes than the page limit and was not parsed.
    TooLarge,
    /// The page holds no table.
    NoTable,
    /// The selector engine rejected the selector for tables, rows or cells.
    Selector,
}

/// The finding that a row with these cells stands for, if it stands for one.
pub open spec fn finding_of(cells: Seq<Seq<char>>) -> Option<FindingView> {
    if cells.len() >= FINDING_CELLS {
        match decimal_value(cells[1]) {
            Some(line) => Some(
                FindingView {
                    file: cells[0],
                    line,
                    tag: cells[2],
                    severity: cells[3],
                    message: cells[4],
                },
            ),
            None => None,
        }
    } else {
        None
    }
}

/// The findings of a run of data rows: each row that stands for a finding, in
/// the order of the rows.
pub open spec fn findings_of(rows: Seq<Seq<Seq<char>>>) -> Seq<FindingView> {
    rows.filter_map(|cells: Seq<Seq<char>>| finding_of(cells))
}

/// The rows of a table below its header rows.
pub open spec fn data_rows(rows: Seq<Seq<Seq<char>>>) -> Seq<Seq<Seq<char>>> {
    if rows.len() > HEADER_ROWS {
        rows.skip(HEADER_ROWS as int)
    } else {
        Seq::empty()
    }
}

/// The findings of a table with these rows, header rows included.
pub open spec fn table_findings(rows: Seq<Seq<Seq<char>>>) -> Seq<FindingView> {
    findings_of(data_rows(rows))
}

/// The mathematical value of an extraction result.
pub open spec fn findings_view(outcome: Result<Vec<Finding>, ExtractionError>) -> Result<
    Seq<FindingView>,
    ExtractionError,
> {
    match outcome {
        Ok(findings) => Ok(findings.deep_view()),
        Err(error) => Err(error),
    }
}

/// One more row adds its finding at the end, or nothing.
pub proof fn lemma_findings_of_push(rows: Seq<Seq<Seq<char>>>, cells: Seq<Seq<char>>)
    ensures
        findings_of(rows.push(cells)) == match finding_of(cells) {
            Some(finding) => findings_of(rows).push(finding),
            None => findings_of(rows),
        },
{
    let longer = rows.push(cells);
    assert(longer.drop_last() == rows);
    assert(longer.last() == cells);
    match finding_of(cells) {
        Some(finding) => {
            assert(findings_of(rows) + seq![finding] == findings_of(rows).push(finding));
        },
        None => {},
    }
}

/// There are never more findings than rows, and fewer as soon as one row
/// stands for no finding.
pub proof fn lemma_findings_bounded(rows: Seq<Seq<Seq<char>>>)
    ensures
        findings_of(rows).len() <= rows.len(),
        (exists|i: int| 0 <= i < rows.len() && finding_of(#[trigger] rows[i]) is None)
            ==> findings_of(rows).len() < rows.len(),
    decreases rows.len(),
{
    if rows.len() > 0 {
        let rest = rows.drop_last();
        lemma_findings_bounded(rest);
        assert(rest.push(rows.last()) == rows);
        lemma_findings_of_push(rest, rows.last());
        if exists|i: int| 0 <= i < rows.len() && finding_of(#[trigger] rows[i]) is None {
            let i = choose|i: int| 0 <= i < rows.len() && finding_of(#[trigger] rows[i]) is None;
            if i < rest.len() {
                assert(finding_of(rest[i]) is None);
            }
        }
    }
}

/// Where every row stands for a finding, there is one finding for each row,
/// in the order of the rows.
pub proof fn lemma_valid_rows_all_kept(rows: Seq<Seq<Seq<char>>>)
    requires
        forall|i: int| 0 <= i < rows.len() ==> finding_of(#[trigger] rows[i]) is Some,
    ensures
        findings_of(rows).len() == rows.len(),
        forall|i: int|
            0 <= i < rows.len() ==> Some(#[trigger] findings_of(rows)[i]) == finding_of(rows[i]),
    decreases rows.len(),
{
    if rows.len() > 0 {
        let rest = rows.drop_last();
        assert forall|i: int| 0 <= i < rest.len() implies finding_of(#[trigger] rest[i])
            is Some by {
            assert(rest[i] == rows[i]);
        }
        lemma_valid_rows_all_kept(rest);
        assert(rest.push(rows.last()) == rows);
        lemma_findings_of_push(rest, rows.last());
        assert(finding_of(rows[rows.len() - 1]) is Some);
        assert forall|i: int| 0 <= i < rows.len() implies Some(#[trigger] findings_of(rows)[i])
            == finding_of(rows[i]) by {
            if i < rest.len() {
                assert(findings_of(rows)[i] == findings_of(rest)[i]);
                assert(rest[i] == rows[i]);
            }
        }
    }
}

/// A row stands for a finding exactly if it has five cells or more and its
/// second cell is a decimal number.
pub open spec fn is_valid_row(cells: Seq<Seq<char>>) -> bool {
    cells.len() >= FINDING_CELLS && decimal_value(cells[1]) is Some
}

/// A table whose rows below the two header rows are all valid gives exactly
/// their findings: as many as it has data rows, finding `i` from data row
/// `i`, so in the order of the rows.
pub proof fn lemma_valid_table_all_kept(rows: Seq<Seq<Seq<char>>>)
    requires
        forall|i: int| HEADER_ROWS <= i < rows.len() ==> is_valid_row(#[trigger] rows[i]),
    ensures
        rows.len() >= HEADER_ROWS ==> table_findings(rows).len() == rows.len() - HEADER_ROWS,
        rows.len() < HEADER_ROWS ==> table_findings(rows).len() == 0,
        forall|i: int|
            0 <= i < table_findings(rows).len() ==> Some(#[trigger] table_findings(rows)[i])
                == finding_of(rows[i + HEADER_ROWS]),
{
    let data = data_rows(rows);
    assert forall|i: int| 0 <= i < data.len() implies finding_of(#[trigger] data[i]) is Some by {
        assert(data[i] == rows[i + HEADER_ROWS]);
        assert(is_valid_row(rows[i + HEADER_ROWS]));
    }
    lemma_valid_rows_all_kept(data);
    assert forall|i: int| 0 <= i < table_findings(rows).len() implies Some(
        #[trigger] table_findings(rows)[i],
    ) == finding_of(rows[i + HEADER_ROWS]) by {
        assert(data[i] == rows[i + HEADER_ROWS]);
    }
}

/// Findings keep the order of their rows: every finding comes from a row,
/// and of two findings the later one comes from a later row.
pub proof fn lemma_findings_keep_order(rows: Seq<Seq<Seq<char>>>, i: int, j: int)
    requires
        0 <= i < j < findings_of(rows).len(),
    ensures
        exists|p: int, q: int|
            0 <= p < q < rows.len() && finding_of(#[trigger] rows[p]) == Some(findings_of(rows)[i])
                && finding_of(#[trigger] rows[q]) == Some(findings_of(rows)[j]),
    decreases rows.len(),
{
    let rest = rows.drop_last();
    assert(rest.push(rows.last()) == rows);
    lemma_findings_of_push(rest, rows.last());
    if j < findings_of(rest).len() {
        lemma_findings_keep_order(rest, i, j);
        let (p, q) = choose|p: int, q: int|
            0 <= p < q < rest.len() && finding_of(#[trigger] rest[p]) == Some(findings_of(rest)[i])
                && finding_of(#[trigger] rest[q]) == Some(findings_of(rest)[j]);
        assert(rows[p] == rest[p] && rows[q] == rest[q]);
    } else {
        let q = rows.len() - 1;
        lemma_finding_has_row(rest, i);
        let p = choose|p: int|
            0 <= p < rest.len() && finding_of(#[trigger] rest[p]) == Some(findings_of(rest)[i]);
        assert(rows[p] == rest[p]);
        assert(finding_of(rows[q]) == Some(findings_of(rows)[j]));
    }
}

/// Every finding comes from a row.
pub proof fn lemma_finding_has_row(rows: Seq<Seq<Seq<char>>>, i: int)
    requires
        0 <= i < findings_of(rows).len(),
    ensures
        exists|p: int|
            0 <= p < rows.len() && finding_of(#[trigger] rows[p]) == Some(findings_of(rows)[i]),
    decreases rows.len(),
{
    let rest = rows.drop_last();
    assert(rest.push(rows.last()) == rows);
    lemma_findings_of_push(rest, rows.last());
    if i < findings_of(rest).len() {
        lemma_finding_has_row(rest, i);
        let p = choose|p: int|
            0 <= p < rest.len() && finding_of(#[trigger] rest[p]) == Some(findings_of(rest)[i]);
        assert(rows[p] == rest[p]);
    } else {
        assert(finding_of(rows[rows.len() - 1]) == Some(findings_of(rows)[i]));
    }
}

/// The finding that a row with these cells stands for.
///
/// A row with fewer than five cells stands for none, and neither does one
/// whose second cell is no decimal number. Cells after the fifth are ignored.
pub fn finding_from_cells(cells: &Vec<String>) -> (finding: Option<Finding>)
    ensures
        finding.deep_view() == finding_of(cells.deep_view()),
        finding is Some <==> is_valid_row(cells.deep_view()),
        cells.len() < FINDING_CELLS ==> finding is None,
        cells.len() >= FINDING_CELLS && decimal_value(cells@[1]@) is None ==> finding is None,
{
    if cells.len() < FINDING_CELLS {
        return None;
    }
    match parse_decimal(cells[1].as_str()) {
        Some(line) => Some(
            Finding {
                file: cells[0].clone(),
                line,
                tag: cells[2].clone(),
                severity: cells[3].clone(),
                message: cells[4].clone(),
            },
        ),
        None => None,
    }
}

/// The findings of a table, from the cells of its rows: the header rows are
/// skipped, and each later row gives its finding or nothing.
pub fn findings_from_rows(rows: &Vec<Vec<String>>) -> (findings: Vec<Finding>)
    ensures
        findings.deep_view() == table_findings(rows.deep_view()),
{
    let mut findings: Vec<Finding> = Vec::new();
    if rows.len() <= HEADER_ROWS {
        assert(findings.deep_view() =~= table_findings(rows.deep_view()));
        return findings;
    }
    let ghost data = data_rows(rows.deep_view());
    let mut i: usize = HEADER_ROWS;
    assert(data.take(0) =~= Seq::empty());
    assert(findings.deep_view() =~= findings_of(data.take(0)));
    while i < rows.len()
        invariant
            HEADER_ROWS <= i <= rows.len(),
            data == rows.deep_view().skip(HEADER_ROWS as int),
            findings.deep_view() == findings_of(data.take(i - HEADER_ROWS)),
        decreases rows.len() - i,
    {
        let ghost before = findings.deep_view();
        let ghost cells = rows@[i as int].deep_view();
        proof {
            assert(data.take(i - HEADER_ROWS + 1) =~= data.take(i - HEADER_ROWS).push(cells));
            lemma_findings_of_push(data.take(i - HEADER_ROWS), cells);
        }
        match finding_from_cells(&rows[i]) {
            Some(finding) => {
                findings.push(finding);
                assert(findings.deep_view() =~= before.push(finding@));
            },
            None => {},
        }
        i += 1;
    }
    assert(data.take(i - HEADER_ROWS) =~= data);
    findings
}

/// The cells of each row of the first table of a parsed page, where the
/// selectors pick tables, rows and cells: `None` for a page without a table.
pub open spec fn detail_rows(
    text: Seq<char>,
    tables: scraper::Selector,
    rows: scraper::Selector,
    cells: scraper::Selector,
) -> Option<Seq<Seq<Seq<char>>>> {
    let found = document_matches(&parsed_document(text), tables);
    if found.len() == 0 {
        None
    } else {
        let table_rows = element_matches(found[0], rows);
        Some(
            Seq::new(
                table_rows.len(),
                |i: int| inner_html_of(element_matches(table_rows[i], cells)),
            ),
        )
    }
}

/// The cells of each row of the first table of the page `text`, or why
/// they cannot be had: the selector engine rejects one of the selectors
/// `table`, `tr` and `td`, or the page holds no table.
pub open spec fn page_rows(text: Seq<char>) -> Result<Seq<Seq<Seq<char>>>, ExtractionError> {
    match (parsed_selector("table"@), parsed_selector("tr"@), parsed_selector("td"@)) {
        (Some(tables), Some(rows), Some(cells)) => match detail_rows(text, tables, rows, cells) {
            Some(table) => Ok(table),
            None => Err(ExtractionError::NoTable),
        },
        _ => Err(ExtractionError::Selector),
    }
}

/// The findings of the detail page `text`. A page over the page limit is not
/// parsed and gives `TooLarge`.
pub open spec fn detail_findings(text: Seq<char>) -> Result<Seq<FindingView>, ExtractionError> {
    if !page_fits(text) {
        Err(ExtractionError::TooLarge)
    } else {
        match page_rows(text) {
            Ok(table) => Ok(table_findings(table)),
            Err(error) => Err(error),
        }
    }
}

/// Reads the inner markup of every cell of every row of the first table of
/// the page `text`. Later tables are not looked at, and a page over the page
/// limit is not parsed.
pub fn read_table_rows(text: &str) -> (outcome: Result<Vec<Vec<String>>, ExtractionError>)
    ensures
        !page_fits(text@) <==> outcome == Err::<Vec<Vec<String>>, ExtractionError>(
            ExtractionError::TooLarge,
        ),
        page_fits(text@) ==> match page_rows(text@) {
            Ok(table) => outcome is Ok && outcome->Ok_0.deep_view() == table,
            Err(error) => outcome == Err::<Vec<Vec<String>>, ExtractionError>(error),
        },
{
    if !fits_page_limit(text) {
        return Err(ExtractionError::TooLarge);
    }
    let table_selector = match parse_selector("table") {
        Some(selector) => selector,
        None => {
            return Err(ExtractionError::Selector);
        },
    };
    let row_selector = match parse_selector("tr") {
        Some(selector) => selector,
        None => {
            return Err(ExtractionError::Selector);
        },
    };
    let cell_selector = match parse_selector("td") {
        Some(selector) => selector,
        None => {
            return Err(ExtractionError::Selector);
        },
    };
    let document = parse_document(text);
    let tables = select_in_document(&document, &table_selector);
    if tables.len() == 0 {
        return Err(ExtractionError::NoTable);
    }
    let table_rows = select_in_element(&tables[0], &row_selector);
    let mut rows: Vec<Vec<String>> = Vec::new();
    let mut i: usize = 0;
    while i < table_rows.len()
        invariant
            i <= table_rows.len(),
            rows.len() == i,
            forall|j: int|
                0 <= j < i ==> (#[trigger] rows@[j]).deep_view() == inner_html_of(
                    element_matches(table_rows@[j], cell_selector),
                ),
        decreases table_rows.len() - i,
    {
        let cells = select_in_element(&table_rows[i], &cell_selector);
        let markup = read_inner_html(&cells);
        rows.push(markup);
        i += 1;
    }
    assert(rows.deep_view() =~= detail_rows(
        text@,
        table_selector,
        row_selector,
        cell_selector,
    )->0);
    Ok(rows)
}

/// The findings of the detail page `text`, in the order of their rows.
///
/// A table without valid data rows gives no findings and is no error; a page
/// over the page limit and a page without a table are errors.
pub fn extract_findings(text: &str) -> (outcome: Result<Vec<Finding>, ExtractionError>)
    ensures
        findings_view(outcome) == detail_findings(text@),
        !page_fits(text@) <==> outcome == Err::<Vec<Finding>, ExtractionError>(
            ExtractionError::TooLarge,
        ),
{
    match read_table_rows(text) {
        Ok(rows) => Ok(findings_from_rows(&rows)),
        Err(error) => Err(error),
    }
}

/// The findings of a detail page from what reading it gave: its text, or
/// nothing where it could not be read, which is the error `Io`.
pub fn extract_findings_in(page: Option<&str>) -> (outcome: Result<Vec<Finding>, ExtractionError>)
    ensures
        findings_view(outcome) == match page {
            Some(text) => detail_findings(text@),
            None => Err(ExtractionError::Io),
        },
{
    match page {
        Some(text) => extract_findings(text),
        None => Err(ExtractionError::Io),
    }
}

} // verus!
