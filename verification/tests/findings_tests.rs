use report_etl::html::{fits_page_limit, PAGE_LIMIT};
use report_etl::findings::{
    extract_findings, extract_findings_in, finding_from_cells, findings_from_rows,
    read_table_rows, ExtractionError, Finding, FINDING_CELLS, HEADER_ROWS,
};

fn row(cells: &[&str]) -> Vec<String> {
    cells.iter().map(|cell| cell.to_string()).collect()
}

fn finding(file: &str, line: usize, tag: &str, severity: &str, message: &str) -> Finding {
    Finding {
        file: file.to_string(),
        line,
        tag: tag.to_string(),
        severity: severity.to_string(),
        message: message.to_string(),
    }
}

fn page(rows: &[&[&str]]) -> String {
    let mut text = String::from("<html><body><table>");
    text.push_str("<tr><th colspan=\"5\">Report</th></tr>");
    text.push_str("<tr><th>File</th><th>Line</th><th>Tag</th><th>Severity</th><th>Message</th></tr>");
    for cells in rows {
        text.push_str("<tr>");
        for cell in cells.iter() {
            text.push_str("<td>");
            text.push_str(cell);
            text.push_str("</td>");
        }
        text.push_str("</tr>");
    }
    text.push_str("</table></body></html>");
    text
}

#[test]
fn test_parsing() {
    let source = "Report/Boot/BLLm_bootMain.c.html";
    let text = page(&[&[source, "17", "MISRA-8.4", "major", "missing declaration"]]);
    let entries = extract_findings(&text);
    assert_eq!(entries, Ok(vec![finding(source, 17, "MISRA-8.4", "major", "missing declaration")]));
}

#[test]
fn the_constants_of_the_report_format() {
    assert_eq!(HEADER_ROWS, 2);
    assert_eq!(FINDING_CELLS, 5);
}

#[test]
fn one_full_row_and_one_short_row_give_one_finding() {
    let text = page(&[
        &["main.c", "42", "unused-var", "warning", "variable x is unused"],
        &["main.c", "43"],
    ]);
    assert_eq!(
        extract_findings(&text),
        Ok(vec![finding("main.c", 42, "unused-var", "warning", "variable x is unused")])
    );
}

#[test]
fn every_valid_row_gives_a_finding_in_order() {
    let text = page(&[
        &["b.c", "3", "t1", "error", "third"],
        &["a.c", "1", "t2", "warning", "first"],
        &["b.c", "3", "t1", "error", "third"],
        &["c.c", "2", "t3", "note", "second"],
    ]);
    assert_eq!(
        extract_findings(&text),
        Ok(vec![
            finding("b.c", 3, "t1", "error", "third"),
            finding("a.c", 1, "t2", "warning", "first"),
            finding("b.c", 3, "t1", "error", "third"),
            finding("c.c", 2, "t3", "note", "second"),
        ])
    );
}

#[test]
fn short_rows_are_dropped() {
    let text = page(&[
        &[],
        &["a.c"],
        &["a.c", "1", "t", "warning"],
        &["a.c", "2", "t", "warning", "kept"],
        &["a.c", "3", "t"],
    ]);
    let found = extract_findings(&text).unwrap();
    assert_eq!(found, vec![finding("a.c", 2, "t", "warning", "kept")]);
    assert!(found.len() < 5);
}

#[test]
fn rows_without_a_line_number_are_dropped() {
    let text = page(&[
        &["a.c", "", "t", "warning", "no line"],
        &["a.c", "n/a", "t", "warning", "no number"],
        &["a.c", "-3", "t", "warning", "negative"],
        &["a.c", "12", "t", "warning", "kept"],
        &["a.c", "1.5", "t", "warning", "fraction"],
        &["a.c", " 7", "t", "warning", "blank before"],
        &["a.c", "<b>7</b>", "t", "warning", "markup"],
    ]);
    assert_eq!(extract_findings(&text), Ok(vec![finding("a.c", 12, "t", "warning", "kept")]));
}

#[test]
fn cells_after_the_fifth_are_ignored() {
    let text = page(&[&["a.c", "9", "t", "info", "message", "extra", "more"]]);
    assert_eq!(extract_findings(&text), Ok(vec![finding("a.c", 9, "t", "info", "message")]));
}

#[test]
fn the_first_two_rows_are_skipped_whatever_they_hold() {
    let text = "<table>\
<tr><td>skipped.c</td><td>1</td><td>t</td><td>s</td><td>first row</td></tr>\
<tr><td>skipped.c</td><td>2</td><td>t</td><td>s</td><td>second row</td></tr>\
<tr><td>kept.c</td><td>3</td><td>t</td><td>s</td><td>third row</td></tr>\
</table>";
    assert_eq!(extract_findings(text), Ok(vec![finding("kept.c", 3, "t", "s", "third row")]));
}

#[test]
fn a_table_of_headers_only_gives_no_findings() {
    assert_eq!(extract_findings(&page(&[])), Ok(Vec::<Finding>::new()));
    assert_eq!(extract_findings("<table></table>"), Ok(Vec::<Finding>::new()));
    assert_eq!(
        extract_findings("<table><tr><td>a</td><td>1</td><td>t</td><td>s</td><td>m</td></tr></table>"),
        Ok(Vec::<Finding>::new())
    );
}

#[test]
fn a_page_without_a_table_is_an_error() {
    assert_eq!(extract_findings("<html><body><p>empty</p></body></html>"), Err(ExtractionError::NoTable));
    assert_eq!(extract_findings(""), Err(ExtractionError::NoTable));
}

#[test]
fn only_the_first_table_counts() {
    let mut text = String::from("<table><tr><td>navigation</td></tr></table>");
    text.push_str(&page(&[&["a.c", "1", "t", "s", "in the second table"]]));
    assert_eq!(extract_findings(&text), Ok(Vec::<Finding>::new()));
}

#[test]
fn the_message_keeps_its_markup() {
    let text = page(&[&[
        "a.c",
        "5",
        "t",
        "warning",
        "use <code>size_t</code> &amp; check <a href=\"rule.html\">the rule</a>",
    ]]);
    assert_eq!(
        extract_findings(&text),
        Ok(vec![finding(
            "a.c",
            5,
            "t",
            "warning",
            "use <code>size_t</code> &amp; check <a href=\"rule.html\">the rule</a>"
        )])
    );
}

#[test]
fn extract_findings_twice_gives_the_same() {
    let text = page(&[&["a.c", "1", "t", "s", "m"], &["short"]]);
    assert_eq!(extract_findings(&text), extract_findings(&text));
}

#[test]
fn extract_findings_in_maps_an_unread_page_to_io() {
    assert_eq!(extract_findings_in(None), Err(ExtractionError::Io));
    let text = page(&[&["a.c", "1", "t", "s", "m"]]);
    assert_eq!(extract_findings_in(Some(&text)), extract_findings(&text));
    assert_eq!(extract_findings_in(Some("")), Err(ExtractionError::NoTable));
}

#[test]
fn read_table_rows_reads_all_rows_of_the_first_table() {
    let text = "<table><tr><th>h</th></tr><tr><td>a</td><td><i>b</i></td></tr><tr></tr></table>\
<table><tr><td>other</td></tr></table>";
    assert_eq!(
        read_table_rows(text),
        Ok(vec![row(&[]), row(&["a", "<i>b</i>"]), row(&[])])
    );
    assert_eq!(read_table_rows("<p>none</p>"), Err(ExtractionError::NoTable));
}

#[test]
fn finding_from_cells_maps_the_columns() {
    assert_eq!(
        finding_from_cells(&row(&["main.c", "42", "unused-var", "warning", "variable x is unused"])),
        Some(finding("main.c", 42, "unused-var", "warning", "variable x is unused"))
    );
    assert_eq!(
        finding_from_cells(&row(&["", "0", "", "", ""])),
        Some(finding("", 0, "", "", ""))
    );
    assert_eq!(
        finding_from_cells(&row(&["f", "+7", "t", "s", "m", "x"])),
        Some(finding("f", 7, "t", "s", "m"))
    );
}

#[test]
fn finding_from_cells_drops_short_and_numberless_rows() {
    assert_eq!(finding_from_cells(&row(&[])), None);
    assert_eq!(finding_from_cells(&row(&["main.c", "43"])), None);
    assert_eq!(finding_from_cells(&row(&["main.c", "43", "t", "s"])), None);
    assert_eq!(finding_from_cells(&row(&["main.c", "x", "t", "s", "m"])), None);
    assert_eq!(finding_from_cells(&row(&["42", "main.c", "t", "s", "m"])), None);
    assert_eq!(
        finding_from_cells(&row(&["main.c", "99999999999999999999999999", "t", "s", "m"])),
        None
    );
}

#[test]
fn findings_from_rows_skips_headers_and_noise() {
    let rows = vec![
        row(&["a.c", "1", "t", "s", "header one"]),
        row(&["a.c", "2", "t", "s", "header two"]),
        row(&["a.c", "3", "t", "s", "kept"]),
        row(&["a.c", "4"]),
        row(&["a.c", "five", "t", "s", "dropped"]),
        row(&["b.c", "6", "t", "s", "kept too"]),
    ];
    assert_eq!(
        findings_from_rows(&rows),
        vec![finding("a.c", 3, "t", "s", "kept"), finding("b.c", 6, "t", "s", "kept too")]
    );
}

#[test]
fn findings_from_rows_of_few_rows_is_empty() {
    assert_eq!(findings_from_rows(&Vec::new()), Vec::<Finding>::new());
    assert_eq!(findings_from_rows(&vec![row(&["a", "1", "t", "s", "m"])]), Vec::<Finding>::new());
    assert_eq!(
        findings_from_rows(&vec![row(&["a", "1", "t", "s", "m"]), row(&["a", "2", "t", "s", "m"])]),
        Vec::<Finding>::new()
    );
}

#[test]
fn findings_from_rows_keeps_every_valid_row() {
    let mut rows = vec![row(&[]), row(&[])];
    let mut expected = Vec::new();
    for line in 0..20usize {
        rows.push(row(&["f.c", &line.to_string(), "t", "s", "m"]));
        expected.push(finding("f.c", line, "t", "s", "m"));
    }
    assert_eq!(findings_from_rows(&rows), expected);
}

#[test]
fn extract_findings_refuses_a_page_over_the_limit() {
    let mut text = page(&[&["a.c", "1", "t", "s", "m"]]);
    let padding = PAGE_LIMIT + 1 - text.len();
    text.push_str(&" ".repeat(padding));
    assert_eq!(text.len(), PAGE_LIMIT + 1);
    assert_eq!(extract_findings(&text), Err(ExtractionError::TooLarge));
    assert_eq!(read_table_rows(&text), Err(ExtractionError::TooLarge));
    assert_eq!(extract_findings_in(Some(&text)), Err(ExtractionError::TooLarge));
}

#[test]
fn extract_findings_reads_a_long_page_within_the_limit() {
    let message = "m".repeat(1 << 20);
    let text = page(&[&["a.c", "1", "t", "s", &message], &["b.c", "2", "t", "s", "short"]]);
    assert_eq!(
        extract_findings(&text),
        Ok(vec![finding("a.c", 1, "t", "s", &message), finding("b.c", 2, "t", "s", "short")])
    );
}

#[test]
fn nul_characters_in_a_page_do_no_harm() {
    let mut text = String::from("<plaintext>");
    text.push_str(&"\0".repeat(1 << 16));
    assert_eq!(extract_findings(&text), Err(ExtractionError::NoTable));
}

#[test]
fn nul_characters_grow_to_three_bytes_each() {
    let mut text = String::from("<table><tr></tr><tr></tr><tr><td>f</td><td>1</td><td>t</td><td>s</td>");
    text.push_str("<td><textarea>");
    text.push_str(&"\0".repeat(1 << 12));
    text.push_str("</textarea></td></tr></table>");
    let found = extract_findings(&text).unwrap();
    assert_eq!(found.len(), 1);
    let grown = "\u{fffd}".repeat(1 << 12);
    assert_eq!(grown.len(), 3 << 12);
    assert_eq!(found[0].message, format!("<textarea>{}</textarea>", grown));
}

#[test]
fn the_page_limit_leaves_room_for_growth() {
    assert_eq!(PAGE_LIMIT, 1 << 28);
    assert!(PAGE_LIMIT as u64 * 3 <= 1 << 30);
    assert_eq!((PAGE_LIMIT as u32 * 3).checked_next_power_of_two(), Some(1 << 30));
}

#[test]
fn the_page_limit_counts_bytes() {
    assert!(fits_page_limit(""));
    assert!(fits_page_limit("<table></table>"));
    let at_the_limit = "a".repeat(PAGE_LIMIT);
    assert!(fits_page_limit(&at_the_limit));
    let two_bytes_each = "\u{e9}".repeat(PAGE_LIMIT / 2 + 1);
    assert_eq!(two_bytes_each.len(), PAGE_LIMIT + 2);
    assert!(!fits_page_limit(&two_bytes_each));
}

#[test]
fn a_page_of_exactly_the_limit_is_parsed() {
    let mut text = page(&[&["a.c", "1", "t", "s", "m"]]);
    text.push_str("<p>");
    let padding = PAGE_LIMIT - text.len();
    text.push_str(&"x".repeat(padding));
    assert_eq!(text.len(), PAGE_LIMIT);
    assert!(fits_page_limit(&text));
    assert_eq!(extract_findings(&text), Ok(vec![finding("a.c", 1, "t", "s", "m")]));
}
