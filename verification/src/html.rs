use vstd::prelude::*;

use scraper::{Html, Selector};

use crate::crawling::{
    clean_text, cleaned, detail_views, details_from_rows, opt_view, row_views, rows_details,
    PageRow, PageRowView,
};
use crate::model::{rule_pairs, CrawlingRule, IpDetail, IpDetailView};

verus! {

/// What `scraper` reads from the page `html`: nothing when `table_rule` is
/// not a CSS selector group that `Selector::parse` accepts; otherwise one row
/// per element that `table_rule` selects in the parsed document, in document
/// order, each with one cell per field rule: the text nodes under the first
/// element within the row that the field rule selects, concatenated, or
/// nothing where the field rule is not accepted or selects nothing.
pub uninterp spec fn scraped_cells(
    html: Seq<char>,
    table_rule: Seq<char>,
    field_rules: Seq<Seq<char>>,
) -> Option<Seq<Seq<Option<Seq<char>>>>>;

/// `scraper::Selector::parse`, `Html::parse_document`, `Html::select`,
/// `ElementRef::select` and `ElementRef::text`, read together as
/// `scraped_cells`, which is named and not spelled out here.
#[verifier::external_body]
fn scrape_table(html: &str, table_rule: &str, field_rules: &Vec<String>) -> (r: Option<
    Vec<Vec<Option<String>>>,
>)
    ensures
        r.deep_view() == scraped_cells(html@, table_rule@, field_rules.deep_view()),
{
    let table = match Selector::parse(table_rule) {
        Ok(s) => s,
        Err(_) => return None,
    };
    let fields: Vec<Option<Selector>> = field_rules.iter().map(|f| Selector::parse(f).ok()).collect();
    let doc = Html::parse_document(html);
    Some(doc.select(&table).map(|row| fields.iter().map(|f|
        f.as_ref().and_then(|f| row.select(f).next()).map(|e| e.text().collect::<String>())
    ).collect()).collect())
}

/// What a field rule gives for one table row, `cell` being the text of its
/// first match there: the empty text for an empty rule; otherwise the cell
/// cleaned with `pairs`, or nothing when there is no cell.
pub open spec fn field_cell(
    rule: Seq<char>,
    pairs: Seq<(Seq<char>, Seq<char>)>,
    cell: Option<Seq<char>>,
) -> Option<Seq<char>> {
    if rule.len() == 0 {
        Some(Seq::<char>::empty())
    } else {
        match cell {
            Some(t) => Some(cleaned(t, pairs)),
            None => None,
        }
    }
}

/// The field rules of `rule`, in the order of the fields of a row: address,
/// port, protocol, level, region.
pub open spec fn field_rules_of(rule: CrawlingRule) -> Seq<Seq<char>> {
    seq![rule.ip_rule@, rule.port_rule@, rule.protocol_type_rule@, rule.level_rule@, rule.region_rule@]
}

/// The rows of the page `html` read with `rule`: nothing when its table
/// selector is not accepted, else one per table match, in document order.
pub open spec fn page_rows_spec(html: Seq<char>, rule: CrawlingRule) -> Option<Seq<PageRowView>> {
    match scraped_cells(html, rule.table_rule@, field_rules_of(rule)) {
        Some(rows) => Some(rows.map_values(|cells: Seq<Option<Seq<char>>>| row_from_cells(rule, cells))),
        None => None,
    }
}

/// The proxies listed on the page `html`, crawled at `time`: those of the
/// page's rows, none when the table selector is not accepted.
pub open spec fn page_details(html: Seq<char>, rule: CrawlingRule, time: u64) -> Seq<IpDetailView> {
    match page_rows_spec(html, rule) {
        Some(rows) => rows_details(rows, time),
        None => Seq::empty(),
    }
}

/// The text that `rule` extracts from a table row, `first_match` being the
/// text of the rule's first match within the row: the empty text for an empty
/// rule; otherwise the match trimmed and rewritten by `replace_rules`, or
/// nothing when the rule matched nothing.
pub fn extract_text(rule: &str, first_match: Option<&str>, replace_rules: &Vec<(String, String)>) -> (r:
    Option<String>)
    ensures
        opt_view(r) == field_cell(
            rule@,
            rule_pairs(replace_rules@),
            match first_match {
                Some(t) => Some(t@),
                None => None,
            },
        ),
{
    if rule.is_empty() {
        return Some(String::new());
    }
    match first_match {
        Some(t) => Some(clean_text(t, replace_rules)),
        None => None,
    }
}

/// The cell of `cells` for field `j`; none past the last cell.
pub open spec fn cell_at(cells: Seq<Option<Seq<char>>>, j: int) -> Option<Seq<char>> {
    if 0 <= j < cells.len() {
        cells[j]
    } else {
        None
    }
}

/// The texts of a table row whose cells are `cells` (in the order of
/// `field_rules_of`); the region is not rewritten by the replacement pairs.
pub open spec fn row_from_cells(rule: CrawlingRule, cells: Seq<Option<Seq<char>>>) -> PageRowView {
    let pairs = rule_pairs(rule.replace_rules@);
    PageRowView {
        ip: field_cell(rule.ip_rule@, pairs, cell_at(cells, 0)),
        port: field_cell(rule.port_rule@, pairs, cell_at(cells, 1)),
        protocol_type: field_cell(rule.protocol_type_rule@, pairs, cell_at(cells, 2)),
        level: field_cell(rule.level_rule@, pairs, cell_at(cells, 3)),
        region: field_cell(rule.region_rule@, Seq::empty(), cell_at(cells, 4)),
    }
}

fn cell_text(row: &Vec<Option<String>>, j: usize) -> (r: Option<&str>)
    ensures
        match r {
            Some(t) => cell_at(row.deep_view(), j as int) == Some(t@),
            None => cell_at(row.deep_view(), j as int) is None,
        },
{
    if j < row.len() {
        match &row[j] {
            Some(s) => Some(s.as_str()),
            None => None,
        }
    } else {
        None
    }
}

/// The texts of the fields of table rows whose cells (the first matches of
/// the field rules of `rule`, in the order of `field_rules_of`) are `cells`,
/// row by row.
pub fn rows_from_cells(cells: &Vec<Vec<Option<String>>>, rule: &CrawlingRule) -> (r: Vec<PageRow>)
    ensures
        row_views(r@) == cells.deep_view().map_values(
            |c: Seq<Option<Seq<char>>>| row_from_cells(*rule, c),
        ),
{
    let ghost cv = cells.deep_view();
    let ghost want = cv.map_values(|c: Seq<Option<Seq<char>>>| row_from_cells(*rule, c));
    let no_rules: Vec<(String, String)> = Vec::new();
    assert(rule_pairs(no_rules@) =~= Seq::<(Seq<char>, Seq<char>)>::empty());
    let mut rows: Vec<PageRow> = Vec::new();
    let mut i: usize = 0;
    while i < cells.len()
        invariant
            cv == cells.deep_view(),
            want == cv.map_values(|c: Seq<Option<Seq<char>>>| row_from_cells(*rule, c)),
            rule_pairs(no_rules@) == Seq::<(Seq<char>, Seq<char>)>::empty(),
            i <= cells.len(),
            rows.len() == i,
            forall|k: int| 0 <= k < i ==> #[trigger] rows@[k]@ == want[k],
        decreases cells.len() - i,
    {
        let row = &cells[i];
        assert(cv[i as int] == row.deep_view());
        let page_row = PageRow {
            ip: extract_text(rule.ip_rule.as_str(), cell_text(row, 0), &rule.replace_rules),
            port: extract_text(rule.port_rule.as_str(), cell_text(row, 1), &rule.replace_rules),
            protocol_type: extract_text(
                rule.protocol_type_rule.as_str(),
                cell_text(row, 2),
                &rule.replace_rules,
            ),
            level: extract_text(rule.level_rule.as_str(), cell_text(row, 3), &rule.replace_rules),
            region: extract_text(rule.region_rule.as_str(), cell_text(row, 4), &no_rules),
        };
        assert(page_row@ == want[i as int]);
        rows.push(page_row);
        i = i + 1;
    }
    assert(row_views(rows@) =~= want);
    rows
}

/// The texts of the fields of every table row of the page `html`, in
/// document order; none when the rule's table selector is not accepted.
pub fn page_rows(html: &str, rule: &CrawlingRule) -> (r: Option<Vec<PageRow>>)
    ensures
        match r {
            Some(rows) => page_rows_spec(html@, *rule) == Some(row_views(rows@)),
            None => page_rows_spec(html@, *rule) is None,
        },
{
    let mut fields: Vec<String> = Vec::new();
    fields.push(rule.ip_rule.clone());
    fields.push(rule.port_rule.clone());
    fields.push(rule.protocol_type_rule.clone());
    fields.push(rule.level_rule.clone());
    fields.push(rule.region_rule.clone());
    assert(fields.deep_view() =~= field_rules_of(*rule));
    match scrape_table(html, rule.table_rule.as_str(), &fields) {
        Some(cells) => Some(rows_from_cells(&cells, rule)),
        None => None,
    }
}

/// The proxies listed on the page `html` of the site of `rule`, all crawled
/// at `time`: one per table row with a non-empty address, in document order.
pub fn ip_details_from_page(html: &str, rule: &CrawlingRule, time: u64) -> (r: Vec<IpDetail>)
    ensures
        detail_views(r@) == page_details(html@, *rule, time),
{
    match page_rows(html, rule) {
        Some(rows) => details_from_rows(&rows, time),
        None => {
            let r: Vec<IpDetail> = Vec::new();
            assert(detail_views(r@) =~= Seq::<IpDetailView>::empty());
            r
        },
    }
}

} // verus!
