//! The layout of the compliance report on pages.
//!
//! Lengths down the page are whole millimetres, places on it quarters of a millimetre:
//! text stands on a line at three quarters of the height of its row. Drawing the pages
//! is left to the caller.
use vstd::prelude::*;

use crate::calendar::{fmt_ts, shown_time};
use crate::compliance::{reason_name, ComplianceGap, ComplianceGapModel, ComplianceKnowledgeItem};
use crate::compliance::{ComplianceKnowledgeItemModel, ComplianceReport, ComplianceReportModel};
use crate::compliance::{ComplianceRunSection, ComplianceRunSectionModel};
use crate::text::{chars, decimal, number, text_of};
use crate::types::{lemma_models_push, models};

verus! {

/// The width of a page, in millimetres.
pub const PAGE_W: i64 = 210;

/// The height of a page, in millimetres.
pub const PAGE_H: i64 = 297;

/// The left margin, in millimetres.
pub const MARGIN_L: i64 = 14;

/// The margin at the top, in millimetres.
pub const MARGIN_TOP: i64 = 16;

/// The margin at the bottom, in millimetres.
pub const MARGIN_BOTTOM: i64 = 16;

/// The height that rows may fill, in millimetres.
pub const PRINTABLE: i64 = 265;

/// A text at a place of a page.
#[derive(Debug)]
pub struct Cell {
    /// The place from the left edge, in quarters of a millimetre.
    pub x: i64,
    /// The place of the line of text from the bottom edge, in quarters of a millimetre.
    pub y: i64,
    /// The size of the letters, in points.
    pub size: i64,
    pub bold: bool,
    pub text: String,
}

/// What a [`Cell`] holds, as mathematical values.
#[verifier::ext_equal]
pub struct CellModel {
    pub x: i64,
    pub y: i64,
    pub size: i64,
    pub bold: bool,
    pub text: Seq<char>,
}

impl View for Cell {
    type V = CellModel;

    open spec fn view(&self) -> CellModel {
        CellModel {
            x: self.x,
            y: self.y,
            size: self.size,
            bold: self.bold,
            text: self.text@,
        }
    }
}

impl Clone for Cell {
    fn clone(&self) -> (r: Self)
        ensures
            r@ == self@,
    {
        Cell {
            x: self.x,
            y: self.y,
            size: self.size,
            bold: self.bold,
            text: self.text.clone(),
        }
    }
}

/// The cells of a page, in the order in which they are drawn.
#[derive(Debug)]
pub struct Page {
    pub cells: Vec<Cell>,
}

impl View for Page {
    type V = Seq<CellModel>;

    open spec fn view(&self) -> Seq<CellModel> {
        models(self.cells@)
    }
}

// ---- rows -----------------------------------------------------------------

/// A row of the report: what is written on it, and its height in millimetres. A text
/// has its place from the left margin, in millimetres.
pub struct RowModel {
    pub bold: bool,
    pub size: i64,
    pub height: i64,
    pub cells: Seq<(i64, Seq<char>)>,
}

/// A row with one text at the left margin.
pub open spec fn line(bold: bool, size: i64, height: i64, text: Seq<char>) -> RowModel {
    RowModel { bold, size, height, cells: seq![(0i64, text)] }
}

/// The rows so far: finished pages, the cells of the page at hand, and how far down it
/// the next row begins.
#[verifier::ext_equal]
pub struct Sheet {
    pub pages: Seq<Seq<CellModel>>,
    pub cells: Seq<CellModel>,
    pub y: int,
}

/// No row so far.
pub open spec fn blank_sheet() -> Sheet {
    Sheet { pages: seq![], cells: seq![], y: 0 }
}

/// The page at hand is finished.
pub open spec fn flushed(s: Sheet) -> Sheet {
    Sheet { pages: s.pages.push(s.cells), cells: seq![], y: 0 }
}

/// The page at hand, or a new one where a row of that height would not fit on it.
pub open spec fn with_space(s: Sheet, height: int) -> Sheet {
    if s.y + height > PRINTABLE {
        flushed(s)
    } else {
        s
    }
}

/// The cells of a row that begins at `y`.
pub open spec fn placed_cells(row: RowModel, y: int) -> Seq<CellModel> {
    Seq::new(
        row.cells.len(),
        |i: int|
            CellModel {
                x: (4 * (MARGIN_L + row.cells[i].0)) as i64,
                y: (4 * (PAGE_H - MARGIN_TOP - y) - 3 * row.height) as i64,
                size: row.size,
                bold: row.bold,
                text: row.cells[i].1,
            },
    )
}

/// A row more.
pub open spec fn with_row(s: Sheet, row: RowModel) -> Sheet {
    let t = with_space(s, row.height as int);
    Sheet { pages: t.pages, cells: t.cells + placed_cells(row, t.y), y: t.y + row.height }
}

/// Rows more.
pub open spec fn with_rows(s: Sheet, rows: Seq<RowModel>) -> Sheet
    decreases rows.len(),
{
    if rows.len() == 0 {
        s
    } else {
        with_row(with_rows(s, rows.drop_last()), rows.last())
    }
}

/// Some space more.
pub open spec fn with_gap(s: Sheet, height: int) -> Sheet {
    Sheet { y: s.y + height, ..s }
}

/// The pages, where the one at hand is added if it holds something, or is the only one.
pub open spec fn finished(s: Sheet) -> Seq<Seq<CellModel>> {
    if s.cells.len() > 0 || s.pages.len() == 0 {
        s.pages.push(s.cells)
    } else {
        s.pages
    }
}

/// The pages with their numbers at the foot.
pub open spec fn numbered(pages: Seq<Seq<CellModel>>) -> Seq<Seq<CellModel>> {
    Seq::new(
        pages.len(),
        |i: int|
            pages[i].push(
                CellModel {
                    x: (4 * (PAGE_W - MARGIN_L - 24)) as i64,
                    y: (4 * (MARGIN_BOTTOM - 6)) as i64,
                    size: 7,
                    bold: false,
                    text: "Page "@ + decimal(i + 1) + " of "@ + decimal(pages.len() as int),
                },
            ),
    )
}

// ---- the report in rows ---------------------------------------------------

/// A text of at most `max` characters: one that is longer ends in three dots.
pub open spec fn shortened(s: Seq<char>, max: int) -> Seq<char> {
    if s.len() <= max {
        s
    } else {
        s.take(if max >= 3 {
            max - 3
        } else {
            0
        }) + "..."@
    }
}

/// A text of at most `max` characters: one that is longer ends in three dots.
pub fn truncate(s: &str, max_chars: usize) -> (r: String)
    ensures
        r@ == shortened(s@, max_chars as int),
{
    let v: Vec<char> = chars(s);
    if v.len() <= max_chars {
        return s.to_owned();
    }
    let n: usize = if max_chars >= 3 { max_chars - 3 } else { 0 };
    let mut t: String = text_of(&v, 0, n);
    t.append("...");
    assert(t@ =~= shortened(s@, max_chars as int));
    t
}

/// The text of an optional field, or a dash.
pub open spec fn or_dash(s: Option<Seq<char>>) -> Seq<char> {
    match s {
        Some(t) => t,
        None => "-"@,
    }
}

fn text_or_dash(s: &Option<String>) -> (r: String)
    ensures
        r@ == or_dash(crate::text::opt(*s)),
{
    match s {
        Some(t) => t.clone(),
        None => "-".to_owned(),
    }
}

/// The head of the table of knowledge items.
pub open spec fn header_row() -> RowModel {
    RowModel {
        bold: true,
        size: 9,
        height: 7,
        cells: seq![
            (0i64, "ID"@),
            (16i64, "Trust Tier"@),
            (42i64, "Source"@),
            (96i64, "Approver"@),
            (142i64, "Timestamp"@),
        ],
    }
}

/// The row of a knowledge item.
pub open spec fn item_row(k: ComplianceKnowledgeItemModel) -> RowModel {
    RowModel {
        bold: false,
        size: 8,
        height: 6,
        cells: seq![
            (0i64, shortened(decimal(k.id as int), 6)),
            (16i64, shortened(k.trust, 16)),
            (42i64, shortened(or_dash(k.source), 32)),
            (96i64, shortened(or_dash(k.approver), 24)),
            (142i64, shortened(shown_time(k.updated_at), 24)),
        ],
    }
}

/// The rows of the knowledge items of a run.
pub open spec fn item_rows(items: Seq<ComplianceKnowledgeItemModel>) -> Seq<RowModel> {
    if items.len() == 0 {
        seq![line(false, 8, 6, "No knowledge items recorded for this run."@)]
    } else {
        items.map_values(|k: ComplianceKnowledgeItemModel| item_row(k))
    }
}

/// How many steps a run took, and when.
pub open spec fn span_text(r: ComplianceRunSectionModel) -> Seq<char> {
    decimal(r.step_count as int) + " step(s), "@ + shown_time(r.first_ts) + " to "@ + shown_time(
        r.last_ts,
    )
}

/// The rows of a run.
pub open spec fn run_rows(r: ComplianceRunSectionModel) -> Seq<RowModel> {
    seq![
        line(true, 13, 8, "Run: "@ + r.run_id),
        line(false, 9, 6, span_text(r)),
        header_row(),
    ] + item_rows(r.knowledge_used)
}

/// The rows of some runs, each with space behind it.
pub open spec fn with_runs(s: Sheet, runs: Seq<ComplianceRunSectionModel>) -> Sheet
    decreases runs.len(),
{
    if runs.len() == 0 {
        s
    } else {
        with_gap(with_rows(with_runs(s, runs.drop_last()), run_rows(runs.last())), 4)
    }
}

/// The line for a gap.
pub open spec fn gap_text(g: ComplianceGapModel) -> Seq<char> {
    "run="@ + g.run_id + " step="@ + decimal(g.step as int) + " domain="@ + g.domain + " reason="@
        + reason_name(g.reason) + " action="@ + or_dash(g.action)
}

/// The rows of the gaps.
pub open spec fn gap_rows(gaps: Seq<ComplianceGapModel>) -> Seq<RowModel> {
    if gaps.len() == 0 {
        seq![]
    } else {
        seq![line(true, 13, 8, "Compliance Gaps (overrides / bypassed preconditions)"@)]
            + gaps.map_values(
            |g: ComplianceGapModel| line(false, 8, 6, shortened(gap_text(g), 120)),
        )
    }
}

/// The rows that the report begins with.
pub open spec fn title_rows(r: ComplianceReportModel) -> Seq<RowModel> {
    seq![line(true, 18, 10, "Reverse-Explainability Compliance Report"@)] + (match r.run_id {
        Some(id) => seq![line(false, 9, 6, "Filtered to run: "@ + id)],
        None => seq![],
    }) + (if r.runs.len() == 0 {
        seq![line(false, 10, 6, "No episodes recorded."@)]
    } else {
        seq![]
    })
}

/// The pages of the report.
pub open spec fn report_pages(r: ComplianceReportModel) -> Seq<Seq<CellModel>> {
    let titles = with_rows(blank_sheet(), title_rows(r));
    numbered(finished(with_rows(with_runs(titles, r.runs), gap_rows(r.gaps))))
}

// ---- laying it out --------------------------------------------------------

/// A report that is being laid out.
struct Writer {
    pages: Vec<Page>,
    cells: Vec<Cell>,
    y: i64,
}

/// The texts of a row, with their places.
spec fn cell_texts(v: Seq<(i64, String)>) -> Seq<(i64, Seq<char>)> {
    Seq::new(v.len(), |i: int| (v[i].0, v[i].1@))
}

impl Writer {
    spec fn sheet(&self) -> Sheet {
        Sheet { pages: models(self.pages@), cells: models(self.cells@), y: self.y as int }
    }

    spec fn fits(&self) -> bool {
        0 <= self.y <= PRINTABLE + 4
    }

    fn new() -> (r: Self)
        ensures
            r.sheet() == blank_sheet(),
            r.fits(),
    {
        let r: Writer = Writer { pages: Vec::new(), cells: Vec::new(), y: 0 };
        assert(r.sheet() =~= blank_sheet());
        r
    }

    fn flush(&mut self)
        ensures
            final(self).sheet() == flushed(old(self).sheet()),
            final(self).fits(),
    {
        broadcast use lemma_models_push;

        let mut cells: Vec<Cell> = Vec::new();
        std::mem::swap(&mut cells, &mut self.cells);
        self.pages.push(Page { cells });
        self.y = 0;
        assert(self.sheet() =~= flushed(old(self).sheet()));
    }

    fn row(&mut self, bold: bool, size: i64, height: i64, cells: &Vec<(i64, String)>)
        requires
            old(self).fits(),
            0 <= height <= 10,
            forall|i: int| 0 <= i < cells@.len() ==> 0 <= (#[trigger] cells@[i]).0 <= 196,
        ensures
            final(self).sheet() == with_row(
                old(self).sheet(),
                (RowModel { bold, size, height, cells: cell_texts(cells@) }),
            ),
            final(self).fits(),
            final(self).y <= PRINTABLE,
    {
        let ghost row = RowModel { bold, size, height, cells: cell_texts(cells@) };
        if self.y + height > PRINTABLE {
            self.flush();
        }
        let ghost t = with_space(old(self).sheet(), height as int);
        assert(self.sheet() =~= t);
        let y: i64 = 4 * (PAGE_H - MARGIN_TOP - self.y) - 3 * height;
        let ghost all = placed_cells(row, t.y);
        let mut i: usize = 0;
        assert(t.cells + all.take(0) =~= t.cells);
        while i < cells.len()
            invariant
                i <= cells@.len(),
                forall|i: int| 0 <= i < cells@.len() ==> 0 <= (#[trigger] cells@[i]).0 <= 196,
                row == (RowModel { bold, size, height, cells: cell_texts(cells@) }),
                all == placed_cells(row, t.y),
                y == 4 * (PAGE_H - MARGIN_TOP - t.y) - 3 * height,
                self.y == t.y,
                models(self.pages@) == t.pages,
                models(self.cells@) == t.cells + all.take(i as int),
            decreases cells.len() - i,
        {
            broadcast use lemma_models_push;

            assert(0 <= cells@[i as int].0 <= 196);
            let cell: Cell = Cell {
                x: 4 * (MARGIN_L + cells[i].0),
                y,
                size,
                bold,
                text: cells[i].1.clone(),
            };
            assert(cell@ =~= all[i as int]);
            self.cells.push(cell);
            assert(models(self.cells@) =~= t.cells + all.take(i + 1));
            i += 1;
        }
        assert(all.take(i as int) =~= all);
        self.y = self.y + height;
        assert(self.sheet() =~= with_row(old(self).sheet(), row));
    }

    fn text_line(&mut self, bold: bool, size: i64, height: i64, text: &str)
        requires
            old(self).fits(),
            0 <= height <= 10,
        ensures
            final(self).sheet() == with_row(old(self).sheet(), line(bold, size, height, text@)),
            final(self).fits(),
            final(self).y <= PRINTABLE,
    {
        let mut cells: Vec<(i64, String)> = Vec::new();
        cells.push((0, text.to_owned()));
        assert(cell_texts(cells@) =~= seq![(0i64, text@)]);
        self.row(bold, size, height, &cells);
    }

    fn header(&mut self)
        requires
            old(self).fits(),
        ensures
            final(self).sheet() == with_row(old(self).sheet(), header_row()),
            final(self).fits(),
            final(self).y <= PRINTABLE,
    {
        let mut cells: Vec<(i64, String)> = Vec::new();
        cells.push((0, "ID".to_owned()));
        cells.push((16, "Trust Tier".to_owned()));
        cells.push((42, "Source".to_owned()));
        cells.push((96, "Approver".to_owned()));
        cells.push((142, "Timestamp".to_owned()));
        assert(cell_texts(cells@) =~= header_row().cells);
        self.row(true, 9, 7, &cells);
    }

    fn item(&mut self, k: &ComplianceKnowledgeItem)
        requires
            old(self).fits(),
        ensures
            final(self).sheet() == with_row(old(self).sheet(), item_row(k@)),
            final(self).fits(),
            final(self).y <= PRINTABLE,
    {
        let mut cells: Vec<(i64, String)> = Vec::new();
        cells.push((0, truncate(number(k.id as i128).as_str(), 6)));
        cells.push((16, truncate(k.trust.as_str(), 16)));
        cells.push((42, truncate(text_or_dash(&k.source).as_str(), 32)));
        cells.push((96, truncate(text_or_dash(&k.approver).as_str(), 24)));
        cells.push((142, truncate(fmt_ts(k.updated_at).as_str(), 24)));
        assert(cell_texts(cells@) =~= item_row(k@).cells);
        self.row(false, 8, 6, &cells);
    }

    fn items(&mut self, items: &Vec<ComplianceKnowledgeItem>)
        requires
            old(self).fits(),
        ensures
            final(self).sheet() == with_rows(old(self).sheet(), item_rows(models(items@))),
            final(self).fits(),
            final(self).y <= PRINTABLE,
    {
        let ghost start = self.sheet();
        let ghost rows = item_rows(models(items@));
        if items.len() == 0 {
            self.text_line(false, 8, 6, "No knowledge items recorded for this run.");
            proof {
                lemma_one_row(start, rows[0]);
                assert(rows =~= seq![rows[0]]);
            }
            return;
        }
        let mut i: usize = 0;
        assert(rows.take(0) =~= seq![]);
        while i < items.len()
            invariant
                i <= items@.len(),
                items@.len() > 0,
                rows == item_rows(models(items@)),
                self.fits(),
                i > 0 ==> self.y <= PRINTABLE,
                self.sheet() == with_rows(start, rows.take(i as int)),
            decreases items.len() - i,
        {
            assert(rows.take(i + 1).drop_last() =~= rows.take(i as int));
            assert(rows[i as int] == item_row(items@[i as int]@));
            self.item(&items[i]);
            i += 1;
        }
        assert(rows.take(i as int) =~= rows);
    }

    fn run(&mut self, r: &ComplianceRunSection)
        requires
            old(self).fits(),
        ensures
            final(self).sheet() == with_gap(with_rows(old(self).sheet(), run_rows(r@)), 4),
            final(self).fits(),
    {
        let ghost start = self.sheet();
        let mut title: String = "Run: ".to_owned();
        title.append(r.run_id.as_str());
        self.text_line(true, 13, 8, title.as_str());
        let mut span: String = number(r.step_count as i128);
        span.append(" step(s), ");
        span.append(fmt_ts(r.first_ts).as_str());
        span.append(" to ");
        span.append(fmt_ts(r.last_ts).as_str());
        self.text_line(false, 9, 6, span.as_str());
        self.header();
        self.items(&r.knowledge_used);
        proof {
            let head = seq![
                line(true, 13, 8, "Run: "@ + r@.run_id),
                line(false, 9, 6, span_text(r@)),
                header_row(),
            ];
            lemma_three_rows(start, head[0], head[1], head[2]);
            assert(head =~= seq![head[0], head[1], head[2]]);
            lemma_rows_append(start, head, item_rows(r@.knowledge_used));
        }
        self.y = self.y + 4;
        assert(self.sheet() =~= with_gap(with_rows(start, run_rows(r@)), 4));
    }

    fn gap(&mut self, g: &ComplianceGap)
        requires
            old(self).fits(),
        ensures
            final(self).sheet() == with_row(
                old(self).sheet(),
                line(false, 8, 6, shortened(gap_text(g@), 120)),
            ),
            final(self).fits(),
    {
        let mut t: String = "run=".to_owned();
        t.append(g.run_id.as_str());
        t.append(" step=");
        t.append(number(g.step as i128).as_str());
        t.append(" domain=");
        t.append(g.domain.as_str());
        t.append(" reason=");
        t.append(g.reason.as_str());
        t.append(" action=");
        t.append(text_or_dash(&g.action).as_str());
        assert(t@ =~= gap_text(g@));
        self.text_line(false, 8, 6, truncate(t.as_str(), 120).as_str());
    }

    fn gaps(&mut self, gaps: &Vec<ComplianceGap>)
        requires
            old(self).fits(),
        ensures
            final(self).sheet() == with_rows(old(self).sheet(), gap_rows(models(gaps@))),
            final(self).fits(),
    {
        let ghost start = self.sheet();
        let ghost rows = gap_rows(models(gaps@));
        if gaps.len() == 0 {
            return;
        }
        self.text_line(true, 13, 8, "Compliance Gaps (overrides / bypassed preconditions)");
        proof {
            lemma_one_row(start, rows[0]);
            assert(rows.take(1) =~= seq![rows[0]]);
        }
        let mut i: usize = 0;
        while i < gaps.len()
            invariant
                i <= gaps@.len(),
                gaps@.len() > 0,
                rows == gap_rows(models(gaps@)),
                self.fits(),
                self.sheet() == with_rows(start, rows.take(i + 1)),
            decreases gaps.len() - i,
        {
            assert(rows.take(i + 2).drop_last() =~= rows.take(i + 1));
            assert(rows.take(i + 2).last() == line(
                false,
                8,
                6,
                shortened(gap_text(gaps@[i as int]@), 120),
            ));
            self.gap(&gaps[i]);
            i += 1;
        }
        assert(rows.take(i + 1) =~= rows);
    }

    fn titles(&mut self, r: &ComplianceReport)
        requires
            old(self).fits(),
        ensures
            final(self).sheet() == with_rows(old(self).sheet(), title_rows(r@)),
            final(self).fits(),
    {
        let ghost start = self.sheet();
        let ghost a = line(true, 18, 10, "Reverse-Explainability Compliance Report"@);
        self.text_line(true, 18, 10, "Reverse-Explainability Compliance Report");
        let ghost mut rows = seq![a];
        proof {
            lemma_one_row(start, a);
        }
        assert(self.sheet() == with_rows(start, rows));
        if let Some(id) = &r.run_id {
            let mut t: String = "Filtered to run: ".to_owned();
            t.append(id.as_str());
            self.text_line(false, 9, 6, t.as_str());
            proof {
                let b = line(false, 9, 6, "Filtered to run: "@ + id@);
                assert(rows.push(b).drop_last() =~= rows);
                rows = rows.push(b);
            }
            assert(self.sheet() == with_rows(start, rows));
        }
        if r.runs.len() == 0 {
            self.text_line(false, 10, 6, "No episodes recorded.");
            proof {
                let c = line(false, 10, 6, "No episodes recorded."@);
                assert(rows.push(c).drop_last() =~= rows);
                rows = rows.push(c);
            }
            assert(self.sheet() == with_rows(start, rows));
        }
        assert(rows =~= title_rows(r@));
        assert(self.sheet() == with_rows(start, rows));
    }

    fn runs(&mut self, runs: &Vec<ComplianceRunSection>)
        requires
            old(self).fits(),
        ensures
            final(self).sheet() == with_runs(old(self).sheet(), models(runs@)),
            final(self).fits(),
    {
        let ghost start = self.sheet();
        let ghost all = models(runs@);
        let mut i: usize = 0;
        assert(all.take(0) =~= seq![]);
        while i < runs.len()
            invariant
                i <= runs@.len(),
                all == models(runs@),
                self.fits(),
                self.sheet() == with_runs(start, all.take(i as int)),
            decreases runs.len() - i,
        {
            assert(all.take(i + 1).drop_last() =~= all.take(i as int));
            assert(all.take(i + 1).last() == runs@[i as int]@);
            self.run(&runs[i]);
            i += 1;
        }
        assert(all.take(i as int) =~= all);
    }
}

proof fn lemma_one_row(s: Sheet, row: RowModel)
    ensures
        with_rows(s, seq![row]) == with_row(s, row),
{
    assert(seq![row].drop_last() =~= Seq::<RowModel>::empty());
    assert(with_rows(s, Seq::<RowModel>::empty()) == s);
}

proof fn lemma_three_rows(s: Sheet, a: RowModel, b: RowModel, c: RowModel)
    ensures
        with_rows(s, seq![a, b, c]) == with_row(with_row(with_row(s, a), b), c),
{
    assert(seq![a, b, c].drop_last() =~= seq![a, b]);
    assert(seq![a, b].drop_last() =~= seq![a]);
    lemma_one_row(s, a);
    assert(with_rows(s, seq![a, b]) == with_row(with_rows(s, seq![a]), b));
}

/// Rows are laid out one after the other.
pub proof fn lemma_rows_append(s: Sheet, a: Seq<RowModel>, b: Seq<RowModel>)
    ensures
        with_rows(s, a + b) == with_rows(with_rows(s, a), b),
    decreases b.len(),
{
    if b.len() == 0 {
        assert(a + b =~= a);
    } else {
        assert((a + b).drop_last() =~= a + b.drop_last());
        lemma_rows_append(s, a, b.drop_last());
    }
}

/// Lays the report out on pages: a title, a section with a table for each run, and the
/// gaps; rows that do not fit begin a new page, and every page is numbered.
pub fn layout_compliance_report(report: &ComplianceReport) -> (r: Vec<Page>)
    ensures
        models(r@) == report_pages(report@),
{
    let mut w: Writer = Writer::new();
    w.titles(report);
    w.runs(&report.runs);
    w.gaps(&report.gaps);
    let ghost sheet = w.sheet();
    if w.cells.len() > 0 || w.pages.len() == 0 {
        w.flush();
    }
    assert(models(w.pages@) =~= finished(sheet));
    let total: usize = w.pages.len();
    let mut out: Vec<Page> = Vec::new();
    let ghost all = numbered(finished(sheet));
    let mut rest: Vec<Page> = w.pages;
    let ghost pages = models(rest@);
    let mut i: usize = 0;
    for page in it: rest
        invariant
            models(it.seq()) == pages,
            all == numbered(pages),
            pages.len() == total,
            i == it.index(),
            models(out@) == all.take(i as int),
    {
        broadcast use lemma_models_push;

        let mut t: String = "Page ".to_owned();
        t.append(number(i as i128 + 1).as_str());
        t.append(" of ");
        t.append(number(total as i128).as_str());
        let foot: Cell = Cell {
            x: 4 * (PAGE_W - MARGIN_L - 24),
            y: 4 * (MARGIN_BOTTOM - 6),
            size: 7,
            bold: false,
            text: t,
        };
        let mut cells: Vec<Cell> = page.cells;
        assert(models(cells@) == pages[i as int]);
        cells.push(foot);
        let p: Page = Page { cells };
        assert(p@ =~= all[i as int]);
        out.push(p);
        assert(models(out@) =~= all.take(i + 1));
        i += 1;
    }
    assert(models(out@) =~= all);
    out
}

// ---- what stands on the pages ---------------------------------------------

/// The texts of some cells.
pub open spec fn texts_on(cells: Seq<CellModel>) -> Seq<Seq<char>> {
    cells.map_values(|c: CellModel| c.text)
}

/// The texts of some pages, page by page.
pub open spec fn page_texts(pages: Seq<Seq<CellModel>>) -> Seq<Seq<char>>
    decreases pages.len(),
{
    if pages.len() == 0 {
        seq![]
    } else {
        page_texts(pages.drop_last()) + texts_on(pages.last())
    }
}

/// The texts of some rows, row by row.
pub open spec fn row_texts(rows: Seq<RowModel>) -> Seq<Seq<char>>
    decreases rows.len(),
{
    if rows.len() == 0 {
        seq![]
    } else {
        row_texts(rows.drop_last()) + rows.last().cells.map_values(
            |c: (i64, Seq<char>)| c.1,
        )
    }
}

/// The rows of all runs, run by run.
pub open spec fn all_run_rows(runs: Seq<ComplianceRunSectionModel>) -> Seq<RowModel>
    decreases runs.len(),
{
    if runs.len() == 0 {
        seq![]
    } else {
        all_run_rows(runs.drop_last()) + run_rows(runs.last())
    }
}

/// The rows of the report, in their order.
pub open spec fn report_rows(r: ComplianceReportModel) -> Seq<RowModel> {
    title_rows(r) + all_run_rows(r.runs) + gap_rows(r.gaps)
}

/// The pages without what stands at their feet.
pub open spec fn without_feet(pages: Seq<Seq<CellModel>>) -> Seq<Seq<CellModel>> {
    pages.map_values(|p: Seq<CellModel>| p.drop_last())
}

/// Whether a cell lies between the margins.
pub open spec fn inside(c: CellModel) -> bool {
    4 * MARGIN_BOTTOM <= c.y <= 4 * (PAGE_H - MARGIN_TOP) && 4 * MARGIN_L <= c.x <= 4 * PAGE_W
}

/// Whether all cells of some pages lie between the margins.
pub open spec fn all_inside(pages: Seq<Seq<CellModel>>) -> bool {
    forall|i: int, j: int|
        0 <= i < pages.len() && 0 <= j < pages[i].len() ==> inside(#[trigger] pages[i][j])
}

/// Whether a row is one that fits on a page.
spec fn is_low(row: RowModel) -> bool {
    0 <= row.height <= 10 && forall|i: int|
        0 <= i < row.cells.len() ==> 0 <= (#[trigger] row.cells[i]).0 <= 142
}

spec fn all_low(rows: Seq<RowModel>) -> bool {
    forall|i: int| 0 <= i < rows.len() ==> is_low(#[trigger] rows[i])
}

/// Whether what is laid out so far lies between the margins.
spec fn sound(s: Sheet) -> bool {
    s.y >= 0 && all_inside(s.pages) && forall|j: int|
        0 <= j < s.cells.len() ==> inside(#[trigger] s.cells[j])
}

/// The texts laid out so far.
spec fn sheet_texts(s: Sheet) -> Seq<Seq<char>> {
    page_texts(s.pages) + texts_on(s.cells)
}

proof fn lemma_with_row(s: Sheet, row: RowModel)
    requires
        sound(s),
        is_low(row),
    ensures
        sound(with_row(s, row)),
        sheet_texts(with_row(s, row)) == sheet_texts(s) + row.cells.map_values(
            |c: (i64, Seq<char>)| c.1,
        ),
{
    let t = with_space(s, row.height as int);
    let r = with_row(s, row);
    let f = |c: (i64, Seq<char>)| c.1;
    if s.y + row.height > PRINTABLE {
        assert(t.pages.drop_last() =~= s.pages);
        assert(sheet_texts(t) =~= sheet_texts(s));
        assert(all_inside(t.pages)) by {
            assert forall|i: int, j: int|
                0 <= i < t.pages.len() && 0 <= j < t.pages[i].len() implies inside(
                #[trigger] t.pages[i][j],
            ) by {
                if i < s.pages.len() {
                    assert(t.pages[i] == s.pages[i]);
                    assert(inside(s.pages[i][j]));
                } else {
                    assert(inside(s.cells[j]));
                }
            }
        }
    }
    let new = placed_cells(row, t.y);
    assert forall|j: int| 0 <= j < r.cells.len() implies inside(#[trigger] r.cells[j]) by {
        if j < t.cells.len() {
            assert(r.cells[j] == t.cells[j]);
            assert(inside(s.cells[j]));
        } else {
            let i = j - t.cells.len();
            assert(r.cells[j] == new[i]);
            assert(0 <= row.cells[i].0 <= 142);
        }
    }
    assert(texts_on(new) =~= row.cells.map_values(f));
    assert(texts_on(r.cells) =~= texts_on(t.cells) + texts_on(new));
    assert(sheet_texts(r) =~= sheet_texts(t) + row.cells.map_values(f));
}

proof fn lemma_with_rows(s: Sheet, rows: Seq<RowModel>)
    requires
        sound(s),
        all_low(rows),
    ensures
        sound(with_rows(s, rows)),
        sheet_texts(with_rows(s, rows)) == sheet_texts(s) + row_texts(rows),
    decreases rows.len(),
{
    if rows.len() > 0 {
        let d = rows.drop_last();
        assert forall|i: int| 0 <= i < d.len() implies is_low(#[trigger] d[i]) by {
            assert(d[i] == rows[i]);
        }
        lemma_with_rows(s, d);
        assert(is_low(rows[rows.len() - 1]));
        lemma_with_row(with_rows(s, d), rows.last());
        assert(sheet_texts(with_rows(s, rows)) =~= sheet_texts(s) + row_texts(rows));
    } else {
        assert(sheet_texts(s) + row_texts(rows) =~= sheet_texts(s));
    }
}

proof fn lemma_row_texts_add(a: Seq<RowModel>, b: Seq<RowModel>)
    ensures
        row_texts(a + b) == row_texts(a) + row_texts(b),
    decreases b.len(),
{
    if b.len() > 0 {
        lemma_row_texts_add(a, b.drop_last());
        assert((a + b).drop_last() =~= a + b.drop_last());
        assert((a + b).last() == b.last());
        assert(row_texts(a + b) =~= row_texts(a) + row_texts(b));
    } else {
        assert(a + b =~= a);
        assert(row_texts(a) + row_texts(b) =~= row_texts(a));
    }
}

proof fn lemma_run_rows_low(r: ComplianceRunSectionModel)
    ensures
        all_low(run_rows(r)),
{
    let items = item_rows(r.knowledge_used);
    assert forall|i: int| 0 <= i < items.len() implies is_low(#[trigger] items[i]) by {
        if r.knowledge_used.len() > 0 {
            assert(items[i] == item_row(r.knowledge_used[i]));
        }
    }
    let rows = run_rows(r);
    assert forall|i: int| 0 <= i < rows.len() implies is_low(#[trigger] rows[i]) by {
        if i >= 3 {
            assert(rows[i] == items[i - 3]);
        }
    }
}

proof fn lemma_with_runs(s: Sheet, runs: Seq<ComplianceRunSectionModel>)
    requires
        sound(s),
    ensures
        sound(with_runs(s, runs)),
        sheet_texts(with_runs(s, runs)) == sheet_texts(s) + row_texts(all_run_rows(runs)),
    decreases runs.len(),
{
    if runs.len() > 0 {
        let d = runs.drop_last();
        lemma_with_runs(s, d);
        lemma_run_rows_low(runs.last());
        lemma_with_rows(with_runs(s, d), run_rows(runs.last()));
        lemma_row_texts_add(all_run_rows(d), run_rows(runs.last()));
        assert(sheet_texts(with_runs(s, runs)) =~= sheet_texts(s) + row_texts(all_run_rows(runs)));
    } else {
        assert(sheet_texts(s) + row_texts(all_run_rows(runs)) =~= sheet_texts(s));
    }
}

/// The report is printed whole: the pages hold the texts of its rows, each once and in
/// their order, and all of it lies between the margins.
pub proof fn the_report_is_printed_whole(r: ComplianceReportModel)
    ensures
        page_texts(without_feet(report_pages(r))) == row_texts(report_rows(r)),
        all_inside(without_feet(report_pages(r))),
{
    let s = blank_sheet();
    let titles = title_rows(r);
    let gaps = gap_rows(r.gaps);
    assert(all_low(titles));
    assert forall|i: int| 0 <= i < gaps.len() implies is_low(#[trigger] gaps[i]) by {
        if i > 0 {
            assert(gaps[i] == line(false, 8, 6, shortened(gap_text(r.gaps[i - 1]), 120)));
        }
    }
    lemma_with_rows(s, titles);
    let a = with_rows(s, titles);
    lemma_with_runs(a, r.runs);
    let b = with_runs(a, r.runs);
    lemma_with_rows(b, gaps);
    let c = with_rows(b, gaps);
    lemma_row_texts_add(titles, all_run_rows(r.runs));
    lemma_row_texts_add(titles + all_run_rows(r.runs), gaps);
    assert(sheet_texts(s) =~= seq![]);
    assert(sheet_texts(c) =~= row_texts(report_rows(r)));
    let pages = finished(c);
    assert(page_texts(pages) =~= sheet_texts(c)) by {
        if c.cells.len() > 0 || c.pages.len() == 0 {
            assert(pages.drop_last() =~= c.pages);
        } else {
            assert(texts_on(c.cells) =~= seq![]);
        }
    }
    let bare = without_feet(report_pages(r));
    assert forall|i: int| 0 <= i < pages.len() implies #[trigger] bare[i] == pages[i] by {
        assert(numbered(pages)[i].drop_last() =~= pages[i]);
    }
    assert(bare =~= pages);
    assert forall|i: int, j: int| 0 <= i < pages.len() && 0 <= j < pages[i].len() implies inside(
        #[trigger] pages[i][j],
    ) by {
        if i < c.pages.len() {
            assert(pages[i] == c.pages[i]);
            assert(inside(c.pages[i][j]));
        } else {
            assert(inside(c.cells[j]));
        }
    }
}

} // verus!
