//! How the report is printed.
use vstd::prelude::*;

use crate::calendar::shown_time;
use crate::compliance::{reason_name, ComplianceGapModel, ComplianceKnowledgeItemModel};
use crate::compliance::{ComplianceReportModel, ComplianceRunSectionModel, GapReason};
use crate::pdf::{finished, flushed, gap_rows, gap_text, header_row, item_row, item_rows, line};
use crate::pdf::{numbered, or_dash, placed_cells, run_rows, shortened, span_text, title_rows};
use crate::pdf::{with_gap, with_row, with_rows, with_runs, with_space, CellModel, RowModel, Sheet};
use crate::text::decimal;

verus! {

/// A text is shortened to so many characters, the last three of them dots.
pub proof fn long_texts_end_in_dots(s: Seq<char>, max: nat)
    requires
        max >= 3,
    ensures
        shortened(s, max as int).len() == if s.len() <= max {
            s.len()
        } else {
            max
        },
        s.len() <= max ==> shortened(s, max as int) == s,
        s.len() > max ==> shortened(s, max as int) == s.take(max - 3) + seq!['.', '.', '.'],
{
    reveal_strlit("...");
    assert("..."@ =~= seq!['.', '.', '.']);
}

/// A row stands where the sheet has come to, fourteen millimetres from the left and sixteen
/// from the top of a page of 210 by 297; coordinates are quarter millimetres.
pub proof fn rows_stand_within_the_margins(row: RowModel, y: int, i: int)
    requires
        0 <= i < row.cells.len(),
        0 <= y <= 265,
        0 <= row.height <= 265,
        -14 <= row.cells[i].0 <= 1000,
    ensures
        placed_cells(row, y).len() == row.cells.len(),
        placed_cells(row, y)[i] == (CellModel {
            x: (4 * row.cells[i].0 + 56) as i64,
            y: (1124 - 4 * y - 3 * row.height) as i64,
            size: row.size,
            bold: row.bold,
            text: row.cells[i].1,
        }),
{
}

/// A row that does not fit into 265 millimetres begins a page.
pub proof fn full_pages_are_turned(s: Sheet, row: RowModel)
    ensures
        s.y + row.height <= 265 ==> with_space(s, row.height as int) == s,
        s.y + row.height > 265 ==> with_space(s, row.height as int) == (Sheet {
            pages: s.pages.push(s.cells),
            cells: seq![],
            y: 0,
        }),
        with_row(s, row).y == if s.y + row.height <= 265 {
            s.y + row.height
        } else {
            row.height as int
        },
        s.y + row.height <= 265 ==> with_row(s, row).cells == s.cells + placed_cells(row, s.y)
            && with_row(s, row).pages == s.pages,
        s.y + row.height > 265 ==> with_row(s, row).cells == placed_cells(row, 0) && with_row(
            s,
            row,
        ).pages == s.pages.push(s.cells),
        with_gap(s, 4).y == s.y + 4,
        with_gap(s, 4).cells == s.cells,
{
    assert(Seq::<CellModel>::empty() + placed_cells(row, 0) =~= placed_cells(row, 0));
}

/// The last page is printed where there is something on it, or where it is the only one.
pub proof fn the_last_page_is_printed(s: Sheet)
    ensures
        s.cells.len() > 0 || s.pages.len() == 0 ==> finished(s) == s.pages.push(s.cells),
        s.cells.len() == 0 && s.pages.len() > 0 ==> finished(s) == s.pages,
        finished(s).len() > 0,
{
}

/// Every page is numbered at its foot.
pub proof fn pages_are_numbered(pages: Seq<Seq<CellModel>>, i: int)
    requires
        0 <= i < pages.len(),
    ensures
        numbered(pages).len() == pages.len(),
        numbered(pages)[i] == pages[i].push(
            CellModel {
                x: 688,
                y: 40,
                size: 7,
                bold: false,
                text: "Page "@ + decimal(i + 1) + " of "@ + decimal(pages.len() as int),
            },
        ),
{
}

/// An item is a row under the heads of its columns.
pub proof fn items_stand_under_their_heads(k: ComplianceKnowledgeItemModel)
    ensures
        header_row().cells == seq![
            (0i64, "ID"@),
            (16i64, "Trust Tier"@),
            (42i64, "Source"@),
            (96i64, "Approver"@),
            (142i64, "Timestamp"@),
        ],
        item_row(k).cells == seq![
            (0i64, shortened(decimal(k.id as int), 6)),
            (16i64, shortened(k.trust, 16)),
            (42i64, shortened(or_dash(k.source), 32)),
            (96i64, shortened(or_dash(k.approver), 24)),
            (142i64, shortened(shown_time(k.updated_at), 24)),
        ],
        header_row().bold && header_row().size == 9 && header_row().height == 7,
        !item_row(k).bold && item_row(k).size == 8 && item_row(k).height == 6,
        or_dash(None) == "-"@,
        forall|t: Seq<char>| #[trigger] or_dash(Some(t)) == t,
{
}

/// A line is one cell at the margin.
pub proof fn lines_begin_at_the_margin(bold: bool, size: i64, height: i64, text: Seq<char>)
    ensures
        line(bold, size, height, text) == (RowModel {
            bold,
            size,
            height,
            cells: seq![(0i64, text)],
        }),
{
}

/// A run is told by its name, its span and its items, one row each.
pub proof fn runs_are_told_by_rows(r: ComplianceRunSectionModel)
    ensures
        run_rows(r)[0] == line(true, 13, 8, "Run: "@ + r.run_id),
        run_rows(r)[1] == line(
            false,
            9,
            6,
            decimal(r.step_count as int) + " step(s), "@ + shown_time(r.first_ts) + " to "@
                + shown_time(r.last_ts),
        ),
        run_rows(r)[2] == header_row(),
        r.knowledge_used.len() == 0 ==> run_rows(r).len() == 4 && run_rows(r)[3] == line(
            false,
            8,
            6,
            "No knowledge items recorded for this run."@,
        ),
        r.knowledge_used.len() > 0 ==> run_rows(r).len() == 3 + r.knowledge_used.len() && forall|
            i: int,
        |
            0 <= i < r.knowledge_used.len() ==> #[trigger] run_rows(r)[3 + i] == item_row(
                r.knowledge_used[i],
            ),
{
    assert(run_rows(r).skip(3) =~= item_rows(r.knowledge_used));
    assert(span_text(r) == decimal(r.step_count as int) + " step(s), "@ + shown_time(r.first_ts)
        + " to "@ + shown_time(r.last_ts));
}

/// A gap is told with its run, its step, its domain, why it is one and what was done.
pub proof fn gaps_are_told_by_rows(g: ComplianceGapModel, gaps: Seq<ComplianceGapModel>, i: int)
    requires
        0 <= i < gaps.len(),
    ensures
        gap_text(g) == "run="@ + g.run_id + " step="@ + decimal(g.step as int) + " domain="@
            + g.domain + " reason="@ + reason_name(g.reason) + " action="@ + or_dash(g.action),
        gap_rows(seq![]).len() == 0,
        gap_rows(gaps).len() == gaps.len() + 1,
        gap_rows(gaps)[0] == line(
            true,
            13,
            8,
            "Compliance Gaps (overrides / bypassed preconditions)"@,
        ),
        gap_rows(gaps)[i + 1] == line(false, 8, 6, shortened(gap_text(gaps[i]), 120)),
        reason_name(GapReason::Override) == "override"@,
        reason_name(GapReason::NoPriorRecall) == "no_prior_recall"@,
{
}

/// The report begins with its title, the run it is held to, and whether there is nothing.
pub proof fn the_report_has_a_title(r: ComplianceReportModel)
    ensures
        title_rows(r)[0] == line(true, 18, 10, "Reverse-Explainability Compliance Report"@),
        r.run_id matches Some(id) ==> title_rows(r)[1] == line(
            false,
            9,
            6,
            "Filtered to run: "@ + id,
        ),
        r.runs.len() == 0 ==> title_rows(r).last() == line(false, 10, 6, "No episodes recorded."@),
        title_rows(r).len() == 1 + (if r.run_id is Some {
            1int
        } else {
            0
        }) + (if r.runs.len() == 0 {
            1int
        } else {
            0
        }),
        flushed(crate::pdf::blank_sheet()).y == 0,
{
}

/// Rows are put on the sheet one after the other, and runs with four millimetres behind
/// each.
pub proof fn rows_are_printed_in_order(
    s: Sheet,
    rows: Seq<RowModel>,
    row: RowModel,
    runs: Seq<ComplianceRunSectionModel>,
    run: ComplianceRunSectionModel,
)
    ensures
        with_rows(s, seq![]) == s,
        with_rows(s, rows.push(row)) == with_row(with_rows(s, rows), row),
        with_runs(s, seq![]) == s,
        ({
            let before = with_rows(with_runs(s, runs), run_rows(run));
            with_runs(s, runs.push(run)) == (Sheet { y: before.y + 4, ..before })
        }),
{
    assert(rows.push(row).drop_last() =~= rows);
    assert(runs.push(run).drop_last() =~= runs);
}

} // verus!
