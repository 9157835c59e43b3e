//! What stands on the screen once the terminal has done what it was sent.

use vstd::prelude::*;

use crate::pane;
use crate::pane::PaneView;
use crate::screen::TermOpView;

verus! {

/// What stands in the rows of a screen, and the row of the cursor.
pub struct Canvas {
    /// The text of each row, counted from the top.
    pub rows: spec_fn(int) -> Seq<char>,
    /// The row of the cursor.
    pub at: int,
}

impl Canvas {
    /// The screen with the text of one row replaced.
    pub open spec fn with_row(self, row: int, text: Seq<char>) -> Canvas {
        Canvas {
            rows: |r: int|
                if r == row {
                    text
                } else {
                    (self.rows)(r)
                },
            at: self.at,
        }
    }

    /// The screen after one operation of the terminal.
    pub open spec fn after_op(self, op: TermOpView) -> Canvas {
        match op {
            TermOpView::MoveTo(_, row) => Canvas { rows: self.rows, at: row as int },
            TermOpView::MoveToNextLine(n) => Canvas { rows: self.rows, at: self.at + n },
            TermOpView::ClearLine => self.with_row(self.at, Seq::empty()),
            TermOpView::Print(text) => self.with_row(self.at, (self.rows)(self.at) + text),
            TermOpView::ScrollUp(n) => Canvas {
                rows: |r: int| (self.rows)(r + n),
                at: self.at,
            },
            TermOpView::ScrollDown(n) => Canvas {
                rows: |r: int| (self.rows)(r - n),
                at: self.at,
            },
            TermOpView::Flush => self,
        }
    }

    /// The screen after some operations, one after the other.
    pub open spec fn after(self, ops: Seq<TermOpView>) -> Canvas
        decreases ops.len(),
    {
        if ops.len() == 0 {
            self
        } else {
            self.after(ops.drop_last()).after_op(ops.last())
        }
    }
}

proof fn lemma_after_concat(canvas: Canvas, a: Seq<TermOpView>, b: Seq<TermOpView>)
    ensures
        canvas.after(a + b) == canvas.after(a).after(b),
    decreases b.len(),
{
    if b.len() == 0 {
        assert(a + b =~= a);
    } else {
        assert((a + b).drop_last() =~= a + b.drop_last());
        lemma_after_concat(canvas, a, b.drop_last());
    }
}

proof fn lemma_after_push(canvas: Canvas, a: Seq<TermOpView>, op: TermOpView)
    ensures
        canvas.after(a.push(op)) == canvas.after(a).after_op(op),
{
    assert(a.push(op).drop_last() =~= a);
}

/// One line written at a place replaces that row and leaves the others.
pub proof fn law_single_line_replaces_a_row(
    canvas: Canvas,
    location: (u16, u16),
    text: Seq<char>,
    r: int,
)
    ensures
        ({
            let after = canvas.after(pane::single_line_ops(location, text));
            &&& r == location.1 ==> (after.rows)(r) == text
            &&& r != location.1 ==> (after.rows)(r) == (canvas.rows)(r)
        }),
{
    let ops = pane::single_line_ops(location, text);
    let a = seq![TermOpView::MoveTo(location.0, location.1)];
    let b = a.push(TermOpView::ClearLine);
    let c = b.push(TermOpView::Print(text));
    assert(a =~= Seq::<TermOpView>::empty().push(TermOpView::MoveTo(location.0, location.1)));
    lemma_after_push(
        canvas,
        Seq::<TermOpView>::empty(),
        TermOpView::MoveTo(location.0, location.1),
    );
    lemma_after_push(canvas, a, TermOpView::ClearLine);
    lemma_after_push(canvas, b, TermOpView::Print(text));
    lemma_after_push(canvas, c, TermOpView::Flush);
    assert(ops =~= c.push(TermOpView::Flush));
    assert(Seq::<char>::empty() + text =~= text);
}

proof fn lemma_rows_on_screen(pane: PaneView, end: int, canvas: Canvas, r: int)
    requires
        pane.scroll_index <= end,
    ensures
        ({
            let n = end - pane.scroll_index;
            let after = canvas.after(pane.rows_up_to(end));
            &&& after.at == canvas.at + n
            &&& (after.rows)(r) == if canvas.at <= r < canvas.at + n {
                pane.shown_line(pane.scroll_index + r - canvas.at)
            } else {
                (canvas.rows)(r)
            }
        }),
    decreases end - pane.scroll_index,
{
    if pane.scroll_index < end {
        lemma_rows_on_screen(pane, end - 1, canvas, r);
        let before = pane.rows_up_to(end - 1);
        let text = pane.shown_line(end - 1);
        let a = before.push(TermOpView::ClearLine);
        let b = a.push(TermOpView::Print(text));
        lemma_after_push(canvas, before, TermOpView::ClearLine);
        lemma_after_push(canvas, a, TermOpView::Print(text));
        lemma_after_push(canvas, b, TermOpView::MoveToNextLine(1));
        assert(pane.rows_up_to(end) =~= b.push(TermOpView::MoveToNextLine(1)));
        assert(Seq::<char>::empty() + text =~= text);
    }
}

proof fn lemma_empty_rows_on_screen(n: int, canvas: Canvas, r: int)
    requires
        0 <= n,
    ensures
        ({
            let after = canvas.after(pane::empty_rows(n));
            &&& after.at == canvas.at + n
            &&& (after.rows)(r) == if canvas.at <= r < canvas.at + n {
                Seq::<char>::empty()
            } else {
                (canvas.rows)(r)
            }
        }),
    decreases n,
{
    if 0 < n {
        lemma_empty_rows_on_screen(n - 1, canvas, r);
        let before = pane::empty_rows(n - 1);
        let a = before.push(TermOpView::ClearLine);
        lemma_after_push(canvas, before, TermOpView::ClearLine);
        lemma_after_push(canvas, a, TermOpView::MoveToNextLine(1));
        assert(pane::empty_rows(n) =~= a.push(TermOpView::MoveToNextLine(1)));
    }
}

/// Once a pane is shown, whatever stood on the screen before, the lines shown stand
/// below the header in their order, the rows below them down to the status are
/// empty, and the rows outside of the pane are as they were.
pub proof fn law_pane_on_screen(pane: PaneView, canvas: Canvas, r: int)
    requires
        pane.wf(),
        pane.can_display(),
    ensures
        ({
            let after = canvas.after(pane.display_ops());
            &&& pane.header_ops()[2] == TermOpView::Print((after.rows)(0))
            &&& 1 <= r <= pane.shown() ==> (after.rows)(r) == pane.shown_line(
                pane.scroll_index + (r - 1),
            )
            &&& pane.shown() < r < pane.size.1 ==> (after.rows)(r) == Seq::<char>::empty()
            &&& r < 0 || 1 <= r && pane.size.1 <= r ==> (after.rows)(r) == (canvas.rows)(r)
        }),
{
    let header = pane.header_ops();
    let title = header[2]->Print_0;
    let top = header.push(TermOpView::MoveTo(0, 1));
    let page = pane.rows_up_to(pane.scroll_index + pane.shown());
    let empty = pane::empty_rows(pane.size.1 - 1 - pane.shown());
    law_single_line_replaces_a_row(canvas, (0, 0), title, r);
    law_single_line_replaces_a_row(canvas, (0, 0), title, 0);
    assert(header =~= pane::single_line_ops((0, 0), title));
    lemma_after_push(canvas, header, TermOpView::MoveTo(0, 1));
    let c1 = canvas.after(top);
    lemma_rows_on_screen(pane, pane.scroll_index + pane.shown(), c1, r);
    lemma_rows_on_screen(pane, pane.scroll_index + pane.shown(), c1, 0);
    let c2 = c1.after(page);
    lemma_empty_rows_on_screen(pane.size.1 - 1 - pane.shown(), c2, r);
    lemma_empty_rows_on_screen(pane.size.1 - 1 - pane.shown(), c2, 0);
    let c3 = c2.after(empty);
    lemma_after_push(c2, empty, TermOpView::Flush);
    lemma_after_concat(canvas, top, page);
    lemma_after_concat(canvas, top + page, empty.push(TermOpView::Flush));
    assert(canvas.after(pane.display_ops()) == c3);
}

proof fn lemma_scroll_on_screen(
    pane: PaneView,
    canvas: Canvas,
    op: TermOpView,
    row: u16,
    text: Seq<char>,
    r: int,
)
    ensures
        ({
            let ops = seq![op] + pane.header_ops() + pane::single_line_ops((0, row), text)
                + pane.status_ops(Seq::empty());
            let after = canvas.after(ops);
            &&& r == pane::row(pane.size.1) ==> (after.rows)(r) == Seq::<char>::empty()
            &&& r != pane::row(pane.size.1) ==> (after.rows)(r) == if r == row {
                text
            } else if r == 0 {
                pane.header_ops()[2]->Print_0
            } else {
                (canvas.after_op(op).rows)(r)
            }
        }),
{
    let header = pane.header_ops();
    let title = header[2]->Print_0;
    let line = pane::single_line_ops((0, row), text);
    let status = pane.status_ops(Seq::empty());
    let a = seq![op];
    assert(a =~= Seq::<TermOpView>::empty().push(op));
    lemma_after_push(canvas, Seq::<TermOpView>::empty(), op);
    let c1 = canvas.after(a);
    assert(header =~= pane::single_line_ops((0, 0), title));
    law_single_line_replaces_a_row(c1, (0, 0), title, r);
    let c2 = c1.after(header);
    law_single_line_replaces_a_row(c2, (0, row), text, r);
    let c3 = c2.after(line);
    law_single_line_replaces_a_row(c3, (0, pane::row(pane.size.1)), Seq::empty(), r);
    lemma_after_concat(canvas, a, header);
    lemma_after_concat(canvas, a + header, line);
    lemma_after_concat(canvas, a + header + line, status);
}

/// After scrolling down, each row between header and status holds the line that the
/// whole pane shows there, but for a highlight in the line that has come into view:
/// scrolling shows what showing the pane once more would show.
pub proof fn law_scrolling_down_keeps_the_screen(
    pane: PaneView,
    screen: Canvas,
    other: Canvas,
    r: int,
)
    requires
        pane.wf(),
        3 <= pane.size.1 < 0x1_0000,
        pane.scroll_index + (pane.size.1 - 2) < pane.lines.len(),
        pane.current_highlight matches Some(highlight) ==> highlight.line != pane.scroll_index
            + pane.size.1 - 2,
        forall|i: int|
            1 <= i <= pane.size.1 - 2 ==> #[trigger] (screen.rows)(i) == (other.after(
                pane.display_ops(),
            ).rows)(i),
        0 <= r <= pane.size.1 - 2,
    ensures
        (screen.after(pane.scroll_down_ops()).rows)(r) == (other.after(
            pane.scrolled_down().display_ops(),
        ).rows)(r),
        (screen.after(pane.scroll_down_ops()).rows)(pane.size.1) == Seq::<char>::empty(),
{
    let after = pane.scrolled_down();
    let row = pane::row(pane.size.1 - 2);
    let text = pane.lines[pane.scroll_index + pane.size.1 - 2];
    let up = TermOpView::ScrollUp(1);
    let ops = pane.scroll_down_ops();
    assert(ops =~= seq![up] + pane.header_ops() + pane::single_line_ops((0, row), text)
        + pane.status_ops(Seq::empty()));
    lemma_scroll_on_screen(pane, screen, up, row, text, r);
    lemma_scroll_on_screen(pane, screen, up, row, text, pane.size.1);
    law_pane_on_screen(after, other, r);
    assert(after.header_ops() =~= pane.header_ops());
    if 1 <= r < pane.size.1 - 2 {
        law_pane_on_screen(pane, other, r + 1);
        assert((screen.rows)(r + 1) == pane.shown_line(pane.scroll_index + r));
        assert(after.shown_line(after.scroll_index + (r - 1)) == pane.shown_line(
            pane.scroll_index + r,
        ));
    }
}

/// After scrolling up, each row between header and status holds the line that the
/// whole pane shows there, but for a highlight in the line that has come into view:
/// scrolling shows what showing the pane once more would show.
pub proof fn law_scrolling_up_keeps_the_screen(
    pane: PaneView,
    screen: Canvas,
    other: Canvas,
    r: int,
)
    requires
        pane.wf(),
        3 <= pane.size.1 < 0x1_0000,
        0 < pane.scroll_index,
        pane.current_highlight matches Some(highlight) ==> highlight.line != pane.scroll_index - 1,
        forall|i: int|
            1 <= i <= pane.size.1 - 2 ==> #[trigger] (screen.rows)(i) == (other.after(
                pane.display_ops(),
            ).rows)(i),
        0 <= r <= pane.size.1 - 2,
    ensures
        (screen.after(pane.scroll_up_ops()).rows)(r) == (other.after(
            pane.scrolled_up().display_ops(),
        ).rows)(r),
        (screen.after(pane.scroll_up_ops()).rows)(pane.size.1) == Seq::<char>::empty(),
{
    let after = pane.scrolled_up();
    let text = pane.lines[pane.scroll_index - 1];
    let down = TermOpView::ScrollDown(1);
    let ops = pane.scroll_up_ops();
    assert(ops =~= seq![down] + pane.header_ops() + pane::single_line_ops((0, 1), text)
        + pane.status_ops(Seq::empty()));
    lemma_scroll_on_screen(pane, screen, down, 1, text, r);
    lemma_scroll_on_screen(pane, screen, down, 1, text, pane.size.1);
    law_pane_on_screen(after, other, r);
    assert(after.header_ops() =~= pane.header_ops());
    if 1 < r {
        law_pane_on_screen(pane, other, r - 1);
        assert((screen.rows)(r - 1) == pane.shown_line(pane.scroll_index + (r - 2)));
        assert(after.shown_line(after.scroll_index + (r - 1)) == pane.shown_line(
            pane.scroll_index + (r - 2),
        ));
    }
}

} // verus!
