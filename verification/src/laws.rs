//! What holds of the reader as a whole.

use vstd::prelude::*;
use vstd::utf8::*;

use crate::input::Key;
use crate::link;
use crate::pane;
use crate::pane::PaneView;
use crate::screen::TermOpView;
use crate::terki::{Location, StoreView, TerkiView};
use crate::text;

verus! {

/// A page that is displayed is in the active pane, wherever it was put, and the
/// reader stays sound.
pub proof fn law_displayed_page_is_active(
    terki: TerkiView,
    wiki: Seq<char>,
    slug: Seq<char>,
    lines: Seq<Seq<char>>,
    location: Location,
)
    requires
        terki.wf(),
        terki.wikis.contains_key(wiki),
    ensures
        terki.placed(terki.page(wiki, slug, lines), location).active() == terki.page(
            wiki,
            slug,
            lines,
        ),
        terki.placed(terki.page(wiki, slug, lines), location).wf(),
{
    let pane = terki.page(wiki, slug, lines);
    assert(terki.fits(pane));
    crate::terki::lemma_placed(terki, pane, location);
}

/// Closing the pane that was opened behind the active one leaves the panes as
/// they were. The active pane is the one it was if that was the last one, and
/// else the one behind it.
pub proof fn law_close_undoes_open(terki: TerkiView, pane: PaneView)
    requires
        terki.wf(),
        0 < terki.panes.len(),
    ensures
        terki.placed(pane, Location::Next).closed().panes == terki.panes,
        terki.placed(pane, Location::Next).closed() == terki.turned_to(terki.next()),
{
    let opened = terki.placed(pane, Location::Next);
    assert(opened.panes.remove(terki.active_pane + 1) =~= terki.panes);
}

/// Replacing the active pane changes no other pane, and their number not at all.
pub proof fn law_replace_keeps_the_others(terki: TerkiView, pane: PaneView, i: int)
    requires
        terki.wf(),
        0 <= i < terki.panes.len(),
        i != terki.active_pane,
    ensures
        terki.placed(pane, Location::Replace).panes.len() == terki.panes.len(),
        terki.placed(pane, Location::Replace).panes[i] == terki.panes[i],
        terki.placed(pane, Location::Replace).active_pane == terki.active_pane,
{
}

/// The last pane is never closed: closing leaves one pane less, but at least one.
pub proof fn law_last_pane_stays(terki: TerkiView)
    requires
        terki.wf(),
        0 < terki.panes.len(),
    ensures
        terki.closed().wf(),
        terki.panes.len() == 1 ==> terki.closed() == terki,
        terki.panes.len() > 1 ==> terki.closed().panes.len() == terki.panes.len() - 1,
{
    crate::terki::lemma_closed(terki);
}

/// Turning to the previous pane undoes turning to the next one, where there was a
/// next one, and the other way round.
pub proof fn law_turning_back(terki: TerkiView)
    requires
        terki.wf(),
        0 < terki.panes.len(),
    ensures
        terki.next() != terki.active_pane ==> {
            let turned = terki.turned_to(terki.next());
            turned.turned_to(turned.previous()) == terki
        },
        terki.previous() != terki.active_pane ==> {
            let turned = terki.turned_to(terki.previous());
            turned.turned_to(turned.next()) == terki
        },
{
}

/// Scrolling up undoes scrolling down, where that moved the page, and the other
/// way round.
pub proof fn law_scrolling_back(pane: PaneView)
    requires
        pane.wf(),
    ensures
        pane.can_scroll_down() ==> pane.scrolled_down().scrolled_up() == pane,
        0 < pane.scroll_index ==> pane.scrolled_up().scrolled_down() == pane,
{
}

/// A page cannot be scrolled down any further exactly when its last line is shown.
pub proof fn law_scrolling_ends_at_the_last_line(pane: PaneView)
    requires
        pane.wf(),
        3 <= pane.size.1,
    ensures
        !pane.can_scroll_down() <==> pane.scroll_index + pane.shown() == pane.lines.len(),
{
}

/// The line that scrolling writes is the one that the whole pane shows in that
/// place, but for the highlight: the last one after scrolling down, the first one
/// after scrolling up.
pub proof fn law_scrolling_writes_what_is_shown(pane: PaneView)
    requires
        pane.wf(),
        3 <= pane.size.1,
    ensures
        pane.can_scroll_down() ==> {
            let after = pane.scrolled_down();
            let last = after.scroll_index + after.shown() - 1;
            &&& pane.scroll_down_ops().contains(TermOpView::Print(pane.lines[last]))
            &&& last == pane.scroll_index + pane.size.1 - 2
            &&& !after.highlights(last) ==> after.shown_line(last) == pane.lines[last]
        },
        0 < pane.scroll_index ==> {
            let after = pane.scrolled_up();
            &&& pane.scroll_up_ops().contains(TermOpView::Print(pane.lines[after.scroll_index]))
            &&& 0 < after.shown()
            &&& !after.highlights(after.scroll_index) ==> after.shown_line(after.scroll_index)
                == pane.lines[after.scroll_index]
        },
{
    let n = 1int + pane.header_ops().len();
    if pane.can_scroll_down() {
        let last = pane.scroll_index + pane.size.1 - 2;
        assert(pane.scroll_down_ops()[n + 2] == TermOpView::Print(pane.lines[last]));
    }
    if 0 < pane.scroll_index {
        assert(pane.scroll_up_ops()[n + 2] == TermOpView::Print(
            pane.lines[pane.scroll_index - 1],
        ));
    }
}

/// How often the cursor goes to the next row.
pub open spec fn row_moves(ops: Seq<TermOpView>) -> int
    decreases ops.len(),
{
    if ops.len() == 0 {
        0
    } else {
        row_moves(ops.drop_last()) + if ops.last() is MoveToNextLine {
            1int
        } else {
            0
        }
    }
}

proof fn lemma_row_moves_concat(a: Seq<TermOpView>, b: Seq<TermOpView>)
    ensures
        row_moves(a + b) == row_moves(a) + row_moves(b),
    decreases b.len(),
{
    if b.len() == 0 {
        assert(a + b =~= a);
    } else {
        assert((a + b).drop_last() =~= a + b.drop_last());
        lemma_row_moves_concat(a, b.drop_last());
    }
}

proof fn lemma_row_moves_of_rows(pane: PaneView, end: int)
    requires
        pane.scroll_index <= end,
    ensures
        row_moves(pane.rows_up_to(end)) == end - pane.scroll_index,
    decreases end - pane.scroll_index,
{
    if pane.scroll_index < end {
        lemma_row_moves_of_rows(pane, end - 1);
        let row = seq![
            TermOpView::ClearLine,
            TermOpView::Print(pane.shown_line(end - 1)),
            TermOpView::MoveToNextLine(1),
        ];
        lemma_row_moves_concat(pane.rows_up_to(end - 1), row);
        reveal_with_fuel(row_moves, 4);
    }
}

proof fn lemma_row_moves_of_empty_rows(n: int)
    requires
        0 <= n,
    ensures
        row_moves(pane::empty_rows(n)) == n,
    decreases n,
{
    if 0 < n {
        lemma_row_moves_of_empty_rows(n - 1);
        let row = seq![TermOpView::ClearLine, TermOpView::MoveToNextLine(1)];
        lemma_row_moves_concat(pane::empty_rows(n - 1), row);
        reveal_with_fuel(row_moves, 3);
    }
}

/// Showing a pane goes down all rows below the header, no more and no less,
/// whatever the length of the page and wherever it is scrolled to.
pub proof fn law_display_fills_the_screen(pane: PaneView)
    requires
        pane.wf(),
        pane.can_display(),
    ensures
        row_moves(pane.display_ops()) == pane.size.1 - 1,
{
    let top = pane.header_ops().push(TermOpView::MoveTo(0, 1));
    let page = pane.rows_up_to(pane.scroll_index + pane.shown());
    let empty = pane::empty_rows(pane.size.1 - 1 - pane.shown());
    reveal_with_fuel(row_moves, 6);
    assert(row_moves(top) == 0);
    lemma_row_moves_of_rows(pane, pane.scroll_index + pane.shown());
    lemma_row_moves_of_empty_rows(pane.size.1 - 1 - pane.shown());
    assert(empty.push(TermOpView::Flush).drop_last() =~= empty);
    lemma_row_moves_concat(top, page);
    lemma_row_moves_concat(top + page, empty.push(TermOpView::Flush));
}

proof fn lemma_rows(pane: PaneView, end: int, k: int)
    requires
        0 <= k,
        pane.scroll_index + k <= end,
    ensures
        pane.rows_up_to(end).len() == 3 * (end - pane.scroll_index),
        pane.rows_up_to(end).take(3 * k) == pane.rows_up_to(pane.scroll_index + k),
    decreases end - pane.scroll_index,
{
    if pane.scroll_index + k < end {
        lemma_rows(pane, end - 1, k);
        assert(pane.rows_up_to(end).take(3 * k) =~= pane.rows_up_to(end - 1).take(3 * k));
    } else {
        if pane.scroll_index < end {
            lemma_rows(pane, end - 1, k - 1);
        }
        assert(pane.rows_up_to(end).take(3 * k) =~= pane.rows_up_to(end));
    }
}

/// Each line that a pane shows stands in a row of its own: the cursor is put in
/// the row below the header, and the line that has `k` lines shown above it is
/// written `k` rows further down.
pub proof fn law_lines_stand_in_rows(pane: PaneView, k: int)
    requires
        pane.wf(),
        pane.can_display(),
        0 <= k < pane.shown(),
    ensures
        pane.display_ops()[4] == TermOpView::MoveTo(0, 1),
        pane.display_ops()[3 * k + 6] == TermOpView::Print(
            pane.shown_line(pane.scroll_index + k),
        ),
        row_moves(pane.display_ops().take(3 * k + 6)) == k,
{
    let ops = pane.display_ops();
    let top = pane.header_ops().push(TermOpView::MoveTo(0, 1));
    let end = pane.scroll_index + pane.shown();
    let rows = pane.rows_up_to(end);
    let before = pane.rows_up_to(pane.scroll_index + k);
    lemma_rows(pane, end, k);
    lemma_rows(pane, end, k + 1);
    lemma_rows(pane, pane.scroll_index + k, k);
    let upto = rows.take(3 * (k + 1));
    assert(upto == pane.rows_up_to(pane.scroll_index + k + 1));
    assert(upto[3 * k + 1] == rows[3 * k + 1]);
    assert(upto[3 * k] == rows[3 * k]);
    assert(ops[3 * k + 6] == rows[3 * k + 1]);
    let start = seq![TermOpView::ClearLine];
    assert(ops.take(3 * k + 6) =~= top + before + start) by {
        assert forall|i: int| 0 <= i < 3 * k implies before[i] == rows[i] by {
            assert(rows.take(3 * k)[i] == rows[i]);
        }
    }
    reveal_with_fuel(row_moves, 6);
    assert(row_moves(top) == 0);
    assert(row_moves(start) == 0);
    lemma_row_moves_of_rows(pane, pane.scroll_index + k);
    lemma_row_moves_concat(top, before);
    lemma_row_moves_concat(top + before, start);
}

/// In a pane that is not scrolled, the line in which a click in a row looks for a
/// link is the line that stands in that row, but for the highlight.
pub proof fn law_click_reads_the_line_in_its_row(pane: PaneView, y: int)
    requires
        pane.wf(),
        pane.can_display(),
        pane.scroll_index == 0,
        1 <= y <= pane.shown(),
    ensures
        pane.display_ops()[4] == TermOpView::MoveTo(0, 1),
        pane.display_ops()[3 * y + 3] == TermOpView::Print(pane.shown_line(y - 1)),
        !pane.highlights(y - 1) ==> pane.shown_line(y - 1) == pane.lines[y - 1],
        row_moves(pane.display_ops().take(3 * y + 3)) == y - 1,
{
    law_lines_stand_in_rows(pane, y - 1);
}

/// The header is as wide as the screen, or as its text if that is wider, and the
/// text stands in it with as many blanks before it as behind it, or one less.
pub proof fn law_header_is_centered(title: Seq<char>, width: int)
    requires
        0 <= width,
    ensures
        ({
            let header = text::centered(title, width);
            let before = (header.len() - title.len()) / 2;
            let behind = header.len() - title.len() - before;
            &&& header.len() == if title.len() < width {
                width
            } else {
                title.len() as int
            }
            &&& header == text::blanks(before) + title + text::blanks(behind)
            &&& before <= behind <= before + 1
        }),
{
}

/// Keys turn, scroll, highlight and close, but never change a page.
pub proof fn law_keys_change_no_page(terki: TerkiView, key: Key, i: int)
    requires
        terki.wf(),
        key != Key::Char('x'),
        0 <= i < terki.panes.len(),
    ensures
        terki.after_key(key).panes.len() == terki.panes.len(),
        ({
            let before = terki.panes[i];
            let after = terki.after_key(key).panes[i];
            &&& after.store == before.store
            &&& after.wiki == before.wiki
            &&& after.slug == before.slug
            &&& after.lines == before.lines
            &&& after.size == before.size
            &&& i != terki.active_pane ==> after == before
        }),
{
}

/// A wiki that was added is known under its name, with its store, and the other
/// wikis are known as before.
pub proof fn law_added_wiki_is_known(
    terki: TerkiView,
    name: Seq<char>,
    store: StoreView,
    other: Seq<char>,
)
    ensures
        terki.with_wiki(name, store).wikis.contains_key(name),
        terki.with_wiki(name, store).wikis[name] == store,
        other != name ==> {
            let after = terki.with_wiki(name, store).wikis;
            &&& after.contains_key(other) == terki.wikis.contains_key(other)
            &&& terki.wikis.contains_key(other) ==> after[other] == terki.wikis[other]
        },
{
}

/// A page that a command asks for belongs to a wiki that is known, so displaying
/// it does not fail for want of the wiki.
pub proof fn law_open_finds_its_wiki(terki: TerkiView, words: Seq<Seq<char>>)
    requires
        terki.wf(),
        0 < terki.panes.len(),
        terki.request(words) is Some,
    ensures
        terki.after_words(words).wikis.contains_key(terki.request(words)->0.wiki),
{
    assert(terki.fits(terki.panes[terki.active_pane]));
}

/// The name of a page holds no blank.
pub proof fn law_slug_has_no_blank(link: Seq<char>, i: int)
    requires
        0 <= i < link::slug_of(link).len(),
    ensures
        link::slug_of(link)[i] != ' ',
{
}

/// A search finds the first place: the pattern stands there, in no line before it
/// and nowhere before it in its line. It finds nothing only where the pattern
/// stands in no line at all.
pub proof fn law_search_finds_the_first_place(
    lines: Seq<Seq<char>>,
    pattern: Seq<char>,
    offset: int,
    line: int,
    index: int,
)
    requires
        0 <= offset <= line < lines.len(),
        text::occurs_at(encode_utf8(lines[line]), encode_utf8(pattern), index),
    ensures
        pane::highlight_from(lines, pattern, offset) matches Some(found) && {
            &&& offset <= found.line <= line
            &&& found.line == line ==> found.index <= index
            &&& found.pattern == pattern
            &&& text::occurs_at(
                encode_utf8(lines[found.line]),
                encode_utf8(pattern),
                found.index,
            )
        },
    decreases line - offset,
{
    text::lemma_has_first_match(encode_utf8(lines[line]), encode_utf8(pattern), index);
    if exists|j: int|
        offset <= j < line && pane::match_in(#[trigger] lines[j], pattern) is Some {
        let j = choose|j: int|
            offset <= j < line && pane::match_in(#[trigger] lines[j], pattern) is Some;
        let first = pane::match_in(lines[j], pattern)->0;
        assert(text::is_first_match(encode_utf8(lines[j]), encode_utf8(pattern), first));
        law_search_finds_the_first_place(lines, pattern, offset, j, first);
    } else {
        assert(pane::is_first_line_with(lines, pattern, offset, line));
        pane::lemma_highlight_from(lines, pattern, offset, line);
    }
}

/// A highlight always marks a place where the pattern stands, and a pane that can
/// be shown can be shown with it.
pub proof fn law_highlight_marks_the_pattern(pane: PaneView, pattern: Seq<char>)
    requires
        pane.wf(),
    ensures
        pane.can_display() ==> pane.with_next_highlight(pattern).can_display(),
        pane.next_highlight(pattern) matches Some(found) ==> {
            &&& found.pattern == pattern
            &&& 0 <= found.line < pane.lines.len()
            &&& text::occurs_at(
                encode_utf8(pane.lines[found.line]),
                encode_utf8(pattern),
                found.index,
            )
        },
{
    pane::lemma_next_highlight_keeps_wf(pane, pattern);
}

/// A highlight that moves on goes to the next place: on the same line to the
/// nearest one behind the old match, without overlap, and to a later line only if
/// there is none.
pub proof fn law_highlight_moves_to_the_next_place(pane: PaneView, pattern: Seq<char>, k: int)
    requires
        pane.wf(),
        pane.current_highlight is Some,
        pane.current_highlight->0.pattern == pattern,
    ensures
        ({
            let old_place = pane.current_highlight->0;
            let wanted = encode_utf8(pattern);
            let behind = old_place.index + wanted.len();
            let bytes = encode_utf8(pane.lines[old_place.line]);
            &&& pane.next_highlight(pattern) matches Some(new_place) ==> {
                ||| old_place.line < new_place.line
                ||| old_place.line == new_place.line && behind <= new_place.index
            }
            &&& behind <= k && text::occurs_at(bytes, wanted, k) ==> {
                &&& pane.next_highlight(pattern) matches Some(new_place)
                &&& new_place.line == old_place.line
                &&& new_place.index <= k
                &&& text::occurs_at(bytes, wanted, new_place.index)
            }
        }),
{
    let highlight = pane.current_highlight->0;
    let line = pane.lines[highlight.line];
    let bytes = encode_utf8(line);
    let wanted = encode_utf8(pattern);
    let behind = highlight.index + wanted.len();
    let rest = bytes.subrange(behind, bytes.len() as int);
    if behind <= k && text::occurs_at(bytes, wanted, k) {
        assert(rest.subrange(k - behind, k - behind + wanted.len()) =~= bytes.subrange(
            k,
            k + wanted.len(),
        ));
        text::lemma_has_first_match(rest, wanted, k - behind);
    }
    if text::first_match(rest, wanted) is Some {
        text::lemma_first_match_end(line, pattern, behind);
    } else if pane.next_highlight(pattern) is Some {
        pane::lemma_highlight_from_fits(pane.lines, pattern, highlight.line + 1);
    }
}

/// A search for another pattern first removes the highlight, and then starts over
/// from the first line shown.
pub proof fn law_new_pattern_starts_over(pane: PaneView, pattern: Seq<char>)
    requires
        pane.wf(),
        pane.current_highlight is Some,
        pane.current_highlight->0.pattern != pattern,
    ensures
        pane.next_highlight(pattern) is None,
        pane.with_next_highlight(pattern).next_highlight(pattern) == pane::highlight_from(
            pane.lines,
            pattern,
            pane.scroll_index,
        ),
{
}

/// A link at the start of a line, without brackets in its text, is read as its
/// text from every place behind the brackets that open it, as long as no other
/// link opens before that place.
pub proof fn law_link_at_line_start(title: Seq<char>, rest: Seq<char>, x: int)
    requires
        forall|k: int| 0 <= k < title.len() ==> #[trigger] title[k] != '[' && title[k] != ']',
        is_char_boundary(
            encode_utf8(link::link_open() + title + link::link_close() + rest),
            x,
        ),
        2 <= x,
        forall|j: int|
            encode_utf8(title).len() + 4 <= j ==> !#[trigger] text::occurs_at(
                encode_utf8(
                    link::link_open() + title + link::link_close() + rest,
                ).subrange(0, x),
                encode_utf8(link::link_open()),
                j,
            ),
    ensures
        link::link_readable(link::link_open() + title + link::link_close() + rest, x),
        link::link_at(link::link_open() + title + link::link_close() + rest, x) == Some(title),
{
    let line = link::link_open() + title + link::link_close() + rest;
    let bytes = encode_utf8(line);
    let open = encode_utf8(link::link_open());
    let close = encode_utf8(link::link_close());
    let t = encode_utf8(title);
    let n = t.len() as int;
    text::lemma_encode_concat(link::link_open() + title + link::link_close(), rest);
    text::lemma_encode_concat(link::link_open() + title, link::link_close());
    text::lemma_encode_concat(link::link_open(), title);
    is_ascii_chars_encode_utf8(link::link_open());
    is_ascii_chars_encode_utf8(link::link_close());
    assert(link::link_open()[0] == '[' && link::link_open()[1] == '[');
    assert(link::link_close()[0] == ']' && link::link_close()[1] == ']');
    assert(open =~= seq![0x5b, 0x5b]);
    assert(close =~= seq![0x5d, 0x5d]);
    assert(bytes =~= open + t + close + encode_utf8(rest));
    text::lemma_boundary_in_range(line, x);

    // The brackets that open the link stand nowhere else before `x`.
    let head = bytes.subrange(0, x);
    assert(head.subrange(0, 2) =~= open);
    assert(text::occurs_at(head, open, 0));
    assert forall|j: int| 0 < j implies !#[trigger] text::occurs_at(head, open, j) by {
        if j < n + 4 && text::occurs_at(head, open, j) {
            assert(head.subrange(j, j + 2)[0] == 0x5b);
            assert(head.subrange(j, j + 2)[1] == 0x5b);
            assert(head[j + 1] == 0x5b);
            if j + 1 - 2 < n {
                text::lemma_absent_byte(title, '[', j + 1 - 2);
            }
        }
    }
    text::lemma_last_match(head, open, 0);

    // The brackets that close it stand nowhere before its end.
    let whole = bytes.subrange(0, bytes.len() as int);
    assert(whole =~= bytes);
    assert(bytes.subrange(n + 2, n + 4) =~= close);
    assert(text::occurs_at(bytes, close, n + 2));
    assert forall|j: int| j < n + 2 implies !#[trigger] text::occurs_at(bytes, close, j) by {
        if text::occurs_at(bytes, close, j) {
            assert(bytes.subrange(j, j + 2)[0] == 0x5d);
            assert(bytes[j] == 0x5d);
            if 2 <= j {
                text::lemma_absent_byte(title, ']', j - 2);
            }
        }
    }
    text::lemma_first_match(bytes, close, n + 2);
    text::lemma_match_boundaries(line, link::link_close(), n + 2);
    assert(bytes.subrange(2, n + 2) =~= t);
    text::lemma_bytes_determine_text(title, t);
}

} // verus!
