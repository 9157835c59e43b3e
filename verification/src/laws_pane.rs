//! What holds of one pane: what it shows, where it scrolls to, what it highlights.

use vstd::prelude::*;
use vstd::utf8::*;

use crate::laws;
use crate::pane;
use crate::pane::PaneView;
use crate::screen::TermOpView;
use crate::text;

verus! {

/// A page just opened is shown from its first line, as it was fetched, without a
/// highlight.
pub proof fn law_page_opens_at_its_start(
    store: Seq<char>,
    wiki: Seq<char>,
    slug: Seq<char>,
    lines: Seq<Seq<char>>,
    size: (int, int),
)
    ensures
        ({
            let pane = PaneView::opened(store, wiki, slug, lines, size);
            &&& pane.store == store
            &&& pane.wiki == wiki
            &&& pane.slug == slug
            &&& pane.lines == lines
            &&& pane.size == size
            &&& pane.scroll_index == 0
            &&& pane.current_highlight is None
        }),
{
}

/// A search finds every place of the pattern: whatever place lies in the part of
/// the page that is searched, the highlight goes there or to a place before it. A
/// first search looks at the lines from the first one shown on, a later one at what
/// lies behind the old match, on its line and on all later ones.
pub proof fn law_search_skips_no_place(pane: PaneView, pattern: Seq<char>, line: int, k: int)
    requires
        pane.wf(),
        0 <= line < pane.lines.len(),
        0 <= k,
        k + encode_utf8(pattern).len() <= encode_utf8(pane.lines[line]).len(),
        encode_utf8(pane.lines[line]).subrange(k, k + encode_utf8(pattern).len()) == encode_utf8(
            pattern,
        ),
        match pane.current_highlight {
            None => pane.scroll_index <= line,
            Some(old_place) => {
                &&& old_place.pattern == pattern
                &&& old_place.line < line || old_place.line == line && old_place.index
                    + encode_utf8(pattern).len() <= k
            },
        },
    ensures
        pane.next_highlight(pattern) matches Some(found) && (found.line < line || found.line == line
            && found.index <= k),
{
    let wanted = encode_utf8(pattern);
    assert(text::occurs_at(encode_utf8(pane.lines[line]), wanted, k));
    match pane.current_highlight {
        None => {
            laws::law_search_finds_the_first_place(pane.lines, pattern, pane.scroll_index, line, k);
        },
        Some(old_place) => {
            laws::law_highlight_moves_to_the_next_place(pane, pattern, k);
            let bytes = encode_utf8(pane.lines[old_place.line]);
            let behind = old_place.index + wanted.len();
            let rest = bytes.subrange(behind, bytes.len() as int);
            if old_place.line < line && text::first_match(rest, wanted) is None {
                laws::law_search_finds_the_first_place(
                    pane.lines,
                    pattern,
                    old_place.line + 1,
                    line,
                    k,
                );
            }
        },
    }
}

/// What a search finds is a place of the pattern in the part of the page that is
/// searched: from the first line shown on, or behind the old match of the same
/// pattern.
pub proof fn law_search_finds_the_pattern(pane: PaneView, pattern: Seq<char>)
    requires
        pane.wf(),
    ensures
        pane.next_highlight(pattern) matches Some(found) ==> {
            let n = encode_utf8(pattern).len();
            let bytes = encode_utf8(pane.lines[found.line]);
            &&& found.pattern == pattern
            &&& 0 <= found.line < pane.lines.len()
            &&& 0 <= found.index
            &&& found.index + n <= bytes.len()
            &&& bytes.subrange(found.index, found.index + n) == encode_utf8(pattern)
            &&& match pane.current_highlight {
                None => pane.scroll_index <= found.line,
                Some(old_place) => {
                    &&& old_place.pattern == pattern
                    &&& old_place.line < found.line || old_place.line == found.line
                        && old_place.index + n <= found.index
                },
            }
        },
{
    laws::law_highlight_marks_the_pattern(pane, pattern);
    if pane.next_highlight(pattern) is Some {
        match pane.current_highlight {
            None => {
                pane::lemma_highlight_from_fits(pane.lines, pattern, pane.scroll_index);
            },
            Some(_) => {
                laws::law_highlight_moves_to_the_next_place(pane, pattern, 0);
            },
        }
    }
}

/// A pattern that stands behind the old match on no place of its line, but on some
/// later line, is found on the first such line, at its first place there, however
/// many lines lie between: no line between holds it.
pub proof fn law_search_goes_on_to_later_lines(
    pane: PaneView,
    pattern: Seq<char>,
    line: int,
    k: int,
    m: int,
    j: int,
)
    requires
        pane.wf(),
        pane.current_highlight matches Some(old_place) && {
            let n = encode_utf8(pattern).len();
            let bytes = encode_utf8(pane.lines[old_place.line]);
            &&& old_place.pattern == pattern
            &&& old_place.line < line < pane.lines.len()
            &&& forall|i: int|
                old_place.index + n <= i && i + n <= bytes.len() ==> #[trigger] bytes.subrange(
                    i,
                    i + n,
                ) != encode_utf8(pattern)
        },
        0 <= k,
        k + encode_utf8(pattern).len() <= encode_utf8(pane.lines[line]).len(),
        encode_utf8(pane.lines[line]).subrange(k, k + encode_utf8(pattern).len()) == encode_utf8(
            pattern,
        ),
    ensures
        pane.next_highlight(pattern) matches Some(found) && {
            let n = encode_utf8(pattern).len();
            let old_line = pane.current_highlight->0.line;
            &&& old_line < found.line <= line
            &&& found.line == line ==> found.index <= k
            &&& encode_utf8(pane.lines[found.line]).subrange(found.index, found.index + n)
                == encode_utf8(pattern)
            &&& old_line < m < found.line && 0 <= j && j + n <= encode_utf8(pane.lines[m]).len()
                ==> encode_utf8(pane.lines[m]).subrange(j, j + n) != encode_utf8(pattern)
        },
{
    let n = encode_utf8(pattern).len();
    let old_place = pane.current_highlight->0;
    law_search_skips_no_place(pane, pattern, line, k);
    law_search_finds_the_pattern(pane, pattern);
    let found = pane.next_highlight(pattern)->0;
    if found.line == old_place.line {
        let bytes = encode_utf8(pane.lines[old_place.line]);
        assert(bytes.subrange(found.index, found.index + n) != encode_utf8(pattern));
    }
    if old_place.line < m < found.line && 0 <= j && j + n <= encode_utf8(pane.lines[m]).len()
        && encode_utf8(pane.lines[m]).subrange(j, j + n) == encode_utf8(pattern) {
        law_search_skips_no_place(pane, pattern, m, j);
    }
}

/// A search changes nothing but the highlight. Another pattern than the old one
/// removes the highlight, so that the next search is a first one.
pub proof fn law_search_changes_only_the_highlight(pane: PaneView, pattern: Seq<char>)
    ensures
        ({
            let after = pane.with_next_highlight(pattern);
            &&& after.store == pane.store
            &&& after.wiki == pane.wiki
            &&& after.slug == pane.slug
            &&& after.lines == pane.lines
            &&& after.scroll_index == pane.scroll_index
            &&& after.size == pane.size
            &&& after.current_highlight == pane.next_highlight(pattern)
            &&& pane.current_highlight matches Some(old_place) ==> (old_place.pattern != pattern
                ==> after.current_highlight is None)
        }),
{
}

/// The status tells a first search, a next one and a changed pattern apart.
pub proof fn law_search_status(pane: PaneView, pattern: Seq<char>)
    ensures
        pane.current_highlight is None ==> pane.search_status(pattern) == seq![
            'f',
            'i',
            'r',
            's',
            't',
        ],
        pane.current_highlight matches Some(old_place) ==> {
            &&& old_place.pattern == pattern ==> pane.search_status(pattern) == seq![
                'n',
                'e',
                'x',
                't',
            ]
            &&& old_place.pattern != pattern ==> pane.search_status(pattern) == seq![
                'c',
                'h',
                'a',
                'n',
                'g',
                'e',
                'd',
            ]
        },
{
    reveal_strlit("first");
    reveal_strlit("next");
    reveal_strlit("changed");
}

/// The status replaces the row whose number is that of the rows, counted from zero:
/// the one below everything that a pane shows.
pub proof fn law_status_row(pane: PaneView, status: Seq<char>)
    requires
        0 <= pane.size.1,
    ensures
        pane.status_ops(status).len() == 4,
        pane.status_ops(status)[0] == TermOpView::MoveTo(0, (pane.size.1 % 0x1_0000) as u16),
        pane.size.1 < 0x1_0000 ==> pane.status_ops(status)[0] == TermOpView::MoveTo(
            0,
            pane.size.1 as u16,
        ),
        pane.status_ops(status)[1] == TermOpView::ClearLine,
        pane.status_ops(status)[2] == TermOpView::Print(status),
        pane.status_ops(status)[3] == TermOpView::Flush,
{
}

/// Rows beyond sixteen bits start over at the top.
pub proof fn law_rows_wrap(n: int)
    requires
        0 <= n,
    ensures
        n < 0x1_0000 ==> pane::row(n) == n,
        pane::row(n + 0x1_0000) == pane::row(n),
{
}

/// The header replaces the top row with the store, the wiki and the page, in the
/// middle of the screen and in reverse.
pub proof fn law_header(pane: PaneView)
    requires
        0 <= pane.size.0,
    ensures
        ({
            let title = pane.store + seq![':', ' '] + pane.wiki + seq![' ', '-', '-', ' ']
                + pane.slug;
            let spare = if title.len() < pane.size.0 {
                pane.size.0 - title.len()
            } else {
                0
            };
            let before = Seq::new((spare / 2) as nat, |i: int| ' ');
            let behind = Seq::new((spare - spare / 2) as nat, |i: int| ' ');
            &&& pane.header_ops().len() == 4
            &&& pane.header_ops()[0] == TermOpView::MoveTo(0, 0)
            &&& pane.header_ops()[1] == TermOpView::ClearLine
            &&& pane.header_ops()[2] == TermOpView::Print(
                seq!['\u{1b}', '[', '7', 'm'] + (before + title + behind) + seq![
                    '\u{1b}',
                    '[',
                    '0',
                    'm',
                ],
            )
            &&& pane.header_ops()[3] == TermOpView::Flush
        }),
{
    reveal_strlit(": ");
    reveal_strlit(" -- ");
    let title = pane.store + seq![':', ' '] + pane.wiki + seq![' ', '-', '-', ' '] + pane.slug;
    assert(": "@ =~= seq![':', ' ']);
    assert(" -- "@ =~= seq![' ', '-', '-', ' ']);
    let spare = if title.len() < pane.size.0 {
        pane.size.0 - title.len()
    } else {
        0
    };
    let before = Seq::new((spare / 2) as nat, |i: int| ' ');
    let behind = Seq::new((spare - spare / 2) as nat, |i: int| ' ');
    assert(text::centered(title, pane.size.0) =~= before + title + behind);
}

proof fn lemma_rows_at(pane: PaneView, end: int, k: int)
    requires
        pane.scroll_index <= end,
    ensures
        pane.rows_up_to(end).len() == 3 * (end - pane.scroll_index),
        0 <= k < end - pane.scroll_index ==> {
            &&& pane.rows_up_to(end)[3 * k] == TermOpView::ClearLine
            &&& pane.rows_up_to(end)[3 * k + 1] == TermOpView::Print(
                pane.shown_line(pane.scroll_index + k),
            )
            &&& pane.rows_up_to(end)[3 * k + 2] == TermOpView::MoveToNextLine(1)
        },
    decreases end - pane.scroll_index,
{
    if pane.scroll_index < end {
        lemma_rows_at(pane, end - 1, k);
    }
}

proof fn lemma_empty_rows_at(n: int, k: int)
    requires
        0 <= n,
    ensures
        pane::empty_rows(n).len() == 2 * n,
        0 <= k < n ==> {
            &&& pane::empty_rows(n)[2 * k] == TermOpView::ClearLine
            &&& pane::empty_rows(n)[2 * k + 1] == TermOpView::MoveToNextLine(1)
        },
    decreases n,
{
    if 0 < n {
        lemma_empty_rows_at(n - 1, k);
    }
}

/// As many lines are shown as are left of the page, but no more than there are rows
/// between header and status, or one if there are none.
pub proof fn law_number_of_lines_shown(pane: PaneView)
    requires
        pane.wf(),
    ensures
        pane.scroll_index <= pane.lines.len() ==> pane.scroll_index + pane.shown()
            <= pane.lines.len(),
        pane.lines.len() <= pane.scroll_index ==> pane.shown() == 0,
        pane.scroll_index + pane.shown() < pane.lines.len() ==> pane.shown() == if 3
            <= pane.size.1 {
            pane.size.1 - 2
        } else {
            1
        },
        pane.shown() <= 1 || pane.shown() <= pane.size.1 - 2,
{
}

/// Showing a pane writes the header, then from the row below it each line shown in
/// a row of its own, then empties the rows that are left, and nothing else.
pub proof fn law_display(pane: PaneView, k: int)
    requires
        pane.wf(),
        pane.can_display(),
    ensures
        ({
            let ops = pane.display_ops();
            let lines = 3 * pane.shown();
            let left = pane.size.1 - 1 - pane.shown();
            &&& ops.len() == 6 + lines + 2 * left
            &&& ops.take(4) == pane.header_ops()
            &&& ops[4] == TermOpView::MoveTo(0, 1)
            &&& 0 <= k < pane.shown() ==> {
                &&& ops[5 + 3 * k] == TermOpView::ClearLine
                &&& ops[6 + 3 * k] == TermOpView::Print(pane.shown_line(pane.scroll_index + k))
                &&& ops[7 + 3 * k] == TermOpView::MoveToNextLine(1)
            }
            &&& 0 <= k < left ==> {
                &&& ops[5 + lines + 2 * k] == TermOpView::ClearLine
                &&& ops[6 + lines + 2 * k] == TermOpView::MoveToNextLine(1)
            }
            &&& ops.last() == TermOpView::Flush
        }),
{
    lemma_rows_at(pane, pane.scroll_index + pane.shown(), k);
    lemma_empty_rows_at(pane.size.1 - 1 - pane.shown(), k);
    assert(pane.display_ops().take(4) =~= pane.header_ops());
}

/// A line that the highlight does not lie in is shown as it is in the page.
pub proof fn law_other_lines_are_shown_as_they_are(pane: PaneView, i: int)
    requires
        pane.wf(),
        pane.can_display(),
        pane.scroll_index <= i < pane.scroll_index + pane.shown(),
        pane.current_highlight matches Some(highlight) ==> highlight.line != i,
    ensures
        pane.display_ops()[6 + 3 * (i - pane.scroll_index)] == TermOpView::Print(pane.lines[i]),
        laws::row_moves(pane.display_ops().take(6 + 3 * (i - pane.scroll_index))) == i
            - pane.scroll_index,
{
    laws::law_lines_stand_in_rows(pane, i - pane.scroll_index);
}

/// A highlight in a line that is shown, whichever it is, is shown in the row of that
/// line: first the text before the match, then the pattern between the sequences
/// that switch bold on and off, then the text behind the match.
pub proof fn law_highlight_is_shown_in_bold(pane: PaneView)
    requires
        pane.wf(),
        pane.can_display(),
        pane.current_highlight matches Some(highlight) && pane.scroll_index <= highlight.line
            < pane.scroll_index + pane.shown(),
    ensures
        ({
            let highlight = pane.current_highlight->0;
            let line = pane.lines[highlight.line];
            let bytes = encode_utf8(line);
            let end = highlight.index + encode_utf8(highlight.pattern).len();
            let before = decode_utf8(bytes.subrange(0, highlight.index));
            let behind = decode_utf8(bytes.subrange(end, bytes.len() as int));
            let k = highlight.line - pane.scroll_index;
            &&& line == before + highlight.pattern + behind
            &&& encode_utf8(before).len() == highlight.index
            &&& pane.display_ops()[4] == TermOpView::MoveTo(0, 1)
            &&& laws::row_moves(pane.display_ops().take(6 + 3 * k)) == k
            &&& pane.display_ops()[6 + 3 * k] == TermOpView::Print(
                before + seq!['\u{1b}', '[', '1', 'm'] + highlight.pattern + seq![
                    '\u{1b}',
                    '[',
                    '0',
                    'm',
                ] + behind,
            )
        }),
{
    let highlight = pane.current_highlight->0;
    let line = pane.lines[highlight.line];
    let bytes = encode_utf8(line);
    let wanted = encode_utf8(highlight.pattern);
    let end = highlight.index + wanted.len();
    let head = bytes.subrange(0, highlight.index);
    let tail = bytes.subrange(end, bytes.len() as int);
    let before = decode_utf8(head);
    let behind = decode_utf8(tail);
    laws::law_lines_stand_in_rows(pane, highlight.line - pane.scroll_index);
    encode_utf8_valid_utf8(line);
    valid_utf8_split(bytes, highlight.index);
    valid_utf8_split(bytes, end);
    decode_utf8_encode_utf8(head);
    decode_utf8_encode_utf8(tail);
    text::lemma_encode_concat(before + highlight.pattern, behind);
    text::lemma_encode_concat(before, highlight.pattern);
    assert(bytes.subrange(highlight.index, end) == wanted);
    assert(encode_utf8(before + highlight.pattern + behind) =~= bytes);
    text::lemma_bytes_determine_text(line, bytes);
    text::lemma_bytes_determine_text(before + highlight.pattern + behind, bytes);
    assert(pane.shown_line(highlight.line) =~= before + seq!['\u{1b}', '[', '1', 'm']
        + highlight.pattern + seq!['\u{1b}', '[', '0', 'm'] + behind);
}

/// Scrolling moves the page by one line, in the direction of the key, as long as
/// there is a line to come to, and changes nothing else.
pub proof fn law_scrolling_moves_by_one_line(pane: PaneView)
    requires
        pane.wf(),
    ensures
        ({
            let down = pane.scrolled_down();
            let up = pane.scrolled_up();
            &&& down.scroll_index == if pane.scroll_index + (pane.size.1 - 2) < pane.lines.len() {
                pane.scroll_index + 1
            } else {
                pane.scroll_index
            }
            &&& up.scroll_index == if pane.scroll_index == 0 {
                0
            } else {
                pane.scroll_index - 1
            }
            &&& down == PaneView { scroll_index: down.scroll_index, ..pane }
            &&& up == PaneView { scroll_index: up.scroll_index, ..pane }
        }),
{
}

/// What scrolling down sends to the terminal: everything goes up by a row, the
/// header is written again, the line that has come into view is written as many
/// rows below the header as lines are then shown, and the status is emptied.
pub proof fn law_scrolling_down_writes_the_last_line(pane: PaneView)
    requires
        pane.wf(),
        3 <= pane.size.1 < 0x1_0000,
    ensures
        pane.scroll_index + pane.shown() == pane.lines.len() ==> pane.scroll_down_ops().len() == 0,
        pane.scroll_index + pane.shown() < pane.lines.len() ==> {
            let ops = pane.scroll_down_ops();
            let after = pane.scrolled_down();
            &&& ops.len() == 13
            &&& ops[0] == TermOpView::ScrollUp(1)
            &&& ops.subrange(1, 5) == pane.header_ops()
            &&& ops[5] == TermOpView::MoveTo(0, after.shown() as u16)
            &&& ops[6] == TermOpView::ClearLine
            &&& ops[7] == TermOpView::Print(pane.lines[after.scroll_index + after.shown() - 1])
            &&& ops[8] == TermOpView::Flush
            &&& ops.subrange(9, 13) == pane.status_ops(Seq::empty())
        },
{
    let ops = pane.scroll_down_ops();
    if pane.scroll_index + pane.shown() < pane.lines.len() {
        assert(ops.subrange(1, 5) =~= pane.header_ops());
        assert(ops.subrange(9, 13) =~= pane.status_ops(Seq::empty()));
    }
}

/// On a screen of any height from two rows on, scrolling down writes the first line
/// that had no row, in the second row from below of those that a pane fills, or
/// nothing if there is no such line.
pub proof fn law_scrolling_down_on_any_screen(pane: PaneView)
    requires
        pane.wf(),
        2 <= pane.size.1,
    ensures
        pane.lines.len() <= pane.scroll_index + (pane.size.1 - 2) ==> pane.scroll_down_ops().len()
            == 0,
        pane.scroll_index + (pane.size.1 - 2) < pane.lines.len() ==> {
            let ops = pane.scroll_down_ops();
            &&& ops.len() == 13
            &&& ops[0] == TermOpView::ScrollUp(1)
            &&& ops.subrange(1, 5) == pane.header_ops()
            &&& ops[5] == TermOpView::MoveTo(0, ((pane.size.1 - 2) % 0x1_0000) as u16)
            &&& ops[6] == TermOpView::ClearLine
            &&& ops[7] == TermOpView::Print(pane.lines[pane.scroll_index + (pane.size.1 - 2)])
            &&& ops[8] == TermOpView::Flush
            &&& ops.subrange(9, 13) == pane.status_ops(Seq::empty())
        },
{
    let ops = pane.scroll_down_ops();
    if pane.scroll_index + (pane.size.1 - 2) < pane.lines.len() {
        assert(ops.subrange(1, 5) =~= pane.header_ops());
        assert(ops.subrange(9, 13) =~= pane.status_ops(Seq::empty()));
    }
}

/// What scrolling up sends to the terminal: everything goes down by a row, the
/// header is written again, the line that has come into view is written in the row
/// below it, and the status is emptied.
pub proof fn law_scrolling_up_writes_the_first_line(pane: PaneView)
    requires
        pane.wf(),
    ensures
        pane.scroll_index == 0 ==> pane.scroll_up_ops().len() == 0,
        0 < pane.scroll_index ==> {
            let ops = pane.scroll_up_ops();
            &&& ops.len() == 13
            &&& ops[0] == TermOpView::ScrollDown(1)
            &&& ops.subrange(1, 5) == pane.header_ops()
            &&& ops[5] == TermOpView::MoveTo(0, 1)
            &&& ops[6] == TermOpView::ClearLine
            &&& ops[7] == TermOpView::Print(pane.lines[pane.scrolled_up().scroll_index])
            &&& ops[8] == TermOpView::Flush
            &&& ops.subrange(9, 13) == pane.status_ops(Seq::empty())
        },
{
    let ops = pane.scroll_up_ops();
    if 0 < pane.scroll_index {
        assert(ops.subrange(1, 5) =~= pane.header_ops());
        assert(ops.subrange(9, 13) =~= pane.status_ops(Seq::empty()));
    }
}

/// A pane can be shown as soon as the screen has a row, and a second one if there
/// is a line to show.
pub proof fn law_pane_can_be_shown(pane: PaneView)
    requires
        pane.wf(),
    ensures
        2 <= pane.size.1 ==> pane.can_display(),
        pane.size.1 == 1 && pane.lines.len() <= pane.scroll_index ==> pane.can_display(),
{
}

} // verus!
