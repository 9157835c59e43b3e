//! A pane: one page, where it is scrolled to, and what is highlighted in it.

use vstd::prelude::*;
use vstd::utf8::*;

use crate::link;
use crate::outside;
use crate::outside::Emphasis;
use crate::screen::{Screen, TermOp, TermOpView};
use crate::text;

verus! {

/// A place in a page that is shown in bold.
#[derive(Debug, PartialEq, Eq)]
pub struct Highlight {
    /// The line, counted from zero.
    pub line: usize,
    /// The byte of the line at which the highlight starts.
    pub index: usize,
    /// What was looked for, and what is shown there.
    pub pattern: String,
}

/// A `Highlight` with its pattern as characters.
pub struct HighlightView {
    pub line: int,
    pub index: int,
    pub pattern: Seq<char>,
}

impl View for Highlight {
    type V = HighlightView;

    open spec fn view(&self) -> HighlightView {
        HighlightView { line: self.line as int, index: self.index as int, pattern: self.pattern@ }
    }
}

/// A highlight or nothing, with the pattern as characters.
pub open spec fn as_highlight(found: Option<Highlight>) -> Option<HighlightView> {
    match found {
        Some(highlight) => Some(highlight@),
        None => None,
    }
}

/// Where `pattern` first stands in a line.
pub open spec fn match_in(line: Seq<char>, pattern: Seq<char>) -> Option<int> {
    text::first_match(encode_utf8(line), encode_utf8(pattern))
}

/// `i` is the first line from `offset` on in which `pattern` stands.
pub open spec fn is_first_line_with(
    lines: Seq<Seq<char>>,
    pattern: Seq<char>,
    offset: int,
    i: int,
) -> bool {
    &&& offset <= i < lines.len()
    &&& match_in(lines[i], pattern) is Some
    &&& forall|j: int| offset <= j < i ==> match_in(#[trigger] lines[j], pattern) is None
}

/// The first place of `pattern` in the lines from `offset` on.
pub open spec fn highlight_from(
    lines: Seq<Seq<char>>,
    pattern: Seq<char>,
    offset: int,
) -> Option<HighlightView> {
    if exists|i: int| is_first_line_with(lines, pattern, offset, i) {
        let i = choose|i: int| is_first_line_with(lines, pattern, offset, i);
        Some(HighlightView { line: i, index: match_in(lines[i], pattern)->0, pattern })
    } else {
        None
    }
}

/// There is only one first line.
pub proof fn lemma_highlight_from(lines: Seq<Seq<char>>, pattern: Seq<char>, offset: int, i: int)
    requires
        is_first_line_with(lines, pattern, offset, i),
    ensures
        highlight_from(lines, pattern, offset) == Some(
            HighlightView { line: i, index: match_in(lines[i], pattern)->0, pattern },
        ),
{
    let k = choose|k: int| is_first_line_with(lines, pattern, offset, k);
    assert(match_in(lines[k], pattern) is Some);
    assert(match_in(lines[i], pattern) is Some);
}

/// A terminal row: what is left of the number in sixteen bits.
pub open spec fn row(n: int) -> u16 {
    (n % 0x1_0000) as u16
}

/// The row of that number.
pub(crate) fn to_row(n: usize) -> (r: u16)
    ensures
        r == row(n as int),
{
    (n % 0x1_0000) as u16
}

/// One line written at a place, in the place of what the line held.
pub open spec fn single_line_ops(location: (u16, u16), text: Seq<char>) -> Seq<TermOpView> {
    seq![
        TermOpView::MoveTo(location.0, location.1),
        TermOpView::ClearLine,
        TermOpView::Print(text),
        TermOpView::Flush,
    ]
}

/// That many rows emptied, from the cursor down.
pub open spec fn empty_rows(n: int) -> Seq<TermOpView>
    decreases n,
{
    if n <= 0 {
        Seq::empty()
    } else {
        empty_rows(n - 1) + seq![TermOpView::ClearLine, TermOpView::MoveToNextLine(1)]
    }
}

/// A pane as mathematics.
pub struct PaneView {
    /// The kind of store that the page came from.
    pub store: Seq<char>,
    /// The wiki that the page belongs to.
    pub wiki: Seq<char>,
    /// The name of the page.
    pub slug: Seq<char>,
    /// The page.
    pub lines: Seq<Seq<char>>,
    /// The page once more, for lines that were highlighted.
    pub highlighted_lines: Seq<Seq<char>>,
    /// What is highlighted.
    pub current_highlight: Option<HighlightView>,
    /// How many lines lie above the first one shown.
    pub scroll_index: int,
    /// Columns and rows.
    pub size: (int, int),
}

impl PaneView {
    /// What holds of every pane: the highlight marks a place in a line of the page
    /// where its pattern stands, from one gap between characters to another, and
    /// scrolling stops where the last line of the page is the last one shown.
    pub open spec fn wf(self) -> bool {
        &&& self.highlighted_lines == self.lines
        &&& self.current_highlight matches Some(highlight) ==> {
            let bytes = encode_utf8(self.lines[highlight.line]);
            let wanted = encode_utf8(highlight.pattern);
            &&& 0 <= highlight.line < self.lines.len()
            &&& text::occurs_at(bytes, wanted, highlight.index)
            &&& is_char_boundary(bytes, highlight.index)
            &&& is_char_boundary(bytes, highlight.index + wanted.len())
        }
        &&& 0 <= self.scroll_index
        &&& 0 <= self.size.0
        &&& 0 <= self.size.1
        &&& 0 < self.scroll_index ==> {
            &&& 2 <= self.size.1
            &&& self.scroll_index + self.size.1 - 2 <= self.lines.len()
        }
    }

    /// A page just opened.
    pub open spec fn opened(
        store: Seq<char>,
        wiki: Seq<char>,
        slug: Seq<char>,
        lines: Seq<Seq<char>>,
        size: (int, int),
    ) -> PaneView {
        PaneView {
            store,
            wiki,
            slug,
            lines,
            highlighted_lines: lines,
            current_highlight: None,
            scroll_index: 0,
            size,
        }
    }

    /// Store, wiki and page in the middle of the top row, in reverse.
    pub open spec fn header_ops(self) -> Seq<TermOpView> {
        let title = self.store + ": "@ + self.wiki + " -- "@ + self.slug;
        single_line_ops(
            (0, 0),
            outside::emphasized(text::centered(title, self.size.0), Emphasis::Reverse),
        )
    }

    /// A word in the row below the page.
    pub open spec fn status_ops(self, status: Seq<char>) -> Seq<TermOpView> {
        single_line_ops((0, row(self.size.1)), status)
    }

    /// How many lines of the page are shown: those that are left, as far as there
    /// are rows between header and status, and at least one.
    pub open spec fn shown(self) -> int {
        let left = if self.scroll_index < self.lines.len() {
            self.lines.len() - self.scroll_index
        } else {
            0
        };
        let room = if 3 <= self.size.1 {
            self.size.1 - 2
        } else {
            1
        };
        if left < room {
            left
        } else {
            room
        }
    }

    /// The highlight lies in that line.
    pub open spec fn highlights(self, i: int) -> bool {
        self.current_highlight matches Some(highlight) && highlight.line == i
    }

    /// A line of the page as it is shown, with the highlight in bold.
    pub open spec fn shown_line(self, i: int) -> Seq<char> {
        match self.current_highlight {
            Some(highlight) if highlight.line == i => text::spliced(
                self.lines[i],
                highlight.index,
                highlight.index + encode_utf8(highlight.pattern).len(),
                outside::emphasized(highlight.pattern, Emphasis::Bold),
            ),
            _ => self.lines[i],
        }
    }

    /// The lines from the first one shown up to `end`, each in a row of its own.
    pub open spec fn rows_up_to(self, end: int) -> Seq<TermOpView>
        decreases end - self.scroll_index,
    {
        if end <= self.scroll_index {
            Seq::empty()
        } else {
            self.rows_up_to(end - 1) + seq![
                TermOpView::ClearLine,
                TermOpView::Print(self.shown_line(end - 1)),
                TermOpView::MoveToNextLine(1),
            ]
        }
    }

    /// The whole pane: header, page, and empty rows down to the status.
    pub open spec fn display_ops(self) -> Seq<TermOpView> {
        self.header_ops().push(TermOpView::MoveTo(0, 1)) + self.rows_up_to(
            self.scroll_index + self.shown(),
        ) + empty_rows(self.size.1 - 1 - self.shown()).push(TermOpView::Flush)
    }

    /// There is room for what is to be shown.
    pub open spec fn can_display(self) -> bool {
        &&& 1 <= self.size.1
        &&& self.scroll_index < self.lines.len() ==> 2 <= self.size.1
    }

    /// The line exists, and the link there can be read.
    pub open spec fn can_find_link(self, x: int, y: int) -> bool {
        &&& 0 <= y < self.lines.len()
        &&& link::link_readable(self.lines[y], x)
    }

    /// The highlight that follows the current one: the next place of the pattern on
    /// the line, or else the first one on a later line. Another pattern than the
    /// current one first removes the highlight.
    pub open spec fn next_highlight(self, pattern: Seq<char>) -> Option<HighlightView> {
        match self.current_highlight {
            None => highlight_from(self.lines, pattern, self.scroll_index),
            Some(highlight) => if highlight.pattern != pattern {
                None
            } else {
                let bytes = encode_utf8(self.lines[highlight.line]);
                let behind = highlight.index + encode_utf8(pattern).len();
                match text::first_match(
                    bytes.subrange(behind, bytes.len() as int),
                    encode_utf8(pattern),
                ) {
                    Some(distance) => Some(
                        HighlightView {
                            line: highlight.line,
                            index: behind + distance,
                            pattern,
                        },
                    ),
                    None => highlight_from(self.lines, pattern, highlight.line + 1),
                }
            },
        }
    }

    /// What the status says of the search for the next highlight.
    pub open spec fn search_status(self, pattern: Seq<char>) -> Seq<char> {
        match self.current_highlight {
            None => "first"@,
            Some(highlight) => if highlight.pattern != pattern {
                "changed"@
            } else {
                "next"@
            },
        }
    }

    /// The pane with the highlight moved on.
    pub open spec fn with_next_highlight(self, pattern: Seq<char>) -> PaneView {
        PaneView { current_highlight: self.next_highlight(pattern), ..self }
    }

    /// A line of the page lies below the last one shown.
    pub open spec fn can_scroll_down(self) -> bool {
        self.scroll_index + self.size.1 - 2 < self.lines.len()
    }

    /// The pane one line further down, if there is one.
    pub open spec fn scrolled_down(self) -> PaneView {
        if self.can_scroll_down() {
            PaneView { scroll_index: self.scroll_index + 1, ..self }
        } else {
            self
        }
    }

    /// The pane one line further up, if there is one.
    pub open spec fn scrolled_up(self) -> PaneView {
        if 0 < self.scroll_index {
            PaneView { scroll_index: self.scroll_index - 1, ..self }
        } else {
            self
        }
    }

    /// Everything moved up, the new line written at the bottom.
    pub open spec fn scroll_down_ops(self) -> Seq<TermOpView> {
        if self.can_scroll_down() {
            seq![TermOpView::ScrollUp(1)] + self.header_ops() + seq![
                TermOpView::MoveTo(0, row(self.size.1 - 2)),
                TermOpView::ClearLine,
                TermOpView::Print(self.lines[self.scroll_index + self.size.1 - 2]),
                TermOpView::Flush,
            ] + self.status_ops(Seq::empty())
        } else {
            Seq::empty()
        }
    }

    /// Everything moved down, the new line written at the top.
    pub open spec fn scroll_up_ops(self) -> Seq<TermOpView> {
        if 0 < self.scroll_index {
            seq![TermOpView::ScrollDown(1)] + self.header_ops() + seq![
                TermOpView::MoveTo(0, 1),
                TermOpView::ClearLine,
                TermOpView::Print(self.lines[self.scroll_index - 1]),
                TermOpView::Flush,
            ] + self.status_ops(Seq::empty())
        } else {
            Seq::empty()
        }
    }
}

/// A first place lies in a line of the page, and ends between two characters.
pub proof fn lemma_highlight_from_fits(lines: Seq<Seq<char>>, pattern: Seq<char>, offset: int)
    requires
        0 <= offset,
        highlight_from(lines, pattern, offset) is Some,
    ensures
        ({
            let highlight = highlight_from(lines, pattern, offset)->0;
            let bytes = encode_utf8(lines[highlight.line]);
            &&& offset <= highlight.line < lines.len()
            &&& 0 <= highlight.index
            &&& text::occurs_at(bytes, encode_utf8(pattern), highlight.index)
            &&& is_char_boundary(bytes, highlight.index)
            &&& is_char_boundary(bytes, highlight.index + encode_utf8(pattern).len())
        }),
{
    let i = choose|i: int| is_first_line_with(lines, pattern, offset, i);
    assert(is_first_line_with(lines, pattern, offset, i));
    let bytes = encode_utf8(lines[i]);
    encode_utf8_valid_utf8(lines[i]);
    assert(bytes.subrange(0, bytes.len() as int) =~= bytes);
    text::lemma_first_match_end(lines[i], pattern, 0);
}

/// A pane keeps its invariant when the highlight moves on: the new highlight
/// marks the pattern, and the search can be made once more.
pub proof fn lemma_next_highlight_keeps_wf(pane: PaneView, pattern: Seq<char>)
    requires
        pane.wf(),
    ensures
        pane.with_next_highlight(pattern).wf(),
{
    match pane.current_highlight {
        None => {
            if highlight_from(pane.lines, pattern, pane.scroll_index) is Some {
                lemma_highlight_from_fits(pane.lines, pattern, pane.scroll_index);
            }
        },
        Some(highlight) => {
            let line = pane.lines[highlight.line];
            let bytes = encode_utf8(line);
            let behind = highlight.index + encode_utf8(pattern).len();
            if highlight.pattern == pattern {
                if text::first_match(
                    bytes.subrange(behind, bytes.len() as int),
                    encode_utf8(pattern),
                ) is Some {
                    text::lemma_first_match_end(line, pattern, behind);
                } else if highlight_from(pane.lines, pattern, highlight.line + 1) is Some {
                    lemma_highlight_from_fits(pane.lines, pattern, highlight.line + 1);
                }
            }
        },
    }
}

/// One page on the screen.
pub struct Pane {
    store: String,
    wiki: String,
    slug: String,
    lines: Vec<String>,
    highlighted_lines: Vec<String>,
    current_highlight: Option<Highlight>,
    scroll_index: usize,
    size: (usize, usize),
}

impl View for Pane {
    type V = PaneView;

    closed spec fn view(&self) -> PaneView {
        PaneView {
            store: self.store@,
            wiki: self.wiki@,
            slug: self.slug@,
            lines: text::texts(self.lines@),
            highlighted_lines: text::texts(self.highlighted_lines@),
            current_highlight: as_highlight(self.current_highlight),
            scroll_index: self.scroll_index as int,
            size: (self.size.0 as int, self.size.1 as int),
        }
    }
}

impl Pane {
    /// Opens a page in a pane.
    pub fn new(
        store: String,
        wiki: String,
        slug: String,
        lines: Vec<String>,
        size: (usize, usize),
    ) -> (pane: Pane)
        ensures
            pane@ == PaneView::opened(
                store@,
                wiki@,
                slug@,
                text::texts(lines@),
                (size.0 as int, size.1 as int),
            ),
            pane@.wf(),
    {
        let highlighted_lines = lines.clone();
        assert(text::texts(highlighted_lines@) =~= text::texts(lines@));
        Pane {
            store,
            wiki,
            slug,
            lines,
            highlighted_lines,
            current_highlight: None,
            scroll_index: 0,
            size,
        }
    }

    /// The wiki that the page belongs to.
    pub fn wiki(&self) -> (wiki: &str)
        ensures
            wiki@ == self@.wiki,
    {
        self.wiki.as_str()
    }

    /// The name of the page.
    pub fn slug(&self) -> (slug: &str)
        ensures
            slug@ == self@.slug,
    {
        self.slug.as_str()
    }

    /// How many lines lie above the first one shown.
    pub fn scroll_index(&self) -> (index: usize)
        ensures
            index == self@.scroll_index,
    {
        self.scroll_index
    }

    /// What is highlighted.
    pub fn current_highlight(&self) -> (highlight: Option<&Highlight>)
        ensures
            match highlight {
                Some(highlight) => self@.current_highlight == Some(highlight@),
                None => self@.current_highlight is None,
            },
    {
        self.current_highlight.as_ref()
    }

    /// Writes one line at a place.
    pub fn single_line(&self, location: (u16, u16), text: &str, out: &mut Screen)
        ensures
            final(out)@ == old(out)@ + single_line_ops(location, text@),
    {
        out.queue(TermOp::MoveTo(location.0, location.1));
        out.queue(TermOp::ClearLine);
        out.queue(TermOp::Print(text.to_owned()));
        out.queue(TermOp::Flush);
        assert(out@ =~= old(out)@ + single_line_ops(location, text@));
    }

    /// Writes the header.
    pub fn header(&self, out: &mut Screen)
        ensures
            final(out)@ == old(out)@ + self@.header_ops(),
    {
        let mut title = self.store.clone();
        title.append(": ");
        title.append(self.wiki.as_str());
        title.append(" -- ");
        title.append(self.slug.as_str());
        let centered = text::center(title.as_str(), self.size.0);
        let header = outside::emphasize(centered.as_str(), Emphasis::Reverse);
        self.single_line((0, 0), header.as_str(), out);
    }

    /// Writes the status.
    pub fn status(&self, status: &str, out: &mut Screen)
        ensures
            final(out)@ == old(out)@ + self@.status_ops(status@),
    {
        self.single_line((0, to_row(self.size.1)), status, out);
    }

    /// The number of lines that `display` shows.
    fn shown(&self) -> (n: usize)
        ensures
            n == self@.shown(),
    {
        let left: usize = if self.scroll_index < self.lines.len() {
            self.lines.len() - self.scroll_index
        } else {
            0
        };
        let room: usize = if 3 <= self.size.1 {
            self.size.1 - 2
        } else {
            1
        };
        if left < room {
            left
        } else {
            room
        }
    }

    /// A line as `display` shows it.
    fn shown_line(&self, i: usize) -> (line: String)
        requires
            self@.wf(),
            i < self@.lines.len(),
        ensures
            line@ == self@.shown_line(i as int),
    {
        match &self.current_highlight {
            Some(highlight) if highlight.line == i => {
                let bold = outside::emphasize(highlight.pattern.as_str(), Emphasis::Bold);
                let line = self.lines[i].as_str();
                let end = text::behind(line, highlight.index, highlight.pattern.as_str());
                text::splice(line, highlight.index, end, bold.as_str())
            },
            _ => self.lines[i].clone(),
        }
    }

    /// Writes the whole pane.
    pub fn display(&self, out: &mut Screen)
        requires
            self@.wf(),
            self@.can_display(),
        ensures
            final(out)@ == old(out)@ + self@.display_ops(),
    {
        self.header(out);
        out.queue(TermOp::MoveTo(0, 1));
        let shown = self.shown();
        assert(self@.scroll_index + shown <= self.lines.len() || shown == 0);
        let end = self.scroll_index + shown;
        let mut i = self.scroll_index;
        let ghost top = out@;
        assert(out@ =~= top + self@.rows_up_to(i as int));
        while i < end
            invariant
                self@.wf(),
                self@.can_display(),
                self@.scroll_index <= i <= end,
                end == self@.scroll_index + self@.shown(),
                end <= self@.lines.len() || end == i,
                out@ == top + self@.rows_up_to(i as int),
            decreases end - i,
        {
            out.queue(TermOp::ClearLine);
            out.queue(TermOp::Print(self.shown_line(i)));
            out.queue(TermOp::MoveToNextLine(1));
            i += 1;
            assert(out@ =~= top + self@.rows_up_to(i as int));
        }
        let ghost page = out@;
        let empty = self.size.1 - 1 - shown;
        let mut k: usize = 0;
        assert(out@ =~= page + empty_rows(0));
        while k < empty
            invariant
                k <= empty,
                out@ == page + empty_rows(k as int),
            decreases empty - k,
        {
            out.queue(TermOp::ClearLine);
            out.queue(TermOp::MoveToNextLine(1));
            k += 1;
            assert(out@ =~= page + empty_rows(k as int));
        }
        out.queue(TermOp::Flush);
        assert(out@ =~= old(out)@ + self@.display_ops());
    }

    /// Tells whether `display` can show the pane.
    pub fn can_display(&self) -> (can: bool)
        ensures
            can == self@.can_display(),
    {
        1 <= self.size.1 && (self.scroll_index >= self.lines.len() || 2 <= self.size.1)
    }

    /// Tells whether `find_link` can read the page at byte `x` of line `y`.
    pub fn can_find_link(&self, x: u16, y: u16) -> (can: bool)
        ensures
            can == self@.can_find_link(x as int, y as int),
    {
        (y as usize) < self.lines.len() && link::can_find_link(
            self.lines[y as usize].as_str(),
            x as usize,
        )
    }

    /// The link at byte `x` of line `y`.
    pub fn find_link(&self, x: u16, y: u16) -> (link: Option<String>)
        requires
            self@.can_find_link(x as int, y as int),
        ensures
            link::as_text(link) == link::link_at(self@.lines[y as int], x as int),
    {
        link::find_link(self.lines[y as usize].as_str(), x as usize)
    }

    /// The first place of `pattern` in the lines from `offset` on.
    pub fn find_highlight(&self, pattern: &str, offset: usize) -> (found: Option<Highlight>)
        ensures
            as_highlight(found) == highlight_from(self@.lines, pattern@, offset as int),
    {
        let mut i = offset;
        while i < self.lines.len()
            invariant
                offset <= i,
                forall|j: int|
                    offset <= j < i && j < self@.lines.len() ==> match_in(
                        #[trigger] self@.lines[j],
                        pattern@,
                    ) is None,
            decreases self.lines.len() - i,
        {
            match text::find(self.lines[i].as_str(), pattern) {
                Some(index) => {
                    proof {
                        assert(is_first_line_with(
                            self@.lines,
                            pattern@,
                            offset as int,
                            i as int,
                        ));
                        lemma_highlight_from(self@.lines, pattern@, offset as int, i as int);
                    }
                    return Some(Highlight { line: i, index, pattern: pattern.to_owned() });
                },
                None => {},
            }
            i += 1;
        }
        None
    }

    /// Moves the highlight on to the next place of `pattern`.
    pub fn highlight_next(&mut self, pattern: &str, out: &mut Screen)
        requires
            old(self)@.wf(),
        ensures
            final(self)@ == old(self)@.with_next_highlight(pattern@),
            final(self)@.wf(),
            final(out)@ == old(out)@ + old(self)@.status_ops(old(self)@.search_status(pattern@)),
    {
        proof {
            lemma_next_highlight_keeps_wf(self@, pattern@);
        }
        let next = match &self.current_highlight {
            None => {
                self.status("first", out);
                self.find_highlight(pattern, self.scroll_index)
            },
            Some(highlight) => if !text::same(highlight.pattern.as_str(), pattern) {
                self.highlighted_lines[highlight.line] = self.lines[highlight.line].clone();
                assert(text::texts(self.highlighted_lines@) =~= text::texts(self.lines@));
                self.status("changed", out);
                None
            } else {
                self.status("next", out);
                assert(highlight.line < self.lines.len());
                let line = self.lines[highlight.line].as_str();
                let behind = text::behind(line, highlight.index, pattern);
                match text::find(line.split_at(behind).1, pattern) {
                    Some(distance) => {
                        proof {
                            text::lemma_first_match_end(line@, pattern@, behind as int);
                        }
                        Some(
                            Highlight {
                                line: highlight.line,
                                index: behind + distance,
                                pattern: highlight.pattern.clone(),
                            },
                        )
                    },
                    None => self.find_highlight(pattern, highlight.line + 1),
                }
            },
        };
        self.current_highlight = next;
    }

    /// Scrolls one line down.
    pub fn scroll_down(&mut self, out: &mut Screen)
        requires
            old(self)@.wf(),
            2 <= old(self)@.size.1,
        ensures
            final(self)@ == old(self)@.scrolled_down(),
            final(self)@.wf(),
            final(out)@ == old(out)@ + old(self)@.scroll_down_ops(),
    {
        let count = self.lines.len();
        assert(self@.scroll_index + self@.size.1 - 2 <= count || self@.scroll_index == 0);
        let bottom = self.scroll_index + (self.size.1 - 2);
        if bottom < count {
            out.queue(TermOp::ScrollUp(1));
            self.header(out);
            out.queue(TermOp::MoveTo(0, to_row(self.size.1 - 2)));
            out.queue(TermOp::ClearLine);
            self.scroll_index += 1;
            out.queue(TermOp::Print(self.lines[bottom].clone()));
            out.queue(TermOp::Flush);
            self.status("", out);
            proof {
                reveal_strlit("");
                assert(""@ =~= Seq::<char>::empty());
            }
        }
        assert(out@ =~= old(out)@ + old(self)@.scroll_down_ops());
    }

    /// Scrolls one line up.
    pub fn scroll_up(&mut self, out: &mut Screen)
        requires
            old(self)@.wf(),
        ensures
            final(self)@ == old(self)@.scrolled_up(),
            final(self)@.wf(),
            final(out)@ == old(out)@ + old(self)@.scroll_up_ops(),
    {
        if self.scroll_index > 0 {
            out.queue(TermOp::ScrollDown(1));
            self.header(out);
            out.queue(TermOp::MoveTo(0, 1));
            out.queue(TermOp::ClearLine);
            self.scroll_index -= 1;
            out.queue(TermOp::Print(self.lines[self.scroll_index].clone()));
            out.queue(TermOp::Flush);
            self.status("", out);
            proof {
                reveal_strlit("");
                assert(""@ =~= Seq::<char>::empty());
            }
        }
        assert(out@ =~= old(out)@ + old(self)@.scroll_up_ops());
    }
}

} // verus!
