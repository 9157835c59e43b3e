use terki_panes::pane::{Highlight, Pane};
use terki_panes::screen::{Screen, TermOp};

fn pane(lines: &[&str], rows: usize) -> Pane {
    Pane::new(
        "local".to_string(),
        "localhost".to_string(),
        "home".to_string(),
        lines.iter().map(|line| line.to_string()).collect(),
        (30, rows),
    )
}

fn print(text: &str) -> TermOp {
    TermOp::Print(text.to_string())
}

fn header() -> Vec<TermOp> {
    vec![
        TermOp::MoveTo(0, 0),
        TermOp::ClearLine,
        print("\u{1b}[7m   local: localhost -- home   \u{1b}[0m"),
        TermOp::Flush,
    ]
}

fn status(row: u16, text: &str) -> Vec<TermOp> {
    vec![TermOp::MoveTo(0, row), TermOp::ClearLine, print(text), TermOp::Flush]
}

fn displayed(pane: &Pane) -> Vec<TermOp> {
    assert!(pane.can_display());
    let mut out = Screen::new();
    pane.display(&mut out);
    out.into_ops()
}

fn rows(shown: &[&str], empty: usize) -> Vec<TermOp> {
    let mut ops = header();
    ops.push(TermOp::MoveTo(0, 1));
    for line in shown {
        ops.push(TermOp::ClearLine);
        ops.push(print(line));
        ops.push(TermOp::MoveToNextLine(1));
    }
    for _ in 0..empty {
        ops.push(TermOp::ClearLine);
        ops.push(TermOp::MoveToNextLine(1));
    }
    ops.push(TermOp::Flush);
    ops
}

fn highlight(line: usize, index: usize, pattern: &str) -> Highlight {
    Highlight { line, index, pattern: pattern.to_string() }
}

#[test]
fn header_names_store_wiki_and_page() {
    let mut out = Screen::new();
    pane(&[], 5).header(&mut out);
    assert_eq!(out.into_ops(), header());
}

#[test]
fn status_goes_below_the_page() {
    let mut out = Screen::new();
    pane(&[], 5).status("ready", &mut out);
    assert_eq!(out.into_ops(), status(5, "ready"));
    let mut out = Screen::new();
    pane(&[], 0x1_0003).status("", &mut out);
    assert_eq!(out.into_ops(), status(3, ""));
}

#[test]
fn display_shows_the_page_and_clears_the_rest() {
    assert_eq!(displayed(&pane(&["a", "b"], 6)), rows(&["a", "b"], 3));
    assert_eq!(displayed(&pane(&["a", "b", "c", "d", "e"], 5)), rows(&["a", "b", "c"], 1));
    assert_eq!(displayed(&pane(&["a", "b"], 2)), rows(&["a"], 0));
    assert_eq!(displayed(&pane(&[], 4)), rows(&[], 3));
    assert_eq!(displayed(&pane(&[], 1)), rows(&[], 0));
}

#[test]
fn display_goes_down_all_rows() {
    for rows in 2..9 {
        for count in 0..9 {
            let lines = vec!["x"; count];
            let moves = displayed(&pane(&lines, rows))
                .iter()
                .filter(|op| matches!(op, TermOp::MoveToNextLine(1)))
                .count();
            assert_eq!(moves, rows - 1);
        }
    }
}

#[test]
fn display_needs_room() {
    assert!(!pane(&[], 0).can_display());
    assert!(!pane(&["a"], 1).can_display());
    assert!(pane(&["a"], 2).can_display());
}

#[test]
fn scroll_down_writes_the_new_last_line() {
    let mut pane = pane(&["a", "b", "c", "d"], 4);
    let mut out = Screen::new();
    pane.scroll_down(&mut out);
    assert_eq!(pane.scroll_index(), 1);
    let mut expected = vec![TermOp::ScrollUp(1)];
    expected.extend(header());
    expected.extend(vec![TermOp::MoveTo(0, 2), TermOp::ClearLine, print("c"), TermOp::Flush]);
    expected.extend(status(4, ""));
    assert_eq!(out.into_ops(), expected);
    assert_eq!(displayed(&pane), rows(&["b", "c"], 1));
}

#[test]
fn scroll_down_stops_at_the_last_line() {
    let mut pane = pane(&["a", "b", "c"], 4);
    let mut out = Screen::new();
    pane.scroll_down(&mut out);
    assert_eq!(pane.scroll_index(), 1);
    let mut out = Screen::new();
    pane.scroll_down(&mut out);
    assert_eq!(pane.scroll_index(), 1);
    assert_eq!(out.into_ops(), vec![]);
    assert_eq!(displayed(&pane), rows(&["b", "c"], 1));
}

#[test]
fn scroll_up_writes_the_new_first_line() {
    let mut pane = pane(&["a", "b", "c"], 4);
    let mut out = Screen::new();
    pane.scroll_up(&mut out);
    assert_eq!(out.into_ops(), vec![]);
    pane.scroll_down(&mut Screen::new());
    let mut out = Screen::new();
    pane.scroll_up(&mut out);
    assert_eq!(pane.scroll_index(), 0);
    let mut expected = vec![TermOp::ScrollDown(1)];
    expected.extend(header());
    expected.extend(vec![TermOp::MoveTo(0, 1), TermOp::ClearLine, print("a"), TermOp::Flush]);
    expected.extend(status(4, ""));
    assert_eq!(out.into_ops(), expected);
}

#[test]
fn find_highlight_skips_to_the_offset() {
    let pane = pane(&["x[[a", "none", "[[b"], 9);
    assert_eq!(pane.find_highlight("[[", 0), Some(highlight(0, 1, "[[")));
    assert_eq!(pane.find_highlight("[[", 1), Some(highlight(2, 0, "[[")));
    assert_eq!(pane.find_highlight("[[", 3), None);
    assert_eq!(pane.find_highlight("[[", 30), None);
    assert_eq!(pane.find_highlight("]]", 0), None);
}

#[test]
fn highlight_goes_through_the_lines() {
    let mut pane = pane(&["none", "[[a", "b [[c"], 9);
    let mut out = Screen::new();
    pane.highlight_next("[[", &mut out);
    assert_eq!(pane.current_highlight(), Some(&highlight(1, 0, "[[")));
    pane.highlight_next("[[", &mut out);
    assert_eq!(pane.current_highlight(), Some(&highlight(2, 2, "[[")));
    pane.highlight_next("[[", &mut out);
    assert_eq!(pane.current_highlight(), None);
    pane.highlight_next("[[", &mut out);
    assert_eq!(pane.current_highlight(), Some(&highlight(1, 0, "[[")));
    let mut expected = status(9, "first");
    expected.extend(status(9, "next"));
    expected.extend(status(9, "next"));
    expected.extend(status(9, "first"));
    assert_eq!(out.into_ops(), expected);
}

#[test]
fn highlight_goes_through_the_matches_of_a_line() {
    let mut pane = pane(&["[[a]] [[b]]"], 9);
    pane.highlight_next("[[", &mut Screen::new());
    assert_eq!(pane.current_highlight(), Some(&highlight(0, 0, "[[")));
    pane.highlight_next("[[", &mut Screen::new());
    assert_eq!(pane.current_highlight(), Some(&highlight(0, 6, "[[")));
    assert_eq!(displayed(&pane), rows(&["[[a]] \u{1b}[1m[[\u{1b}[0mb]]"], 7));
    pane.highlight_next("[[", &mut Screen::new());
    assert_eq!(pane.current_highlight(), None);
}

#[test]
fn highlights_do_not_overlap() {
    let mut pane = pane(&["aaaaa"], 9);
    pane.highlight_next("aa", &mut Screen::new());
    assert_eq!(pane.current_highlight(), Some(&highlight(0, 0, "aa")));
    pane.highlight_next("aa", &mut Screen::new());
    assert_eq!(pane.current_highlight(), Some(&highlight(0, 2, "aa")));
    pane.highlight_next("aa", &mut Screen::new());
    assert_eq!(pane.current_highlight(), None);
}

#[test]
fn highlight_starts_at_the_first_line_shown() {
    let mut pane = pane(&["[[a", "b", "[[c"], 3);
    pane.scroll_down(&mut Screen::new());
    pane.highlight_next("[[", &mut Screen::new());
    assert_eq!(pane.current_highlight(), Some(&highlight(2, 0, "[[")));
}

#[test]
fn another_pattern_starts_over() {
    let mut pane = pane(&["[[a]]"], 9);
    pane.highlight_next("[[", &mut Screen::new());
    let mut out = Screen::new();
    pane.highlight_next("]]", &mut out);
    assert_eq!(pane.current_highlight(), None);
    assert_eq!(out.into_ops(), status(9, "changed"));
    pane.highlight_next("]]", &mut Screen::new());
    assert_eq!(pane.current_highlight(), Some(&highlight(0, 3, "]]")));
}

#[test]
fn highlight_is_shown_in_bold() {
    let mut pane = pane(&["see [[a]]", "b"], 5);
    pane.highlight_next("[[", &mut Screen::new());
    assert_eq!(displayed(&pane), rows(&["see \u{1b}[1m[[\u{1b}[0ma]]", "b"], 2));
}

#[test]
fn highlight_behind_wide_characters_can_be_shown() {
    let mut pane = pane(&["[[\u{e9}a[[", "x"], 5);
    pane.highlight_next("[[", &mut Screen::new());
    pane.highlight_next("[[", &mut Screen::new());
    assert_eq!(pane.current_highlight(), Some(&highlight(0, 5, "[[")));
    assert_eq!(displayed(&pane), rows(&["[[\u{e9}a\u{1b}[1m[[\u{1b}[0m", "x"], 2));
}

#[test]
fn empty_pattern_stays_where_it_is() {
    let mut pane = pane(&["\u{e9}"], 5);
    pane.highlight_next("", &mut Screen::new());
    assert_eq!(pane.current_highlight(), Some(&highlight(0, 0, "")));
    pane.highlight_next("", &mut Screen::new());
    assert_eq!(pane.current_highlight(), Some(&highlight(0, 0, "")));
    assert!(pane.can_display());
}

#[test]
fn find_link_counts_lines_from_the_top_of_the_page() {
    let pane = pane(&["none", "[[Page]]"], 5);
    assert!(pane.can_find_link(4, 1));
    assert_eq!(pane.find_link(4, 1), Some("Page".to_string()));
    assert_eq!(pane.find_link(2, 0), None);
    assert!(!pane.can_find_link(0, 2));
    assert!(!pane.can_find_link(9, 1));
}
