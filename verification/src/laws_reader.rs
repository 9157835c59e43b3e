//! What holds of the panes, the commands and the keys.

use vstd::prelude::*;

use crate::input;
use crate::input::{Event, ExCallView, ExEventStatus, Key, Plan, PlanView};
use crate::laws_paint;
use crate::laws_paint::Canvas;
use crate::laws_text;
use crate::link;
use crate::outside;
use crate::pane::PaneView;
use crate::terki;
use crate::terki::{Error, Location, PageRequest, PageRequestView, StoreView, TerkiView};

verus! {

/// With more than one pane, closing removes the active pane, wherever it stands,
/// and no other: the panes before it keep their index, those behind it move one to
/// the left. The one behind it becomes active, or the last one if there is none.
/// With one pane or none, nothing happens.
pub proof fn law_close_removes_the_active_pane(terki: TerkiView, i: int)
    requires
        terki.wf(),
    ensures
        ({
            let after = terki.closed();
            let n = terki.panes.len();
            &&& after.wikis == terki.wikis
            &&& after.size == terki.size
            &&& n <= 1 ==> after.panes == terki.panes && after.active_pane == terki.active_pane
            &&& 1 < n ==> {
                &&& after.panes.len() == n - 1
                &&& 0 <= i < terki.active_pane ==> after.panes[i] == terki.panes[i]
                &&& terki.active_pane <= i < n - 1 ==> after.panes[i] == terki.panes[i + 1]
                &&& terki.active_pane + 1 < n ==> after.active() == terki.panes[terki.active_pane
                    + 1] && after.active_pane == terki.active_pane
                &&& terki.active_pane + 1 == n ==> after.active_pane == n - 2
            }
        }),
{
}

/// A page that goes behind the active pane moves the panes behind that one to the
/// right, and is active.
pub proof fn law_next_page_stands_behind_the_active_pane(
    terki: TerkiView,
    pane: PaneView,
    i: int,
)
    requires
        terki.wf(),
        0 < terki.panes.len(),
    ensures
        ({
            let after = terki.placed(pane, Location::Next);
            &&& after.wikis == terki.wikis
            &&& after.size == terki.size
            &&& after.panes.len() == terki.panes.len() + 1
            &&& 0 <= i <= terki.active_pane ==> after.panes[i] == terki.panes[i]
            &&& after.panes[terki.active_pane + 1] == pane
            &&& terki.active_pane < i < terki.panes.len() ==> after.panes[i + 1] == terki.panes[i]
            &&& after.active_pane == terki.active_pane + 1
        }),
{
}

/// A page that goes to the end stands behind all panes, and is active. The first
/// page goes there in any case.
pub proof fn law_last_page_stands_behind_all_panes(
    terki: TerkiView,
    pane: PaneView,
    location: Location,
    i: int,
)
    requires
        terki.wf(),
        terki.panes.len() == 0 || location == Location::End,
    ensures
        ({
            let after = terki.placed(pane, location);
            &&& after.wikis == terki.wikis
            &&& after.size == terki.size
            &&& after.panes.len() == terki.panes.len() + 1
            &&& 0 <= i < terki.panes.len() ==> after.panes[i] == terki.panes[i]
            &&& after.panes.last() == pane
            &&& after.active_pane == terki.panes.len()
        }),
{
}

/// A page that replaces the active pane stands in its place, and is active.
pub proof fn law_replacing_page_stands_in_the_active_place(
    terki: TerkiView,
    pane: PaneView,
    i: int,
)
    requires
        terki.wf(),
        0 < terki.panes.len(),
    ensures
        ({
            let after = terki.placed(pane, Location::Replace);
            &&& after.wikis == terki.wikis
            &&& after.size == terki.size
            &&& after.panes.len() == terki.panes.len()
            &&& after.panes[terki.active_pane] == pane
            &&& 0 <= i < terki.panes.len() && i != terki.active_pane ==> after.panes[i]
                == terki.panes[i]
            &&& after.active_pane == terki.active_pane
        }),
{
}

/// A page is opened under its names, from its first line, without a highlight, as
/// large as the screen, and called after the store of its wiki.
pub proof fn law_page(
    terki: TerkiView,
    wiki: Seq<char>,
    slug: Seq<char>,
    lines: Seq<Seq<char>>,
)
    ensures
        ({
            let page = terki.page(wiki, slug, lines);
            &&& page.wiki == wiki
            &&& page.slug == slug
            &&& page.lines == lines
            &&& page.size == terki.size
            &&& page.scroll_index == 0
            &&& page.current_highlight is None
            &&& terki.wikis[wiki] is Local ==> page.store == seq!['l', 'o', 'c', 'a', 'l']
            &&& terki.wikis[wiki] is Http ==> page.store == seq!['r', 'e', 'm', 'o', 't', 'e']
        }),
{
    reveal_strlit("local");
    reveal_strlit("remote");
}

/// A directory is known by its name, but for the one of the machine itself.
pub proof fn law_local_name(file_name: Seq<char>)
    ensures
        file_name == seq!['.', 'w', 'i', 'k', 'i'] ==> terki::local_name(file_name) == seq![
            'l',
            'o',
            'c',
            'a',
            'l',
            'h',
            'o',
            's',
            't',
        ],
        file_name != seq!['.', 'w', 'i', 'k', 'i'] ==> terki::local_name(file_name) == file_name,
{
    reveal_strlit(".wiki");
    reveal_strlit("localhost");
    assert(".wiki"@ =~= seq!['.', 'w', 'i', 'k', 'i']);
}

/// A wiki more changes no pane.
pub proof fn law_added_wiki_changes_no_pane(terki: TerkiView, name: Seq<char>, store: StoreView)
    ensures
        ({
            let after = terki.with_wiki(name, store);
            &&& after.panes == terki.panes
            &&& after.active_pane == terki.active_pane
            &&& after.size == terki.size
        }),
{
}

/// Turning goes to the neighbour of the active pane, and stays where there is none.
pub proof fn law_turning_goes_to_the_neighbour(terki: TerkiView)
    requires
        terki.wf(),
        0 < terki.panes.len(),
    ensures
        ({
            let left = terki.after_key(Key::Left);
            let right = terki.after_key(Key::Right);
            let last = terki.panes.len() - 1;
            &&& left == TerkiView { active_pane: left.active_pane, ..terki }
            &&& right == TerkiView { active_pane: right.active_pane, ..terki }
            &&& 0 < terki.active_pane ==> left.active_pane == terki.active_pane - 1
            &&& terki.active_pane == 0 ==> left.active_pane == 0
            &&& terki.active_pane < last ==> right.active_pane == terki.active_pane + 1
            &&& terki.active_pane == last ==> right.active_pane == last
        }),
{
}

/// Turning shows the pane that it turns to, and nothing where it turns to none.
pub proof fn law_turning_shows_the_neighbour(terki: TerkiView)
    requires
        terki.wf(),
        0 < terki.panes.len(),
    ensures
        0 < terki.active_pane ==> terki.key_ops(Key::Left) == terki.panes[terki.active_pane
            - 1].display_ops(),
        terki.active_pane == 0 ==> terki.key_ops(Key::Left).len() == 0,
        terki.active_pane + 1 < terki.panes.len() ==> terki.key_ops(Key::Right)
            == terki.panes[terki.active_pane + 1].display_ops(),
        terki.active_pane + 1 == terki.panes.len() ==> terki.key_ops(Key::Right).len() == 0,
{
}

/// The keys for up and down scroll the active pane, and leave the others.
pub proof fn law_scrolling_keys(terki: TerkiView, i: int)
    requires
        terki.wf(),
        0 <= i < terki.panes.len(),
    ensures
        ({
            let up = terki.after_key(Key::Up);
            let down = terki.after_key(Key::Down);
            let pane = terki.panes[terki.active_pane];
            &&& up == TerkiView { panes: up.panes, ..terki }
            &&& down == TerkiView { panes: down.panes, ..terki }
            &&& up.panes.len() == terki.panes.len()
            &&& down.panes.len() == terki.panes.len()
            &&& i != terki.active_pane ==> up.panes[i] == terki.panes[i] && down.panes[i]
                == terki.panes[i]
            &&& up.panes[terki.active_pane] == pane.scrolled_up()
            &&& down.panes[terki.active_pane] == pane.scrolled_down()
            &&& terki.key_ops(Key::Up) == pane.scroll_up_ops()
            &&& terki.key_ops(Key::Down) == pane.scroll_down_ops()
        }),
{
}

/// The key `n` looks for the next link of the active pane, and says so in the
/// status.
pub proof fn law_next_link_key(terki: TerkiView, i: int)
    requires
        terki.wf(),
        0 <= i < terki.panes.len(),
    ensures
        ({
            let after = terki.after_key(Key::Char('n'));
            let pane = terki.panes[terki.active_pane];
            let wanted = seq!['[', '['];
            &&& after == TerkiView { panes: after.panes, ..terki }
            &&& after.panes.len() == terki.panes.len()
            &&& i != terki.active_pane ==> after.panes[i] == terki.panes[i]
            &&& after.panes[terki.active_pane] == pane.with_next_highlight(wanted)
            &&& terki.key_ops(Key::Char('n')) == pane.status_ops(pane.search_status(wanted))
        }),
{
}

/// The key `x` closes the active pane. All other letters change no pane but `n`, and
/// no letter but `n` sends anything to the terminal.
pub proof fn law_letters(terki: TerkiView, c: char)
    ensures
        c == 'x' ==> terki.after_key(Key::Char(c)) == terki.closed(),
        c != 'x' && c != 'n' ==> terki.after_key(Key::Char(c)) == terki,
        c != 'n' ==> terki.key_ops(Key::Char(c)).len() == 0,
        terki.after_key(Key::Other) == terki,
        terki.key_ops(Key::Other).len() == 0,
{
}

/// What is left to do after a key: `o` starts the command line with a word already
/// there, `:` hands it the key, `x` and `n` show the active pane once more, a key
/// without a meaning ends the reader, and no key asks for a page. The command line
/// stands in the last row.
pub proof fn law_key_plan(terki: TerkiView, key: Key)
    requires
        0 <= terki.size.1,
        1 <= terki.size.1 % 0x1_0000,
    ensures
        ({
            let plan = terki.key_plan(key);
            let row = (terki.size.1 % 0x1_0000 - 1) as u16;
            &&& terki.size.1 < 0x1_0000 ==> row == terki.size.1 - 1
            &&& plan.page is None
            &&& plan.redraw <==> key == Key::Char('x') || key == Key::Char('n')
            &&& plan.quit <==> match key {
                Key::Up | Key::Down | Key::Left | Key::Right => false,
                Key::Char(c) => c != 'o' && c != 'x' && c != 'e' && c != 'n' && c != ':',
                Key::Other => true,
            }
            &&& key == Key::Char('o') ==> plan.ex == ExCallView::Prompt {
                row,
                text: seq!['o', 'p', 'e', 'n'],
            }
            &&& key == Key::Char(':') ==> plan.ex == (ExCallView::Press { row })
            &&& key != Key::Char('o') && key != Key::Char(':') ==> plan.ex == ExCallView::Nothing
        }),
{
    reveal_strlit("open");
    assert("open"@ =~= seq!['o', 'p', 'e', 'n']);
}

/// After a key that the command line took, the command line is shown in the last
/// row, and the active pane once the command line has ended.
pub proof fn law_handled_plan(terki: TerkiView, ex_active: bool)
    requires
        0 <= terki.size.1,
        1 <= terki.size.1 % 0x1_0000,
    ensures
        ({
            let plan = terki.handled_plan(ex_active);
            let row = (terki.size.1 % 0x1_0000 - 1) as u16;
            &&& terki.size.1 < 0x1_0000 ==> row == terki.size.1 - 1
            &&& plan.page is None
            &&& plan.ex == (ExCallView::Show { row })
            &&& plan.redraw == !ex_active
            &&& !plan.quit
        }),
{
}

/// An idle plan asks for nothing.
pub proof fn law_idle_plan()
    ensures
        PlanView::idle().page is None,
        PlanView::idle().ex == ExCallView::Nothing,
        !PlanView::idle().redraw,
        !PlanView::idle().quit,
{
}

/// A command closes the active pane if its first word says so, whatever follows,
/// and else changes nothing.
pub proof fn law_close_command(terki: TerkiView, words: Seq<Seq<char>>)
    ensures
        0 < words.len() && words[0] == seq!['c', 'l', 'o', 's', 'e'] ==> terki.after_words(words)
            == terki.closed(),
        words.len() == 0 || words[0] != seq!['c', 'l', 'o', 's', 'e'] ==> terki.after_words(words)
            == terki,
{
    reveal_strlit("close");
    assert("close"@ =~= seq!['c', 'l', 'o', 's', 'e']);
}

/// A command asks for a page exactly if it is the word for that and one name: the
/// page of that name in the wiki of the active pane, to stand behind that pane.
pub proof fn law_open_command(terki: TerkiView, words: Seq<Seq<char>>)
    ensures
        TerkiView::opens(words) == (words.len() == 2 && words[0] == seq!['o', 'p', 'e', 'n']),
        words.len() == 2 && words[0] == seq!['o', 'p', 'e', 'n'] ==> {
            &&& terki.request(words) == Some(
                PageRequestView {
                    wiki: terki.panes[terki.active_pane].wiki,
                    slug: words[1],
                    location: Location::Next,
                },
            )
            &&& terki.after_words(words) == terki
        },
        words.len() != 2 || words[0] != seq!['o', 'p', 'e', 'n'] ==> terki.request(words) is None,
{
    reveal_strlit("open");
    reveal_strlit("close");
    assert("open"@ =~= seq!['o', 'p', 'e', 'n']);
    assert("close"@[0] != "open"@[0]);
}

/// A command that was taken apart succeeds and does what its words say, unless it
/// asks for a page and there is no pane; one with an open quote fails. A command
/// that fails changes nothing.
pub proof fn law_command_outcome(
    terki: TerkiView,
    words: Option<Seq<Seq<char>>>,
    after: TerkiView,
    request: Result<Option<PageRequest>, Error>,
)
    requires
        terki.did(words, after, request),
    ensures
        request is Err ==> after == terki,
        request is Ok <==> words is Some && !(words->0.len() == 2 && words->0[0] == seq![
            'o',
            'p',
            'e',
            'n',
        ] && terki.panes.len() == 0),
        request matches Ok(page) ==> {
            &&& after == terki.after_words(words->0)
            &&& page is Some <==> words->0.len() == 2 && words->0[0] == seq!['o', 'p', 'e', 'n']
            &&& page matches Some(page) ==> {
                &&& page.wiki@ == terki.panes[terki.active_pane].wiki
                &&& page.slug@ == words->0[1]
                &&& page.location == Location::Next
            }
        },
        request matches Err(error) ==> {
            &&& words is None ==> error is BadCommand
            &&& words is Some ==> error is NoPane
        },
{
    if words is Some {
        law_open_command(terki, words->0);
    }
}

/// What is left to do after a command is what was planned, with the page that the
/// command asks for; the outcome is that of the command.
pub proof fn law_planned_command_outcome(
    terki: TerkiView,
    words: Option<Seq<Seq<char>>>,
    plan: PlanView,
    after: TerkiView,
    result: Result<Plan, Error>,
)
    requires
        terki.done(words, plan, after, result),
    ensures
        result is Err ==> after == terki,
        result is Ok <==> words is Some && !(words->0.len() == 2 && words->0[0] == seq![
            'o',
            'p',
            'e',
            'n',
        ] && terki.panes.len() == 0),
        result matches Ok(found) ==> {
            &&& after == terki.after_words(words->0)
            &&& found.ex@ == plan.ex
            &&& found.redraw == plan.redraw
            &&& found.quit == plan.quit
            &&& found.page is Some <==> words->0.len() == 2 && words->0[0] == seq![
                'o',
                'p',
                'e',
                'n',
            ]
            &&& found.page matches Some(page) ==> {
                &&& page.wiki@ == terki.panes[terki.active_pane].wiki
                &&& page.slug@ == words->0[1]
                &&& page.location == Location::Next
            }
        },
        result matches Err(error) ==> {
            &&& words is None ==> error is BadCommand
            &&& words is Some ==> error is NoPane
        },
{
    if words is Some {
        law_open_command(terki, words->0);
    }
    if result is Ok {
        assert(result->Ok_0@.page == terki::as_request(result->Ok_0.page));
    }
}

/// The command that a click on a link runs is the word that opens a page, a blank
/// and the name of the page.
pub proof fn law_open_command_text(slug: Seq<char>)
    ensures
        input::open_command(slug) == seq!['o', 'p', 'e', 'n', ' '] + slug,
{
    reveal_strlit("open ");
    assert("open "@ =~= seq!['o', 'p', 'e', 'n', ' ']);
}

/// The command that opens a page, with a name that needs no quotes, asks for that
/// page of the wiki of the active pane, to stand behind that pane, and changes
/// nothing yet.
pub proof fn law_open_command_asks_for_the_page(
    terki: TerkiView,
    slug: Seq<char>,
    plan: PlanView,
    after: TerkiView,
    result: Result<Plan, Error>,
)
    requires
        0 < terki.panes.len(),
        outside::is_plain_word(slug),
        terki.ran(seq!['o', 'p', 'e', 'n', ' '] + slug, plan, after, result),
    ensures
        after == terki,
        result matches Ok(found) && found.page matches Some(page) && {
            &&& page.wiki@ == terki.panes[terki.active_pane].wiki
            &&& page.slug@ == slug
            &&& page.location == Location::Next
        },
{
    let words = seq![seq!['o', 'p', 'e', 'n'], slug];
    laws_text::law_spaced(seq!['o', 'p', 'e', 'n'], slug);
    assert(outside::spaced(words) =~= seq!['o', 'p', 'e', 'n', ' '] + slug);
    assert(outside::is_plain_word(words[0]));
    assert(terki.done(Some(words), plan, after, result));
    law_planned_command_outcome(terki, Some(words), plan, after, result);
    law_open_command(terki, words);
}

/// The command that closes a pane closes the active one and asks for no page.
pub proof fn law_close_command_closes(
    terki: TerkiView,
    plan: PlanView,
    after: TerkiView,
    result: Result<Plan, Error>,
)
    requires
        terki.ran(seq!['c', 'l', 'o', 's', 'e'], plan, after, result),
    ensures
        after == terki.closed(),
        result matches Ok(found) && found.page is None,
{
    let words = seq![seq!['c', 'l', 'o', 's', 'e']];
    laws_text::law_spaced(seq!['c', 'l', 'o', 's', 'e'], Seq::empty());
    assert(outside::is_plain_word(words[0]));
    assert(terki.done(Some(words), plan, after, result));
    law_planned_command_outcome(terki, Some(words), plan, after, result);
    law_close_command(terki, words);
}

/// A command whose quotes are not closed fails and changes nothing.
pub proof fn law_open_quote_fails(
    terki: TerkiView,
    command: Seq<char>,
    plan: PlanView,
    after: TerkiView,
    result: Result<Plan, Error>,
)
    requires
        outside::words_of(command) is None,
        terki.ran(command, plan, after, result),
    ensures
        after == terki,
        result matches Err(error) && error is BadCommand,
{
    law_planned_command_outcome(terki, None, plan, after, result);
}

/// A wiki opens with its welcome page, behind all panes.
pub proof fn law_first_page(wiki: &str, request: PageRequest)
    requires
        call_ensures(PageRequest::first, (wiki,), request),
    ensures
        request.wiki@ == wiki@,
        request.slug@ == seq![
            'w',
            'e',
            'l',
            'c',
            'o',
            'm',
            'e',
            '-',
            'v',
            'i',
            's',
            'i',
            't',
            'o',
            'r',
            's',
        ],
        request.location == Location::End,
{
    reveal_strlit("welcome-visitors");
    assert(request@.slug == request.slug@);
}

/// In a pane that is not scrolled, a click looks for a link in the text that stands
/// in its row of the screen, but for the highlight.
pub proof fn law_click_reads_its_row(terki: TerkiView, canvas: Canvas, x: int, y: int)
    requires
        terki.wf(),
        0 < terki.panes.len(),
        terki.active().can_display(),
        terki.active().scroll_index == 0,
        1 <= y <= terki.active().shown(),
        terki.active().current_highlight matches Some(highlight) ==> highlight.line != y - 1,
    ensures
        terki.clicked(x, y) == link::link_at(
            (canvas.after(terki.active().display_ops()).rows)(y),
            x,
        ),
{
    assert(terki.fits(terki.active()));
    laws_paint::law_pane_on_screen(terki.active(), canvas, y);
}

/// What a click looks at depends on the page alone, not on where it is scrolled to
/// nor on what is highlighted.
pub proof fn law_click_looks_at_the_page(terki: TerkiView, other: TerkiView, x: int, y: int)
    requires
        terki.panes[terki.active_pane].lines == other.panes[other.active_pane].lines,
    ensures
        terki.clicked(x, y) == other.clicked(x, y),
{
}

/// A click is taken wherever the page has a line for it and the link there, if any,
/// can be read.
pub proof fn law_clicks_are_taken(
    terki: TerkiView,
    x: u16,
    y: u16,
    handled: ExEventStatus,
    ex_active: bool,
)
    requires
        terki.wf(),
    ensures
        terki.accepts(Event::MouseDown { x, y }, handled, ex_active) <==> {
            &&& 0 < terki.panes.len()
            &&& 1 <= y <= terki.panes[terki.active_pane].lines.len()
            &&& link::link_readable(terki.panes[terki.active_pane].lines[y - 1], x as int)
        },
{
}

/// The screen has room for every page if it has two rows, and for an empty page if
/// it has one.
pub proof fn law_room_for_a_page(terki: TerkiView, count: int)
    requires
        0 <= count,
    ensures
        2 <= terki.size.1 ==> terki.has_room(count),
        terki.size.1 == 1 ==> (terki.has_room(count) <==> count == 0),
        terki.size.1 <= 0 ==> !terki.has_room(count),
{
}

/// A key is taken as soon as there is a pane to do it in, and room to show what it
/// shows: with a pane and a screen of two rows or more every key is taken.
pub proof fn law_keys_are_taken(terki: TerkiView, key: Key)
    requires
        terki.wf(),
        0 < terki.panes.len(),
        2 <= terki.size.1 < 0x1_0000,
    ensures
        terki.accepts_key(key),
        terki.accepts(Event::Key(key), ExEventStatus::Ignored, true),
        terki.accepts(Event::Key(key), ExEventStatus::Handled, true),
        terki.accepts(Event::Key(key), ExEventStatus::Handled, false),
        terki.accepts(Event::Other, ExEventStatus::Ignored, true),
        forall|command: String, ex_active: bool|
            #[trigger] terki.accepts(Event::Key(key), ExEventStatus::Run(command), ex_active),
{
    assert(terki.fits(terki.panes[terki.previous()]));
    assert(terki.fits(terki.panes[terki.next()]));
}

} // verus!
