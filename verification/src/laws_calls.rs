//! What holds of the calls: what each leaves behind, sends to the terminal and
//! returns.

use vstd::prelude::*;
use vstd::utf8::*;

use std::path::PathBuf;

use crate::input::{Event, ExCallView, ExEventStatus, Key, Plan};
use crate::laws;
use crate::laws_reader;
use crate::laws_text;
use crate::link;
use crate::outside;
use crate::pane;
use crate::pane::{Highlight, Pane};
use crate::screen::{Screen, TermOp, TermOpView};
use crate::terki::{Error, Location, PageRequest, Store, StoreView, Terki};
use crate::text;

verus! {

/// A search in a text gives the first place of the pattern, or nothing if it has
/// none.
pub proof fn law_find_call(words: &str, pattern: &str, found: Option<usize>, j: int)
    requires
        call_ensures(text::find, (words, pattern), found),
    ensures
        ({
            let bytes = encode_utf8(words@);
            let wanted = encode_utf8(pattern@);
            let n = wanted.len();
            let stands_at_j = 0 <= j && j + n <= bytes.len() && bytes.subrange(j, j + n) == wanted;
            match found {
                Some(i) => {
                    &&& i + n <= bytes.len()
                    &&& bytes.subrange(i as int, i + n) == wanted
                    &&& stands_at_j ==> i <= j
                },
                None => !stands_at_j,
            }
        }),
{
    laws_text::law_first_match(encode_utf8(words@), encode_utf8(pattern@), j);
}

/// A search from the end gives the last place of the pattern, or nothing if it has
/// none.
pub proof fn law_rfind_call(words: &str, pattern: &str, found: Option<usize>, j: int)
    requires
        call_ensures(text::rfind, (words, pattern), found),
    ensures
        ({
            let bytes = encode_utf8(words@);
            let wanted = encode_utf8(pattern@);
            let n = wanted.len();
            let stands_at_j = 0 <= j && j + n <= bytes.len() && bytes.subrange(j, j + n) == wanted;
            match found {
                Some(i) => {
                    &&& i + n <= bytes.len()
                    &&& bytes.subrange(i as int, i + n) == wanted
                    &&& stands_at_j ==> j <= i
                },
                None => !stands_at_j,
            }
        }),
{
    laws_text::law_last_match(encode_utf8(words@), encode_utf8(pattern@), j);
}

/// Two texts are the same if their characters are.
pub proof fn law_same_call(a: &str, b: &str, equal: bool)
    requires
        call_ensures(text::same, (a, b), equal),
    ensures
        equal <==> a@ == b@,
{
}

/// A centered text keeps its characters, with blanks on both sides up to the width.
pub proof fn law_center_call(title: &str, width: usize, shown: String, i: int)
    requires
        call_ensures(text::center, (title, width), shown),
        0 <= i < shown@.len(),
    ensures
        ({
            let spare = if title@.len() < width {
                width - title@.len()
            } else {
                0
            };
            let before = spare / 2;
            &&& shown@.len() == title@.len() + spare
            &&& shown@[i] == if before <= i < before + title@.len() {
                title@[i - before]
            } else {
                ' '
            }
        }),
{
}

/// Putting dashes for blanks changes nothing but the blanks.
pub proof fn law_dashed_call(words: &str, dashed: String, i: int)
    requires
        call_ensures(text::dashed, (words,), dashed),
        0 <= i < words@.len(),
    ensures
        dashed@.len() == words@.len(),
        dashed@[i] == if words@[i] == ' ' {
            '-'
        } else {
            words@[i]
        },
{
}

/// Replacing the middle of a text keeps what stands before it and behind it.
pub proof fn law_splice_call(
    words: &str,
    from: usize,
    to: usize,
    new: &str,
    result: String,
    before: Seq<char>,
    middle: Seq<char>,
    behind: Seq<char>,
)
    requires
        call_ensures(text::splice, (words, from, to, new), result),
        words@ == before + middle + behind,
        from == encode_utf8(before).len(),
        to == from + encode_utf8(middle).len(),
    ensures
        result@ == before + new@ + behind,
{
    laws_text::law_splice(before, middle, behind, new@);
}

/// The name of a page has as many characters as the lower-case form of the link,
/// and in each place the same one, but for a dash where that form has a blank.
pub proof fn law_slug_call(name: &str, slug: String, i: int)
    requires
        call_ensures(link::slug, (name,), slug),
        0 <= i < outside::lowercase(name@).len(),
    ensures
        slug@.len() == outside::lowercase(name@).len(),
        slug@[i] == if outside::lowercase(name@)[i] == ' ' {
            '-'
        } else {
            outside::lowercase(name@)[i]
        },
{
}

/// A pane is opened with the page that it is given, from the first line.
pub proof fn law_new_pane_call(
    store: String,
    wiki: String,
    slug: String,
    lines: Vec<String>,
    size: (usize, usize),
    pane: Pane,
    i: int,
)
    requires
        call_ensures(Pane::new, (store, wiki, slug, lines, size), pane),
    ensures
        pane@.store == store@,
        pane@.wiki == wiki@,
        pane@.slug == slug@,
        pane@.lines.len() == lines@.len(),
        0 <= i < lines@.len() ==> pane@.lines[i] == lines@[i]@,
        pane@.size.0 == size.0,
        pane@.size.1 == size.1,
        pane@.scroll_index == 0,
        pane@.current_highlight is None,
{
}

/// A pane tells its wiki, its page, where it is scrolled to and what is highlighted.
pub proof fn law_pane_getters(
    pane: &Pane,
    wiki: &str,
    slug: &str,
    index: usize,
    highlight: Option<&Highlight>,
)
    requires
        call_ensures(Pane::wiki, (pane,), wiki),
        call_ensures(Pane::slug, (pane,), slug),
        call_ensures(Pane::scroll_index, (pane,), index),
        call_ensures(Pane::current_highlight, (pane,), highlight),
    ensures
        wiki@ == pane@.wiki,
        slug@ == pane@.slug,
        index == pane@.scroll_index,
        highlight is Some <==> pane@.current_highlight is Some,
        highlight matches Some(highlight) ==> {
            &&& highlight.line == pane@.current_highlight->0.line
            &&& highlight.index == pane@.current_highlight->0.index
            &&& highlight.pattern@ == pane@.current_highlight->0.pattern
        },
{
}

/// A pane reads a link in the line that it is asked about.
pub proof fn law_find_link_call(pane: &Pane, x: u16, y: u16, found: Option<String>)
    requires
        call_ensures(Pane::find_link, (pane, x, y), found),
    ensures
        match link::link_at(pane@.lines[y as int], x as int) {
            Some(name) => found matches Some(text) && text@ == name,
            None => found is None,
        },
{
}

/// A search in a page, from a line on, gives a place of the pattern with none before
/// it, and gives nothing only if there is none.
pub proof fn law_find_highlight_call(
    pane: &Pane,
    pattern: &str,
    offset: usize,
    found: Option<Highlight>,
    line: int,
    k: int,
)
    requires
        call_ensures(Pane::find_highlight, (pane, pattern, offset), found),
    ensures
        ({
            let wanted = encode_utf8(pattern@);
            let n = wanted.len();
            let bytes = encode_utf8(pane@.lines[line]);
            let stands_there = offset <= line < pane@.lines.len() && 0 <= k && k + n <= bytes.len()
                && bytes.subrange(k, k + n) == wanted;
            &&& stands_there ==> found is Some
            &&& found matches Some(place) ==> {
                let bytes = encode_utf8(pane@.lines[place.line as int]);
                &&& offset <= place.line < pane@.lines.len()
                &&& place.pattern@ == pattern@
                &&& place.index + n <= bytes.len()
                &&& bytes.subrange(place.index as int, place.index + n) == wanted
                &&& stands_there ==> place.line < line || place.line == line && place.index <= k
            }
        }),
{
    let wanted = encode_utf8(pattern@);
    let n = wanted.len();
    let bytes = encode_utf8(pane@.lines[line]);
    if offset <= line < pane@.lines.len() && 0 <= k && k + n <= bytes.len() && bytes.subrange(
        k,
        k + n,
    ) == wanted {
        assert(text::occurs_at(bytes, wanted, k));
        laws::law_search_finds_the_first_place(pane@.lines, pattern@, offset as int, line, k);
    }
    if found is Some {
        assert(pane::as_highlight(found) == Some(found->0@));
        pane::lemma_highlight_from_fits(pane@.lines, pattern@, offset as int);
    }
}

/// What is queued for the terminal comes out in the same order.
pub proof fn law_queue_calls(op: TermOp)
    ensures
        forall|screen: Screen|
            #[trigger] call_ensures(Screen::new, (), screen) ==> screen@.len() == 0,
        forall|screen: &mut Screen|
            #[trigger] call_ensures(Screen::queue, (screen, op), ()) ==> final(screen)@
                == (*screen)@.push(op@),
        forall|screen: Screen, ops: Vec<TermOp>, i: int|
            #![trigger call_ensures(Screen::into_ops, (screen,), ops), ops@[i]]
            call_ensures(Screen::into_ops, (screen,), ops) ==> {
                &&& ops@.len() == screen@.len()
                &&& 0 <= i < ops@.len() ==> screen@[i] == ops@[i]@
            },
        op matches TermOp::MoveTo(column, row) ==> op@ == TermOpView::MoveTo(column, row),
        op matches TermOp::MoveToNextLine(rows) ==> op@ == TermOpView::MoveToNextLine(rows),
        op matches TermOp::ClearLine ==> op@ == TermOpView::ClearLine,
        op matches TermOp::Print(text) ==> op@ == TermOpView::Print(text@),
        op matches TermOp::ScrollUp(rows) ==> op@ == TermOpView::ScrollUp(rows),
        op matches TermOp::ScrollDown(rows) ==> op@ == TermOpView::ScrollDown(rows),
        op matches TermOp::Flush ==> op@ == TermOpView::Flush,
{
    assert forall|screen: Screen, ops: Vec<TermOp>, i: int|
        #![trigger call_ensures(Screen::into_ops, (screen,), ops), ops@[i]]
        call_ensures(Screen::into_ops, (screen,), ops) implies {
        &&& ops@.len() == screen@.len()
        &&& 0 <= i < ops@.len() ==> screen@[i] == ops@[i]@
    } by {
        let views = ops@.map_values(|op: TermOp| op@);
        assert(views == screen@);
        assert(views.len() == ops@.len());
    }
}

/// A pane sends the header, the status and the whole of itself to the terminal
/// behind what was queued before.
pub proof fn law_showing_calls(pane: &Pane, status: &str)
    ensures
        forall|out: &mut Screen|
            #[trigger] call_ensures(Pane::header, (pane, out), ()) ==> final(out)@ == (*out)@
                + pane@.header_ops(),
        forall|out: &mut Screen|
            #[trigger] call_ensures(Pane::status, (pane, status, out), ()) ==> final(out)@
                == (*out)@ + pane@.status_ops(status@),
        forall|out: &mut Screen|
            #[trigger] call_ensures(Pane::display, (pane, out), ()) ==> final(out)@ == (*out)@
                + pane@.display_ops(),
{
}

/// A pane that is scrolled or searched becomes the one scrolled or searched, and
/// sends what belongs to that to the terminal.
pub proof fn law_pane_calls(pattern: &str)
    ensures
        forall|pane: &mut Pane, out: &mut Screen|
            #[trigger] call_ensures(Pane::scroll_down, (pane, out), ()) ==> {
                &&& final(pane)@ == (*pane)@.scrolled_down()
                &&& final(out)@ == (*out)@ + (*pane)@.scroll_down_ops()
            },
        forall|pane: &mut Pane, out: &mut Screen|
            #[trigger] call_ensures(Pane::scroll_up, (pane, out), ()) ==> {
                &&& final(pane)@ == (*pane)@.scrolled_up()
                &&& final(out)@ == (*out)@ + (*pane)@.scroll_up_ops()
            },
        forall|pane: &mut Pane, out: &mut Screen|
            #[trigger] call_ensures(Pane::highlight_next, (pane, pattern, out), ()) ==> {
                &&& final(pane)@ == (*pane)@.with_next_highlight(pattern@)
                &&& final(out)@ == (*out)@ + (*pane)@.status_ops(
                    (*pane)@.search_status(pattern@),
                )
            },
{
}

/// A new reader knows no wiki and shows no page.
pub proof fn law_new_reader_call(size: (usize, usize), terki: Terki, wiki: Seq<char>)
    requires
        call_ensures(Terki::new, (size,), terki),
    ensures
        !terki@.wikis.contains_key(wiki),
        terki@.panes.len() == 0,
        terki@.active_pane == 0,
        terki@.size.0 == size.0,
        terki@.size.1 == size.1,
{
}

/// A directory that exists and has a name is known under that name from then on,
/// and is not known otherwise. Nothing but the wikis changes.
pub proof fn law_add_local_call(path: PathBuf, exists: bool, name: Option<&str>)
    ensures
        forall|terki: &mut Terki, added: Option<String>|
            #[trigger] call_ensures(Terki::add_local, (terki, path, exists, name), added) ==> {
                &&& final(terki)@.panes == (*terki)@.panes
                &&& final(terki)@.active_pane == (*terki)@.active_pane
                &&& final(terki)@.size == (*terki)@.size
                &&& added is Some <==> exists && name is Some
                &&& added is None ==> final(terki)@.wikis == (*terki)@.wikis
                &&& added matches Some(known) ==> {
                    &&& final(terki)@.wikis == (*terki)@.wikis.insert(
                        known@,
                        StoreView::Local { path },
                    )
                    &&& name->0@ == seq!['.', 'w', 'i', 'k', 'i'] ==> known@ == seq![
                        'l',
                        'o',
                        'c',
                        'a',
                        'l',
                        'h',
                        'o',
                        's',
                        't',
                    ]
                    &&& name->0@ != seq!['.', 'w', 'i', 'k', 'i'] ==> known@ == name->0@
                }
            },
{
    if name is Some {
        laws_reader::law_local_name(name->0@);
    }
}

/// A URL with a host is known under that host from then on, and is not known
/// otherwise. Nothing but the wikis changes.
pub proof fn law_add_host_call(url: &str, host: Result<Option<String>, url::ParseError>)
    ensures
        forall|terki: &mut Terki, added: Result<String, Error>|
            #[trigger] call_ensures(Terki::add_host, (terki, url, host), added) ==> {
                &&& final(terki)@.panes == (*terki)@.panes
                &&& final(terki)@.active_pane == (*terki)@.active_pane
                &&& final(terki)@.size == (*terki)@.size
                &&& added is Ok <==> host is Ok && host->Ok_0 is Some
                &&& added is Err ==> final(terki)@.wikis == (*terki)@.wikis
                &&& added matches Ok(known) ==> {
                    &&& known@ == host->Ok_0->0@
                    &&& final(terki)@.wikis == (*terki)@.wikis.insert(
                        known@,
                        StoreView::Http { url: url@ },
                    )
                }
                &&& added matches Err(error) ==> {
                    &&& host is Ok ==> error is NoHost
                    &&& host is Err ==> error == Error::BadUrl(host->Err_0)
                }
            },
{
}

/// An address is known under its host from then on, and is not known if it is no
/// URL or has no host. Nothing but the wikis changes.
pub proof fn law_add_remote_call(url: &str)
    ensures
        forall|terki: &mut Terki, added: Result<String, Error>|
            #[trigger] call_ensures(Terki::add_remote, (terki, url), added) ==> {
                let host = outside::host_of(url@);
                &&& final(terki)@.panes == (*terki)@.panes
                &&& final(terki)@.active_pane == (*terki)@.active_pane
                &&& final(terki)@.size == (*terki)@.size
                &&& added is Ok <==> host is Some && host->0 is Some
                &&& added is Err ==> final(terki)@.wikis == (*terki)@.wikis
                &&& added matches Ok(known) ==> {
                    &&& known@ == host->0->0
                    &&& final(terki)@.wikis == (*terki)@.wikis.insert(
                        known@,
                        StoreView::Http { url: url@ },
                    )
                }
                &&& added matches Err(error) ==> {
                    &&& host is Some ==> error is NoHost
                    &&& host is None ==> error is BadUrl
                }
            },
{
}

/// The store of a wiki that is known is found, and called after its kind; of
/// another one there is nothing to find.
pub proof fn law_store_calls(
    terki: &Terki,
    wiki: &str,
    store: Option<&Store>,
    label: Result<&'static str, Error>,
)
    requires
        call_ensures(Terki::store, (terki, wiki), store),
        call_ensures(Terki::store_label, (terki, wiki), label),
    ensures
        store is Some <==> terki@.wikis.contains_key(wiki@),
        label is Ok <==> terki@.wikis.contains_key(wiki@),
        store matches Some(store) ==> {
            &&& store@ == terki@.wikis[wiki@]
            &&& store is Local ==> label->Ok_0@ == seq!['l', 'o', 'c', 'a', 'l']
            &&& store is Http ==> label->Ok_0@ == seq!['r', 'e', 'm', 'o', 't', 'e']
        },
        label matches Err(error) ==> error matches Error::WikiNotFound(name) && name@ == wiki@,
{
    reveal_strlit("local");
    reveal_strlit("remote");
}

/// A page of a wiki that is known is put in its place and shown; a page of another
/// one is refused, and nothing changes.
pub proof fn law_display_call(
    wiki: &str,
    slug: &str,
    lines: Vec<String>,
    location: Location,
)
    ensures
        forall|terki: &mut Terki, out: &mut Screen, shown: Result<(), Error>|
            #[trigger] call_ensures(
                Terki::display,
                (terki, wiki, slug, lines, location, out),
                shown,
            ) ==> {
                let page = (*terki)@.page(wiki@, slug@, text::texts(lines@));
                &&& shown is Ok <==> (*terki)@.wikis.contains_key(wiki@)
                &&& shown is Ok ==> {
                    &&& final(terki)@ == (*terki)@.placed(page, location)
                    &&& final(out)@ == (*out)@ + page.display_ops()
                }
                &&& shown matches Err(error) ==> {
                    &&& error matches Error::WikiNotFound(name)
                    &&& name@ == wiki@
                    &&& final(terki)@ == (*terki)@
                    &&& final(out)@ == (*out)@
                }
            },
{
}

/// A reader tells its active pane, the index of that pane and the size of the
/// screen.
pub proof fn law_reader_getters(
    terki: &Terki,
    pane: &Pane,
    panes: &Vec<Pane>,
    index: usize,
    size: (usize, usize),
    i: int,
)
    requires
        call_ensures(Terki::active, (terki,), pane),
        call_ensures(Terki::panes, (terki,), panes),
        call_ensures(Terki::active_pane, (terki,), index),
        call_ensures(Terki::size, (terki,), size),
    ensures
        pane@ == terki@.panes[terki@.active_pane],
        panes@.len() == terki@.panes.len(),
        0 <= i < panes@.len() ==> panes@[i]@ == terki@.panes[i],
        index == terki@.active_pane,
        size.0 == terki@.size.0,
        size.1 == terki@.size.1,
{
    let views = panes@.map_values(|pane: Pane| pane@);
    assert(views == terki@.panes);
    assert(views.len() == panes@.len());
}

/// Scrolling and searching happen in the active pane.
pub proof fn law_active_pane_calls(pattern: &str)
    ensures
        forall|terki: &mut Terki, out: &mut Screen|
            #[trigger] call_ensures(Terki::scroll_down, (terki, out), ()) ==> {
                let pane = (*terki)@.panes[(*terki)@.active_pane];
                &&& final(terki)@ == (*terki)@.with_active(pane.scrolled_down())
                &&& final(out)@ == (*out)@ + pane.scroll_down_ops()
            },
        forall|terki: &mut Terki, out: &mut Screen|
            #[trigger] call_ensures(Terki::scroll_up, (terki, out), ()) ==> {
                let pane = (*terki)@.panes[(*terki)@.active_pane];
                &&& final(terki)@ == (*terki)@.with_active(pane.scrolled_up())
                &&& final(out)@ == (*out)@ + pane.scroll_up_ops()
            },
        forall|terki: &mut Terki, out: &mut Screen|
            #[trigger] call_ensures(Terki::highlight_next, (terki, pattern, out), ()) ==> {
                let pane = (*terki)@.panes[(*terki)@.active_pane];
                &&& final(terki)@ == (*terki)@.with_active(pane.with_next_highlight(pattern@))
                &&& final(out)@ == (*out)@ + pane.status_ops(pane.search_status(pattern@))
            },
        forall|terki: &Terki, out: &mut Screen|
            #[trigger] call_ensures(Terki::redraw, (terki, out), ()) ==> final(out)@ == (*out)@
                + terki@.panes[terki@.active_pane].display_ops(),
{
}

/// Turning goes one pane to the left or to the right and shows that pane; where
/// there is none, nothing changes and nothing is shown.
pub proof fn law_turning_calls()
    ensures
        forall|terki: &mut Terki, out: &mut Screen|
            #[trigger] call_ensures(Terki::previous_pane, (terki, out), ()) && (*terki)@.wf() ==> {
                let i = (*terki)@.active_pane;
                &&& final(terki)@ == (*terki)@.turned_to(
                    if 0 < i {
                        i - 1
                    } else {
                        i
                    },
                )
                &&& 0 < i ==> final(out)@ == (*out)@ + (*terki)@.panes[i - 1].display_ops()
                &&& i == 0 ==> final(out)@ == (*out)@
            },
        forall|terki: &mut Terki, out: &mut Screen|
            #[trigger] call_ensures(Terki::next_pane, (terki, out), ()) && (*terki)@.wf() && 0
                < (*terki)@.panes.len() ==> {
                let i = (*terki)@.active_pane;
                let last = (*terki)@.panes.len() - 1;
                &&& final(terki)@ == (*terki)@.turned_to(
                    if i < last {
                        i + 1
                    } else {
                        i
                    },
                )
                &&& i < last ==> final(out)@ == (*out)@ + (*terki)@.panes[i + 1].display_ops()
                &&& i == last ==> final(out)@ == (*out)@
            },
{
}

/// A command that is taken apart closes the active pane or asks for a page of its
/// wiki, as its words say; every other one does nothing.
pub proof fn law_run_words_call(words: Vec<String>)
    ensures
        forall|terki: &mut Terki, request: Option<PageRequest>|
            #[trigger] call_ensures(Terki::run_words, (terki, &words), request) ==> {
                let closes = 0 < words@.len() && words@[0]@ == seq!['c', 'l', 'o', 's', 'e'];
                let opens = words@.len() == 2 && words@[0]@ == seq!['o', 'p', 'e', 'n'];
                &&& final(terki)@ == if closes {
                    (*terki)@.closed()
                } else {
                    (*terki)@
                }
                &&& request is Some <==> opens
                &&& request matches Some(page) ==> {
                    &&& page.wiki@ == (*terki)@.panes[(*terki)@.active_pane].wiki
                    &&& page.slug@ == words@[1]@
                    &&& page.location == Location::Next
                }
            },
{
    reveal_strlit("open");
    reveal_strlit("close");
    assert("open"@ =~= seq!['o', 'p', 'e', 'n']);
    assert("close"@ =~= seq!['c', 'l', 'o', 's', 'e']);
    let views = text::texts(words@);
    assert(views.len() == words@.len());
    assert(0 < words@.len() ==> views[0] == words@[0]@);
    assert(1 < words@.len() ==> views[1] == words@[1]@);
}

/// A command does what its words say, and fails without a change if it has no
/// words because of an open quote, or asks for a page when there is no pane.
pub proof fn law_run_command_call(command: &str)
    ensures
        forall|terki: &mut Terki, request: Result<Option<PageRequest>, Error>|
            #[trigger] call_ensures(Terki::run_command, (terki, command), request) ==> {
                let words = outside::words_of(command@);
                let opens = words is Some && words->0.len() == 2 && words->0[0] == seq![
                    'o',
                    'p',
                    'e',
                    'n',
                ];
                &&& request is Ok <==> words is Some && !(opens && (*terki)@.panes.len() == 0)
                &&& request is Err ==> final(terki)@ == (*terki)@
                &&& request matches Err(error) ==> {
                    &&& words is None ==> error is BadCommand
                    &&& words is Some ==> error is NoPane
                }
                &&& request matches Ok(page) ==> {
                    &&& final(terki)@ == (*terki)@.after_words(words->0)
                    &&& page is Some <==> opens
                    &&& page matches Some(page) ==> {
                        &&& page.wiki@ == (*terki)@.panes[(*terki)@.active_pane].wiki
                        &&& page.slug@ == words->0[1]
                        &&& page.location == Location::Next
                    }
                }
            },
{
    assert forall|terki: &mut Terki, request: Result<Option<PageRequest>, Error>|
        #[trigger] call_ensures(Terki::run_command, (terki, command), request) implies {
        let words = outside::words_of(command@);
        let opens = words is Some && words->0.len() == 2 && words->0[0] == seq!['o', 'p', 'e', 'n'];
        &&& request is Ok <==> words is Some && !(opens && (*terki)@.panes.len() == 0)
        &&& request is Err ==> final(terki)@ == (*terki)@
        &&& request matches Err(error) ==> {
            &&& words is None ==> error is BadCommand
            &&& words is Some ==> error is NoPane
        }
        &&& request matches Ok(page) ==> {
            &&& final(terki)@ == (*terki)@.after_words(words->0)
            &&& page is Some <==> opens
            &&& page matches Some(page) ==> {
                &&& page.wiki@ == (*terki)@.panes[(*terki)@.active_pane].wiki
                &&& page.slug@ == words->0[1]
                &&& page.location == Location::Next
            }
        }
    } by {
        laws_reader::law_command_outcome(
            (*terki)@,
            outside::words_of(command@),
            final(terki)@,
            request,
        );
    }
}

/// A click off the links does nothing. A click on a link whose name needs no quotes
/// asks for the page of that name in the wiki of the active pane, to stand behind
/// that pane. Neither sends anything to the terminal, nor changes a pane.
pub proof fn law_click_call(x: u16, y: u16, handled: ExEventStatus, ex_active: bool)
    ensures
        forall|terki: &mut Terki, out: &mut Screen, result: Result<Plan, Error>|
            #[trigger] call_ensures(
                Terki::handle_input,
                (terki, Event::MouseDown { x, y }, handled, ex_active, out),
                result,
            ) && 0 < (*terki)@.panes.len() ==> {
                let pane = (*terki)@.panes[(*terki)@.active_pane];
                let link = link::link_at(pane.lines[y - 1], x as int);
                &&& final(out)@ == (*out)@
                &&& link is None ==> {
                    &&& final(terki)@ == (*terki)@
                    &&& result matches Ok(plan)
                    &&& plan.page is None
                    &&& plan.ex@ == ExCallView::Nothing
                    &&& !plan.redraw && !plan.quit
                }
                &&& link matches Some(name) ==> (outside::is_plain_word(link::slug_of(name)) ==> {
                    &&& final(terki)@ == (*terki)@
                    &&& result matches Ok(plan)
                    &&& plan.ex@ == ExCallView::Nothing
                    &&& !plan.redraw && !plan.quit
                    &&& plan.page matches Some(page)
                    &&& page.wiki@ == pane.wiki
                    &&& page.slug@ == link::slug_of(name)
                    &&& page.location == Location::Next
                })
            },
{
    assert forall|terki: &mut Terki, out: &mut Screen, result: Result<Plan, Error>|
        #[trigger] call_ensures(
            Terki::handle_input,
            (terki, Event::MouseDown { x, y }, handled, ex_active, out),
            result,
        ) && 0 < (*terki)@.panes.len() implies {
        let pane = (*terki)@.panes[(*terki)@.active_pane];
        let link = link::link_at(pane.lines[y - 1], x as int);
        &&& final(out)@ == (*out)@
        &&& link is None ==> {
            &&& final(terki)@ == (*terki)@
            &&& result matches Ok(plan)
            &&& plan.page is None
            &&& plan.ex@ == ExCallView::Nothing
            &&& !plan.redraw && !plan.quit
        }
        &&& link matches Some(name) ==> (outside::is_plain_word(link::slug_of(name)) ==> {
            &&& final(terki)@ == (*terki)@
            &&& result matches Ok(plan)
            &&& plan.ex@ == ExCallView::Nothing
            &&& !plan.redraw && !plan.quit
            &&& plan.page matches Some(page)
            &&& page.wiki@ == pane.wiki
            &&& page.slug@ == link::slug_of(name)
            &&& page.location == Location::Next
        })
    } by {
        let before = (*terki)@;
        let pane = before.panes[before.active_pane];
        if let Some(name) = link::link_at(pane.lines[y - 1], x as int) {
            let slug = link::slug_of(name);
            let words = seq!["open"@, slug];
            if outside::is_plain_word(slug) {
                reveal_strlit("open");
                assert("open"@ =~= seq!['o', 'p', 'e', 'n']);
                let idle = crate::input::PlanView::idle();
                laws_reader::law_planned_command_outcome(
                    before,
                    Some(words),
                    idle,
                    final(terki)@,
                    result,
                );
                laws_reader::law_open_command(before, words);
            }
        }
    }
}

/// A key that the command line did not look at does what the key stands for.
pub proof fn law_key_call(key: Key, ex_active: bool)
    ensures
        forall|terki: &mut Terki, out: &mut Screen, result: Result<Plan, Error>|
            #[trigger] call_ensures(
                Terki::handle_input,
                (terki, Event::Key(key), ExEventStatus::Ignored, ex_active, out),
                result,
            ) ==> {
                &&& final(terki)@ == (*terki)@.after_key(key)
                &&& final(out)@ == (*out)@ + (*terki)@.key_ops(key)
                &&& result matches Ok(plan)
                &&& plan@ == (*terki)@.key_plan(key)
            },
{
}

/// A key that the command line took changes nothing by itself, and nor does an
/// event that is none of the others.
pub proof fn law_quiet_event_calls(key: Key, handled: ExEventStatus, ex_active: bool)
    ensures
        forall|terki: &mut Terki, out: &mut Screen, result: Result<Plan, Error>|
            #[trigger] call_ensures(
                Terki::handle_input,
                (terki, Event::Key(key), ExEventStatus::Handled, ex_active, out),
                result,
            ) ==> {
                &&& final(terki)@ == (*terki)@
                &&& final(out)@ == (*out)@
                &&& result matches Ok(plan)
                &&& plan.page is None
                &&& plan.ex@ == (ExCallView::Show { row: (*terki)@.bottom_row() })
                &&& plan.redraw == !ex_active
                &&& !plan.quit
            },
        forall|terki: &mut Terki, out: &mut Screen, result: Result<Plan, Error>|
            #[trigger] call_ensures(
                Terki::handle_input,
                (terki, Event::Other, handled, ex_active, out),
                result,
            ) ==> {
                &&& final(terki)@ == (*terki)@
                &&& final(out)@ == (*out)@
                &&& result matches Ok(plan)
                &&& plan.page is None
                &&& plan.ex@ == ExCallView::Nothing
                &&& !plan.redraw && !plan.quit
            },
{
}

/// A key that ends a command runs that command, with the page that it asks for in
/// what is left to do, beside the command line and, once that has ended, the pane.
pub proof fn law_run_event_call(key: Key, command: String, ex_active: bool)
    ensures
        forall|terki: &mut Terki, out: &mut Screen, result: Result<Plan, Error>|
            #[trigger] call_ensures(
                Terki::handle_input,
                (terki, Event::Key(key), ExEventStatus::Run(command), ex_active, out),
                result,
            ) ==> {
                let words = outside::words_of(command@);
                &&& final(out)@ == (*out)@
                &&& result is Err ==> final(terki)@ == (*terki)@
                &&& result is Ok <==> words is Some && !(words->0.len() == 2 && words->0[0]
                    == seq!['o', 'p', 'e', 'n'] && (*terki)@.panes.len() == 0)
                &&& result matches Ok(plan) ==> {
                    &&& final(terki)@ == (*terki)@.after_words(words->0)
                    &&& plan.ex@ == (ExCallView::Show { row: (*terki)@.bottom_row() })
                    &&& plan.redraw == !ex_active
                    &&& !plan.quit
                    &&& plan@.page == (*terki)@.request(words->0)
                }
            },
{
    assert forall|terki: &mut Terki, out: &mut Screen, result: Result<Plan, Error>|
        #[trigger] call_ensures(
            Terki::handle_input,
            (terki, Event::Key(key), ExEventStatus::Run(command), ex_active, out),
            result,
        ) implies {
        let words = outside::words_of(command@);
        &&& final(out)@ == (*out)@
        &&& result is Err ==> final(terki)@ == (*terki)@
        &&& result is Ok <==> words is Some && !(words->0.len() == 2 && words->0[0] == seq![
            'o',
            'p',
            'e',
            'n',
        ] && (*terki)@.panes.len() == 0)
        &&& result matches Ok(plan) ==> {
            &&& final(terki)@ == (*terki)@.after_words(words->0)
            &&& plan.ex@ == (ExCallView::Show { row: (*terki)@.bottom_row() })
            &&& plan.redraw == !ex_active
            &&& !plan.quit
            &&& plan@.page == (*terki)@.request(words->0)
        }
    } by {
        laws_reader::law_planned_command_outcome(
            (*terki)@,
            outside::words_of(command@),
            (*terki)@.handled_plan(ex_active),
            final(terki)@,
            result,
        );
    }
}

} // verus!
