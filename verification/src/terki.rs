//! The reader: the wikis it knows, the panes it shows, the commands it takes.

use vstd::hash_map::StringHashMap;
use vstd::prelude::*;

use std::path::PathBuf;

use crate::outside;
use crate::pane::{Pane, PaneView};
use crate::screen::Screen;
use crate::text;

verus! {

/// Where the pages of a wiki are kept.
#[derive(Debug)]
pub enum Store {
    /// In a directory.
    Local { path: PathBuf },
    /// Behind a URL.
    Http { url: String },
}

/// A `Store` with its URL as characters.
pub enum StoreView {
    Local { path: PathBuf },
    Http { url: Seq<char> },
}

impl View for Store {
    type V = StoreView;

    open spec fn view(&self) -> StoreView {
        match self {
            Store::Local { path } => StoreView::Local { path: *path },
            Store::Http { url } => StoreView::Http { url: url@ },
        }
    }
}

impl StoreView {
    /// What a pane calls the store.
    pub open spec fn label(self) -> Seq<char> {
        match self {
            StoreView::Local { .. } => "local"@,
            StoreView::Http { .. } => "remote"@,
        }
    }
}

/// Where a page goes.
#[derive(Debug, Clone, Copy, PartialEq, Eq)]
pub enum Location {
    /// In the place of the active pane.
    Replace,
    /// Behind the active pane.
    Next,
    /// Behind all panes.
    End,
}

/// A page to fetch, and where it goes.
#[derive(Debug, PartialEq, Eq)]
pub struct PageRequest {
    pub wiki: String,
    pub slug: String,
    pub location: Location,
}

/// A `PageRequest` with its names as characters.
pub struct PageRequestView {
    pub wiki: Seq<char>,
    pub slug: Seq<char>,
    pub location: Location,
}

impl View for PageRequest {
    type V = PageRequestView;

    open spec fn view(&self) -> PageRequestView {
        PageRequestView { wiki: self.wiki@, slug: self.slug@, location: self.location }
    }
}

impl PageRequest {
    /// The page that a wiki opens with.
    pub fn first(wiki: &str) -> (request: PageRequest)
        ensures
            request@ == (PageRequestView {
                wiki: wiki@,
                slug: "welcome-visitors"@,
                location: Location::End,
            }),
    {
        PageRequest {
            wiki: wiki.to_owned(),
            slug: "welcome-visitors".to_owned(),
            location: Location::End,
        }
    }
}

/// A request or nothing, with its names as characters.
pub open spec fn as_request(request: Option<PageRequest>) -> Option<PageRequestView> {
    match request {
        Some(request) => Some(request@),
        None => None,
    }
}

/// Why something was not done.
#[derive(Debug)]
pub enum Error {
    /// No wiki has that name.
    WikiNotFound(String),
    /// The address is not a URL.
    BadUrl(url::ParseError),
    /// The URL has no host.
    NoHost,
    /// The command has an open quote.
    BadCommand(shell_words::ParseError),
    /// There is no pane from whose wiki a page could be opened.
    NoPane,
}

/// The name under which a directory is known.
pub open spec fn local_name(file_name: Seq<char>) -> Seq<char> {
    if file_name == ".wiki"@ {
        "localhost"@
    } else {
        file_name
    }
}

/// The reader as mathematics.
pub struct TerkiView {
    /// The wikis by name.
    pub wikis: Map<Seq<char>, StoreView>,
    /// The panes from left to right.
    pub panes: Seq<PaneView>,
    /// The pane that takes the input.
    pub active_pane: int,
    /// Columns and rows.
    pub size: (int, int),
}

impl TerkiView {
    /// What holds at all times: the active pane exists as soon as there is one,
    /// every pane is sound and as large as the screen, and shows a page of a wiki
    /// that is known.
    pub open spec fn wf(self) -> bool {
        &&& 0 <= self.size.0
        &&& 0 <= self.size.1
        &&& if self.panes.len() == 0 {
            self.active_pane == 0
        } else {
            0 <= self.active_pane < self.panes.len()
        }
        &&& forall|i: int| 0 <= i < self.panes.len() ==> self.fits(#[trigger] self.panes[i])
    }

    /// The pane is sound, as large as the screen, and of a wiki that is known.
    pub open spec fn fits(self, pane: PaneView) -> bool {
        &&& pane.wf()
        &&& pane.size == self.size
        &&& self.wikis.contains_key(pane.wiki)
    }

    /// The pane that takes the input.
    pub open spec fn active(self) -> PaneView {
        self.panes[self.active_pane]
    }

    /// The reader with another active pane in the place of the active one.
    pub open spec fn with_active(self, pane: PaneView) -> TerkiView {
        TerkiView { panes: self.panes.update(self.active_pane, pane), ..self }
    }

    /// The reader with a wiki more, or another store for a wiki.
    pub open spec fn with_wiki(self, name: Seq<char>, store: StoreView) -> TerkiView {
        TerkiView { wikis: self.wikis.insert(name, store), ..self }
    }

    /// The page as it is opened in a pane.
    pub open spec fn page(
        self,
        wiki: Seq<char>,
        slug: Seq<char>,
        lines: Seq<Seq<char>>,
    ) -> PaneView {
        PaneView::opened(self.wikis[wiki].label(), wiki, slug, lines, self.size)
    }

    /// The screen has rows for a page of that many lines.
    pub open spec fn has_room(self, count: int) -> bool {
        1 <= self.size.1 && (0 < count ==> 2 <= self.size.1)
    }

    /// The reader with a pane put in a place, and active.
    pub open spec fn placed(self, pane: PaneView, location: Location) -> TerkiView {
        if self.panes.len() == 0 || location == Location::End {
            TerkiView {
                panes: self.panes.push(pane),
                active_pane: self.panes.len() as int,
                ..self
            }
        } else if location == Location::Replace {
            self.with_active(pane)
        } else {
            TerkiView {
                panes: self.panes.insert(self.active_pane + 1, pane),
                active_pane: self.active_pane + 1,
                ..self
            }
        }
    }

    /// The reader with the active pane closed, unless it is the only one. The
    /// pane behind it becomes active, or the last one if there is none.
    pub open spec fn closed(self) -> TerkiView {
        if 1 < self.panes.len() {
            TerkiView {
                panes: self.panes.remove(self.active_pane),
                active_pane: if self.active_pane < self.panes.len() - 1 {
                    self.active_pane
                } else {
                    self.panes.len() - 2
                },
                ..self
            }
        } else {
            self
        }
    }

    /// The reader after a command.
    pub open spec fn after_words(self, words: Seq<Seq<char>>) -> TerkiView {
        if 0 < words.len() && words[0] == "close"@ {
            self.closed()
        } else {
            self
        }
    }

    /// The command opens a page: `open` and one name.
    pub open spec fn opens(words: Seq<Seq<char>>) -> bool {
        words.len() == 2 && words[0] == "open"@
    }

    /// The page that a command asks for, from the wiki of the active pane.
    pub open spec fn request(self, words: Seq<Seq<char>>) -> Option<PageRequestView> {
        if TerkiView::opens(words) {
            Some(
                PageRequestView {
                    wiki: self.active().wiki,
                    slug: words[1],
                    location: Location::Next,
                },
            )
        } else {
            None
        }
    }

    /// The words of a command were done, and the page that they ask for returned.
    /// Without words, because of an open quote, or without a pane to open a page
    /// from, nothing was done.
    pub open spec fn did(
        self,
        words: Option<Seq<Seq<char>>>,
        after: TerkiView,
        request: Result<Option<PageRequest>, Error>,
    ) -> bool {
        match words {
            Some(words) => if TerkiView::opens(words) && self.panes.len() == 0 {
                &&& request == Err::<Option<PageRequest>, Error>(Error::NoPane)
                &&& after == self
            } else {
                &&& request matches Ok(page)
                &&& as_request(page) == self.request(words)
                &&& after == self.after_words(words)
            },
            None => {
                &&& request matches Err(Error::BadCommand(_))
                &&& after == self
            },
        }
    }

    /// The pane before the active one, if there is one.
    pub open spec fn previous(self) -> int {
        if 0 < self.active_pane {
            self.active_pane - 1
        } else {
            0
        }
    }

    /// The pane behind the active one, if there is one.
    pub open spec fn next(self) -> int {
        if self.active_pane + 1 < self.panes.len() {
            self.active_pane + 1
        } else {
            self.panes.len() - 1
        }
    }

    /// The reader with that pane active.
    pub open spec fn turned_to(self, i: int) -> TerkiView {
        TerkiView { active_pane: i, ..self }
    }
}

/// A sound reader stays sound when a pane that fits is put in a place, and that
/// pane is then the active one.
pub proof fn lemma_placed(terki: TerkiView, pane: PaneView, location: Location)
    requires
        terki.wf(),
        terki.fits(pane),
    ensures
        terki.placed(pane, location).wf(),
        terki.placed(pane, location).active() == pane,
{
    let after = terki.placed(pane, location);
    assert forall|i: int| 0 <= i < after.panes.len() implies after.fits(#[trigger] after.panes[i]) by {
        if after.panes[i] != pane {
            let k = if i <= terki.active_pane || terki.panes.len() == 0 || location
                == Location::End {
                i
            } else if location == Location::Replace {
                i
            } else {
                i - 1
            };
            assert(after.panes[i] == terki.panes[k]);
        }
    }
}

/// A sound reader stays sound when the active pane is closed.
pub proof fn lemma_closed(terki: TerkiView)
    requires
        terki.wf(),
    ensures
        terki.closed().wf(),
{
    let after = terki.closed();
    assert forall|i: int| 0 <= i < after.panes.len() implies after.fits(#[trigger] after.panes[i]) by {
        let k = if terki.panes.len() <= 1 || i < terki.active_pane {
            i
        } else {
            i + 1
        };
        assert(after.panes[i] == terki.panes[k]);
    }
}

/// A terminal reader of wikis.
pub struct Terki {
    wikis: StringHashMap<Store>,
    panes: Vec<Pane>,
    active_pane: usize,
    size: (usize, usize),
}

impl View for Terki {
    type V = TerkiView;

    closed spec fn view(&self) -> TerkiView {
        TerkiView {
            wikis: self.wikis@.map_values(|store: Store| store@),
            panes: self.panes@.map_values(|pane: Pane| pane@),
            active_pane: self.active_pane as int,
            size: (self.size.0 as int, self.size.1 as int),
        }
    }
}

impl Terki {
    /// A reader that knows no wiki and shows no page.
    pub fn new(size: (usize, usize)) -> (terki: Terki)
        ensures
            terki@ == (TerkiView {
                wikis: Map::empty(),
                panes: Seq::empty(),
                active_pane: 0,
                size: (size.0 as int, size.1 as int),
            }),
            terki@.wf(),
    {
        let terki = Terki {
            wikis: StringHashMap::new(),
            panes: Vec::new(),
            active_pane: 0,
            size,
        };
        assert(terki@.wikis =~= Map::empty());
        assert(terki@.panes =~= Seq::empty());
        terki
    }

    /// Makes a wiki known.
    fn add(&mut self, name: String, store: Store)
        requires
            old(self)@.wf(),
        ensures
            final(self)@ == old(self)@.with_wiki(name@, store@),
            final(self)@.wf(),
    {
        self.wikis.insert(name, store);
        assert(self@.wikis =~= old(self)@.wikis.insert(name@, store@));
    }

    /// Makes the wiki in a directory known, under the name of the directory. It
    /// is told whether the directory exists, and its name if it has one.
    pub fn add_local(&mut self, path: PathBuf, exists: bool, file_name: Option<&str>) -> (added:
        Option<String>)
        requires
            old(self)@.wf(),
        ensures
            final(self)@.wf(),
            match (exists, file_name) {
                (true, Some(file_name)) => {
                    &&& added matches Some(name)
                    &&& name@ == local_name(file_name@)
                    &&& final(self)@ == old(self)@.with_wiki(name@, StoreView::Local { path })
                },
                _ => added is None && final(self)@ == old(self)@,
            },
    {
        if !exists {
            return None;
        }
        let file_name = match file_name {
            Some(file_name) => file_name,
            None => {
                return None;
            },
        };
        let name = if text::same(file_name, ".wiki") {
            "localhost"
        } else {
            file_name
        };
        self.add(name.to_owned(), Store::Local { path });
        Some(name.to_owned())
    }

    /// Makes the wiki behind a URL known, under the name of its host.
    pub fn add_remote(&mut self, url: &str) -> (added: Result<String, Error>)
        requires
            old(self)@.wf(),
        ensures
            final(self)@.wf(),
            match outside::host_of(url@) {
                Some(Some(host)) => {
                    &&& added matches Ok(name)
                    &&& name@ == host
                    &&& final(self)@ == old(self)@.with_wiki(
                        host,
                        StoreView::Http { url: url@ },
                    )
                },
                Some(None) => added == Err::<String, Error>(Error::NoHost) && final(self)@ == old(
                    self,
                )@,
                None => added matches Err(Error::BadUrl(_)) && final(self)@ == old(self)@,
            },
    {
        let host = outside::url_host(url);
        self.add_host(url, host)
    }

    /// Makes the wiki behind a URL known, given what was found out of its host.
    pub fn add_host(&mut self, url: &str, host: Result<Option<String>, url::ParseError>) -> (added:
        Result<String, Error>)
        requires
            old(self)@.wf(),
        ensures
            final(self)@.wf(),
            match host {
                Ok(Some(host)) => {
                    &&& added matches Ok(name)
                    &&& name@ == host@
                    &&& final(self)@ == old(self)@.with_wiki(
                        host@,
                        StoreView::Http { url: url@ },
                    )
                },
                Ok(None) => added == Err::<String, Error>(Error::NoHost) && final(self)@ == old(
                    self,
                )@,
                Err(error) => added == Err::<String, Error>(Error::BadUrl(error)) && final(self)@
                    == old(self)@,
            },
    {
        match host {
            Ok(Some(host)) => {
                self.add(host.clone(), Store::Http { url: url.to_owned() });
                Ok(host)
            },
            Ok(None) => Err(Error::NoHost),
            Err(error) => Err(Error::BadUrl(error)),
        }
    }

    /// What a pane calls the store of a wiki.
    pub fn store_label(&self, wiki: &str) -> (label: Result<&'static str, Error>)
        ensures
            if self@.wikis.contains_key(wiki@) {
                label matches Ok(text) && text@ == self@.wikis[wiki@].label()
            } else {
                label matches Err(Error::WikiNotFound(name)) && name@ == wiki@
            },
    {
        match self.wikis.get(wiki) {
            Some(Store::Local { .. }) => Ok("local"),
            Some(Store::Http { .. }) => Ok("remote"),
            None => Err(Error::WikiNotFound(wiki.to_owned())),
        }
    }

    /// The store of a wiki.
    pub fn store(&self, wiki: &str) -> (store: Option<&Store>)
        ensures
            match store {
                Some(store) => self@.wikis.contains_key(wiki@) && store@ == self@.wikis[wiki@],
                None => !self@.wikis.contains_key(wiki@),
            },
    {
        self.wikis.get(wiki)
    }

    /// Tells whether `display` has the room to show a page of that many lines.
    pub fn can_show(&self, count: usize) -> (can: bool)
        ensures
            can == self@.has_room(count as int),
    {
        1 <= self.size.1 && (count == 0 || 2 <= self.size.1)
    }

    /// Shows a page that was fetched, in a pane of its own.
    pub fn display(
        &mut self,
        wiki: &str,
        slug: &str,
        lines: Vec<String>,
        location: Location,
        out: &mut Screen,
    ) -> (shown: Result<(), Error>)
        requires
            old(self)@.wf(),
            old(self)@.wikis.contains_key(wiki@) ==> old(self)@.has_room(lines@.len() as int),
        ensures
            final(self)@.wf(),
            if old(self)@.wikis.contains_key(wiki@) {
                let pane = old(self)@.page(wiki@, slug@, text::texts(lines@));
                &&& shown is Ok
                &&& final(self)@ == old(self)@.placed(pane, location)
                &&& final(out)@ == old(out)@ + pane.display_ops()
            } else {
                &&& shown matches Err(Error::WikiNotFound(name)) && name@ == wiki@
                &&& final(self)@ == old(self)@
                &&& final(out)@ == old(out)@
            },
    {
        let store = match self.store_label(wiki) {
            Ok(label) => label.to_owned(),
            Err(error) => {
                return Err(error);
            },
        };
        let pane = Pane::new(store, wiki.to_owned(), slug.to_owned(), lines, self.size);
        let ghost view = pane@;
        let ghost start = self@;
        assert(view == start.page(wiki@, slug@, text::texts(lines@)));
        assert(start.fits(view));
        if self.panes.len() == 0 {
            self.panes.push(pane);
            self.active_pane = self.panes.len() - 1;
        } else {
            match location {
                Location::End => {
                    self.panes.push(pane);
                    self.active_pane = self.panes.len() - 1;
                },
                Location::Replace => {
                    self.panes.remove(self.active_pane);
                    self.panes.insert(self.active_pane, pane);
                },
                Location::Next => {
                    self.panes.insert(self.active_pane + 1, pane);
                    self.active_pane += 1;
                },
            }
        }
        assert(self@.panes =~= start.placed(view, location).panes);
        assert(self@ == start.placed(view, location));
        proof {
            lemma_placed(start, view, location);
        }
        self.panes[self.active_pane].display(out);
        Ok(())
    }

    /// The pane that takes the input.
    pub fn active(&self) -> (pane: &Pane)
        requires
            self@.wf(),
            0 < self@.panes.len(),
        ensures
            pane@ == self@.active(),
            pane@.wf(),
    {
        assert(self@.fits(self@.active()));
        &self.panes[self.active_pane]
    }

    /// The panes from left to right.
    pub fn panes(&self) -> (panes: &Vec<Pane>)
        ensures
            panes@.map_values(|pane: Pane| pane@) == self@.panes,
    {
        &self.panes
    }

    /// The index of the pane that takes the input.
    pub fn active_pane(&self) -> (i: usize)
        ensures
            i == self@.active_pane,
    {
        self.active_pane
    }

    /// Columns and rows.
    pub fn size(&self) -> (size: (usize, usize))
        ensures
            size.0 == self@.size.0,
            size.1 == self@.size.1,
    {
        self.size
    }

    /// Scrolls the active pane one line down.
    pub fn scroll_down(&mut self, out: &mut Screen)
        requires
            old(self)@.wf(),
            0 < old(self)@.panes.len(),
            2 <= old(self)@.size.1,
        ensures
            final(self)@.wf(),
            final(self)@ == old(self)@.with_active(old(self)@.active().scrolled_down()),
            final(out)@ == old(out)@ + old(self)@.active().scroll_down_ops(),
    {
        assert(old(self)@.fits(old(self)@.active()));
        self.panes[self.active_pane].scroll_down(out);
        assert(self@.panes =~= old(self)@.with_active(old(self)@.active().scrolled_down()).panes);
    }

    /// Scrolls the active pane one line up.
    pub fn scroll_up(&mut self, out: &mut Screen)
        requires
            old(self)@.wf(),
            0 < old(self)@.panes.len(),
        ensures
            final(self)@.wf(),
            final(self)@ == old(self)@.with_active(old(self)@.active().scrolled_up()),
            final(out)@ == old(out)@ + old(self)@.active().scroll_up_ops(),
    {
        assert(old(self)@.fits(old(self)@.active()));
        self.panes[self.active_pane].scroll_up(out);
        assert(self@.panes =~= old(self)@.with_active(old(self)@.active().scrolled_up()).panes);
    }

    /// Moves the highlight of the active pane on.
    pub fn highlight_next(&mut self, pattern: &str, out: &mut Screen)
        requires
            old(self)@.wf(),
            0 < old(self)@.panes.len(),
        ensures
            final(self)@.wf(),
            final(self)@ == old(self)@.with_active(
                old(self)@.active().with_next_highlight(pattern@),
            ),
            final(out)@ == old(out)@ + old(self)@.active().status_ops(
                old(self)@.active().search_status(pattern@),
            ),
    {
        assert(old(self)@.fits(old(self)@.active()));
        self.panes[self.active_pane].highlight_next(pattern, out);
        assert(self@.panes =~= old(self)@.with_active(
            old(self)@.active().with_next_highlight(pattern@),
        ).panes);
    }

    /// Shows the active pane.
    pub fn redraw(&self, out: &mut Screen)
        requires
            self@.wf(),
            0 < self@.panes.len(),
            self@.active().can_display(),
        ensures
            final(out)@ == old(out)@ + self@.active().display_ops(),
    {
        assert(self@.fits(self@.active()));
        self.panes[self.active_pane].display(out);
    }

    /// Tells whether `redraw` has a pane that it can show.
    pub fn can_redraw(&self) -> (can: bool)
        requires
            self@.wf(),
        ensures
            can == (0 < self@.panes.len() && self@.active().can_display()),
    {
        if self.panes.len() == 0 {
            return false;
        }
        assert(self@.fits(self@.active()));
        self.panes[self.active_pane].can_display()
    }

    /// Tells whether a pane can be shown.
    pub fn can_turn_to(&self, i: usize) -> (can: bool)
        requires
            self@.wf(),
            i < self@.panes.len(),
        ensures
            can == self@.panes[i as int].can_display(),
    {
        assert(self@.fits(self@.panes[i as int]));
        self.panes[i].can_display()
    }

    /// Turns to the pane before the active one.
    pub fn previous_pane(&mut self, out: &mut Screen)
        requires
            old(self)@.wf(),
            0 < old(self)@.active_pane ==> old(self)@.panes[old(
                self,
            )@.previous()].can_display(),
        ensures
            final(self)@.wf(),
            final(self)@ == old(self)@.turned_to(old(self)@.previous()),
            final(out)@ == if old(self)@.previous() != old(self)@.active_pane {
                old(out)@ + final(self)@.active().display_ops()
            } else {
                old(out)@
            },
    {
        if self.active_pane > 0 {
            self.active_pane -= 1;
            assert(self@.wf());
            self.redraw(out);
        }
    }

    /// Turns to the pane behind the active one.
    pub fn next_pane(&mut self, out: &mut Screen)
        requires
            old(self)@.wf(),
            0 < old(self)@.panes.len(),
            old(self)@.next() != old(self)@.active_pane ==> old(self)@.panes[old(
                self,
            )@.next()].can_display(),
        ensures
            final(self)@.wf(),
            final(self)@ == old(self)@.turned_to(old(self)@.next()),
            final(out)@ == if old(self)@.next() != old(self)@.active_pane {
                old(out)@ + final(self)@.active().display_ops()
            } else {
                old(out)@
            },
    {
        assert(self.active_pane < self.panes.len());
        if self.active_pane + 1 < self.panes.len() {
            self.active_pane += 1;
            assert(self@.wf());
            self.redraw(out);
        }
    }

    /// Does what the words of a command say, and returns the page that they ask
    /// for.
    pub fn run_words(&mut self, words: &Vec<String>) -> (request: Option<PageRequest>)
        requires
            old(self)@.wf(),
            TerkiView::opens(text::texts(words@)) ==> 0 < old(self)@.panes.len(),
        ensures
            final(self)@.wf(),
            final(self)@ == old(self)@.after_words(text::texts(words@)),
            as_request(request) == old(self)@.request(text::texts(words@)),
    {
        if words.len() == 0 {
            return None;
        }
        assert(text::texts(words@)[0] == words[0]@);
        proof {
            reveal_strlit("open");
            reveal_strlit("close");
            assert("open"@.len() != "close"@.len());
        }
        let command = words[0].as_str();
        if text::same(command, "open") {
            if words.len() == 2 {
                return Some(
                    PageRequest {
                        wiki: self.panes[self.active_pane].wiki().to_owned(),
                        slug: words[1].clone(),
                        location: Location::Next,
                    },
                );
            }
        } else if text::same(command, "close") {
            if self.panes.len() > 1 {
                self.panes.remove(self.active_pane);
                if self.active_pane >= self.panes.len() {
                    self.active_pane = self.panes.len() - 1;
                }
                assert(self@.panes =~= old(self)@.closed().panes);
                proof {
                    lemma_closed(old(self)@);
                }
            }
        }
        None
    }

    /// Does what a command says, and returns the page that it asks for. Without a
    /// pane there is no wiki to open a page from.
    pub fn run_command(&mut self, command: &str) -> (request: Result<Option<PageRequest>, Error>)
        requires
            old(self)@.wf(),
        ensures
            final(self)@.wf(),
            old(self)@.did(outside::words_of(command@), final(self)@, request),
            forall|words: Seq<Seq<char>>|
                (forall|i: int| 0 <= i < words.len() ==> outside::is_plain_word(#[trigger] words[i]))
                    && command@ == #[trigger] outside::spaced(words) ==> old(self)@.did(
                    Some(words),
                    final(self)@,
                    request,
                ),
    {
        let words = match outside::split(command) {
            Ok(words) => words,
            Err(error) => {
                return Err(Error::BadCommand(error));
            },
        };
        if self.panes.len() == 0 && words.len() == 2 && text::same(words[0].as_str(), "open") {
            return Err(Error::NoPane);
        }
        Ok(self.run_words(&words))
    }
}

} // verus!
