//! What the reader does with one event from the terminal.

use vstd::prelude::*;

use crate::link;
use crate::outside;
use crate::pane;
use crate::screen::{Screen, TermOpView};
use crate::terki::{Error, PageRequest, PageRequestView, Terki, TerkiView};
use crate::terki;
use crate::text;

verus! {

/// A key, as far as the reader tells keys apart.
#[derive(Debug, Clone, Copy, PartialEq, Eq)]
pub enum Key {
    Up,
    Down,
    Left,
    Right,
    Char(char),
    /// Any other key.
    Other,
}

/// An event, as far as the reader tells events apart.
#[derive(Debug, Clone, Copy, PartialEq, Eq)]
pub enum Event {
    /// A mouse button went down at a column and a row.
    MouseDown { x: u16, y: u16 },
    /// A key was pressed.
    Key(Key),
    /// Any other event.
    Other,
}

/// What the command line made of a key.
#[derive(Debug, PartialEq, Eq)]
pub enum ExEventStatus {
    /// It did not look at the key.
    Ignored,
    /// It took the key.
    Handled,
    /// It took the key, which ended a command.
    Run(String),
}

/// What the command line is asked to do.
#[derive(Debug, PartialEq, Eq)]
pub enum ExCall {
    /// Nothing.
    Nothing,
    /// Show itself in a row.
    Show { row: u16 },
    /// Become active in a row with a text already there.
    Prompt { row: u16, text: String },
    /// Take the key, and show itself in a row.
    Press { row: u16 },
}

/// An `ExCall` with its text as characters.
pub enum ExCallView {
    Nothing,
    Show { row: u16 },
    Prompt { row: u16, text: Seq<char> },
    Press { row: u16 },
}

impl View for ExCall {
    type V = ExCallView;

    open spec fn view(&self) -> ExCallView {
        match self {
            ExCall::Nothing => ExCallView::Nothing,
            ExCall::Show { row } => ExCallView::Show { row: *row },
            ExCall::Prompt { row, text } => ExCallView::Prompt { row: *row, text: text@ },
            ExCall::Press { row } => ExCallView::Press { row: *row },
        }
    }
}

/// What is left to do after an event, in this order: fetch and display a page,
/// ask something of the command line, show the active pane, end.
#[derive(Debug, PartialEq, Eq)]
pub struct Plan {
    pub page: Option<PageRequest>,
    pub ex: ExCall,
    pub redraw: bool,
    pub quit: bool,
}

/// A `Plan` with its names as characters.
pub struct PlanView {
    pub page: Option<PageRequestView>,
    pub ex: ExCallView,
    pub redraw: bool,
    pub quit: bool,
}

impl View for Plan {
    type V = PlanView;

    open spec fn view(&self) -> PlanView {
        PlanView {
            page: terki::as_request(self.page),
            ex: self.ex@,
            redraw: self.redraw,
            quit: self.quit,
        }
    }
}

impl PlanView {
    /// Nothing is left to do.
    pub open spec fn idle() -> PlanView {
        PlanView { page: None, ex: ExCallView::Nothing, redraw: false, quit: false }
    }
}

impl TerkiView {
    /// The row of the command line: the last one of the screen.
    pub open spec fn bottom_row(self) -> u16 {
        (pane::row(self.size.1) - 1) as u16
    }

    /// The screen has a row for the command line.
    pub open spec fn has_bottom_row(self) -> bool {
        1 <= pane::row(self.size.1)
    }

    /// The reader shows a page.
    pub open spec fn has_pane(self) -> bool {
        0 < self.panes.len()
    }

    /// What a key asks for can be done.
    pub open spec fn accepts_key(self, key: Key) -> bool {
        match key {
            Key::Up => self.has_pane(),
            Key::Down => self.has_pane() && 2 <= self.size.1,
            Key::Left => 0 < self.active_pane ==> self.panes[self.previous()].can_display(),
            Key::Right => {
                &&& self.has_pane()
                &&& self.next() != self.active_pane ==> self.panes[self.next()].can_display()
            },
            Key::Char(c) => {
                &&& c == 'o' || c == ':' ==> self.has_bottom_row()
                &&& c == 'x' || c == 'n' ==> self.has_pane()
            },
            Key::Other => true,
        }
    }

    /// What an event asks for can be done: a click lies on a line of the page and
    /// on a link that can be read, if any, and there is a pane and room for what is
    /// shown. Whether a pane can be shown after a command is not asked here: the
    /// command may fail before that.
    pub open spec fn accepts(self, event: Event, handled: ExEventStatus, ex_active: bool) -> bool {
        match event {
            Event::MouseDown { x, y } => {
                &&& self.has_pane()
                &&& 1 <= y
                &&& self.active().can_find_link(x as int, y - 1)
            },
            Event::Key(key) => match handled {
                ExEventStatus::Ignored => self.accepts_key(key),
                ExEventStatus::Handled => self.has_bottom_row() && (ex_active || self.has_pane()),
                ExEventStatus::Run(_) => self.has_bottom_row(),
            },
            Event::Other => true,
        }
    }

    /// The link that a click lies on. The rows of a page start below the header.
    pub open spec fn clicked(self, x: int, y: int) -> Option<Seq<char>> {
        link::link_at(self.active().lines[y - 1], x)
    }

    /// The reader after a key that the command line did not look at.
    pub open spec fn after_key(self, key: Key) -> TerkiView {
        match key {
            Key::Up => self.with_active(self.active().scrolled_up()),
            Key::Down => self.with_active(self.active().scrolled_down()),
            Key::Left => self.turned_to(self.previous()),
            Key::Right => self.turned_to(self.next()),
            Key::Char(c) => if c == 'x' {
                self.closed()
            } else if c == 'n' {
                self.with_active(self.active().with_next_highlight(link::link_open()))
            } else {
                self
            },
            Key::Other => self,
        }
    }

    /// What such a key sends to the terminal.
    pub open spec fn key_ops(self, key: Key) -> Seq<TermOpView> {
        match key {
            Key::Up => self.active().scroll_up_ops(),
            Key::Down => self.active().scroll_down_ops(),
            Key::Left => if self.previous() != self.active_pane {
                self.panes[self.previous()].display_ops()
            } else {
                Seq::empty()
            },
            Key::Right => if self.next() != self.active_pane {
                self.panes[self.next()].display_ops()
            } else {
                Seq::empty()
            },
            Key::Char(c) => if c == 'n' {
                self.active().status_ops(self.active().search_status(link::link_open()))
            } else {
                Seq::empty()
            },
            Key::Other => Seq::empty(),
        }
    }

    /// What is left to do after such a key. A key without a meaning ends the
    /// reader.
    pub open spec fn key_plan(self, key: Key) -> PlanView {
        let idle = PlanView::idle();
        let row = self.bottom_row();
        match key {
            Key::Up | Key::Down | Key::Left | Key::Right => idle,
            Key::Char(c) => if c == 'o' {
                PlanView { ex: ExCallView::Prompt { row, text: "open"@ }, ..idle }
            } else if c == 'x' || c == 'n' {
                PlanView { redraw: true, ..idle }
            } else if c == 'e' {
                idle
            } else if c == ':' {
                PlanView { ex: ExCallView::Press { row }, ..idle }
            } else {
                PlanView { quit: true, ..idle }
            },
            Key::Other => PlanView { quit: true, ..idle },
        }
    }

    /// What is left to do after a key that the command line took, but for a page.
    pub open spec fn handled_plan(self, ex_active: bool) -> PlanView {
        PlanView {
            ex: ExCallView::Show { row: self.bottom_row() },
            redraw: !ex_active,
            ..PlanView::idle()
        }
    }

    /// The words of a command were done, and the page that they ask for is in the
    /// plan; or nothing was done, for want of words or of a pane.
    pub open spec fn done(
        self,
        words: Option<Seq<Seq<char>>>,
        plan: PlanView,
        after: TerkiView,
        result: Result<Plan, Error>,
    ) -> bool {
        match words {
            Some(words) => if TerkiView::opens(words) && !self.has_pane() {
                &&& result == Err::<Plan, Error>(Error::NoPane)
                &&& after == self
            } else {
                &&& result matches Ok(found)
                &&& found@ == PlanView { page: self.request(words), ..plan }
                &&& after == self.after_words(words)
            },
            None => {
                &&& result matches Err(Error::BadCommand(_))
                &&& after == self
            },
        }
    }

    /// The command was done as its words say. Plain words with one blank between
    /// each two are their own words.
    pub open spec fn ran(
        self,
        command: Seq<char>,
        plan: PlanView,
        after: TerkiView,
        result: Result<Plan, Error>,
    ) -> bool {
        &&& self.done(outside::words_of(command), plan, after, result)
        &&& forall|words: Seq<Seq<char>>|
            (forall|i: int| 0 <= i < words.len() ==> outside::is_plain_word(#[trigger] words[i]))
                && command == #[trigger] outside::spaced(words) ==> self.done(
                Some(words),
                plan,
                after,
                result,
            )
    }
}

/// The command that opens a page.
pub open spec fn open_command(slug: Seq<char>) -> Seq<char> {
    "open "@ + slug
}

/// The command that closes a pane is a plain word, and opens no page.
proof fn lemma_close_is_plain()
    ensures
        outside::is_plain_word("close"@),
        outside::spaced(seq!["close"@]) == "close"@,
        !TerkiView::opens(seq!["close"@]),
{
    reveal_strlit("close");
}

/// The command that opens a page with a plain name is made of two plain words.
proof fn lemma_open_is_plain(slug: Seq<char>)
    ensures
        outside::is_plain_word("open"@),
        outside::spaced(seq!["open"@, slug]) == open_command(slug),
{
    reveal_strlit("open");
    reveal_strlit("open ");
    reveal_with_fuel(outside::spaced, 2);
    let words = seq!["open"@, slug];
    assert(words.drop_last() =~= seq!["open"@]);
    assert(outside::spaced(words) =~= open_command(slug));
}

impl Terki {
    /// Tells whether `handle_input` can do what the event asks for.
    pub fn accepts(&self, event: Event, handled: &ExEventStatus, ex_active: bool) -> (accepted: bool)
        requires
            self@.wf(),
        ensures
            accepted == self@.accepts(event, *handled, ex_active),
    {
        match event {
            Event::MouseDown { x, y } => self.panes().len() > 0 && 1 <= y
                && self.active().can_find_link(x, y - 1),
            Event::Key(key) => match handled {
                ExEventStatus::Ignored => self.accepts_key(key),
                ExEventStatus::Handled => 1 <= pane::to_row(self.size().1) && (ex_active
                    || self.panes().len() > 0),
                ExEventStatus::Run(_) => 1 <= pane::to_row(self.size().1),
            },
            Event::Other => true,
        }
    }

    /// Tells whether a key can be done that the command line did not look at.
    fn accepts_key(&self, key: Key) -> (accepted: bool)
        requires
            self@.wf(),
        ensures
            accepted == self@.accepts_key(key),
    {
        match key {
            Key::Up => self.panes().len() > 0,
            Key::Down => self.panes().len() > 0 && 2 <= self.size().1,
            Key::Left => self.active_pane() == 0 || self.can_turn_to(self.active_pane() - 1),
            Key::Right => self.panes().len() > 0 && (self.active_pane() == self.panes().len() - 1
                || self.can_turn_to(self.active_pane() + 1)),
            Key::Char(c) => (!(c == 'o' || c == ':') || 1 <= pane::to_row(self.size().1)) && (!(c
                == 'x' || c == 'n') || self.panes().len() > 0),
            Key::Other => true,
        }
    }

    /// Does a command, with the page that it asks for in the plan.
    fn run_planned(&mut self, command: &str, plan: Plan) -> (result: Result<Plan, Error>)
        requires
            old(self)@.wf(),
        ensures
            final(self)@.wf(),
            old(self)@.ran(command@, plan@, final(self)@, result),
    {
        match self.run_command(command) {
            Ok(page) => Ok(Plan { page, ..plan }),
            Err(error) => Err(error),
        }
    }

    /// Does a key that the command line did not look at.
    fn handle_key(&mut self, key: Key, out: &mut Screen) -> (result: Result<Plan, Error>)
        requires
            old(self)@.wf(),
            old(self)@.accepts_key(key),
        ensures
            final(self)@.wf(),
            final(self)@ == old(self)@.after_key(key),
            final(out)@ == old(out)@ + old(self)@.key_ops(key),
            result matches Ok(plan) && plan@ == old(self)@.key_plan(key),
    {
        let mut plan = Plan { page: None, ex: ExCall::Nothing, redraw: false, quit: false };
        assert(old(out)@ + Seq::<TermOpView>::empty() =~= old(out)@);
        match key {
            Key::Up => {
                self.scroll_up(out);
            },
            Key::Down => {
                self.scroll_down(out);
            },
            Key::Left => {
                self.previous_pane(out);
            },
            Key::Right => {
                self.next_pane(out);
            },
            Key::Char('o') => {
                plan.ex = ExCall::Prompt {
                    row: pane::to_row(self.size().1) - 1,
                    text: "open".to_owned(),
                };
            },
            Key::Char('x') => {
                plan.redraw = true;
                proof {
                    lemma_close_is_plain();
                }
                return self.run_planned("close", plan);
            },
            Key::Char('e') => {},
            Key::Char('n') => {
                proof {
                    reveal_strlit("[[");
                    assert("[["@ =~= link::link_open());
                }
                self.highlight_next("[[", out);
                plan.redraw = true;
            },
            Key::Char(':') => {
                plan.ex = ExCall::Press { row: pane::to_row(self.size().1) - 1 };
            },
            _ => {
                plan.quit = true;
            },
        }
        Ok(plan)
    }

    /// Does what one event asks for, as far as it can be done here, and returns
    /// what is left to do. With a key comes what the command line made of it, and
    /// whether the command line is still active.
    pub fn handle_input(
        &mut self,
        event: Event,
        handled: ExEventStatus,
        ex_active: bool,
        out: &mut Screen,
    ) -> (result: Result<Plan, Error>)
        requires
            old(self)@.wf(),
            old(self)@.accepts(event, handled, ex_active),
        ensures
            final(self)@.wf(),
            old(self)@.has_pane() ==> final(self)@.has_pane(),
            match event {
                Event::MouseDown { x, y } => {
                    &&& final(out)@ == old(out)@
                    &&& match old(self)@.clicked(x as int, y as int) {
                        Some(link) => {
                            let slug = link::slug_of(link);
                            &&& old(self)@.ran(
                                open_command(slug),
                                PlanView::idle(),
                                final(self)@,
                                result,
                            )
                            &&& outside::is_plain_word(slug) ==> old(self)@.done(
                                Some(seq!["open"@, slug]),
                                PlanView::idle(),
                                final(self)@,
                                result,
                            )
                        },
                        None => {
                            &&& result matches Ok(plan) && plan@ == PlanView::idle()
                            &&& final(self)@ == old(self)@
                        },
                    }
                },
                Event::Key(key) => match handled {
                    ExEventStatus::Ignored => {
                        &&& result matches Ok(plan) && plan@ == old(self)@.key_plan(key)
                        &&& final(self)@ == old(self)@.after_key(key)
                        &&& final(out)@ == old(out)@ + old(self)@.key_ops(key)
                    },
                    ExEventStatus::Handled => {
                        &&& result matches Ok(plan) && plan@ == old(self)@.handled_plan(ex_active)
                        &&& final(self)@ == old(self)@
                        &&& final(out)@ == old(out)@
                    },
                    ExEventStatus::Run(command) => {
                        &&& old(self)@.ran(
                            command@,
                            old(self)@.handled_plan(ex_active),
                            final(self)@,
                            result,
                        )
                        &&& final(out)@ == old(out)@
                    },
                },
                Event::Other => {
                    &&& result matches Ok(plan) && plan@ == PlanView::idle()
                    &&& final(self)@ == old(self)@
                    &&& final(out)@ == old(out)@
                },
            },
    {
        let mut plan = Plan { page: None, ex: ExCall::Nothing, redraw: false, quit: false };
        match event {
            Event::MouseDown { x, y } => {
                match self.active().find_link(x, y - 1) {
                    Some(link) => {
                        let slug = link::slug(link.as_str());
                        let mut command = "open ".to_owned();
                        command.append(slug.as_str());
                        proof {
                            lemma_open_is_plain(slug@);
                        }
                        self.run_planned(command.as_str(), plan)
                    },
                    None => Ok(plan),
                }
            },
            Event::Key(key) => {
                let command = match handled {
                    ExEventStatus::Ignored => {
                        return self.handle_key(key, out);
                    },
                    ExEventStatus::Handled => None,
                    ExEventStatus::Run(command) => Some(command),
                };
                plan.ex = ExCall::Show { row: pane::to_row(self.size().1) - 1 };
                plan.redraw = !ex_active;
                match command {
                    Some(command) => self.run_planned(command.as_str(), plan),
                    None => Ok(plan),
                }
            },
            Event::Other => Ok(plan),
        }
    }
}

} // verus!
