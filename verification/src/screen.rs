//! What is sent to the terminal, in the order in which it is sent.

use vstd::prelude::*;

verus! {

/// One thing the terminal is told to do.
#[derive(Debug, PartialEq, Eq)]
pub enum TermOp {
    /// Put the cursor at a column and a row, both counted from zero.
    MoveTo(u16, u16),
    /// Put the cursor at the start of the line that many rows down.
    MoveToNextLine(u16),
    /// Empty the line that the cursor stands in.
    ClearLine,
    /// Write text at the cursor.
    Print(String),
    /// Move everything up by that many rows.
    ScrollUp(u16),
    /// Move everything down by that many rows.
    ScrollDown(u16),
    /// Hand over what was held back so far.
    Flush,
}

/// A `TermOp` with its text as characters.
pub enum TermOpView {
    MoveTo(u16, u16),
    MoveToNextLine(u16),
    ClearLine,
    Print(Seq<char>),
    ScrollUp(u16),
    ScrollDown(u16),
    Flush,
}

impl View for TermOp {
    type V = TermOpView;

    open spec fn view(&self) -> TermOpView {
        match self {
            TermOp::MoveTo(column, row) => TermOpView::MoveTo(*column, *row),
            TermOp::MoveToNextLine(rows) => TermOpView::MoveToNextLine(*rows),
            TermOp::ClearLine => TermOpView::ClearLine,
            TermOp::Print(text) => TermOpView::Print(text@),
            TermOp::ScrollUp(rows) => TermOpView::ScrollUp(*rows),
            TermOp::ScrollDown(rows) => TermOpView::ScrollDown(*rows),
            TermOp::Flush => TermOpView::Flush,
        }
    }
}

/// The queue of things the terminal is told to do.
pub struct Screen {
    ops: Vec<TermOp>,
}

impl View for Screen {
    type V = Seq<TermOpView>;

    closed spec fn view(&self) -> Seq<TermOpView> {
        self.ops@.map_values(|op: TermOp| op@)
    }
}

impl Screen {
    /// An empty queue.
    pub fn new() -> (screen: Screen)
        ensures
            screen@ == Seq::<TermOpView>::empty(),
    {
        let screen = Screen { ops: Vec::new() };
        assert(screen@ =~= Seq::<TermOpView>::empty());
        screen
    }

    /// Queues one more thing.
    pub fn queue(&mut self, op: TermOp)
        ensures
            final(self)@ == old(self)@.push(op@),
    {
        self.ops.push(op);
        assert(self@ =~= old(self)@.push(op@));
    }

    /// The queue, first thing first.
    pub fn into_ops(self) -> (ops: Vec<TermOp>)
        ensures
            ops@.map_values(|op: TermOp| op@) == self@,
    {
        self.ops
    }
}

} // verus!
