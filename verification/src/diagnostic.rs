//! What a grab process says before it ends.
//!
//! The supervising task reads the diagnostic stream of a grab process line by
//! line and hands each line to a [`Diagnostic`], which keeps the first few and
//! says when the task has read enough. A line that cannot be read ends the
//! reading as the end of the stream does.

use crate::text::{item_view, join_lines, joined};
use vstd::prelude::*;

verus! {

/// So many lines of a diagnostic stream are kept, and after so many the process
/// counts as diagnosed.
pub const DIAGNOSTIC_LINES: usize = 5;

/// What a [`Diagnostic`] holds.
pub struct DiagnosticView {
    /// The lines that were kept, first come first.
    pub lines: Seq<Seq<char>>,
    /// Whether the reading is over.
    pub complete: bool,
}

impl DiagnosticView {
    /// Nothing was read yet.
    pub open spec fn empty() -> DiagnosticView {
        DiagnosticView { lines: Seq::empty(), complete: false }
    }

    /// The diagnostic once `item` was read: a line is kept, and with the last
    /// line that there is room for the reading is over; a failure to read ends
    /// it at once. Once it is over nothing changes.
    pub open spec fn accepted(self, item: Result<Seq<char>, std::io::Error>) -> DiagnosticView {
        if self.complete {
            self
        } else {
            match item {
                Ok(line) => DiagnosticView {
                    lines: self.lines.push(line),
                    complete: self.lines.len() + 1 >= DIAGNOSTIC_LINES,
                },
                Err(_) => DiagnosticView { complete: true, ..self },
            }
        }
    }

    /// The diagnostic once all of `items` were read, one after the other.
    pub open spec fn accepted_all(self, items: Seq<Result<Seq<char>, std::io::Error>>) -> DiagnosticView
        decreases items.len(),
    {
        if items.len() == 0 {
            self
        } else {
            self.accepted_all(items.drop_last()).accepted(items.last())
        }
    }

    /// The lines that were kept, as one text.
    pub open spec fn text(self) -> Seq<char> {
        joined(self.lines)
    }
}

/// The beginning of a diagnostic stream.
#[derive(Debug)]
pub struct Diagnostic {
    lines: Vec<String>,
    complete: bool,
}

impl View for Diagnostic {
    type V = DiagnosticView;

    closed spec fn view(&self) -> DiagnosticView {
        DiagnosticView { lines: self.lines.deep_view(), complete: self.complete }
    }
}

impl Diagnostic {
    /// A diagnostic of which nothing was read yet.
    pub fn new() -> (diagnostic: Diagnostic)
        ensures
            diagnostic@ == DiagnosticView::empty(),
    {
        let diagnostic = Diagnostic { lines: Vec::new(), complete: false };
        assert(diagnostic.lines.deep_view() =~= Seq::<Seq<char>>::empty());
        diagnostic
    }

    /// Takes in what was read from the stream: a line, or the failure to read
    /// one. The result says whether the task is to read on.
    pub fn accept(&mut self, item: Result<String, std::io::Error>) -> (more: bool)
        ensures
            final(self)@ == old(self)@.accepted(item_view(item)),
            more == !final(self)@.complete,
    {
        if self.complete {
            return false;
        }
        match item {
            Ok(line) => {
                let ghost before = self.lines.deep_view();
                self.complete = self.lines.len() >= DIAGNOSTIC_LINES - 1;
                self.lines.push(line);
                assert(self.lines.deep_view() =~= before.push(line@));
            },
            Err(_) => {
                self.complete = true;
            },
        }
        !self.complete
    }

    /// The lines that were kept, as one text with a line feed between each two.
    pub fn text(&self) -> (text: String)
        ensures
            text@ == self@.text(),
    {
        join_lines(&self.lines)
    }
}

/// Of a stream, the diagnostic keeps the lines that stand before its first
/// unreadable line, and of those the first few: `kept` lines of `items` are
/// kept, each in its place, where `kept` is the number of lines that there is
/// room for, or the place of the first failure or the length of `items` where
/// that is less.
pub proof fn lemma_diagnostic_is_beginning(items: Seq<Result<Seq<char>, std::io::Error>>)
    ensures
        ({
            let read = DiagnosticView::empty().accepted_all(items);
            let kept = read.lines.len();
            &&& kept <= DIAGNOSTIC_LINES
            &&& kept <= items.len()
            &&& forall|i: int|
                0 <= i < kept ==> #[trigger] items[i] == Ok::<Seq<char>, std::io::Error>(
                    read.lines[i],
                )
            &&& read.complete <==> kept == DIAGNOSTIC_LINES || kept < items.len()
            &&& kept < DIAGNOSTIC_LINES && kept < items.len() ==> items[kept as int] is Err
        }),
    decreases items.len(),
{
    if items.len() > 0 {
        let earlier = items.drop_last();
        lemma_diagnostic_is_beginning(earlier);
        let before = DiagnosticView::empty().accepted_all(earlier);
        let read = before.accepted(items.last());
        assert(forall|i: int| 0 <= i < earlier.len() ==> earlier[i] == items[i]);
        assert forall|i: int| 0 <= i < read.lines.len() implies #[trigger] items[i] == Ok::<
            Seq<char>,
            std::io::Error,
        >(read.lines[i]) by {
            if i < before.lines.len() {
                assert(earlier[i] == items[i]);
            }
        }
        if before.lines.len() < earlier.len() {
            assert(earlier[before.lines.len() as int] == items[before.lines.len() as int]);
        }
    }
}

} // verus!
