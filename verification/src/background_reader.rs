//! The queue between a task that reads lines, and may wait for each, and a
//! consumer that polls and never waits.
//!
//! The reading task hands over each line, or the failure that ended its
//! reading, with [`BackgroundLineReader::feed`]. The consumer takes what has
//! come in with [`BackgroundLineReader::lines`]. Whoever shares the queue
//! between the two guards it with a lock of its own.

use crate::text::item_view;
use vstd::prelude::*;

verus! {

/// What a [`BackgroundLineReader`] holds.
pub struct ReaderView {
    /// The lines that came in and were not taken yet, oldest first.
    pub pending: Seq<Seq<char>>,
    /// The failure that came in and was not reported yet.
    pub failure: Option<std::io::Error>,
    /// Whether a failure ever came in: the reading is over.
    pub failed: bool,
}

impl ReaderView {
    /// Nothing came in yet.
    pub open spec fn empty() -> ReaderView {
        ReaderView { pending: Seq::empty(), failure: None, failed: false }
    }

    /// A failure that waits to be reported has come in.
    pub open spec fn wf(self) -> bool {
        self.failure is Some ==> self.failed
    }

    /// The queue once `item` has come in. A line joins the end of the pending
    /// lines. A failure ends the reading: whatever comes in later is dropped.
    pub open spec fn fed(self, item: Result<Seq<char>, std::io::Error>) -> ReaderView {
        if self.failed {
            self
        } else {
            match item {
                Ok(line) => ReaderView { pending: self.pending.push(line), ..self },
                Err(error) => ReaderView { failure: Some(error), failed: true, ..self },
            }
        }
    }

    /// The queue once all of `items` have come in, one after the other.
    pub open spec fn fed_all(self, items: Seq<Result<Seq<char>, std::io::Error>>) -> ReaderView
        decreases items.len(),
    {
        if items.len() == 0 {
            self
        } else {
            self.fed_all(items.drop_last()).fed(items.last())
        }
    }

    /// What a poll gives: the pending lines, oldest first; the failure, and
    /// that only once, when no line is pending; else no lines.
    pub open spec fn poll(self) -> Result<Seq<Seq<char>>, std::io::Error> {
        if self.pending.len() == 0 && self.failure is Some {
            Err(self.failure->0)
        } else {
            Ok(self.pending)
        }
    }

    /// The queue after a poll: what the poll gave is gone from it.
    pub open spec fn polled(self) -> ReaderView {
        if self.pending.len() == 0 {
            ReaderView { failure: None, ..self }
        } else {
            ReaderView { pending: Seq::empty(), ..self }
        }
    }

    /// The failure has been reported: the queue is empty and stays so.
    pub open spec fn is_spent(self) -> bool {
        self.failed && self.failure is None && self.pending.len() == 0
    }
}

/// How far the reading has come.
#[derive(Debug)]
enum Reading {
    /// No failure came in.
    Open,
    /// A failure came in and waits to be reported.
    Failed(std::io::Error),
    /// A failure came in and was reported.
    Reported,
}

/// Lines on their way from a reading task to a consumer that polls.
#[derive(Debug)]
pub struct BackgroundLineReader {
    pending: Vec<String>,
    reading: Reading,
}

impl View for BackgroundLineReader {
    type V = ReaderView;

    closed spec fn view(&self) -> ReaderView {
        ReaderView {
            pending: self.pending.deep_view(),
            failure: match self.reading {
                Reading::Failed(error) => Some(error),
                _ => None,
            },
            failed: !(self.reading is Open),
        }
    }
}

impl BackgroundLineReader {
    /// A queue into which nothing came yet.
    pub fn new() -> (reader: BackgroundLineReader)
        ensures
            reader@ == ReaderView::empty(),
    {
        let reader = BackgroundLineReader { pending: Vec::new(), reading: Reading::Open };
        assert(reader.pending.deep_view() =~= Seq::<Seq<char>>::empty());
        reader
    }

    /// Takes in what the reading task read: a line, or the failure that ended
    /// its reading. The result says whether the task is to read on.
    pub fn feed(&mut self, item: Result<String, std::io::Error>) -> (more: bool)
        ensures
            final(self)@ == old(self)@.fed(item_view(item)),
            final(self)@.wf(),
            more == (item is Ok && !old(self)@.failed),
    {
        match self.reading {
            Reading::Open => {},
            _ => {
                return false;
            },
        }
        match item {
            Ok(line) => {
                let ghost before = self.pending.deep_view();
                self.pending.push(line);
                assert(self.pending.deep_view() =~= before.push(line@));
                true
            },
            Err(error) => {
                self.reading = Reading::Failed(error);
                false
            },
        }
    }

    /// Takes what has come in, without waiting for more: the pending lines,
    /// oldest first. When a failure has come in, the poll that finds no line
    /// pending reports it, once; every poll after that finds nothing.
    pub fn lines(&mut self) -> (res: Result<Vec<String>, std::io::Error>)
        ensures
            final(self)@ == old(self)@.polled(),
            final(self)@.wf(),
            match old(self)@.poll() {
                Ok(lines) => res is Ok && res.unwrap().deep_view() == lines,
                Err(error) => res == Err::<Vec<String>, std::io::Error>(error),
            },
    {
        let mut lines: Vec<String> = Vec::new();
        if self.pending.len() > 0 {
            std::mem::swap(&mut self.pending, &mut lines);
            assert(self.pending.deep_view() =~= Seq::<Seq<char>>::empty());
            return Ok(lines);
        }
        assert(lines.deep_view() =~= self.pending.deep_view());
        match self.reading {
            Reading::Failed(_) => {
                let mut reading = Reading::Reported;
                std::mem::swap(&mut self.reading, &mut reading);
                match reading {
                    Reading::Failed(error) => Err(error),
                    _ => Ok(lines),
                }
            },
            _ => Ok(lines),
        }
    }

    /// A failure waits to be reported only where one came in.
    pub proof fn lemma_view_wf(&self)
        ensures
            self@.wf(),
    {
    }
}

/// Lines come out in the order in which they came in, and nothing that came in
/// behind a failure comes out: of what came into an empty queue, the lines
/// before the first failure are pending, in their order, and that failure
/// waits behind them.
pub proof fn lemma_production_order(items: Seq<Result<Seq<char>, std::io::Error>>)
    ensures
        ({
            let queue = ReaderView::empty().fed_all(items);
            &&& queue.wf()
            &&& queue.pending.len() <= items.len()
            &&& forall|i: int|
                0 <= i < queue.pending.len() ==> #[trigger] items[i] == Ok::<
                    Seq<char>,
                    std::io::Error,
                >(queue.pending[i])
            &&& queue.failed <==> queue.pending.len() < items.len()
            &&& queue.failed <==> queue.failure is Some
            &&& queue.failed ==> items[queue.pending.len() as int] == Err::<
                Seq<char>,
                std::io::Error,
            >(queue.failure->0)
        }),
    decreases items.len(),
{
    if items.len() > 0 {
        let earlier = items.drop_last();
        lemma_production_order(earlier);
        let before = ReaderView::empty().fed_all(earlier);
        let queue = before.fed(items.last());
        assert(forall|i: int| 0 <= i < earlier.len() ==> earlier[i] == items[i]);
        assert forall|i: int| 0 <= i < queue.pending.len() implies #[trigger] items[i] == Ok::<
            Seq<char>,
            std::io::Error,
        >(queue.pending[i]) by {
            if i < before.pending.len() {
                assert(earlier[i] == items[i]);
            }
        }
        if before.failed {
            assert(earlier[before.pending.len() as int] == items[before.pending.len() as int]);
        }
    }
}

/// A poll empties the queue of lines, and a line that comes in later joins
/// none that was taken: what the next poll gives is what came in since.
pub proof fn lemma_poll_takes_all(queue: ReaderView, lines: Seq<Seq<char>>)
    requires
        queue.wf(),
        !queue.failed,
    ensures
        queue.poll() == Ok::<Seq<Seq<char>>, std::io::Error>(queue.pending),
        queue.polled().fed_all(lines.map_values(|line: Seq<char>| Ok(line))).poll() == Ok::<
            Seq<Seq<char>>,
            std::io::Error,
        >(lines),
{
    lemma_lines_join_the_end(queue.polled(), lines);
    assert(queue.polled().pending + lines =~= lines);
}

/// Lines that come into a queue whose reading goes on join the end of the
/// pending lines, in their order.
pub proof fn lemma_lines_join_the_end(queue: ReaderView, lines: Seq<Seq<char>>)
    requires
        !queue.failed,
    ensures
        queue.fed_all(lines.map_values(|line: Seq<char>| Ok(line))) == (ReaderView {
            pending: queue.pending + lines,
            ..queue
        }),
    decreases lines.len(),
{
    let items = lines.map_values(|line: Seq<char>| Ok::<Seq<char>, std::io::Error>(line));
    if lines.len() == 0 {
        assert(queue.pending + lines =~= queue.pending);
    } else {
        lemma_lines_join_the_end(queue, lines.drop_last());
        assert(items.drop_last() =~= lines.drop_last().map_values(
            |line: Seq<char>| Ok::<Seq<char>, std::io::Error>(line),
        ));
        assert((queue.pending + lines.drop_last()).push(lines.last()) =~= queue.pending + lines);
    }
}

/// Once a poll has reported the failure, the queue is spent: whatever comes
/// in, and however often it is polled, it does not change, and every poll
/// finds nothing.
pub proof fn lemma_failure_is_terminal(queue: ReaderView, item: Result<Seq<char>, std::io::Error>)
    requires
        queue.wf(),
    ensures
        queue.poll() is Err ==> queue.polled().is_spent(),
        queue.is_spent() ==> {
            &&& queue.fed(item) == queue
            &&& queue.polled() == queue
            &&& queue.poll() == Ok::<Seq<Seq<char>>, std::io::Error>(Seq::empty())
        },
{
    if queue.is_spent() {
        assert(queue.pending =~= Seq::empty());
    }
}

/// A second poll, with nothing come in since the first and no failure in the
/// queue, finds nothing and changes nothing.
pub proof fn lemma_poll_twice(queue: ReaderView)
    requires
        queue.failure is None,
    ensures
        queue.polled().poll() == Ok::<Seq<Seq<char>>, std::io::Error>(Seq::empty()),
        queue.polled().polled() == queue.polled(),
{
    assert(queue.polled().pending =~= Seq::empty());
}

} // verus!
