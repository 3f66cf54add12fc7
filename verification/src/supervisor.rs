//! The supervisor of one locked device.
//!
//! A lock on a device is a grab process that holds the device for as long as it
//! runs. The supervising task watches the diagnostic stream of that process.
//! When the stream ends, the process is gone or as good as gone, and the task
//! asks [`LockedDevice::stream_ended`] what to do: nothing more, if the lock
//! was released; give up, if the grab never stood; else spawn the process
//! again and report it with [`LockedDevice::respawned`].

use crate::device::Device;
use crate::error::CommandError;
use vstd::prelude::*;

verus! {

/// For so many seconds after a device was locked, the end of the grab process
/// means that the grab never stood.
pub const GRACE_PERIOD_SECS: u64 = 5;

/// The argument that makes the device tool grab the device whose node follows.
pub const GRAB_FLAG: &'static str = "--grab";

/// Where the supervisor of a locked device stands.
#[derive(Clone, Copy, Debug, PartialEq, Eq, Structural)]
pub enum SupervisorState {
    /// The grab process runs, and the grace period has not passed.
    Starting,
    /// The grab process runs, and the grace period has passed.
    Held,
    /// The grab process is gone and its successor is not reported yet.
    Relocking,
    /// The lock is over: it was released, or it failed for good.
    Stopped,
}

/// What the supervising task is to do next.
#[derive(Debug)]
pub enum Verdict {
    /// Watch the diagnostic stream of the process that now holds the grab.
    Watch,
    /// The grab was lost: spawn a grab process for the same device.
    Respawn,
    /// The lock is over: end the task.
    Exit,
    /// The lock is over: kill the process that was just spawned, and end the task.
    Discard,
    /// The lock failed for good: end the task and escalate the error.
    Abort(CommandError),
}

/// What a [`LockedDevice`] records.
pub struct LockView {
    /// The device node that is held.
    pub event_path: Seq<char>,
    /// The grab process that runs, by its id.
    pub process: Option<u32>,
    /// Whether the release of the lock was asked for.
    pub stopping: bool,
    /// Whether the lock failed for good.
    pub failed: bool,
}

impl LockView {
    /// The record of a lock that `process` has just begun to hold.
    pub open spec fn begin(event_path: Seq<char>, process: u32) -> LockView {
        LockView { event_path, process: Some(process), stopping: false, failed: false }
    }

    /// A lock that is over has no grab process.
    pub open spec fn wf(self) -> bool {
        self.stopping || self.failed ==> self.process is None
    }

    /// Where the supervisor stands, `elapsed_secs` full seconds after the device
    /// was locked.
    pub open spec fn state(self, elapsed_secs: u64) -> SupervisorState {
        if self.stopping || self.failed {
            SupervisorState::Stopped
        } else if self.process is None {
            SupervisorState::Relocking
        } else if elapsed_secs < GRACE_PERIOD_SECS {
            SupervisorState::Starting
        } else {
            SupervisorState::Held
        }
    }

    /// The record once the diagnostic stream of the grab process has ended.
    pub open spec fn after_stream_end(self, elapsed_secs: u64) -> LockView {
        match self.state(elapsed_secs) {
            SupervisorState::Stopped | SupervisorState::Relocking => self,
            SupervisorState::Starting => LockView { process: None, failed: true, ..self },
            SupervisorState::Held => LockView { process: None, ..self },
        }
    }

    /// What follows the end of the diagnostic stream, of which `diagnostic`
    /// is the beginning.
    pub open spec fn stream_end_verdict(self, elapsed_secs: u64, diagnostic: String) -> Verdict {
        match self.state(elapsed_secs) {
            SupervisorState::Stopped => Verdict::Exit,
            SupervisorState::Starting => Verdict::Abort(CommandError::Failed { stderr: diagnostic }),
            SupervisorState::Held | SupervisorState::Relocking => Verdict::Respawn,
        }
    }

    /// The record once the attempt to spawn a new grab process has ended.
    pub open spec fn after_respawn(self, spawned: Result<u32, std::io::Error>) -> LockView {
        if self.stopping || self.failed {
            self
        } else {
            match spawned {
                Ok(process) => LockView { process: Some(process), ..self },
                Err(_) => LockView { process: None, failed: true, ..self },
            }
        }
    }

    /// What follows the attempt to spawn a new grab process.
    pub open spec fn respawn_verdict(self, spawned: Result<u32, std::io::Error>) -> Verdict {
        match spawned {
            Ok(_) => if self.stopping || self.failed {
                Verdict::Discard
            } else {
                Verdict::Watch
            },
            Err(error) => if self.stopping || self.failed {
                Verdict::Exit
            } else {
                Verdict::Abort(CommandError::Io(error))
            },
        }
    }

    /// The record once the release of the lock was asked for.
    pub open spec fn after_unlock(self) -> LockView {
        LockView { process: None, stopping: true, ..self }
    }
}

/// An active lock on a device: the record that the supervising task and the
/// holder of the lock share.
#[derive(Debug)]
pub struct LockedDevice {
    event_path: String,
    process: Option<u32>,
    stopping: bool,
    failed: bool,
}

impl View for LockedDevice {
    type V = LockView;

    closed spec fn view(&self) -> LockView {
        LockView {
            event_path: self.event_path@,
            process: self.process,
            stopping: self.stopping,
            failed: self.failed,
        }
    }
}

impl Device {
    /// Begins the lock on this device, given how the attempt to spawn its grab
    /// process ended: with the id of the process, or with the failure.
    pub fn lock(self, spawned: Result<u32, std::io::Error>) -> (res: Result<
        LockedDevice,
        CommandError,
    >)
        ensures
            res is Ok <==> spawned is Ok,
            spawned matches Ok(process) ==> {
                &&& res.unwrap()@ == LockView::begin(self.event_path@, process)
                &&& res.unwrap()@.process == Some(process)
                &&& res.unwrap()@.state(0) == SupervisorState::Starting
                &&& res.unwrap()@.wf()
            },
            spawned matches Err(error) ==> res.unwrap_err() == CommandError::Io(error),
    {
        match spawned {
            Ok(process) => Ok(
                LockedDevice {
                    event_path: self.event_path,
                    process: Some(process),
                    stopping: false,
                    failed: false,
                },
            ),
            Err(error) => Err(CommandError::Io(error)),
        }
    }
}

impl LockedDevice {
    #[verifier::type_invariant]
    spec fn inv(self) -> bool {
        self.stopping || self.failed ==> self.process is None
    }

    /// Takes note that the diagnostic stream of the grab process has ended,
    /// `elapsed_secs` full seconds after the device was locked, and says what
    /// follows. `diagnostic` is what the stream began with.
    pub fn stream_ended(&mut self, elapsed_secs: u64, diagnostic: String) -> (verdict: Verdict)
        ensures
            final(self)@ == old(self)@.after_stream_end(elapsed_secs),
            verdict == old(self)@.stream_end_verdict(elapsed_secs, diagnostic),
            final(self)@.wf(),
    {
        match self.state(elapsed_secs) {
            SupervisorState::Stopped => Verdict::Exit,
            SupervisorState::Relocking => Verdict::Respawn,
            SupervisorState::Starting => {
                self.process = None;
                self.failed = true;
                Verdict::Abort(CommandError::Failed { stderr: diagnostic })
            },
            SupervisorState::Held => {
                self.process = None;
                Verdict::Respawn
            },
        }
    }

    /// Takes note of how the attempt to spawn a new grab process ended, and
    /// says what follows.
    pub fn respawned(&mut self, spawned: Result<u32, std::io::Error>) -> (verdict: Verdict)
        requires
            old(self)@.process is None,
        ensures
            final(self)@ == old(self)@.after_respawn(spawned),
            verdict == old(self)@.respawn_verdict(spawned),
            final(self)@.wf(),
    {
        proof {
            use_type_invariant(&*self);
        }
        let over = self.stopping || self.failed;
        match spawned {
            Ok(process) => {
                if over {
                    Verdict::Discard
                } else {
                    self.process = Some(process);
                    Verdict::Watch
                }
            },
            Err(error) => {
                if over {
                    Verdict::Exit
                } else {
                    self.failed = true;
                    Verdict::Abort(CommandError::Io(error))
                }
            },
        }
    }

    /// Asks for the release of the lock. The result is the grab process that
    /// runs: the caller kills it.
    pub fn unlock(&mut self) -> (kill: Option<u32>)
        ensures
            final(self)@ == old(self)@.after_unlock(),
            kill == old(self)@.process,
            final(self)@.wf(),
    {
        let kill = self.process;
        self.process = None;
        self.stopping = true;
        kill
    }

    /// The device node that is held.
    pub fn event_path(&self) -> (event_path: &str)
        ensures
            event_path@ == self@.event_path,
    {
        self.event_path.as_str()
    }

    /// The grab process that runs, by its id.
    pub fn process(&self) -> (process: Option<u32>)
        ensures
            process == self@.process,
    {
        self.process
    }

    /// Whether the release of the lock was asked for.
    pub fn is_stopping(&self) -> (stopping: bool)
        ensures
            stopping == self@.stopping,
    {
        self.stopping
    }

    /// Whether the lock failed for good.
    pub fn has_failed(&self) -> (failed: bool)
        ensures
            failed == self@.failed,
    {
        self.failed
    }

    /// Where the supervisor stands, `elapsed_secs` full seconds after the
    /// device was locked.
    pub fn state(&self, elapsed_secs: u64) -> (state: SupervisorState)
        ensures
            state == self@.state(elapsed_secs),
            self@.wf(),
    {
        proof {
            use_type_invariant(self);
        }
        if self.stopping || self.failed {
            SupervisorState::Stopped
        } else if self.process.is_none() {
            SupervisorState::Relocking
        } else if elapsed_secs < GRACE_PERIOD_SECS {
            SupervisorState::Starting
        } else {
            SupervisorState::Held
        }
    }
}

/// What can happen to a lock.
pub enum Event {
    /// The diagnostic stream of the grab process has ended.
    StreamEnded { elapsed_secs: u64, diagnostic: String },
    /// The attempt to spawn a new grab process has ended.
    Respawned { spawned: Result<u32, std::io::Error> },
    /// The release of the lock was asked for.
    Unlock,
}

impl LockView {
    /// The lock is over, and no grab process is left.
    pub open spec fn is_over(self) -> bool {
        (self.stopping || self.failed) && self.process is None
    }

    /// The record once `event` has happened.
    pub open spec fn after(self, event: Event) -> LockView {
        match event {
            Event::StreamEnded { elapsed_secs, .. } => self.after_stream_end(elapsed_secs),
            Event::Respawned { spawned } => self.after_respawn(spawned),
            Event::Unlock => self.after_unlock(),
        }
    }

    /// What the supervising task is told when `event` happens, if the event is
    /// one of its own.
    pub open spec fn answer(self, event: Event) -> Option<Verdict> {
        match event {
            Event::StreamEnded { elapsed_secs, diagnostic } => Some(
                self.stream_end_verdict(elapsed_secs, diagnostic),
            ),
            Event::Respawned { spawned } => Some(self.respawn_verdict(spawned)),
            Event::Unlock => None,
        }
    }

    /// The record once all of `events` have happened, one after the other.
    pub open spec fn after_all(self, events: Seq<Event>) -> LockView
        decreases events.len(),
    {
        if events.len() == 0 {
            self
        } else {
            self.after_all(events.drop_last()).after(events.last())
        }
    }
}

/// Whether `verdict` keeps the lock going: the task is to watch a grab process,
/// or to spawn one.
pub open spec fn goes_on(verdict: Option<Verdict>) -> bool {
    verdict matches Some(v) && (v is Watch || v is Respawn)
}

/// How the end of a grab process is judged while the lock stands: within the
/// grace period the grab never stood, and the lock fails for good with what the
/// process said; after it the grab was lost, and the process that is spawned in
/// its place holds the same device, with the lock as it was.
pub proof fn lemma_stream_end_is_classified(
    lock: LockView,
    elapsed_secs: u64,
    diagnostic: String,
    process: u32,
)
    requires
        lock.process is Some,
        !lock.stopping,
        !lock.failed,
    ensures
        elapsed_secs < GRACE_PERIOD_SECS ==> {
            &&& lock.stream_end_verdict(elapsed_secs, diagnostic) == Verdict::Abort(
                CommandError::Failed { stderr: diagnostic },
            )
            &&& lock.after_stream_end(elapsed_secs).is_over()
        },
        elapsed_secs >= GRACE_PERIOD_SECS ==> {
            let lost = lock.after_stream_end(elapsed_secs);
            &&& lock.stream_end_verdict(elapsed_secs, diagnostic) == Verdict::Respawn
            &&& lost.state(elapsed_secs) == SupervisorState::Relocking
            &&& lost.respawn_verdict(Ok(process)) == Verdict::Watch
            &&& lost.after_respawn(Ok(process)) == (LockView { process: Some(process), ..lock })
        },
{
}

/// Whatever happens to a lock, it stays the lock on the same device, its stop
/// signal is never taken back, a failure is never forgotten, and a lock that is
/// over has no grab process.
pub proof fn lemma_every_event_keeps(lock: LockView, event: Event)
    ensures
        lock.after(event).event_path == lock.event_path,
        lock.stopping ==> lock.after(event).stopping,
        lock.failed ==> lock.after(event).failed,
        lock.wf() ==> lock.after(event).wf(),
{
}

/// A grab process only ever takes the place of one that is gone. Where a
/// spawned process is reported only to a lock that has none, as
/// [`LockedDevice::respawned`] demands, the lock has a grab process after an
/// event only if it had the same one before, or had none and was told to watch
/// the one that was spawned.
pub proof fn lemma_respawns_are_sequential(lock: LockView, event: Event)
    requires
        event is Respawned ==> lock.process is None,
    ensures
        lock.after(event).process matches Some(process) ==> lock.process == Some(process) || (
        lock.process is None && event == (Event::Respawned { spawned: Ok(process) })
            && lock.answer(event) == Some(Verdict::Watch)),
{
}

/// The release ends the lock: its grab process is handed out to be killed, and
/// a second release hands out nothing and changes nothing.
pub proof fn lemma_unlock_ends(lock: LockView)
    ensures
        lock.after_unlock().is_over(),
        lock.after_unlock().stopping,
        lock.after_unlock().after_unlock() == lock.after_unlock(),
{
}

/// A verdict to abort ends the lock.
pub proof fn lemma_abort_ends(lock: LockView, event: Event)
    ensures
        lock.answer(event) matches Some(Verdict::Abort(_)) ==> lock.after(event).is_over(),
{
}

/// A lock that is over stays over, whatever happens, and no verdict keeps it
/// going.
pub proof fn lemma_over_is_final(lock: LockView, events: Seq<Event>)
    requires
        lock.is_over(),
    ensures
        lock.after_all(events).is_over(),
        forall|i: int|
            0 <= i < events.len() ==> !goes_on(
                #[trigger] lock.after_all(events.take(i)).answer(events[i]),
            ),
    decreases events.len(),
{
    if events.len() > 0 {
        let earlier = events.drop_last();
        lemma_over_is_final(lock, earlier);
        assert forall|i: int| 0 <= i < events.len() implies !goes_on(
            #[trigger] lock.after_all(events.take(i)).answer(events[i]),
        ) by {
            if i < earlier.len() {
                assert(earlier.take(i) =~= events.take(i));
                assert(!goes_on(lock.after_all(earlier.take(i)).answer(earlier[i])));
            } else {
                assert(events.take(i) =~= earlier);
            }
        }
    }
}

/// After the release of a lock no grab process is spawned or watched for it
/// again: whatever happened before the release and whatever happens after it,
/// no later verdict keeps the lock going, and the lock has no grab process.
pub proof fn lemma_no_respawn_after_release(
    lock: LockView,
    events: Seq<Event>,
    released: int,
    later: int,
)
    requires
        0 <= released < later < events.len(),
        events[released] is Unlock,
    ensures
        lock.after_all(events.take(later)).is_over(),
        lock.after_all(events.take(later)).stopping,
        !goes_on(lock.after_all(events.take(later)).answer(events[later])),
    decreases later - released,
{
    let so_far = events.take(later);
    assert(so_far.drop_last() =~= events.take(later - 1));
    assert(so_far.last() == events[later - 1]);
    if later - 1 > released {
        lemma_no_respawn_after_release(lock, events, released, later - 1);
    }
}

} // verus!
