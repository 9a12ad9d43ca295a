//! The child-process wait protocol: what the engine decides for each event
//! a wait can observe.
//!
//! The host performs the actual waiting — a select over the cancellation
//! token, the child's exit, the stop signals and Ctrl-C, with cancellation
//! checked first — and feeds each observed event here.  The decision for
//! every event is a pure function, so cancellation always resolves the wait
//! in one step.

use vstd::prelude::*;

verus! {

/// What a finished child left behind.
#[derive(Debug)]
pub struct ProcessOutput {
    pub exit_code: u8,
    pub stdout: String,
    pub stderr: String,
}

/// One event a wait can observe.
#[derive(Debug)]
pub enum ProcessWaitEvent {
    /// The cancellation token fired.
    CancellationFired,
    /// The child exited with its captured output.
    ProcessExited(ProcessOutput),
    /// SIGTSTP arrived: the job is being suspended.
    SigtstpReceived,
    /// SIGCHLD arrived; the payload reports whether a poll found stopped
    /// descendants.
    SigchldReceived { stopped_children: bool },
    /// Ctrl-C arrived; the child sees it from the terminal too.
    CtrlCReceived,
}

/// The result of waiting for an executing process.
#[derive(Debug)]
pub enum ProcessWaitResult {
    /// The process completed.
    Completed(ProcessOutput),
    /// The process stopped and has not yet completed.
    Stopped,
    /// The wait was cancelled.
    Cancelled,
}

/// What the wait loop does next.
#[derive(Debug)]
pub enum WaitDecision {
    /// The wait is over with this result.
    Finish(ProcessWaitResult),
    /// Keep observing the child.
    ContinueWaiting,
}

/// Decides one observed event: cancellation ends the wait at once (and asks
/// for SIGINT to the child when its process id is known); an exit completes
/// it; SIGTSTP, or SIGCHLD with stopped descendants, reports a stop; SIGCHLD
/// without stopped descendants and Ctrl-C keep waiting.
pub fn wait_step(event: ProcessWaitEvent, has_pid: bool) -> (r: (WaitDecision, bool))
    ensures
        match event {
            ProcessWaitEvent::CancellationFired => r.0 matches WaitDecision::Finish(
                ProcessWaitResult::Cancelled,
            ) && r.1 == has_pid,
            ProcessWaitEvent::ProcessExited(out) => (r.0 matches WaitDecision::Finish(
                ProcessWaitResult::Completed(got),
            ) && got == out) && !r.1,
            ProcessWaitEvent::SigtstpReceived => r.0 matches WaitDecision::Finish(
                ProcessWaitResult::Stopped,
            ) && !r.1,
            ProcessWaitEvent::SigchldReceived { stopped_children } => (if stopped_children {
                r.0 matches WaitDecision::Finish(ProcessWaitResult::Stopped)
            } else {
                r.0 is ContinueWaiting
            }) && !r.1,
            ProcessWaitEvent::CtrlCReceived => r.0 is ContinueWaiting && !r.1,
        },
{
    match event {
        ProcessWaitEvent::CancellationFired => (
            WaitDecision::Finish(ProcessWaitResult::Cancelled),
            has_pid,
        ),
        ProcessWaitEvent::ProcessExited(out) => (
            WaitDecision::Finish(ProcessWaitResult::Completed(out)),
            false,
        ),
        ProcessWaitEvent::SigtstpReceived => (
            WaitDecision::Finish(ProcessWaitResult::Stopped),
            false,
        ),
        ProcessWaitEvent::SigchldReceived { stopped_children } => {
            if stopped_children {
                (WaitDecision::Finish(ProcessWaitResult::Stopped), false)
            } else {
                (WaitDecision::ContinueWaiting, false)
            }
        },
        ProcessWaitEvent::CtrlCReceived => (WaitDecision::ContinueWaiting, false),
    }
}

/// Cancellation never leaves the wait pending: the decision for a fired
/// token is always final, whatever else is true of the child.
pub proof fn lemma_cancellation_resolves_wait(r: (WaitDecision, bool), has_pid: bool)
    requires
        wait_step.ensures((ProcessWaitEvent::CancellationFired, has_pid), r),
    ensures
        r.0 matches WaitDecision::Finish(res) && res is Cancelled,
{
}

/// Which stream a chunk of streamed output came from.
#[derive(Clone, Copy, PartialEq, Eq, Structural, Debug)]
pub enum OutputStreamKind {
    Stdout,
    Stderr,
}

/// One tagged chunk of a streaming execution's output.  The host drains the
/// capture buffers and forwards these in arrival order.
#[derive(Debug)]
pub struct OutputChunk {
    pub stream: OutputStreamKind,
    pub text: String,
}

impl OutputChunk {
    /// Tags a piece of captured output.
    pub fn new(stream: OutputStreamKind, text: String) -> (r: OutputChunk)
        ensures
            r.stream == stream,
            r.text == text,
    {
        OutputChunk { stream, text }
    }
}

} // verus!
