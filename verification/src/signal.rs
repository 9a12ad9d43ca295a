//! Signals and process control on the stub platform layer.
//!
//! On platforms without Unix signal delivery the engine still needs the same
//! surface: a signal type with names and numbers, and process-control entry
//! points.  Operations with no platform equivalent report
//! `NotSupportedOnThisPlatform`; listeners exist but never fire.

use vstd::prelude::*;

use crate::error::{Error, ErrorKind};

verus! {

/// A process identifier.
pub type ProcessId = i32;

/// The system signals the stub platform knows about.
#[derive(Clone, Copy, Eq, Hash, PartialEq, Structural, Debug)]
pub enum Signal {
    /// Interrupt signal (Ctrl+C)
    SIGINT,
    /// Termination signal
    SIGTERM,
    /// Kill signal (cannot be caught)
    SIGKILL,
    /// Hangup signal
    SIGHUP,
    /// Quit signal
    SIGQUIT,
    /// User-defined signal 1
    SIGUSR1,
    /// User-defined signal 2
    SIGUSR2,
}

/// A condition a trap handler can be attached to: a system signal or one of
/// the shell's pseudo-events.
#[derive(Clone, Copy, Eq, PartialEq, Structural, Debug)]
pub enum TrapSignal {
    Signal(Signal),
    Debug,
    ErrorTrap,
    Exit,
}

/// The name of each signal.
pub open spec fn spec_signal_name(s: Signal) -> Seq<char> {
    match s {
        Signal::SIGINT => "SIGINT"@,
        Signal::SIGTERM => "SIGTERM"@,
        Signal::SIGKILL => "SIGKILL"@,
        Signal::SIGHUP => "SIGHUP"@,
        Signal::SIGQUIT => "SIGQUIT"@,
        Signal::SIGUSR1 => "SIGUSR1"@,
        Signal::SIGUSR2 => "SIGUSR2"@,
    }
}

/// The raw number of each signal.
pub open spec fn spec_signal_raw(s: Signal) -> i32 {
    match s {
        Signal::SIGINT => 2,
        Signal::SIGTERM => 15,
        Signal::SIGKILL => 9,
        Signal::SIGHUP => 1,
        Signal::SIGQUIT => 3,
        Signal::SIGUSR1 => 10,
        Signal::SIGUSR2 => 12,
    }
}

/// The signal a textual representation names: the full name, the name without
/// the `SIG` prefix, or the decimal number.
pub open spec fn spec_signal_from_str(s: Seq<char>) -> Option<Signal> {
    if s == "SIGINT"@ || s == "INT"@ || s == "2"@ {
        Some(Signal::SIGINT)
    } else if s == "SIGTERM"@ || s == "TERM"@ || s == "15"@ {
        Some(Signal::SIGTERM)
    } else if s == "SIGKILL"@ || s == "KILL"@ || s == "9"@ {
        Some(Signal::SIGKILL)
    } else if s == "SIGHUP"@ || s == "HUP"@ || s == "1"@ {
        Some(Signal::SIGHUP)
    } else if s == "SIGQUIT"@ || s == "QUIT"@ || s == "3"@ {
        Some(Signal::SIGQUIT)
    } else if s == "SIGUSR1"@ || s == "USR1"@ || s == "10"@ {
        Some(Signal::SIGUSR1)
    } else if s == "SIGUSR2"@ || s == "USR2"@ || s == "12"@ {
        Some(Signal::SIGUSR2)
    } else {
        None
    }
}

impl Signal {
    /// Every signal, in a fixed order.
    pub fn iterator() -> (r: Vec<Signal>)
        ensures
            r@ =~= seq![
                Signal::SIGINT,
                Signal::SIGTERM,
                Signal::SIGKILL,
                Signal::SIGHUP,
                Signal::SIGQUIT,
                Signal::SIGUSR1,
                Signal::SIGUSR2,
            ],
    {
        let mut v: Vec<Signal> = Vec::new();
        v.push(Signal::SIGINT);
        v.push(Signal::SIGTERM);
        v.push(Signal::SIGKILL);
        v.push(Signal::SIGHUP);
        v.push(Signal::SIGQUIT);
        v.push(Signal::SIGUSR1);
        v.push(Signal::SIGUSR2);
        v
    }

    /// Converts the signal into its name.
    pub fn as_str(self) -> (r: &'static str)
        ensures
            r@ == spec_signal_name(self),
    {
        match self {
            Signal::SIGINT => "SIGINT",
            Signal::SIGTERM => "SIGTERM",
            Signal::SIGKILL => "SIGKILL",
            Signal::SIGHUP => "SIGHUP",
            Signal::SIGQUIT => "SIGQUIT",
            Signal::SIGUSR1 => "SIGUSR1",
            Signal::SIGUSR2 => "SIGUSR2",
        }
    }

    /// Creates a `Signal` from a string representation.
    pub fn from_str(s: &str) -> (r: Result<Signal, Error>)
        ensures
            match spec_signal_from_str(s@) {
                Some(sig) => r matches Ok(got) && got == sig,
                None => r matches Err(e) && e.kind matches ErrorKind::InvalidSignal(t) && t@
                    == s@,
            },
    {
        if crate::strings::str_eq(s, "SIGINT") || crate::strings::str_eq(s, "INT")
            || crate::strings::str_eq(s, "2") {
            Ok(Signal::SIGINT)
        } else if crate::strings::str_eq(s, "SIGTERM") || crate::strings::str_eq(s, "TERM")
            || crate::strings::str_eq(s, "15") {
            Ok(Signal::SIGTERM)
        } else if crate::strings::str_eq(s, "SIGKILL") || crate::strings::str_eq(s, "KILL")
            || crate::strings::str_eq(s, "9") {
            Ok(Signal::SIGKILL)
        } else if crate::strings::str_eq(s, "SIGHUP") || crate::strings::str_eq(s, "HUP")
            || crate::strings::str_eq(s, "1") {
            Ok(Signal::SIGHUP)
        } else if crate::strings::str_eq(s, "SIGQUIT") || crate::strings::str_eq(s, "QUIT")
            || crate::strings::str_eq(s, "3") {
            Ok(Signal::SIGQUIT)
        } else if crate::strings::str_eq(s, "SIGUSR1") || crate::strings::str_eq(s, "USR1")
            || crate::strings::str_eq(s, "10") {
            Ok(Signal::SIGUSR1)
        } else if crate::strings::str_eq(s, "SIGUSR2") || crate::strings::str_eq(s, "USR2")
            || crate::strings::str_eq(s, "12") {
            Ok(Signal::SIGUSR2)
        } else {
            Err(Error::new(ErrorKind::InvalidSignal(String::from_str(s))))
        }
    }

    /// Converts the signal to its raw integer value.
    pub fn as_raw(self) -> (r: i32)
        ensures
            r == spec_signal_raw(self),
    {
        match self {
            Signal::SIGINT => 2,
            Signal::SIGTERM => 15,
            Signal::SIGKILL => 9,
            Signal::SIGHUP => 1,
            Signal::SIGQUIT => 3,
            Signal::SIGUSR1 => 10,
            Signal::SIGUSR2 => 12,
        }
    }

    /// Recovers a signal from its raw integer value.
    pub fn try_from(value: i32) -> (r: Result<Signal, Error>)
        ensures
            match r {
                Ok(sig) => spec_signal_raw(sig) == value,
                Err(e) => {
                    &&& forall|sig: Signal| spec_signal_raw(sig) != value
                    &&& e.kind matches ErrorKind::InvalidSignal(t) && t@
                        == crate::strings::spec_decimal_int(value as int)
                },
            },
    {
        match value {
            1 => Ok(Signal::SIGHUP),
            2 => Ok(Signal::SIGINT),
            3 => Ok(Signal::SIGQUIT),
            9 => Ok(Signal::SIGKILL),
            10 => Ok(Signal::SIGUSR1),
            12 => Ok(Signal::SIGUSR2),
            15 => Ok(Signal::SIGTERM),
            _ => {
                assert(forall|sig: Signal| spec_signal_raw(sig) != value);
                Err(Error::new(ErrorKind::InvalidSignal(crate::strings::i64_to_string(
                    value as i64,
                ))))
            },
        }
    }
}

/// Asks the platform to deliver SIGCONT to a stopped process; the stub
/// platform cannot.
pub fn continue_process(pid: ProcessId) -> (r: Result<(), Error>)
    ensures
        r matches Err(e) && e.kind matches ErrorKind::NotSupportedOnThisPlatform(m) && m@
            == "continuing process"@,
{
    let _ = pid;
    Err(Error::new(ErrorKind::NotSupportedOnThisPlatform(String::from_str("continuing process"))))
}

/// Sends a signal to a specific process; the stub platform cannot.
pub fn kill_process(pid: ProcessId, signal: TrapSignal) -> (r: Result<(), Error>)
    ensures
        r matches Err(e) && e.kind matches ErrorKind::NotSupportedOnThisPlatform(m) && m@
            == "killing process"@,
{
    let _ = pid;
    let _ = signal;
    Err(Error::new(ErrorKind::NotSupportedOnThisPlatform(String::from_str("killing process"))))
}

/// Moves the calling process into a new process group; a no-op here.
pub fn lead_new_process_group() -> (r: Result<(), Error>)
    ensures
        r is Ok,
{
    Ok(())
}

/// A signal listener on a platform without signal delivery: it can be
/// constructed, and it never reports a signal.
pub struct FakeSignal {}

impl FakeSignal {
    /// Makes a listener.
    pub fn new() -> (r: FakeSignal) {
        FakeSignal {  }
    }
}

/// The listener the engine selects on for SIGTSTP; here it never fires.
pub fn tstp_signal_listener() -> (r: Result<FakeSignal, Error>)
    ensures
        r is Ok,
{
    Ok(FakeSignal::new())
}

/// The listener the engine selects on for SIGCHLD; here it never fires.
pub fn chld_signal_listener() -> (r: Result<FakeSignal, Error>)
    ensures
        r is Ok,
{
    Ok(FakeSignal::new())
}

/// Blocks SIGTTOU around terminal control; a no-op here.
pub fn mask_sigttou() -> (r: Result<(), Error>)
    ensures
        r is Ok,
{
    Ok(())
}

/// Asks whether any child of this process has stopped; the stub platform
/// never observes one.
pub fn poll_for_stopped_children() -> (r: Result<bool, Error>)
    ensures
        r matches Ok(b) && b == false,
{
    Ok(false)
}

} // verus!
