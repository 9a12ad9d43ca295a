//! Tracing-event configuration: the set of event categories a host has
//! switched on, and the control builtin's decisions about it.
//!
//! The host owns the actual tracing backend and any locking around this
//! state; the set itself and what each subcommand does to it live here.

use vstd::prelude::*;

use crate::openfiles::{IoStore, OpenFile, OpenFiles, io_extends, write_via_fd};
use crate::results::ExecutionResult;
use crate::shell::{BuiltinKind, BuiltinRegistration, Shell};

verus! {

/// An event category tracing can be enabled for.
#[derive(Clone, Copy, PartialEq, Eq, Structural, Debug)]
pub enum TraceEvent {
    Commands,
    Expansion,
    Functions,
    Input,
    Jobs,
    Parsing,
}

/// The display name of each event.
pub open spec fn spec_event_name(e: TraceEvent) -> Seq<char> {
    match e {
        TraceEvent::Commands => "commands"@,
        TraceEvent::Expansion => "expansion"@,
        TraceEvent::Functions => "functions"@,
        TraceEvent::Input => "input"@,
        TraceEvent::Jobs => "jobs"@,
        TraceEvent::Parsing => "parsing"@,
    }
}

/// Renders an event's name.
pub fn event_name(e: TraceEvent) -> (r: &'static str)
    ensures
        r@ == spec_event_name(e),
{
    match e {
        TraceEvent::Commands => "commands",
        TraceEvent::Expansion => "expansion",
        TraceEvent::Functions => "functions",
        TraceEvent::Input => "input",
        TraceEvent::Jobs => "jobs",
        TraceEvent::Parsing => "parsing",
    }
}

/// The set of enabled events.
#[derive(Debug)]
pub struct EventConfig {
    pub enabled: Vec<TraceEvent>,
}

impl EventConfig {
    /// Whether an event is on.
    pub open spec fn spec_enabled(self, e: TraceEvent) -> bool {
        self.enabled@.contains(e)
    }

    /// Everything off.
    pub fn new() -> (r: EventConfig)
        ensures
            forall|e: TraceEvent| !r.spec_enabled(e),
    {
        EventConfig { enabled: Vec::new() }
    }

    fn position(&self, e: TraceEvent) -> (r: Option<usize>)
        ensures
            match r {
                Some(i) => i < self.enabled@.len() && self.enabled@[i as int] == e,
                None => !self.spec_enabled(e),
            },
    {
        let n = self.enabled.len();
        let mut i: usize = 0;
        while i < n
            invariant
                i <= n,
                n == self.enabled@.len(),
                forall|j: int| 0 <= j < i ==> self.enabled@[j] != e,
            decreases n - i,
        {
            if self.enabled[i] == e {
                return Some(i);
            }
            i = i + 1;
        }
        None
    }

    /// Switches an event on.
    pub fn enable(&mut self, e: TraceEvent)
        ensures
            final(self).spec_enabled(e),
            forall|x: TraceEvent| x != e ==> final(self).spec_enabled(x) == old(
                self,
            ).spec_enabled(x),
    {
        let ghost pre = self.enabled@;
        match self.position(e) {
            Some(_) => {
                proof {
                    assert(self.enabled@ =~= pre);
                }
            },
            None => {
                self.enabled.push(e);
                proof {
                    assert(self.enabled@.drop_last() =~= pre);
                    assert(self.enabled@.last() == e);
                    assert(self.enabled@.contains(e));
                    assert forall|x: TraceEvent| x != e implies self.enabled@.contains(x)
                        == pre.contains(x) by {
                        if pre.contains(x) {
                            let i = choose|i: int| 0 <= i < pre.len() && pre[i] == x;
                            assert(self.enabled@[i] == x);
                        }
                        if self.enabled@.contains(x) {
                            let i = choose|i: int|
                                0 <= i < self.enabled@.len() && self.enabled@[i] == x;
                            assert(i < pre.len());
                            assert(pre[i] == x);
                        }
                    }
                }
            },
        }
    }

    /// Switches an event off.
    pub fn disable(&mut self, e: TraceEvent)
        ensures
            !final(self).spec_enabled(e),
            forall|x: TraceEvent| x != e ==> final(self).spec_enabled(x) == old(
                self,
            ).spec_enabled(x),
    {
        let n = self.enabled.len();
        let mut out: Vec<TraceEvent> = Vec::new();
        let mut i: usize = 0;
        while i < n
            invariant
                i <= n,
                n == self.enabled@.len(),
                forall|j: int| 0 <= j < out@.len() ==> out@[j] != e,
                forall|x: TraceEvent|
                    x != e ==> out@.contains(x) == self.enabled@.subrange(0, i as int).contains(
                        x,
                    ),
            decreases n - i,
        {
            let cur = self.enabled[i];
            let ghost outpre = out@;
            if cur != e {
                out.push(cur);
            }
            proof {
                let prefix = self.enabled@.subrange(0, i as int);
                let sub2 = self.enabled@.subrange(0, i + 1);
                assert(sub2 =~= prefix.push(self.enabled@[i as int]));
                assert forall|x: TraceEvent| x != e implies out@.contains(x) == sub2.contains(
                    x,
                ) by {
                    vstd::seq_lib::lemma_seq_contains_after_push(prefix, self.enabled@[i as int], x);
                    if cur != e {
                        assert(out@ =~= outpre.push(cur));
                        vstd::seq_lib::lemma_seq_contains_after_push(outpre, cur, x);
                    }
                }
            }
            i = i + 1;
        }
        proof {
            assert(self.enabled@.subrange(0, n as int) =~= self.enabled@);
        }
        self.enabled = out;
    }

    /// The enabled events, in insertion order.
    pub fn get_enabled(&self) -> (r: &Vec<TraceEvent>)
        ensures
            r@ == self.enabled@,
    {
        &self.enabled
    }
}

/// The subcommands of the control builtin's event group.
#[derive(Clone, Copy, PartialEq, Eq, Structural, Debug)]
pub enum EventsCommand {
    /// Display status of enabled events.
    Status,
    /// Enable an event.
    Enable(TraceEvent),
    /// Disable an event.
    Disable(TraceEvent),
}

/// The status text: each enabled event's name on its own line, in
/// insertion order.
pub open spec fn spec_event_lines(events: Seq<TraceEvent>) -> Seq<char>
    decreases events.len(),
{
    if events.len() == 0 {
        Seq::<char>::empty()
    } else {
        spec_event_lines(events.drop_last()) + spec_event_name(events.last()) + "\n"@
    }
}

/// Executes one event subcommand against the configuration: status prints
/// each enabled event's name on its own line to FD 1; enable and disable
/// adjust the set.
pub fn events_execute(
    config: &mut EventConfig,
    table: &OpenFiles,
    io: &mut IoStore,
    cmd: EventsCommand,
) -> (r: ExecutionResult)
    requires
        table.wf_for(*old(io)),
    ensures
        table.wf_for(*final(io)),
        io_extends(*final(io), *old(io)),
        r.control_flow is Normal,
        r.exit_code == 0,
        match cmd {
            EventsCommand::Status => final(config).enabled@ == old(config).enabled@ && (
            table.spec_get(1) matches Some(OpenFile::Buffer(id))
                ==> final(io).buffers@[id as int]@ == old(io).buffers@[id as int]@
                + spec_event_lines(old(config).enabled@)),
            EventsCommand::Enable(e) => final(config).spec_enabled(e) && (forall|x: TraceEvent|
                x != e ==> final(config).spec_enabled(x) == old(config).spec_enabled(x)),
            EventsCommand::Disable(e) => !final(config).spec_enabled(e) && (forall|
                x: TraceEvent,
            |
                x != e ==> final(config).spec_enabled(x) == old(config).spec_enabled(x)),
        },
{
    match cmd {
        EventsCommand::Status => {
            let n = config.enabled.len();
            let mut text = String::new();
            let mut i: usize = 0;
            while i < n
                invariant
                    i <= n,
                    n == config.enabled@.len(),
                    text@ == spec_event_lines(config.enabled@.subrange(0, i as int)),
                decreases n - i,
            {
                text.append(event_name(config.enabled[i]));
                text.append("\n");
                proof {
                    let ev = config.enabled@;
                    assert(ev.subrange(0, i + 1).drop_last() =~= ev.subrange(0, i as int));
                    assert(ev.subrange(0, i + 1).last() == ev[i as int]);
                }
                i = i + 1;
            }
            proof {
                assert(config.enabled@.subrange(0, n as int) =~= config.enabled@);
            }
            let _ = write_via_fd(table, io, 1, text.as_str());
            ExecutionResult::success()
        },
        EventsCommand::Enable(e) => {
            config.enable(e);
            ExecutionResult::success()
        },
        EventsCommand::Disable(e) => {
            config.disable(e);
            ExecutionResult::success()
        },
    }
}

/// Installs the control builtin into a shell's registry.
pub fn register(shell: &mut Shell)
    ensures
        crate::shell::spec_builtin_find(final(shell).builtins@, "brushctl"@) == Some(
            BuiltinRegistration {
                kind: BuiltinKind::Brushctl,
                disabled: false,
                special: false,
                declaration: false,
            },
        ),
        final(shell).env == old(shell).env,
        final(shell).last_exit_code == old(shell).last_exit_code,
{
    shell.register_builtin(
        "brushctl",
        BuiltinRegistration {
            kind: BuiltinKind::Brushctl,
            disabled: false,
            special: false,
            declaration: false,
        },
    );
}

} // verus!
