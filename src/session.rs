//! Session orchestration: which pumps a session starts, how the remote
//! completion signal is read, and what is reported at the end.

use vstd::prelude::*;
use crate::command::{is_exit_code_text, digits_value, parse_exit_code};
use crate::sink::CapturedSink;

verus! {

/// One byte stream of an attached remote command.
#[derive(Clone, Copy, Debug, PartialEq, Eq, Structural)]
pub enum Direction {
    Input,
    Output,
    Error,
}

/// Which streams a session wires up.
#[derive(Clone, Copy, Debug, PartialEq, Eq, Structural)]
pub struct Directions {
    pub input: bool,
    pub output: bool,
    pub error: bool,
}

pub open spec fn wants(d: Directions, dir: Direction) -> bool {
    match dir {
        Direction::Input => d.input,
        Direction::Output => d.output,
        Direction::Error => d.error,
    }
}

/// The pumps to start for `d`: one per wanted direction, input first, then
/// output, then error.
pub open spec fn pumps_for(d: Directions) -> Seq<Direction> {
    (if d.input { seq![Direction::Input] } else { Seq::empty() })
        + (if d.output { seq![Direction::Output] } else { Seq::empty() })
        + (if d.error { seq![Direction::Error] } else { Seq::empty() })
}

/// How a remote command ended.
#[derive(Clone, Copy, Debug, PartialEq, Eq, Structural)]
pub enum Completion {
    /// The command exited with this status.
    Exited { code: u32 },
    /// The remote side reported a failure that carries no exit code.
    Failed,
    /// The transport ended before any status arrived.
    Disconnected,
}

/// The final status a remote session delivers, as plain values: the overall
/// verdict text (`"Success"` or `"Failure"`) and the exit code text, when the
/// status carries them.
pub struct RemoteStatus {
    pub status: Option<String>,
    pub exit_code: Option<String>,
}

/// Reading of a remote status. No status at all means the transport dropped.
/// A `"Success"` verdict is exit code zero; otherwise a well-formed exit code
/// is taken as is, and anything else is a failure without a code.
pub open spec fn completion_spec(s: Option<RemoteStatus>) -> Completion {
    match s {
        None => Completion::Disconnected,
        Some(st) => if st.status matches Some(v) && v@ == "Success"@ {
            Completion::Exited { code: 0 }
        } else if st.exit_code matches Some(c) && is_exit_code_text(c@) {
            Completion::Exited { code: digits_value(st.exit_code->0@) as u32 }
        } else {
            Completion::Failed
        },
    }
}

/// Classifies the completion signal of a session.
pub fn completion_of(s: Option<RemoteStatus>) -> (r: Completion)
    ensures
        r == completion_spec(s),
{
    match s {
        None => Completion::Disconnected,
        Some(st) => {
            let success = String::from_str("Success");
            let is_success = match &st.status {
                Some(v) => *v == success,
                None => false,
            };
            if is_success {
                Completion::Exited { code: 0 }
            } else {
                match &st.exit_code {
                    Some(c) => match parse_exit_code(c.as_str()) {
                        Some(code) => Completion::Exited { code },
                        None => Completion::Failed,
                    },
                    None => Completion::Failed,
                }
            }
        },
    }
}

/// How one pump ended.
#[derive(Clone, Copy, Debug, PartialEq, Eq, Structural)]
pub enum PumpEnd {
    /// The source was exhausted and every byte delivered.
    Drained,
    /// A read or a write failed; the pump stopped without copying further.
    TerminatedEarly,
}

/// Why a session could not run.
#[derive(Clone, Copy, Debug, PartialEq, Eq, Structural)]
pub enum SetupError {
    /// The target did not become ready in time, or watching it failed.
    NotReady,
    /// The target does not exist or cannot be attached to.
    AttachFailed,
}

/// Stage of a session.
#[derive(Clone, Copy, Debug, PartialEq, Eq, Structural)]
pub enum Phase {
    Attaching,
    Running,
    Completed { outcome: Completion },
    Aborted { error: SetupError },
}

/// Decisions of one session, driven by the events its host observes: the
/// attach result, each pump's end, and the completion signal. The host
/// performs the actions (starting pumps, awaiting completion).
#[derive(Clone, Copy, Debug, PartialEq, Eq, Structural)]
pub struct Orchestrator {
    pub wanted: Directions,
    pub started: Directions,
    pub finished: Directions,
    pub early: Directions,
    pub phase: Phase,
}

pub open spec fn no_directions() -> Directions {
    Directions { input: false, output: false, error: false }
}

pub open spec fn with_direction(d: Directions, dir: Direction) -> Directions {
    match dir {
        Direction::Input => Directions { input: true, ..d },
        Direction::Output => Directions { output: true, ..d },
        Direction::Error => Directions { error: true, ..d },
    }
}

fn set_direction(d: Directions, dir: Direction) -> (r: Directions)
    ensures
        r == with_direction(d, dir),
{
    match dir {
        Direction::Input => Directions { input: true, ..d },
        Direction::Output => Directions { output: true, ..d },
        Direction::Error => Directions { error: true, ..d },
    }
}

fn has_direction(d: Directions, dir: Direction) -> (r: bool)
    ensures
        r == wants(d, dir),
{
    match dir {
        Direction::Input => d.input,
        Direction::Output => d.output,
        Direction::Error => d.error,
    }
}

impl Orchestrator {
    /// A session that will wire the directions in `wanted`.
    pub fn new(wanted: Directions) -> (r: Self)
        ensures
            r.wanted == wanted,
            r.started == no_directions(),
            r.finished == no_directions(),
            r.early == no_directions(),
            r.phase == Phase::Attaching,
    {
        let none = Directions { input: false, output: false, error: false };
        Orchestrator { wanted, started: none, finished: none, early: none, phase: Phase::Attaching }
    }

    /// The readiness wait failed: the session ends before attaching.
    pub fn not_ready(&mut self)
        requires
            old(self).phase == Phase::Attaching,
        ensures
            *final(self) == (Orchestrator {
                phase: Phase::Aborted { error: SetupError::NotReady },
                ..*old(self)
            }),
    {
        self.phase = Phase::Aborted { error: SetupError::NotReady };
    }

    /// The attach request failed: the session ends, no pump is started.
    pub fn attach_failed(&mut self)
        requires
            old(self).phase == Phase::Attaching,
        ensures
            *final(self) == (Orchestrator {
                phase: Phase::Aborted { error: SetupError::AttachFailed },
                ..*old(self)
            }),
    {
        self.phase = Phase::Aborted { error: SetupError::AttachFailed };
    }

    /// The session attached: returns the pumps to start, exactly one per
    /// wanted direction and none for the others.
    pub fn attached(&mut self) -> (r: Vec<Direction>)
        requires
            old(self).phase == Phase::Attaching,
        ensures
            r@ == pumps_for(old(self).wanted),
            forall|dir: Direction| r@.contains(dir) <==> wants(old(self).wanted, dir),
            *final(self) == (Orchestrator {
                started: old(self).wanted,
                phase: Phase::Running,
                ..*old(self)
            }),
    {
        let mut r: Vec<Direction> = Vec::new();
        if self.wanted.input {
            r.push(Direction::Input);
        }
        if self.wanted.output {
            r.push(Direction::Output);
        }
        if self.wanted.error {
            r.push(Direction::Error);
        }
        self.started = self.wanted;
        self.phase = Phase::Running;
        assert(r@ =~= pumps_for(self.wanted));
        proof {
            let p = pumps_for(self.wanted);
            assert forall|dir: Direction| p.contains(dir) <==> wants(self.wanted, dir) by {
                if wants(self.wanted, dir) {
                    let k: int = if dir == Direction::Input {
                        0
                    } else if dir == Direction::Output {
                        if self.wanted.input { 1 } else { 0 }
                    } else {
                        (if self.wanted.input { 1int } else { 0 }) + (if self.wanted.output { 1int } else { 0 })
                    };
                    assert(p[k] == dir);
                }
            }
        }
        r
    }

    /// A started pump ended. A pump that stopped early is recorded; the
    /// session goes on and still waits for its completion signal.
    pub fn pump_ended(&mut self, dir: Direction, end: PumpEnd)
        requires
            wants(old(self).started, dir),
        ensures
            final(self).finished == with_direction(old(self).finished, dir),
            final(self).early == (if end == PumpEnd::TerminatedEarly {
                with_direction(old(self).early, dir)
            } else {
                old(self).early
            }),
            final(self).wanted == old(self).wanted,
            final(self).started == old(self).started,
            final(self).phase == old(self).phase,
    {
        self.finished = set_direction(self.finished, dir);
        if end == PumpEnd::TerminatedEarly {
            self.early = set_direction(self.early, dir);
        }
    }

    /// The completion signal resolved: the session is over, whatever state
    /// its pumps are in.
    pub fn completed(&mut self, c: Completion)
        requires
            old(self).phase == Phase::Running,
        ensures
            *final(self) == (Orchestrator { phase: Phase::Completed { outcome: c }, ..*old(self) }),
    {
        self.phase = Phase::Completed { outcome: c };
    }

    /// Whether the pump of `dir` stopped before exhausting its source.
    pub fn terminated_early(&self, dir: Direction) -> (r: bool)
        ensures
            r == wants(self.early, dir),
    {
        has_direction(self.early, dir)
    }
}

/// Text of a captured stream to surface after completion: present only when
/// something was captured.
pub fn surfaced_text(sink: &CapturedSink) -> (r: Option<String>)
    ensures
        r is None <==> sink@.bytes.len() == 0,
        r is Some ==> r->0@ == sink@.text,
{
    if sink.is_empty() {
        None
    } else {
        Some(sink.text())
    }
}

} // verus!
