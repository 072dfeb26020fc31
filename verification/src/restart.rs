//! The restart of the client, as a machine that says what to do next.
//!
//! The client does not take a changed auto-login identity while it runs. So
//! a restart looks whether the client runs; where it does, asks it to exit
//! and looks again every second until it is gone; then starts it anew; and,
//! where that was asked for, ends the host program.
//!
//! The machine does none of this itself. [`Restart::next_action`] names the
//! step that is due, the caller performs it and reports what came of it to
//! [`Restart::advance`]. The wait for the client's exit is bounded: after
//! `polls_left` further looks that still find the client, the machine gives
//! up and starts nothing.
use vstd::prelude::*;

verus! {

/// What a list of strings means.
pub open spec fn texts_view(list: Seq<String>) -> Seq<Seq<char>> {
    Seq::new(list.len(), |i: int| list[i]@)
}

/// Where a restart stands.
#[derive(Debug, Clone, Copy, PartialEq, Eq, Structural)]
pub enum Phase {
    /// It has to look whether the client runs.
    Probing,
    /// The client runs and has to be asked to exit.
    Closing,
    /// The client was asked to exit; a second has to pass before the next look.
    Sleeping,
    /// It has to look whether the client is gone.
    Polling,
    /// The client does not run and has to be started.
    Starting,
    /// The client was started and the host program has to end.
    Leaving,
    /// All is done.
    Finished,
    /// The client did not exit in time. Nothing was started.
    Abandoned,
}

/// What the caller reports.
#[derive(Debug, Clone, Copy, PartialEq, Eq, Structural)]
pub enum Event {
    /// The look at the process table: whether the client runs.
    Running(bool),
    /// The step that was due has been performed.
    Done,
}

/// The step that is due.
#[derive(Debug, Clone, PartialEq, Eq)]
pub enum Action {
    /// Look whether a process of exactly this name runs, and report
    /// `Event::Running`.
    Probe { process: String },
    /// Run the client with these arguments, wait until that command has
    /// ended, and report `Event::Done`.
    RequestExit { program: String, args: Vec<String> },
    /// Let this many seconds pass, and report `Event::Done`.
    Wait { seconds: u64 },
    /// Start the client with these arguments, do not wait for it, and report
    /// `Event::Done`.
    Start { program: String, args: Vec<String> },
    /// End the host program.
    ExitHost,
    /// Nothing is left to do.
    Nothing,
    /// Nothing is left to do: the client did not exit in time.
    GiveUp,
}

/// What an action means.
pub enum ActionView {
    Probe { process: Seq<char> },
    RequestExit { program: Seq<char>, args: Seq<Seq<char>> },
    Wait { seconds: u64 },
    Start { program: Seq<char>, args: Seq<Seq<char>> },
    ExitHost,
    Nothing,
    GiveUp,
}

impl View for Action {
    type V = ActionView;

    open spec fn view(&self) -> ActionView {
        match *self {
            Action::Probe { process } => ActionView::Probe { process: process@ },
            Action::RequestExit { program, args } => ActionView::RequestExit {
                program: program@,
                args: texts_view(args@),
            },
            Action::Wait { seconds } => ActionView::Wait { seconds },
            Action::Start { program, args } => ActionView::Start {
                program: program@,
                args: texts_view(args@),
            },
            Action::ExitHost => ActionView::ExitHost,
            Action::Nothing => ActionView::Nothing,
            Action::GiveUp => ActionView::GiveUp,
        }
    }
}

/// A restart of the client that is under way.
#[derive(Debug, PartialEq, Eq)]
pub struct Restart {
    /// The client's executable.
    pub program: String,
    /// The arguments with which the client is started anew.
    pub args: Vec<String>,
    /// Whether the host program ends once the client was started.
    pub exit_after: bool,
    /// How many more looks may find the client still running.
    pub polls_left: u32,
    pub phase: Phase,
}

/// What a restart means.
pub struct RestartView {
    pub program: Seq<char>,
    pub args: Seq<Seq<char>>,
    pub exit_after: bool,
    pub polls_left: u32,
    pub phase: Phase,
}

impl View for Restart {
    type V = RestartView;

    open spec fn view(&self) -> RestartView {
        RestartView {
            program: self.program@,
            args: texts_view(self.args@),
            exit_after: self.exit_after,
            polls_left: self.polls_left,
            phase: self.phase,
        }
    }
}

impl RestartView {
    /// The step that is due.
    pub open spec fn action(self) -> ActionView {
        match self.phase {
            Phase::Probing | Phase::Polling => ActionView::Probe { process: "steam.exe"@ },
            Phase::Closing => ActionView::RequestExit {
                program: self.program,
                args: seq!["-exitsteam"@],
            },
            Phase::Sleeping => ActionView::Wait { seconds: 1 },
            Phase::Starting => ActionView::Start { program: self.program, args: self.args },
            Phase::Leaving => ActionView::ExitHost,
            Phase::Finished => ActionView::Nothing,
            Phase::Abandoned => ActionView::GiveUp,
        }
    }

    /// Whether `event` is what the step that is due reports.
    pub open spec fn expects(self, event: Event) -> bool {
        match self.phase {
            Phase::Probing | Phase::Polling => event is Running,
            Phase::Closing | Phase::Sleeping | Phase::Starting | Phase::Leaving => event is Done,
            Phase::Finished | Phase::Abandoned => false,
        }
    }

    /// Where the restart stands after `event`. An event that the step does
    /// not report changes nothing.
    pub open spec fn after(self, event: Event) -> RestartView {
        match (self.phase, event) {
            (Phase::Probing, Event::Running(true)) => RestartView { phase: Phase::Closing, ..self },
            (Phase::Probing, Event::Running(false)) => RestartView {
                phase: Phase::Starting,
                ..self
            },
            (Phase::Closing, Event::Done) => RestartView { phase: Phase::Sleeping, ..self },
            (Phase::Sleeping, Event::Done) => RestartView { phase: Phase::Polling, ..self },
            (Phase::Polling, Event::Running(true)) => if self.polls_left > 0 {
                RestartView {
                    phase: Phase::Sleeping,
                    polls_left: (self.polls_left - 1) as u32,
                    ..self
                }
            } else {
                RestartView { phase: Phase::Abandoned, ..self }
            },
            (Phase::Polling, Event::Running(false)) => RestartView {
                phase: Phase::Starting,
                ..self
            },
            (Phase::Starting, Event::Done) => if self.exit_after {
                RestartView { phase: Phase::Leaving, ..self }
            } else {
                RestartView { phase: Phase::Finished, ..self }
            },
            (Phase::Leaving, Event::Done) => RestartView { phase: Phase::Finished, ..self },
            _ => self,
        }
    }

    /// Whether nothing is left to do.
    pub open spec fn is_over(self) -> bool {
        self.phase == Phase::Finished || self.phase == Phase::Abandoned
    }

    /// A bound on the number of steps that are still to come.
    pub open spec fn steps_left(self) -> nat {
        match self.phase {
            Phase::Probing => 6 + 2 * self.polls_left as nat,
            Phase::Closing => 5 + 2 * self.polls_left as nat,
            Phase::Sleeping => 4 + 2 * self.polls_left as nat,
            Phase::Polling => 3 + 2 * self.polls_left as nat,
            Phase::Starting => 2,
            Phase::Leaving => 1,
            Phase::Finished | Phase::Abandoned => 0,
        }
    }
}

/// Every step that is reported brings the restart nearer to its end, and
/// only a restart that is over expects nothing: the wait for the client's
/// exit cannot go on for ever.
pub proof fn lemma_restart_ends(state: RestartView, event: Event)
    ensures
        state.expects(event) ==> state.after(event).steps_left() < state.steps_left(),
        !state.expects(event) ==> state.after(event) == state,
        state.is_over() <==> state.steps_left() == 0,
        state.is_over() <==> !state.expects(Event::Done) && !state.expects(Event::Running(true)),
        state.after(event).program == state.program,
        state.after(event).args == state.args,
        state.after(event).exit_after == state.exit_after,
{
}

/// The client is started only when a look has found that it does not run,
/// and the exit of the host follows only the start of the client.
pub proof fn lemma_restart_order(state: RestartView, event: Event)
    ensures
        state.after(event).phase == Phase::Starting && state.phase != Phase::Starting ==> event
            == Event::Running(false),
        state.after(event).phase == Phase::Leaving && state.phase != Phase::Leaving ==> state.phase
            == Phase::Starting && state.exit_after,
        state.after(event).phase == Phase::Closing && state.phase != Phase::Closing ==> state.phase
            == Phase::Probing && event == Event::Running(true),
{
}

/// A copy of `list`.
pub fn clone_texts(list: &Vec<String>) -> (r: Vec<String>)
    ensures
        texts_view(r@) == texts_view(list@),
{
    let mut copy: Vec<String> = Vec::new();
    let mut i: usize = 0;
    while i < list.len()
        invariant
            i <= list.len(),
            copy.len() == i,
            forall|k: int| 0 <= k < i ==> (#[trigger] copy@[k])@ == list@[k]@,
        decreases list.len() - i,
    {
        copy.push(list[i].clone());
        i += 1;
    }
    assert(texts_view(copy@) =~= texts_view(list@));
    copy
}

impl Clone for Restart {
    fn clone(&self) -> (r: Restart)
        ensures
            r@ == self@,
    {
        Restart {
            program: self.program.clone(),
            args: clone_texts(&self.args),
            exit_after: self.exit_after,
            polls_left: self.polls_left,
            phase: self.phase,
        }
    }
}

impl Restart {
    /// A restart that has not begun: the first step looks whether the client
    /// runs. `max_polls` is the number of looks that may find the client
    /// still running after it was asked to exit and after the first of them.
    pub fn new(program: String, args: Vec<String>, exit_after: bool, max_polls: u32) -> (r: Restart)
        ensures
            r@ == (RestartView {
                program: program@,
                args: texts_view(args@),
                exit_after,
                polls_left: max_polls,
                phase: Phase::Probing,
            }),
    {
        Restart { program, args, exit_after, polls_left: max_polls, phase: Phase::Probing }
    }

    /// The step that is due; see [`RestartView::action`].
    pub fn next_action(&self) -> (r: Action)
        ensures
            r@ == self@.action(),
    {
        match self.phase {
            Phase::Probing | Phase::Polling => Action::Probe { process: "steam.exe".to_owned() },
            Phase::Closing => {
                let mut args: Vec<String> = Vec::new();
                args.push("-exitsteam".to_owned());
                assert(texts_view(args@) =~= seq!["-exitsteam"@]);
                Action::RequestExit { program: self.program.clone(), args }
            },
            Phase::Sleeping => Action::Wait { seconds: 1 },
            Phase::Starting => Action::Start {
                program: self.program.clone(),
                args: clone_texts(&self.args),
            },
            Phase::Leaving => Action::ExitHost,
            Phase::Finished => Action::Nothing,
            Phase::Abandoned => Action::GiveUp,
        }
    }

    /// Takes the report of the step that was due; see [`RestartView::after`].
    pub fn advance(&mut self, event: Event)
        ensures
            final(self)@ == old(self)@.after(event),
            old(self)@.expects(event) ==> final(self)@.steps_left() < old(self)@.steps_left(),
    {
        match (self.phase, event) {
            (Phase::Probing, Event::Running(true)) => {
                self.phase = Phase::Closing;
            },
            (Phase::Probing, Event::Running(false)) => {
                self.phase = Phase::Starting;
            },
            (Phase::Closing, Event::Done) => {
                self.phase = Phase::Sleeping;
            },
            (Phase::Sleeping, Event::Done) => {
                self.phase = Phase::Polling;
            },
            (Phase::Polling, Event::Running(true)) => {
                if self.polls_left > 0 {
                    self.polls_left = self.polls_left - 1;
                    self.phase = Phase::Sleeping;
                } else {
                    self.phase = Phase::Abandoned;
                }
            },
            (Phase::Polling, Event::Running(false)) => {
                self.phase = Phase::Starting;
            },
            (Phase::Starting, Event::Done) => {
                if self.exit_after {
                    self.phase = Phase::Leaving;
                } else {
                    self.phase = Phase::Finished;
                }
            },
            (Phase::Leaving, Event::Done) => {
                self.phase = Phase::Finished;
            },
            _ => {},
        }
    }

    /// Whether nothing is left to do.
    pub fn is_over(&self) -> (r: bool)
        ensures
            r == self@.is_over(),
    {
        match self.phase {
            Phase::Finished | Phase::Abandoned => true,
            _ => false,
        }
    }
}

} // verus!
