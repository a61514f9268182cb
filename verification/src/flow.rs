//! The course of `gitbuddy ai` as a state machine: each step takes what the
//! last piece of outside work (a `git` command, a model request, an answer
//! of the user) came back with, and says what to do next.
use crate::ai::{classify_answer, repair_failure_cause, AnswerOutcome};
use crate::commit_message::{answer_subject, extract_commit_subject_from_json_or_text};
use crate::git::{command_line, command_line_of, commit_args, commit_args_of, push_args, push_args_of};
use crate::text::trim;
use vstd::prelude::*;

verus! {

broadcast use vstd::string::group_string_axioms;

/// How `gitbuddy ai` was asked to run.
#[derive(Debug, Clone, Copy, PartialEq, Eq, Structural)]
pub struct FlowOptions {
    /// Push after committing without asking.
    pub push: bool,
    /// Show the `git commit` and `git push` commands instead of running
    /// them.
    pub dry_run: bool,
    /// Stage all changes when nothing is staged.
    pub auto_stage: bool,
    /// Commit without asking for confirmation.
    pub auto_commit: bool,
}

/// What the flow waits for.
#[derive(Debug)]
pub enum Phase {
    AwaitGitInstalled,
    AwaitGitDirectory,
    AwaitStagedFiles,
    AwaitUnstagedChanges,
    AwaitStaging,
    AwaitDiff,
    AwaitAnswer,
    AwaitRepair { first_error: String },
    AwaitConfirmation { subject: String },
    AwaitCommit,
    AwaitPushAnswer,
    AwaitPush,
    Finished,
}

/// What a piece of outside work came back with.
#[derive(Debug)]
pub enum Event {
    GitInstalled(bool),
    GitDirectory(bool),
    /// Whether any file is staged.
    StagedFiles(bool),
    UnstagedChanges(bool),
    Staged,
    DiffReady,
    /// The model's answer to the commit request.
    Answer(String),
    /// The model's answer to the repair request, or why the request failed.
    RepairAnswer(Result<String, String>),
    Confirmed(bool),
    /// The commit was made, or in a dry run its command was shown.
    Committed,
    PushAnswer(bool),
    /// The push was made, or in a dry run its command was shown.
    Pushed,
}

/// Why the flow failed.
#[derive(Debug)]
pub enum FlowFailure {
    GitNotInstalled,
    NotGitDirectory,
    /// The model answered nothing but white space.
    EmptyAnswer,
    /// Neither the answer nor its repair held a valid subject.
    InvalidSubject { cause: String, repair_response: Option<String> },
    /// An event came that the flow did not wait for.
    OutOfOrder,
}

/// How the flow ended.
#[derive(Debug)]
pub enum Outcome {
    /// Committed (and pushed where asked).
    Done,
    /// Nothing staged and nothing to stage.
    NothingToCommit,
    /// Nothing staged, and staging was not asked for.
    NoStagedFiles,
    /// The user declined the commit.
    Cancelled,
    Failed(FlowFailure),
}

/// The outside work to do next.
#[derive(Debug)]
pub enum Action {
    CheckGitInstalled,
    CheckGitDirectory,
    ListStagedFiles,
    CheckUnstagedChanges,
    StageAll,
    CollectDiff,
    RequestSubject,
    RequestRepair { error: String },
    ConfirmCommit { subject: String },
    /// Run `git commit -m <subject>`.
    Commit { subject: String },
    AskPush,
    /// Run `git push origin HEAD`.
    Push,
    /// A dry run: show the commit of `subject` and the `git commit`
    /// command line instead of running it.
    ShowCommit { subject: String, command: String },
    /// A dry run: show the `git push` command line instead of running it.
    ShowPush { command: String },
    Finish(Outcome),
}

/// The flow: how it was asked to run and what it waits for.
#[derive(Debug)]
pub struct Flow {
    pub options: FlowOptions,
    pub phase: Phase,
}

// -------------------------------------------------------------------
// Views: the same data with texts as character sequences.
// -------------------------------------------------------------------
pub ghost enum PhaseView {
    AwaitGitInstalled,
    AwaitGitDirectory,
    AwaitStagedFiles,
    AwaitUnstagedChanges,
    AwaitStaging,
    AwaitDiff,
    AwaitAnswer,
    AwaitRepair { first_error: Seq<char> },
    AwaitConfirmation { subject: Seq<char> },
    AwaitCommit,
    AwaitPushAnswer,
    AwaitPush,
    Finished,
}

pub ghost enum EventView {
    GitInstalled(bool),
    GitDirectory(bool),
    StagedFiles(bool),
    UnstagedChanges(bool),
    Staged,
    DiffReady,
    Answer(Seq<char>),
    RepairAnswer(Result<Seq<char>, Seq<char>>),
    Confirmed(bool),
    Committed,
    PushAnswer(bool),
    Pushed,
}

pub ghost enum FailureView {
    GitNotInstalled,
    NotGitDirectory,
    EmptyAnswer,
    InvalidSubject { cause: Seq<char>, repair_response: Option<Seq<char>> },
    OutOfOrder,
}

pub ghost enum OutcomeView {
    Done,
    NothingToCommit,
    NoStagedFiles,
    Cancelled,
    Failed(FailureView),
}

pub ghost enum ActionView {
    CheckGitInstalled,
    CheckGitDirectory,
    ListStagedFiles,
    CheckUnstagedChanges,
    StageAll,
    CollectDiff,
    RequestSubject,
    RequestRepair { error: Seq<char> },
    ConfirmCommit { subject: Seq<char> },
    Commit { subject: Seq<char> },
    AskPush,
    Push,
    ShowCommit { subject: Seq<char>, command: Seq<char> },
    ShowPush { command: Seq<char> },
    Finish(OutcomeView),
}

pub ghost struct FlowView {
    pub options: FlowOptions,
    pub phase: PhaseView,
}

impl View for Phase {
    type V = PhaseView;

    open spec fn view(&self) -> PhaseView {
        match self {
            Phase::AwaitGitInstalled => PhaseView::AwaitGitInstalled,
            Phase::AwaitGitDirectory => PhaseView::AwaitGitDirectory,
            Phase::AwaitStagedFiles => PhaseView::AwaitStagedFiles,
            Phase::AwaitUnstagedChanges => PhaseView::AwaitUnstagedChanges,
            Phase::AwaitStaging => PhaseView::AwaitStaging,
            Phase::AwaitDiff => PhaseView::AwaitDiff,
            Phase::AwaitAnswer => PhaseView::AwaitAnswer,
            Phase::AwaitRepair { first_error } => PhaseView::AwaitRepair {
                first_error: first_error@,
            },
            Phase::AwaitConfirmation { subject } => PhaseView::AwaitConfirmation {
                subject: subject@,
            },
            Phase::AwaitCommit => PhaseView::AwaitCommit,
            Phase::AwaitPushAnswer => PhaseView::AwaitPushAnswer,
            Phase::AwaitPush => PhaseView::AwaitPush,
            Phase::Finished => PhaseView::Finished,
        }
    }
}

impl View for Event {
    type V = EventView;

    open spec fn view(&self) -> EventView {
        match self {
            Event::GitInstalled(b) => EventView::GitInstalled(*b),
            Event::GitDirectory(b) => EventView::GitDirectory(*b),
            Event::StagedFiles(b) => EventView::StagedFiles(*b),
            Event::UnstagedChanges(b) => EventView::UnstagedChanges(*b),
            Event::Staged => EventView::Staged,
            Event::DiffReady => EventView::DiffReady,
            Event::Answer(a) => EventView::Answer(a@),
            Event::RepairAnswer(r) => EventView::RepairAnswer(
                match r {
                    Ok(a) => Ok(a@),
                    Err(e) => Err(e@),
                },
            ),
            Event::Confirmed(b) => EventView::Confirmed(*b),
            Event::Committed => EventView::Committed,
            Event::PushAnswer(b) => EventView::PushAnswer(*b),
            Event::Pushed => EventView::Pushed,
        }
    }
}

impl View for FlowFailure {
    type V = FailureView;

    open spec fn view(&self) -> FailureView {
        match self {
            FlowFailure::GitNotInstalled => FailureView::GitNotInstalled,
            FlowFailure::NotGitDirectory => FailureView::NotGitDirectory,
            FlowFailure::EmptyAnswer => FailureView::EmptyAnswer,
            FlowFailure::InvalidSubject { cause, repair_response } => FailureView::InvalidSubject {
                cause: cause@,
                repair_response: match repair_response {
                    Some(r) => Some(r@),
                    None => None,
                },
            },
            FlowFailure::OutOfOrder => FailureView::OutOfOrder,
        }
    }
}

/// The message of a failure. An invalid subject reports its cause; the
/// program adds where the diagnostic went.
pub open spec fn failure_text(f: FailureView) -> Seq<char> {
    match f {
        FailureView::GitNotInstalled => "Git is not installed. Please install git first."@,
        FailureView::NotGitDirectory => "Not a git directory"@,
        FailureView::EmptyAnswer => "Empty commit message. This usually happens with reasoning models (e.g., DeepSeek-R1) that output thinking tokens in a separate field. Try using a standard chat model like 'deepseek-chat'."@,
        FailureView::InvalidSubject { cause, .. } => cause,
        FailureView::OutOfOrder => "internal error: the commit flow got an unexpected event"@,
    }
}

impl FlowFailure {
    /// The message shown for this failure.
    pub fn to_string(&self) -> (s: String)
        ensures
            s@ == failure_text(self@),
    {
        match self {
            FlowFailure::GitNotInstalled => "Git is not installed. Please install git first.".to_string(),
            FlowFailure::NotGitDirectory => "Not a git directory".to_string(),
            FlowFailure::EmptyAnswer => "Empty commit message. This usually happens with reasoning models (e.g., DeepSeek-R1) that output thinking tokens in a separate field. Try using a standard chat model like 'deepseek-chat'.".to_string(),
            FlowFailure::InvalidSubject { cause, .. } => cause.clone(),
            FlowFailure::OutOfOrder => "internal error: the commit flow got an unexpected event".to_string(),
        }
    }
}

impl View for Outcome {
    type V = OutcomeView;

    open spec fn view(&self) -> OutcomeView {
        match self {
            Outcome::Done => OutcomeView::Done,
            Outcome::NothingToCommit => OutcomeView::NothingToCommit,
            Outcome::NoStagedFiles => OutcomeView::NoStagedFiles,
            Outcome::Cancelled => OutcomeView::Cancelled,
            Outcome::Failed(f) => OutcomeView::Failed(f@),
        }
    }
}

impl View for Action {
    type V = ActionView;

    open spec fn view(&self) -> ActionView {
        match self {
            Action::CheckGitInstalled => ActionView::CheckGitInstalled,
            Action::CheckGitDirectory => ActionView::CheckGitDirectory,
            Action::ListStagedFiles => ActionView::ListStagedFiles,
            Action::CheckUnstagedChanges => ActionView::CheckUnstagedChanges,
            Action::StageAll => ActionView::StageAll,
            Action::CollectDiff => ActionView::CollectDiff,
            Action::RequestSubject => ActionView::RequestSubject,
            Action::RequestRepair { error } => ActionView::RequestRepair { error: error@ },
            Action::ConfirmCommit { subject } => ActionView::ConfirmCommit { subject: subject@ },
            Action::Commit { subject } => ActionView::Commit { subject: subject@ },
            Action::AskPush => ActionView::AskPush,
            Action::Push => ActionView::Push,
            Action::ShowCommit { subject, command } => ActionView::ShowCommit {
                subject: subject@,
                command: command@,
            },
            Action::ShowPush { command } => ActionView::ShowPush { command: command@ },
            Action::Finish(o) => ActionView::Finish(o@),
        }
    }
}

impl View for Flow {
    type V = FlowView;

    open spec fn view(&self) -> FlowView {
        FlowView { options: self.options, phase: self.phase@ }
    }
}

// -------------------------------------------------------------------
// The transition relation
// -------------------------------------------------------------------
/// The message of a subject that is not valid.
pub open spec fn invalid_subject_text() -> Seq<char> {
    "LLM did not return a valid conventional commit subject."@
}

/// The commit step for subject `s`: `git commit -m <s>`, or in a dry run
/// showing that command line.
pub open spec fn commit_action(o: FlowOptions, s: Seq<char>) -> ActionView {
    if o.dry_run {
        ActionView::ShowCommit { subject: s, command: command_line_of(commit_args_of(s), 3) }
    } else {
        ActionView::Commit { subject: s }
    }
}

/// The push step: `git push origin HEAD`, or in a dry run showing that
/// command line.
pub open spec fn push_action(o: FlowOptions) -> ActionView {
    if o.dry_run {
        ActionView::ShowPush { command: command_line_of(push_args_of(), 3) }
    } else {
        ActionView::Push
    }
}

/// Where a valid subject leads: straight to the commit when committing
/// without confirmation, else to the question.
pub open spec fn with_subject(o: FlowOptions, s: Seq<char>) -> (FlowView, ActionView) {
    if o.auto_commit {
        (FlowView { options: o, phase: PhaseView::AwaitCommit }, commit_action(o, s))
    } else {
        (
            FlowView { options: o, phase: PhaseView::AwaitConfirmation { subject: s } },
            ActionView::ConfirmCommit { subject: s },
        )
    }
}

/// The end of the flow with outcome `out`.
pub open spec fn finish(o: FlowOptions, out: OutcomeView) -> (FlowView, ActionView) {
    (FlowView { options: o, phase: PhaseView::Finished }, ActionView::Finish(out))
}

/// Waiting for `p`, asking for `a`.
pub open spec fn wait(o: FlowOptions, p: PhaseView, a: ActionView) -> (FlowView, ActionView) {
    (FlowView { options: o, phase: p }, a)
}

/// One step of `gitbuddy ai`.
pub open spec fn step_spec(f: FlowView, e: EventView) -> (FlowView, ActionView) {
    let o = f.options;
    match (f.phase, e) {
        (PhaseView::AwaitGitInstalled, EventView::GitInstalled(ok)) => if ok {
            wait(o, PhaseView::AwaitGitDirectory, ActionView::CheckGitDirectory)
        } else {
            finish(o, OutcomeView::Failed(FailureView::GitNotInstalled))
        },
        (PhaseView::AwaitGitDirectory, EventView::GitDirectory(ok)) => if ok {
            wait(o, PhaseView::AwaitStagedFiles, ActionView::ListStagedFiles)
        } else {
            finish(o, OutcomeView::Failed(FailureView::NotGitDirectory))
        },
        (PhaseView::AwaitStagedFiles, EventView::StagedFiles(any)) => if any {
            wait(o, PhaseView::AwaitDiff, ActionView::CollectDiff)
        } else if o.auto_stage {
            wait(o, PhaseView::AwaitUnstagedChanges, ActionView::CheckUnstagedChanges)
        } else {
            finish(o, OutcomeView::NoStagedFiles)
        },
        (PhaseView::AwaitUnstagedChanges, EventView::UnstagedChanges(any)) => if any {
            wait(o, PhaseView::AwaitStaging, ActionView::StageAll)
        } else {
            finish(o, OutcomeView::NothingToCommit)
        },
        (PhaseView::AwaitStaging, EventView::Staged) => wait(
            o,
            PhaseView::AwaitDiff,
            ActionView::CollectDiff,
        ),
        (PhaseView::AwaitDiff, EventView::DiffReady) => wait(
            o,
            PhaseView::AwaitAnswer,
            ActionView::RequestSubject,
        ),
        (PhaseView::AwaitAnswer, EventView::Answer(a)) => if trim(a).len() == 0 {
            finish(o, OutcomeView::Failed(FailureView::EmptyAnswer))
        } else {
            match answer_subject(a) {
                Some(s) => with_subject(o, s),
                None => wait(
                    o,
                    PhaseView::AwaitRepair { first_error: invalid_subject_text() },
                    ActionView::RequestRepair { error: invalid_subject_text() },
                ),
            }
        },
        (PhaseView::AwaitRepair { first_error }, EventView::RepairAnswer(r)) => match r {
            Err(msg) => finish(
                o,
                OutcomeView::Failed(
                    FailureView::InvalidSubject {
                        cause: first_error + "\nRepair request failed: "@ + msg,
                        repair_response: None,
                    },
                ),
            ),
            Ok(a) => match answer_subject(a) {
                Some(s) => with_subject(o, s),
                None => finish(
                    o,
                    OutcomeView::Failed(
                        FailureView::InvalidSubject {
                            cause: first_error + "\nRepair attempt also failed: "@
                                + invalid_subject_text(),
                            repair_response: Some(a),
                        },
                    ),
                ),
            },
        },
        (PhaseView::AwaitConfirmation { subject }, EventView::Confirmed(yes)) => if yes {
            wait(o, PhaseView::AwaitCommit, commit_action(o, subject))
        } else {
            finish(o, OutcomeView::Cancelled)
        },
        (PhaseView::AwaitCommit, EventView::Committed) => if o.push {
            wait(o, PhaseView::AwaitPush, push_action(o))
        } else {
            wait(o, PhaseView::AwaitPushAnswer, ActionView::AskPush)
        },
        (PhaseView::AwaitPushAnswer, EventView::PushAnswer(yes)) => if yes {
            wait(o, PhaseView::AwaitPush, push_action(o))
        } else {
            finish(o, OutcomeView::Done)
        },
        (PhaseView::AwaitPush, EventView::Pushed) => finish(o, OutcomeView::Done),
        _ => finish(o, OutcomeView::Failed(FailureView::OutOfOrder)),
    }
}

fn commit_step(o: FlowOptions, s: String) -> (r: Action)
    ensures
        r@ == commit_action(o, s@),
{
    if o.dry_run {
        let args = commit_args(s.as_str());
        assert(args@.map_values(|a: String| a@).len() == 3);
        Action::ShowCommit { subject: s, command: command_line(&args) }
    } else {
        Action::Commit { subject: s }
    }
}

fn push_step(o: FlowOptions) -> (r: Action)
    ensures
        r@ == push_action(o),
{
    if o.dry_run {
        let args = push_args();
        assert(args@.map_values(|a: String| a@).len() == 3);
        Action::ShowPush { command: command_line(&args) }
    } else {
        Action::Push
    }
}

fn subject_step(o: FlowOptions, s: String) -> (r: (Flow, Action))
    ensures
        (r.0@, r.1@) == with_subject(o, s@),
{
    if o.auto_commit {
        (Flow { options: o, phase: Phase::AwaitCommit }, commit_step(o, s))
    } else {
        let shown = s.clone();
        (
            Flow { options: o, phase: Phase::AwaitConfirmation { subject: s } },
            Action::ConfirmCommit { subject: shown },
        )
    }
}

fn finish_step(o: FlowOptions, out: Outcome) -> (r: (Flow, Action))
    ensures
        (r.0@, r.1@) == finish(o, out@),
{
    (Flow { options: o, phase: Phase::Finished }, Action::Finish(out))
}

fn wait_step(o: FlowOptions, p: Phase, a: Action) -> (r: (Flow, Action))
    ensures
        (r.0@, r.1@) == wait(o, p@, a@),
{
    (Flow { options: o, phase: p }, a)
}

impl Flow {
    /// The flow at its start: first check that `git` is installed.
    pub fn start(options: FlowOptions) -> (r: (Flow, Action))
        ensures
            r.0@ == (FlowView { options, phase: PhaseView::AwaitGitInstalled }),
            r.1@ == ActionView::CheckGitInstalled,
    {
        (Flow { options, phase: Phase::AwaitGitInstalled }, Action::CheckGitInstalled)
    }

    /// Takes what the last piece of outside work came back with, and says
    /// what to do next.
    pub fn step(self, event: Event) -> (r: (Flow, Action))
        ensures
            (r.0@, r.1@) == step_spec(self@, event@),
    {
        let o = self.options;
        match (self.phase, event) {
            (Phase::AwaitGitInstalled, Event::GitInstalled(ok)) => if ok {
                wait_step(o, Phase::AwaitGitDirectory, Action::CheckGitDirectory)
            } else {
                finish_step(o, Outcome::Failed(FlowFailure::GitNotInstalled))
            },
            (Phase::AwaitGitDirectory, Event::GitDirectory(ok)) => if ok {
                wait_step(o, Phase::AwaitStagedFiles, Action::ListStagedFiles)
            } else {
                finish_step(o, Outcome::Failed(FlowFailure::NotGitDirectory))
            },
            (Phase::AwaitStagedFiles, Event::StagedFiles(any)) => if any {
                wait_step(o, Phase::AwaitDiff, Action::CollectDiff)
            } else if o.auto_stage {
                wait_step(o, Phase::AwaitUnstagedChanges, Action::CheckUnstagedChanges)
            } else {
                finish_step(o, Outcome::NoStagedFiles)
            },
            (Phase::AwaitUnstagedChanges, Event::UnstagedChanges(any)) => if any {
                wait_step(o, Phase::AwaitStaging, Action::StageAll)
            } else {
                finish_step(o, Outcome::NothingToCommit)
            },
            (Phase::AwaitStaging, Event::Staged) => wait_step(
                o,
                Phase::AwaitDiff,
                Action::CollectDiff,
            ),
            (Phase::AwaitDiff, Event::DiffReady) => wait_step(
                o,
                Phase::AwaitAnswer,
                Action::RequestSubject,
            ),
            (Phase::AwaitAnswer, Event::Answer(a)) => match classify_answer(a.as_str()) {
                AnswerOutcome::Blank => finish_step(o, Outcome::Failed(FlowFailure::EmptyAnswer)),
                AnswerOutcome::Subject(s) => subject_step(o, s),
                AnswerOutcome::NeedsRepair(err) => {
                    let first = err.to_string();
                    let shown = err.to_string();
                    wait_step(
                        o,
                        Phase::AwaitRepair { first_error: first },
                        Action::RequestRepair { error: shown },
                    )
                },
            },
            (Phase::AwaitRepair { first_error }, Event::RepairAnswer(r)) => match r {
                Err(msg) => {
                    let cause = repair_failure_cause(first_error.as_str(), msg.as_str(), true);
                    finish_step(
                        o,
                        Outcome::Failed(
                            FlowFailure::InvalidSubject { cause, repair_response: None },
                        ),
                    )
                },
                Ok(a) => match extract_commit_subject_from_json_or_text(a.as_str()) {
                    Ok(s) => subject_step(o, s),
                    Err(e) => {
                        let why = e.to_string();
                        let cause = repair_failure_cause(
                            first_error.as_str(),
                            why.as_str(),
                            false,
                        );
                        finish_step(
                            o,
                            Outcome::Failed(
                                FlowFailure::InvalidSubject { cause, repair_response: Some(a) },
                            ),
                        )
                    },
                },
            },
            (Phase::AwaitConfirmation { subject }, Event::Confirmed(yes)) => if yes {
                wait_step(o, Phase::AwaitCommit, commit_step(o, subject))
            } else {
                finish_step(o, Outcome::Cancelled)
            },
            (Phase::AwaitCommit, Event::Committed) => if o.push {
                wait_step(o, Phase::AwaitPush, push_step(o))
            } else {
                wait_step(o, Phase::AwaitPushAnswer, Action::AskPush)
            },
            (Phase::AwaitPushAnswer, Event::PushAnswer(yes)) => if yes {
                wait_step(o, Phase::AwaitPush, push_step(o))
            } else {
                finish_step(o, Outcome::Done)
            },
            (Phase::AwaitPush, Event::Pushed) => finish_step(o, Outcome::Done),
            _ => finish_step(o, Outcome::Failed(FlowFailure::OutOfOrder)),
        }
    }
}

// -------------------------------------------------------------------
// Laws
// -------------------------------------------------------------------
/// A subject that some answer of the model yields.
pub open spec fn is_answer_subject(s: Seq<char>) -> bool {
    exists|a: Seq<char>| answer_subject(a) == Some(s)
}

/// What every reachable state of the flow keeps: a subject awaiting
/// confirmation came out of an answer, and a repair follows the invalid
/// subject error.
pub open spec fn flow_wf(f: FlowView) -> bool {
    match f.phase {
        PhaseView::AwaitConfirmation { subject } => is_answer_subject(subject),
        PhaseView::AwaitRepair { first_error } => first_error == invalid_subject_text(),
        _ => true,
    }
}

/// The flow starts in a well-formed state, and every step keeps it so.
pub proof fn law_steps_keep_flow_wf(f: FlowView, e: EventView)
    requires
        flow_wf(f),
    ensures
        flow_wf(step_spec(f, e).0),
        flow_wf(FlowView { options: f.options, phase: PhaseView::AwaitGitInstalled }),
{
    match (f.phase, e) {
        (PhaseView::AwaitAnswer, EventView::Answer(a)) => {
            if trim(a).len() > 0 {
                if let Some(s) = answer_subject(a) {
                    assert(is_answer_subject(s));
                }
            }
        },
        (PhaseView::AwaitRepair { first_error }, EventView::RepairAnswer(Ok(a))) => {
            if let Some(s) = answer_subject(a) {
                assert(is_answer_subject(s));
            }
        },
        _ => {},
    }
}

/// A commit is made only with a subject that an answer of the model
/// yielded, never in a dry run, and, unless committing without
/// confirmation was asked for, only once the user confirmed it.
pub proof fn law_commit_needs_subject_and_consent(f: FlowView, e: EventView)
    requires
        flow_wf(f),
    ensures
        step_spec(f, e).1 matches ActionView::Commit { subject } ==> {
            &&& is_answer_subject(subject)
            &&& !f.options.dry_run
            &&& (f.options.auto_commit || (f.phase is AwaitConfirmation && e == EventView::Confirmed(
                true,
            )))
        },
{
    match (f.phase, e) {
        (PhaseView::AwaitAnswer, EventView::Answer(a)) => {
            if let Some(s) = answer_subject(a) {
                assert(is_answer_subject(s));
            }
        },
        (PhaseView::AwaitRepair { first_error }, EventView::RepairAnswer(Ok(a))) => {
            if let Some(s) = answer_subject(a) {
                assert(is_answer_subject(s));
            }
        },
        _ => {},
    }
}

/// A dry run neither commits nor pushes: where the flow would run
/// `git commit -m <subject>` or `git push origin HEAD`, it shows that
/// command line instead, and command lines are shown only in a dry run.
pub proof fn law_dry_run_only_shows_commands(f: FlowView, e: EventView)
    ensures
        f.options.dry_run ==> !(step_spec(f, e).1 is Commit) && !(step_spec(f, e).1 is Push),
        step_spec(f, e).1 matches ActionView::ShowCommit { subject, command } ==> {
            &&& f.options.dry_run
            &&& command == command_line_of(commit_args_of(subject), 3)
        },
        step_spec(f, e).1 matches ActionView::ShowPush { command } ==> {
            &&& f.options.dry_run
            &&& command == command_line_of(push_args_of(), 3)
        },
{
}

/// The flow starts by checking for `git` and for a repository: without
/// either it fails with that failure before any other work.
pub proof fn law_git_checks_come_first(o: FlowOptions, installed: bool, repo: bool)
    ensures
        !installed ==> step_spec(
            FlowView { options: o, phase: PhaseView::AwaitGitInstalled },
            EventView::GitInstalled(installed),
        ).1 == ActionView::Finish(OutcomeView::Failed(FailureView::GitNotInstalled)),
        installed ==> step_spec(
            FlowView { options: o, phase: PhaseView::AwaitGitInstalled },
            EventView::GitInstalled(installed),
        ).1 == ActionView::CheckGitDirectory,
        !repo ==> step_spec(
            FlowView { options: o, phase: PhaseView::AwaitGitDirectory },
            EventView::GitDirectory(repo),
        ).1 == ActionView::Finish(OutcomeView::Failed(FailureView::NotGitDirectory)),
{
}

/// A subject an answer yields is a valid Conventional Commit subject,
/// unless it was assembled from running text around a scope that itself
/// holds `": "`.
pub proof fn law_answer_subjects_are_valid(s: Seq<char>)
    requires
        is_answer_subject(s),
    ensures
        crate::commit_message::is_conventional_subject(s)
            || crate::commit_message::built_with_colon_scope(s),
{
    let a = choose|a: Seq<char>| answer_subject(a) == Some(s);
    let j = crate::commit_message::json_string_field(
        crate::commit_message::clean_json_response(a),
        "subject"@,
    );
    crate::commit_message::law_extracted_subject_is_valid(a);
    crate::commit_message::law_line_and_json_subjects_are_valid(a, j);
}

/// A push follows only a commit, never in a dry run: right after it when
/// pushing was asked for, else once the user agreed.
pub proof fn law_push_only_after_commit(f: FlowView, e: EventView)
    ensures
        step_spec(f, e).1 is Push ==> {
            &&& !f.options.dry_run
            &&& ((f.phase is AwaitCommit && e is Committed && f.options.push) || (
            f.phase is AwaitPushAnswer && e == EventView::PushAnswer(true)))
        },
{
}

/// A repair is asked for only after the first answer, so at most once.
pub proof fn law_repair_only_after_first_answer(f: FlowView, e: EventView)
    ensures
        step_spec(f, e).1 is RequestRepair ==> f.phase is AwaitAnswer && e is Answer,
{
}

/// Once finished, the flow stays finished and asks for no more work.
pub proof fn law_finished_is_final(f: FlowView, e: EventView)
    requires
        f.phase is Finished,
    ensures
        step_spec(f, e).0.phase is Finished,
        step_spec(f, e).1 is Finish,
{
}

/// An answer that is not blank but yields no valid subject is followed by
/// a repair request; a blank answer ends the flow with a failure.
pub proof fn law_invalid_answer_is_repaired(f: FlowView, a: Seq<char>)
    requires
        f.phase is AwaitAnswer,
    ensures
        trim(a).len() > 0 && answer_subject(a) is None ==> step_spec(
            f,
            EventView::Answer(a),
        ).1 is RequestRepair,
        trim(a).len() == 0 ==> step_spec(f, EventView::Answer(a)).1 == ActionView::Finish(
            OutcomeView::Failed(FailureView::EmptyAnswer),
        ),
{
}

/// The action that pushes: `git push origin HEAD`, or in a dry run showing
/// that command line.
pub open spec fn pushing(dry_run: bool) -> ActionView {
    if dry_run {
        ActionView::ShowPush { command: "git push origin HEAD"@ }
    } else {
        ActionView::Push
    }
}

/// The action that commits with `subject`: `git commit -m <subject>`, or in
/// a dry run showing that command line.
pub open spec fn committing(dry_run: bool, subject: Seq<char>) -> ActionView {
    if dry_run {
        ActionView::ShowCommit {
            subject,
            command: "git commit -m "@ + crate::git::shell_word_of(subject),
        }
    } else {
        ActionView::Commit { subject }
    }
}

/// Answering yes to "Push to remote?" pushes, and answering no ends the
/// flow done without a push.
pub proof fn law_yes_to_push_pushes(f: FlowView)
    requires
        f.phase is AwaitPushAnswer,
    ensures
        step_spec(f, EventView::PushAnswer(true)) == (FlowView {
            options: f.options,
            phase: PhaseView::AwaitPush,
        }, pushing(f.options.dry_run)),
        step_spec(f, EventView::PushAnswer(false)).1 == ActionView::Finish(OutcomeView::Done),
{
    crate::git::law_shown_git_commands(Seq::empty());
}

/// Once committed, the flow pushes at once when pushing was asked for, and
/// else asks whether to push.
pub proof fn law_commit_leads_to_push_or_question(f: FlowView)
    requires
        f.phase is AwaitCommit,
    ensures
        step_spec(f, EventView::Committed) == (if f.options.push {
            (FlowView { options: f.options, phase: PhaseView::AwaitPush }, pushing(f.options.dry_run))
        } else {
            (FlowView { options: f.options, phase: PhaseView::AwaitPushAnswer }, ActionView::AskPush)
        }),
        step_spec(f, EventView::Pushed).1 == ActionView::Finish(OutcomeView::Failed(FailureView::OutOfOrder)),
{
    crate::git::law_shown_git_commands(Seq::empty());
}

/// A confirmed subject is committed, and a declined one cancels the flow.
pub proof fn law_confirmed_subject_is_committed(f: FlowView, subject: Seq<char>)
    requires
        f.phase == (PhaseView::AwaitConfirmation { subject }),
    ensures
        step_spec(f, EventView::Confirmed(true)) == (FlowView {
            options: f.options,
            phase: PhaseView::AwaitCommit,
        }, committing(f.options.dry_run, subject)),
        step_spec(f, EventView::Confirmed(false)).1 == ActionView::Finish(OutcomeView::Cancelled),
{
    crate::git::law_shown_git_commands(subject);
}

/// The subject found in a non-blank answer (or in the answer to the
/// repair request) goes to the user for confirmation, or straight to the commit
/// when committing without confirmation was asked for.
pub proof fn law_found_subject_goes_to_commit(f: FlowView, a: Seq<char>, s: Seq<char>)
    requires
        f.phase is AwaitAnswer || f.phase is AwaitRepair,
        f.phase is AwaitAnswer ==> trim(a).len() > 0,
        answer_subject(a) == Some(s),
    ensures
        ({
            let e = if f.phase is AwaitAnswer {
                EventView::Answer(a)
            } else {
                EventView::RepairAnswer(Ok(a))
            };
            step_spec(f, e).1 == (if f.options.auto_commit {
                committing(f.options.dry_run, s)
            } else {
                ActionView::ConfirmCommit { subject: s }
            })
        }),
{
    crate::git::law_shown_git_commands(s);
}

} // verus!
