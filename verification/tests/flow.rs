use gitbuddy::flow::{Action, Event, Flow, FlowFailure, FlowOptions, Outcome, Phase};

fn opts(push: bool, dry_run: bool, auto_stage: bool, auto_commit: bool) -> FlowOptions {
    FlowOptions { push, dry_run, auto_stage, auto_commit }
}

fn run(options: FlowOptions, events: Vec<Event>) -> (Flow, Vec<Action>) {
    let (mut flow, first) = Flow::start(options);
    let mut actions = vec![first];
    for e in events {
        let (f, a) = flow.step(e);
        flow = f;
        actions.push(a);
    }
    (flow, actions)
}

fn to_diff() -> Vec<Event> {
    vec![Event::GitInstalled(true), Event::GitDirectory(true), Event::StagedFiles(true), Event::DiffReady]
}

#[test]
fn confirmed_commit_then_declined_push() {
    let mut events = to_diff();
    events.push(Event::Answer("{\"subject\":\"fix(ai): a\"}".to_string()));
    events.push(Event::Confirmed(true));
    events.push(Event::Committed);
    events.push(Event::PushAnswer(false));
    let (flow, actions) = run(opts(false, true, false, false), events);
    assert!(matches!(actions[0], Action::CheckGitInstalled));
    assert!(matches!(actions[1], Action::CheckGitDirectory));
    assert!(matches!(actions[2], Action::ListStagedFiles));
    assert!(matches!(actions[3], Action::CollectDiff));
    assert!(matches!(actions[4], Action::RequestSubject));
    assert!(matches!(&actions[5], Action::ConfirmCommit { subject } if subject == "fix(ai): a"));
    assert!(matches!(&actions[6], Action::ShowCommit { subject, command }
        if subject == "fix(ai): a" && command == "git commit -m 'fix(ai): a'"));
    assert!(matches!(actions[7], Action::AskPush));
    assert!(matches!(actions[8], Action::Finish(Outcome::Done)));
    assert!(matches!(flow.phase, Phase::Finished));
}

#[test]
fn auto_commit_and_push_skip_the_questions() {
    let mut events = to_diff();
    events.push(Event::Answer("feat: b".to_string()));
    events.push(Event::Committed);
    events.push(Event::Pushed);
    let (_, actions) = run(opts(true, false, false, true), events);
    assert!(matches!(&actions[5], Action::Commit { subject } if subject == "feat: b"));
    assert!(matches!(actions[6], Action::Push));
    assert!(matches!(actions[7], Action::Finish(Outcome::Done)));
}

#[test]
fn declined_commit_is_cancelled() {
    let mut events = to_diff();
    events.push(Event::Answer("feat: b".to_string()));
    events.push(Event::Confirmed(false));
    let (_, actions) = run(opts(false, false, false, false), events);
    assert!(matches!(actions[6], Action::Finish(Outcome::Cancelled)));
}

#[test]
fn staging_decisions() {
    let base = vec![Event::GitInstalled(true), Event::GitDirectory(true), Event::StagedFiles(false)];
    let (_, actions) = run(opts(false, false, false, false), base);
    assert!(matches!(actions[3], Action::Finish(Outcome::NoStagedFiles)));

    let mut events = vec![Event::GitInstalled(true), Event::GitDirectory(true), Event::StagedFiles(false)];
    events.push(Event::UnstagedChanges(false));
    let (_, actions) = run(opts(false, false, true, true), events);
    assert!(matches!(actions[3], Action::CheckUnstagedChanges));
    assert!(matches!(actions[4], Action::Finish(Outcome::NothingToCommit)));

    let events = vec![
        Event::GitInstalled(true),
        Event::GitDirectory(true),
        Event::StagedFiles(false),
        Event::UnstagedChanges(true),
        Event::Staged,
    ];
    let (_, actions) = run(opts(false, false, true, true), events);
    assert!(matches!(actions[4], Action::StageAll));
    assert!(matches!(actions[5], Action::CollectDiff));
}

#[test]
fn git_checks_fail_early() {
    let (_, actions) = run(opts(false, false, false, false), vec![Event::GitInstalled(false)]);
    assert!(matches!(actions[1], Action::Finish(Outcome::Failed(FlowFailure::GitNotInstalled))));
    assert_eq!(FlowFailure::GitNotInstalled.to_string(), "Git is not installed. Please install git first.");
    assert_eq!(FlowFailure::NotGitDirectory.to_string(), "Not a git directory");
    assert!(FlowFailure::EmptyAnswer.to_string().starts_with("Empty commit message. This usually happens"));
    assert_eq!(
        FlowFailure::InvalidSubject { cause: "c".to_string(), repair_response: None }.to_string(),
        "c"
    );
    let (_, actions) = run(opts(false, false, false, false), vec![Event::GitInstalled(true), Event::GitDirectory(false)]);
    assert!(matches!(actions[2], Action::Finish(Outcome::Failed(FlowFailure::NotGitDirectory))));
}

#[test]
fn blank_answer_fails() {
    let mut events = to_diff();
    events.push(Event::Answer("  \n".to_string()));
    let (_, actions) = run(opts(false, false, false, false), events);
    assert!(matches!(actions[5], Action::Finish(Outcome::Failed(FlowFailure::EmptyAnswer))));
}

#[test]
fn repair_succeeds_or_reports_the_cause() {
    let mut events = to_diff();
    events.push(Event::Answer("Here is my analysis instead.".to_string()));
    events.push(Event::RepairAnswer(Ok("{\"subject\":\"docs: fix typo\"}".to_string())));
    let (_, actions) = run(opts(false, false, false, false), events);
    assert!(matches!(&actions[5], Action::RequestRepair { error }
        if error == "LLM did not return a valid conventional commit subject."));
    assert!(matches!(&actions[6], Action::ConfirmCommit { subject } if subject == "docs: fix typo"));

    let mut events = to_diff();
    events.push(Event::Answer("nothing".to_string()));
    events.push(Event::RepairAnswer(Ok("still nothing".to_string())));
    let (_, actions) = run(opts(false, false, false, false), events);
    match &actions[6] {
        Action::Finish(Outcome::Failed(FlowFailure::InvalidSubject { cause, repair_response })) => {
            assert_eq!(
                cause,
                "LLM did not return a valid conventional commit subject.\nRepair attempt also failed: LLM did not return a valid conventional commit subject."
            );
            assert_eq!(repair_response.as_deref(), Some("still nothing"));
        }
        other => panic!("unexpected {:?}", other),
    }

    let mut events = to_diff();
    events.push(Event::Answer("nothing".to_string()));
    events.push(Event::RepairAnswer(Err("timeout".to_string())));
    let (_, actions) = run(opts(false, false, false, false), events);
    match &actions[6] {
        Action::Finish(Outcome::Failed(FlowFailure::InvalidSubject { cause, repair_response })) => {
            assert_eq!(cause, "LLM did not return a valid conventional commit subject.\nRepair request failed: timeout");
            assert!(repair_response.is_none());
        }
        other => panic!("unexpected {:?}", other),
    }
}

#[test]
fn unexpected_events_end_the_flow_for_good() {
    let (flow, actions) = run(opts(false, false, false, false), vec![Event::Pushed, Event::GitInstalled(true)]);
    assert!(matches!(actions[1], Action::Finish(Outcome::Failed(FlowFailure::OutOfOrder))));
    assert!(matches!(actions[2], Action::Finish(_)));
    assert!(matches!(flow.phase, Phase::Finished));
}

#[test]
fn dry_run_shows_the_git_commands() {
    let mut events = to_diff();
    events.push(Event::Answer("{\"subject\":\"fix: it's done\"}".to_string()));
    events.push(Event::Committed);
    events.push(Event::Pushed);
    let (_, actions) = run(opts(true, true, false, true), events);
    assert!(matches!(&actions[5], Action::ShowCommit { subject, command }
        if subject == "fix: it's done" && command == "git commit -m 'fix: it'\\''s done'"));
    assert!(matches!(&actions[6], Action::ShowPush { command } if command == "git push origin HEAD"));
    assert!(matches!(actions[7], Action::Finish(Outcome::Done)));
}
