use admiral::runner::{step, Action, Event, Phase, Policy, RESTART_PAUSE_MILLIS};

#[test]
fn static_item_runs_once() {
    let started = step(Policy::Static, 4, Phase::Idle, Event::Started);
    assert_eq!(started.phase, Phase::Working);
    assert_eq!(started.action, Action::Run);
    assert!(started.update.is_none());
    let done = step(Policy::Static, 4, started.phase, Event::Output("12:00\n".to_string()));
    assert_eq!(done.phase, Phase::Done);
    assert_eq!(done.action, Action::Stop);
    let update = done.update.unwrap();
    assert_eq!(update.position, 4);
    assert_eq!(update.message, "12:00");
}

#[test]
fn static_item_gives_nothing_after_its_update() {
    let events = vec![
        Event::Started,
        Event::Output("again".to_string()),
        Event::Line("again".to_string()),
        Event::Woke,
        Event::StreamEnded,
        Event::LaunchFailed,
    ];
    for event in events {
        let out = step(Policy::Static, 0, Phase::Done, event);
        assert_eq!(out.phase, Phase::Done);
        assert_eq!(out.action, Action::Stop);
        assert!(out.update.is_none());
    }
}

#[test]
fn static_item_emits_exactly_one_update_over_a_run() {
    let events = vec![
        Event::Started,
        Event::Output("one\n".to_string()),
        Event::Output("two\n".to_string()),
        Event::Woke,
        Event::Started,
        Event::Output("three\n".to_string()),
    ];
    let mut phase = Phase::Idle;
    let mut messages: Vec<String> = Vec::new();
    for event in events {
        let out = step(Policy::Static, 1, phase, event);
        phase = out.phase;
        if let Some(update) = out.update {
            messages.push(update.message);
        }
    }
    assert_eq!(messages, vec!["one"]);
}

#[test]
fn periodic_item_sleeps_between_runs() {
    let policy = Policy::Periodic { millis: 2500 };
    let started = step(policy, 1, Phase::Idle, Event::Started);
    assert_eq!(started.action, Action::Run);
    let ran = step(policy, 1, started.phase, Event::Output("0.42\r\n".to_string()));
    assert_eq!(ran.phase, Phase::Sleeping);
    assert_eq!(ran.action, Action::Sleep(2500));
    let update = ran.update.unwrap();
    assert_eq!(update.position, 1);
    assert_eq!(update.message, "0.42");
    let early = step(policy, 1, ran.phase, Event::Started);
    assert_eq!(early.phase, Phase::Sleeping);
    assert_eq!(early.action, Action::Await);
    assert!(early.update.is_none());
    let woke = step(policy, 1, ran.phase, Event::Woke);
    assert_eq!(woke.phase, Phase::Working);
    assert_eq!(woke.action, Action::Run);
    assert!(woke.update.is_none());
}

#[test]
fn periodic_item_gives_one_update_per_run() {
    let policy = Policy::Periodic { millis: 0 };
    let mut phase = Phase::Idle;
    let mut runs = 0;
    let mut sleeps = 0;
    let mut updates = 0;
    let mut event = Event::Started;
    for round in 0..9 {
        let out = step(policy, 0, phase, event);
        phase = out.phase;
        if out.update.is_some() {
            updates += 1;
        }
        event = match out.action {
            Action::Run => {
                runs += 1;
                Event::Output(format!("{}\n", round))
            }
            Action::Sleep(millis) => {
                assert_eq!(millis, 0);
                sleeps += 1;
                Event::Woke
            }
            other => panic!("unexpected action {:?}", other),
        };
    }
    assert_eq!(runs, 5);
    assert_eq!(sleeps, 4);
    assert_eq!(updates, 4);
}

#[test]
fn streaming_item_gives_one_update_per_line() {
    let started = step(Policy::Streaming, 2, Phase::Idle, Event::Started);
    assert_eq!(started.phase, Phase::Working);
    assert_eq!(started.action, Action::Spawn);
    let mut phase = started.phase;
    let mut messages: Vec<String> = Vec::new();
    for line in ["first\r", "", "third\n"] {
        let out = step(Policy::Streaming, 2, phase, Event::Line(line.to_string()));
        assert_eq!(out.phase, Phase::Working);
        assert_eq!(out.action, Action::Await);
        let update = out.update.unwrap();
        assert_eq!(update.position, 2);
        messages.push(update.message);
        phase = out.phase;
    }
    assert_eq!(messages, vec!["first", "", "third"]);
}

#[test]
fn streaming_item_restarts_after_pause() {
    let ended = step(Policy::Streaming, 0, Phase::Working, Event::StreamEnded);
    assert_eq!(ended.phase, Phase::Sleeping);
    assert_eq!(ended.action, Action::Sleep(RESTART_PAUSE_MILLIS));
    assert_eq!(RESTART_PAUSE_MILLIS, 10);
    assert!(ended.update.is_none());
    let woke = step(Policy::Streaming, 0, ended.phase, Event::Woke);
    assert_eq!(woke.phase, Phase::Working);
    assert_eq!(woke.action, Action::Spawn);
    assert!(woke.update.is_none());
}

#[test]
fn launch_failure_aborts() {
    for policy in [Policy::Static, Policy::Periodic { millis: 1000 }, Policy::Streaming] {
        let out = step(policy, 0, Phase::Working, Event::LaunchFailed);
        assert_eq!(out.phase, Phase::Done);
        assert_eq!(out.action, Action::Abort);
        assert!(out.update.is_none());
    }
}

#[test]
fn events_of_another_policy_are_ignored() {
    let line = step(Policy::Periodic { millis: 5 }, 0, Phase::Working, Event::Line("x".to_string()));
    assert_eq!(line.phase, Phase::Working);
    assert_eq!(line.action, Action::Await);
    assert!(line.update.is_none());
    let output = step(Policy::Streaming, 0, Phase::Working, Event::Output("x".to_string()));
    assert_eq!(output.phase, Phase::Working);
    assert_eq!(output.action, Action::Await);
    assert!(output.update.is_none());
    let ended = step(Policy::Static, 0, Phase::Working, Event::StreamEnded);
    assert_eq!(ended.phase, Phase::Working);
    assert_eq!(ended.action, Action::Await);
    let idle = step(Policy::Static, 0, Phase::Idle, Event::Output("x".to_string()));
    assert_eq!(idle.phase, Phase::Idle);
    assert!(idle.update.is_none());
}

#[test]
fn empty_output_is_an_update_too() {
    let out = step(Policy::Static, 0, Phase::Working, Event::Output(String::new()));
    assert_eq!(out.update.unwrap().message, "");
}

#[test]
fn leading_line_ending_of_output_is_kept() {
    let out = step(Policy::Static, 0, Phase::Working, Event::Output("\nA\n".to_string()));
    assert_eq!(out.update.unwrap().message, "\nA");
    let line = step(Policy::Streaming, 0, Phase::Working, Event::Line("\rB\r".to_string()));
    assert_eq!(line.update.unwrap().message, "\rB");
}
