use staple::config::HookLine;
use staple::develop::{watch_event_triggers, FileEvent, Notifier, RebuildFlag};
use staple::error::StapleError;
use staple::orchestrator::{BuildAction, BuildLock, BuildMachine};
use staple::publish::PublishArea;

#[test]
fn publish_swap_is_all_or_nothing() {
    let mut area = PublishArea::new();
    assert!(area.published.is_none());

    // first build: two pages, committed
    area.begin();
    area.stage_file("a/index.html".to_string(), "old a".to_string());
    area.stage_file("b/index.html".to_string(), "old b".to_string());
    area.commit();
    let first = area.published.clone().unwrap();
    assert_eq!(2, first.len());

    // second build fails after writing page one of two: the published
    // tree is byte-identical to its pre-build state
    area.begin();
    area.stage_file("a/index.html".to_string(), "new a".to_string());
    assert_eq!(Some(first.clone()), area.published);

    // a third build may discard the stale staging tree and succeed
    area.begin();
    area.stage_file("c/index.html".to_string(), "new c".to_string());
    area.commit();
    let third = area.published.clone().unwrap();
    assert_eq!(
        vec![("c/index.html".to_string(), "new c".to_string())],
        third
    );
}

#[test]
fn staging_many_files_never_touches_published() {
    let mut area = PublishArea::new();
    area.begin();
    area.stage_file("index.html".to_string(), "v1".to_string());
    area.commit();
    area.begin();
    area.stage_all(vec![
        ("x".to_string(), "1".to_string()),
        ("y".to_string(), "2".to_string()),
        ("z".to_string(), "3".to_string()),
    ]);
    assert_eq!(
        Some(vec![("index.html".to_string(), "v1".to_string())]),
        area.published
    );
}

#[test]
fn second_lock_acquisition_fails_immediately() {
    let mut lock = BuildLock::new();
    assert!(lock.try_acquire());
    assert!(!lock.try_acquire());
    assert!(!lock.try_acquire());
    lock.release();
    assert!(lock.try_acquire());
}

fn hooks(cmds: &[&str]) -> Vec<HookLine> {
    cmds.iter().map(|c| HookLine::Command(c.to_string())).collect()
}

#[test]
fn build_machine_runs_hooks_around_the_render_in_order() {
    let mut m = BuildMachine::new(hooks(&["pre1", "pre2"]), hooks(&["post1"]));
    let mut trace: Vec<String> = Vec::new();
    loop {
        match m.next_action() {
            BuildAction::CheckConfig => trace.push("check".to_string()),
            BuildAction::AcquireLock => trace.push("lock".to_string()),
            BuildAction::RunHook { dir, command } => trace.push(format!("hook {dir} {command}")),
            BuildAction::Render => trace.push("render".to_string()),
            BuildAction::ReleaseLock => trace.push("unlock".to_string()),
            BuildAction::Finished => break,
        }
        m.report(Ok(()));
    }
    let expected = vec![
        "check".to_string(),
        "lock".to_string(),
        "hook ./ pre1".to_string(),
        "hook ./ pre2".to_string(),
        "render".to_string(),
        "hook ./ post1".to_string(),
        "unlock".to_string(),
    ];
    assert_eq!(expected, trace);
    assert!(m.result().is_ok());
}

#[test]
fn failing_pre_hook_skips_render_and_releases_the_lock() {
    let mut m = BuildMachine::new(hooks(&["pre1", "pre2"]), hooks(&["post1"]));
    let mut trace: Vec<String> = Vec::new();
    loop {
        let action = m.next_action();
        match &action {
            BuildAction::Finished => break,
            BuildAction::RunHook { command, .. } if command.as_str() == "pre1" => {
                trace.push("hook pre1".to_string());
                m.report(Err(StapleError::Hook {
                    command: command.clone(),
                    code: Some(1),
                }));
                continue;
            }
            BuildAction::CheckConfig => trace.push("check".to_string()),
            BuildAction::AcquireLock => trace.push("lock".to_string()),
            BuildAction::RunHook { command, .. } => trace.push(format!("hook {command}")),
            BuildAction::Render => trace.push("render".to_string()),
            BuildAction::ReleaseLock => trace.push("unlock".to_string()),
        }
        m.report(Ok(()));
    }
    let expected = vec![
        "check".to_string(),
        "lock".to_string(),
        "hook pre1".to_string(),
        "unlock".to_string(),
    ];
    assert_eq!(expected, trace);
    match m.result() {
        Err(StapleError::Hook { command, code }) => {
            assert_eq!("pre1", command);
            assert_eq!(Some(1), code);
        }
        other => panic!("expected the hook failure, got {other:?}"),
    }
}

#[test]
fn failed_lock_ends_the_build_without_a_release() {
    let mut m = BuildMachine::new(Vec::new(), Vec::new());
    m.report(Ok(())); // config exists
    assert!(matches!(m.next_action(), BuildAction::AcquireLock));
    m.report(Err(StapleError::LockTaken));
    assert!(m.is_done());
    assert!(matches!(m.result(), Err(StapleError::LockTaken)));
}

#[test]
fn excluded_path_sets_no_flag_and_content_path_sets_it() {
    let roots = vec!["data/drafts".to_string()];
    let mut flag = RebuildFlag::new();

    let t = watch_event_triggers(FileEvent::Write, "data/drafts/wip.md", &roots);
    flag.notice(t);
    assert!(!flag.set);

    let t = watch_event_triggers(FileEvent::Write, "data/post.md", &roots);
    flag.notice(t);
    assert!(flag.set);

    // a later poll clears it and triggers exactly one build
    let mut builds = 0;
    if flag.take() {
        builds += 1;
    }
    if flag.take() {
        builds += 1;
    }
    assert_eq!(1, builds);
}

#[test]
fn exclusion_is_by_whole_path_component() {
    let roots = vec!["data/drafts".to_string()];
    assert!(!watch_event_triggers(
        FileEvent::Create,
        "data/drafts/a.md",
        &roots
    ));
    assert!(!watch_event_triggers(FileEvent::Create, "data/drafts", &roots));
    assert!(watch_event_triggers(
        FileEvent::Create,
        "data/drafts-not/a.md",
        &roots
    ));
}

#[test]
fn only_change_events_trigger() {
    let roots: Vec<String> = Vec::new();
    assert!(watch_event_triggers(FileEvent::Chmod, "a", &roots));
    assert!(watch_event_triggers(FileEvent::Create, "a", &roots));
    assert!(watch_event_triggers(FileEvent::Write, "a", &roots));
    assert!(watch_event_triggers(FileEvent::Rename, "a", &roots));
    assert!(!watch_event_triggers(FileEvent::Other, "a", &roots));
}

#[test]
fn notifier_tracks_heartbeats_and_prunes_stale_clients() {
    let mut n = Notifier::new();
    n.join(1, 100);
    n.join(2, 100);
    n.heartbeat(1, 108);
    n.prune(110, 5);
    assert_eq!(vec![1], n.broadcast_targets());
    n.join(3, 111);
    assert_eq!(vec![1, 3], n.broadcast_targets());
    n.leave(1);
    assert_eq!(vec![3], n.broadcast_targets());
}
