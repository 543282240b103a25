use chet::permissions::engine::PermissionEngine;
use chet::permissions::hooks::{classify_outcome, select_hooks, HookOutcome, HookResult, HookRun};
use chet::permissions::types::{HookConfig, HookEvent};

fn hook(event: HookEvent, command: &str) -> HookConfig {
    HookConfig {
        event,
        command: command.to_string(),
        timeout_ms: 5000,
    }
}

#[test]
fn exit_codes_follow_the_protocol() {
    let h = hook(HookEvent::BeforeTool, "guard.sh");
    assert_eq!(classify_outcome(&h, &HookOutcome::Exited(0)), HookResult::Approve);
    assert_eq!(
        classify_outcome(&h, &HookOutcome::Exited(2)),
        HookResult::Deny("Hook 'guard.sh' denied the operation".to_string())
    );
    assert_eq!(
        classify_outcome(&h, &HookOutcome::Exited(1)),
        HookResult::Error("Hook exited with code 1".to_string())
    );
    assert_eq!(
        classify_outcome(&h, &HookOutcome::Exited(-7)),
        HookResult::Error("Hook exited with code -7".to_string())
    );
    assert_eq!(
        classify_outcome(&h, &HookOutcome::Exited(i32::MIN)),
        HookResult::Error("Hook exited with code -2147483648".to_string())
    );
    assert_eq!(
        classify_outcome(&h, &HookOutcome::Signaled),
        HookResult::Error("Hook terminated by signal".to_string())
    );
    assert_eq!(
        classify_outcome(&h, &HookOutcome::TimedOut),
        HookResult::Error("Hook 'guard.sh' timed out after 5000ms".to_string())
    );
    assert_eq!(
        classify_outcome(&h, &HookOutcome::WaitFailed("gone".to_string())),
        HookResult::Error("Failed to wait for hook: gone".to_string())
    );
    assert_eq!(
        classify_outcome(&h, &HookOutcome::SpawnFailed("no sh".to_string())),
        HookResult::Error("Failed to spawn hook: no sh".to_string())
    );
    assert_eq!(
        classify_outcome(&h, &HookOutcome::EncodeFailed("bad".to_string())),
        HookResult::Error("Failed to serialize hook input: bad".to_string())
    );
}

#[test]
fn only_hooks_of_the_event_run_in_order() {
    let hooks = vec![
        hook(HookEvent::BeforeTool, "a"),
        hook(HookEvent::AfterTool, "b"),
        hook(HookEvent::BeforeTool, "c"),
        hook(HookEvent::OnExit, "d"),
    ];
    let selected = select_hooks(&hooks, HookEvent::BeforeTool);
    let commands: Vec<&str> = selected.iter().map(|h| h.command.as_str()).collect();
    assert_eq!(commands, vec!["a", "c"]);
    assert!(select_hooks(&hooks, HookEvent::WorktreeCreate).is_empty());
}

#[test]
fn first_denial_wins_and_stops_the_run() {
    let hooks = vec![
        hook(HookEvent::BeforeTool, "first"),
        hook(HookEvent::BeforeTool, "second"),
        hook(HookEvent::BeforeTool, "third"),
    ];
    let mut run = HookRun::start(&hooks, HookEvent::BeforeTool);
    assert_eq!(run.next_hook().map(|h| h.command.as_str()), Some("first"));
    assert_eq!(run.record(&HookOutcome::Exited(0)), HookResult::Approve);
    assert_eq!(run.next_hook().map(|h| h.command.as_str()), Some("second"));
    assert!(matches!(run.record(&HookOutcome::Exited(2)), HookResult::Deny(_)));
    assert!(run.next_hook().is_none());
    assert_eq!(
        run.verdict(),
        Err("Hook 'second' denied the operation".to_string())
    );
}

#[test]
fn errors_and_timeouts_let_the_run_go_on() {
    let hooks = vec![
        hook(HookEvent::AfterTool, "one"),
        hook(HookEvent::AfterTool, "two"),
    ];
    let mut run = HookRun::start(&hooks, HookEvent::AfterTool);
    assert!(matches!(run.record(&HookOutcome::Exited(1)), HookResult::Error(_)));
    assert_eq!(run.next_hook().map(|h| h.command.as_str()), Some("two"));
    assert!(matches!(run.record(&HookOutcome::TimedOut), HookResult::Error(_)));
    assert!(run.next_hook().is_none());
    assert_eq!(run.verdict(), Ok(()));
}

#[test]
fn no_matching_hook_approves() {
    let hooks = vec![hook(HookEvent::BeforeTool, "exit 2")];
    let run = HookRun::start(&hooks, HookEvent::AfterTool);
    assert!(run.next_hook().is_none());
    assert_eq!(run.verdict(), Ok(()));
}

#[test]
fn ludicrous_mode_runs_no_hook() {
    let plain = PermissionEngine::new(
        Vec::new(),
        vec![hook(HookEvent::BeforeTool, "exit 2")],
        false,
    );
    assert!(plain.start_hooks(HookEvent::BeforeTool).next_hook().is_some());
    let ludicrous = PermissionEngine::ludicrous();
    assert!(ludicrous.start_hooks(HookEvent::BeforeTool).next_hook().is_none());
}
