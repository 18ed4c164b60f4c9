use codex_hooks::engine::{
    select_handlers, serialization_failure_hook_events, CommandRunResult, ConfiguredHandler,
};
use codex_hooks::output_parser::{
    interpret_fields, parse_stop, parse_subagent_stop, JsonField, StopHookOutput, StopOutputFields,
    UniversalOutput,
};
use codex_hooks::protocol::{
    HookEventName, HookOutputEntry, HookOutputEntryKind, HookPromptFragment, HookRunStatus,
};
use codex_hooks::stop::{
    aggregate_results, complete_run, parse_completed, preview, serialization_failure_outcome,
    StopHandlerData, StopHookTarget, StopOutcome, StopRequest,
};
use codex_hooks::stop_run::{
    combine_runs, start_run, HookInput, RunAction, RunEvent, RunPhase, StopCommandInput,
    SubagentStopCommandInput,
};

fn handler() -> ConfiguredHandler {
    ConfiguredHandler {
        event_name: HookEventName::Stop,
        matcher: None,
        command: "echo hook".to_string(),
        timeout_sec: 600,
        status_message: None,
        source_path: "/tmp/hooks.json".to_string(),
        display_order: 0,
    }
}

fn subagent_handler() -> ConfiguredHandler {
    ConfiguredHandler {
        event_name: HookEventName::SubagentStop,
        matcher: Some("planner".to_string()),
        status_message: Some("checking".to_string()),
        display_order: 12,
        ..handler()
    }
}

fn run_result(exit_code: Option<i32>, stdout: &str, stderr: &str) -> CommandRunResult {
    CommandRunResult {
        started_at: 1,
        completed_at: 2,
        duration_ms: 1,
        exit_code,
        stdout: stdout.to_string(),
        stderr: stderr.to_string(),
        error: None,
    }
}

fn fragment(text: &str, run_id: &str) -> HookPromptFragment {
    HookPromptFragment::from_single_hook(text.to_string(), run_id.to_string())
}

fn entry(kind: HookOutputEntryKind, text: &str) -> HookOutputEntry {
    HookOutputEntry { kind, text: text.to_string() }
}

fn request(target: StopHookTarget) -> StopRequest {
    StopRequest {
        session_id: "session-1".to_string(),
        turn_id: "turn-1".to_string(),
        cwd: "/work".to_string(),
        transcript_path: Some("/tmp/transcript".to_string()),
        model: "model-1".to_string(),
        permission_mode: "default".to_string(),
        stop_hook_active: true,
        last_assistant_message: None,
        target,
    }
}

fn subagent() -> StopHookTarget {
    StopHookTarget::SubagentStop {
        agent_id: "agent-1".to_string(),
        agent_type: "planner".to_string(),
        agent_transcript_path: None,
    }
}

fn blocking(text: &str, run_id: &str) -> StopHandlerData {
    StopHandlerData {
        should_stop: false,
        stop_reason: None,
        should_block: true,
        block_reason: Some(text.to_string()),
        continuation_fragments: vec![fragment(text, run_id)],
    }
}

fn stopping(reason: Option<&str>) -> StopHandlerData {
    StopHandlerData {
        should_stop: true,
        stop_reason: reason.map(str::to_string),
        should_block: false,
        block_reason: None,
        continuation_fragments: Vec::new(),
    }
}

#[test]
fn block_decision_with_reason_sets_continuation_prompt() {
    let parsed = parse_completed(
        &handler(),
        run_result(
            Some(0),
            r#"{"decision":"block","reason":"retry with tests"}"#,
            "",
        ),
        Some("turn-1".to_string()),
    );

    assert_eq!(
        parsed.data,
        StopHandlerData {
            should_stop: false,
            stop_reason: None,
            should_block: true,
            block_reason: Some("retry with tests".to_string()),
            continuation_fragments: vec![HookPromptFragment {
                text: "retry with tests".to_string(),
                hook_run_id: parsed.completed.run.id.clone(),
            }],
        }
    );
    assert_eq!(parsed.completed.run.status, HookRunStatus::Blocked);
}

#[test]
fn block_decision_without_reason_is_invalid() {
    let parsed = parse_completed(
        &handler(),
        run_result(Some(0), r#"{"decision":"block"}"#, ""),
        Some("turn-1".to_string()),
    );

    assert_eq!(parsed.data, StopHandlerData::default());
    assert_eq!(parsed.completed.run.status, HookRunStatus::Failed);
    assert_eq!(
        parsed.completed.run.entries,
        vec![HookOutputEntry {
            kind: HookOutputEntryKind::Error,
            text: "Stop hook returned decision:block without a non-empty reason".to_string(),
        }]
    );
}

#[test]
fn continue_false_overrides_block_decision() {
    let parsed = parse_completed(
        &handler(),
        run_result(
            Some(0),
            r#"{"continue":false,"stopReason":"done","decision":"block","reason":"keep going"}"#,
            "",
        ),
        Some("turn-1".to_string()),
    );

    assert_eq!(
        parsed.data,
        StopHandlerData {
            should_stop: true,
            stop_reason: Some("done".to_string()),
            should_block: false,
            block_reason: None,
            continuation_fragments: Vec::new(),
        }
    );
    assert_eq!(parsed.completed.run.status, HookRunStatus::Stopped);
}

#[test]
fn exit_code_two_uses_stderr_feedback_only() {
    let parsed = parse_completed(
        &handler(),
        run_result(Some(2), "ignored stdout", "retry with tests"),
        Some("turn-1".to_string()),
    );

    assert_eq!(
        parsed.data,
        StopHandlerData {
            should_stop: false,
            stop_reason: None,
            should_block: true,
            block_reason: Some("retry with tests".to_string()),
            continuation_fragments: vec![HookPromptFragment {
                text: "retry with tests".to_string(),
                hook_run_id: parsed.completed.run.id.clone(),
            }],
        }
    );
    assert_eq!(parsed.completed.run.status, HookRunStatus::Blocked);
}

#[test]
fn exit_code_two_without_stderr_does_not_block() {
    let parsed = parse_completed(&handler(), run_result(Some(2), "", "   "), None);

    assert_eq!(parsed.data, StopHandlerData::default());
    assert_eq!(parsed.completed.run.status, HookRunStatus::Failed);
    assert_eq!(
        parsed.completed.run.entries,
        vec![HookOutputEntry {
            kind: HookOutputEntryKind::Error,
            text: "Stop hook exited with code 2 but did not write a continuation prompt to stderr"
                .to_string(),
        }]
    );
}

#[test]
fn block_decision_with_blank_reason_fails_instead_of_blocking() {
    let parsed = parse_completed(
        &handler(),
        run_result(Some(0), "{\"decision\":\"block\",\"reason\":\"   \"}", ""),
        Some("turn-1".to_string()),
    );

    assert_eq!(parsed.data, StopHandlerData::default());
    assert_eq!(parsed.completed.run.status, HookRunStatus::Failed);
    assert_eq!(
        parsed.completed.run.entries,
        vec![HookOutputEntry {
            kind: HookOutputEntryKind::Error,
            text: "Stop hook returned decision:block without a non-empty reason".to_string(),
        }]
    );
}

#[test]
fn invalid_stdout_fails_instead_of_silently_nooping() {
    let parsed = parse_completed(
        &handler(),
        run_result(Some(0), "not json", ""),
        Some("turn-1".to_string()),
    );

    assert_eq!(parsed.data, StopHandlerData::default());
    assert_eq!(parsed.completed.run.status, HookRunStatus::Failed);
    assert_eq!(
        parsed.completed.run.entries,
        vec![HookOutputEntry {
            kind: HookOutputEntryKind::Error,
            text: "hook returned invalid stop hook JSON output".to_string(),
        }]
    );
}

#[test]
fn aggregate_results_concatenates_blocking_reasons_in_declaration_order() {
    let aggregate = aggregate_results(&[
        &StopHandlerData {
            should_stop: false,
            stop_reason: None,
            should_block: true,
            block_reason: Some("first".to_string()),
            continuation_fragments: vec![fragment("first", "run-1")],
        },
        &StopHandlerData {
            should_stop: false,
            stop_reason: None,
            should_block: true,
            block_reason: Some("second".to_string()),
            continuation_fragments: vec![fragment("second", "run-2")],
        },
    ]);

    assert_eq!(
        aggregate,
        StopHandlerData {
            should_stop: false,
            stop_reason: None,
            should_block: true,
            block_reason: Some("first\n\nsecond".to_string()),
            continuation_fragments: vec![
                fragment("first", "run-1"),
                fragment("second", "run-2"),
            ],
        }
    );
}

#[test]
fn silent_success_passes() {
    let parsed = parse_completed(&handler(), run_result(Some(0), " \n", "noise"), None);

    assert_eq!(parsed.data, StopHandlerData::default());
    assert_eq!(parsed.completed.run.status, HookRunStatus::Completed);
    assert_eq!(parsed.completed.run.entries, vec![]);
    assert_eq!(parsed.completed.turn_id, None);
    assert_eq!(parsed.completion_order, 0);
}

#[test]
fn completed_run_is_summarised() {
    let parsed = parse_completed(
        &subagent_handler(),
        run_result(Some(0), "{}", ""),
        Some("turn-1".to_string()),
    );

    let run = parsed.completed.run;
    assert_eq!(parsed.completed.turn_id, Some("turn-1".to_string()));
    assert_eq!(run.id, "subagent-stop:12:/tmp/hooks.json");
    assert_eq!(run.event_name, HookEventName::SubagentStop);
    assert_eq!(run.source_path, "/tmp/hooks.json");
    assert_eq!(run.display_order, 12);
    assert_eq!(run.status_message, Some("checking".to_string()));
    assert_eq!(run.status, HookRunStatus::Completed);
    assert_eq!((run.started_at, run.completed_at, run.duration_ms), (1, Some(2), Some(1)));
}

#[test]
fn block_reason_is_trimmed() {
    let parsed = parse_completed(
        &handler(),
        run_result(Some(2), "", "\u{3000} retry\u{a0}\n"),
        None,
    );

    assert_eq!(parsed.data, blocking("retry", "stop:0:/tmp/hooks.json"));
    assert_eq!(
        parsed.completed.run.entries,
        vec![entry(HookOutputEntryKind::Feedback, "retry")]
    );
}

#[test]
fn other_exit_codes_fail() {
    let parsed = parse_completed(&handler(), run_result(Some(-17), "{}", ""), None);
    assert_eq!(parsed.completed.run.status, HookRunStatus::Failed);
    assert_eq!(
        parsed.completed.run.entries,
        vec![entry(HookOutputEntryKind::Error, "hook exited with code -17")]
    );

    let parsed = parse_completed(&handler(), run_result(Some(i32::MIN), "", ""), None);
    assert_eq!(
        parsed.completed.run.entries,
        vec![entry(HookOutputEntryKind::Error, "hook exited with code -2147483648")]
    );

    let parsed = parse_completed(&handler(), run_result(Some(127), "", ""), None);
    assert_eq!(
        parsed.completed.run.entries,
        vec![entry(HookOutputEntryKind::Error, "hook exited with code 127")]
    );

    let parsed = parse_completed(&handler(), run_result(None, "", ""), None);
    assert_eq!(parsed.completed.run.status, HookRunStatus::Failed);
    assert_eq!(
        parsed.completed.run.entries,
        vec![entry(HookOutputEntryKind::Error, "hook exited without a status code")]
    );
}

#[test]
fn run_error_outweighs_exit_code() {
    let result = CommandRunResult {
        error: Some("spawn failed".to_string()),
        ..run_result(Some(0), "{\"continue\":false}", "")
    };
    let parsed = parse_completed(&handler(), result, None);

    assert_eq!(parsed.data, StopHandlerData::default());
    assert_eq!(parsed.completed.run.status, HookRunStatus::Failed);
    assert_eq!(
        parsed.completed.run.entries,
        vec![entry(HookOutputEntryKind::Error, "spawn failed")]
    );
}

#[test]
fn system_message_becomes_a_warning() {
    let parsed = parse_completed(
        &handler(),
        run_result(Some(0), r#"{"systemMessage":"slow","continue":false,"stopReason":"done"}"#, ""),
        None,
    );

    assert_eq!(
        parsed.completed.run.entries,
        vec![
            entry(HookOutputEntryKind::Warning, "slow"),
            entry(HookOutputEntryKind::Stop, "done"),
        ]
    );

    let parsed = parse_completed(&handler(), run_result(Some(0), r#"{"continue":false}"#, ""), None);
    assert_eq!(parsed.data, stopping(None));
    assert_eq!(parsed.completed.run.entries, vec![]);
}

#[test]
fn subagent_hooks_have_their_own_messages() {
    let texts = [
        run_result(Some(0), "[]", ""),
        run_result(Some(0), r#"{"decision":"block"}"#, ""),
        run_result(Some(2), "", ""),
    ]
    .map(|result| parse_completed(&subagent_handler(), result, None).completed.run.entries);

    assert_eq!(
        texts,
        [
            "hook returned invalid subagent stop hook JSON output",
            "SubagentStop hook returned decision:block without a non-empty reason",
            "SubagentStop hook exited with code 2 but did not write a continuation prompt to stderr",
        ]
        .map(|text| vec![entry(HookOutputEntryKind::Error, text)])
    );
}

fn output(should_block: bool, reason: Option<&str>, invalid: Option<&str>) -> StopHookOutput {
    StopHookOutput {
        universal: UniversalOutput {
            continue_processing: true,
            stop_reason: None,
            suppress_output: false,
            system_message: None,
        },
        should_block,
        reason: reason.map(str::to_string),
        invalid_block_reason: invalid.map(str::to_string),
    }
}

#[test]
fn invalid_block_outweighs_valid_block() {
    let result = run_result(Some(0), "x", "");
    let parsed = complete_run(&handler(), &result, Some(output(true, Some("why"), Some("no"))), None);
    assert_eq!(parsed.completed.run.status, HookRunStatus::Failed);
    assert_eq!(parsed.completed.run.entries, vec![entry(HookOutputEntryKind::Error, "no")]);

    let parsed = complete_run(&handler(), &result, Some(output(true, Some(" why "), None)), None);
    assert_eq!(parsed.data, blocking("why", "stop:0:/tmp/hooks.json"));

    let parsed = complete_run(&handler(), &result, Some(output(true, None, None)), None);
    assert_eq!(
        parsed.completed.run.entries,
        vec![entry(
            HookOutputEntryKind::Error,
            "Stop hook returned decision:block without a non-empty reason"
        )]
    );

    let parsed = complete_run(&handler(), &result, Some(output(false, Some("why"), None)), None);
    assert_eq!(parsed.completed.run.status, HookRunStatus::Completed);
}

#[test]
fn output_members_are_read() {
    let parsed = parse_stop(
        " {\"continue\":true,\"suppressOutput\":true,\"systemMessage\":\"m\",\"reason\":null,\"n\":[1]}\n",
    );
    assert_eq!(
        parsed,
        Some(StopHookOutput {
            universal: UniversalOutput {
                continue_processing: true,
                stop_reason: None,
                suppress_output: true,
                system_message: Some("m".to_string()),
            },
            should_block: false,
            reason: None,
            invalid_block_reason: None,
        })
    );
    assert_eq!(
        parse_subagent_stop(r#"{"decision":"block","reason":" "}"#),
        Some(output(
            false,
            Some(" "),
            Some("SubagentStop hook returned decision:block without a non-empty reason")
        ))
    );
}

#[test]
fn ill_typed_output_is_invalid() {
    assert_eq!(parse_stop("null"), None);
    assert_eq!(parse_stop("{} {}"), None);
    assert_eq!(parse_stop(r#"{"continue":"no"}"#), None);
    assert_eq!(parse_stop(r#"{"continue":null}"#), None);
    assert_eq!(parse_stop(r#"{"suppressOutput":0}"#), None);
    assert_eq!(parse_stop(r#"{"stopReason":{}}"#), None);
    assert_eq!(parse_stop(r#"{"systemMessage":[]}"#), None);
    assert_eq!(parse_stop(r#"{"reason":1.5}"#), None);
    assert_eq!(parse_stop(r#"{"decision":"approve"}"#), None);
    assert_eq!(parse_stop(r#"{"decision":true}"#), None);
}

#[test]
fn fields_are_interpreted() {
    let fields = StopOutputFields {
        continue_processing: Some(JsonField::Bool(false)),
        stop_reason: Some(JsonField::Text("done".to_string())),
        suppress_output: None,
        system_message: Some(JsonField::Null),
        decision: Some(JsonField::Text("block".to_string())),
        reason: Some(JsonField::Text("why".to_string())),
    };
    assert_eq!(
        interpret_fields(fields, HookEventName::Stop),
        Some(StopHookOutput {
            universal: UniversalOutput {
                continue_processing: false,
                stop_reason: Some("done".to_string()),
                suppress_output: false,
                system_message: None,
            },
            should_block: true,
            reason: Some("why".to_string()),
            invalid_block_reason: None,
        })
    );
}

#[test]
fn stop_sets_blocks_aside() {
    let aggregate = aggregate_results(&[
        &blocking("first", "run-1"),
        &stopping(None),
        &stopping(Some("done")),
        &stopping(Some("later")),
    ]);
    assert_eq!(aggregate, stopping(Some("done")));
}

#[test]
fn undecided_hooks_change_nothing() {
    assert_eq!(aggregate_results(&[]), StopHandlerData::default());
    assert_eq!(
        aggregate_results(&[
            &StopHandlerData::default(),
            &blocking("first", "run-1"),
            &StopHandlerData::default(),
        ]),
        blocking("first", "run-1")
    );
}

#[test]
fn only_blocking_hooks_give_fragments() {
    let stray = StopHandlerData {
        block_reason: Some("stray".to_string()),
        continuation_fragments: vec![fragment("stray", "run-0")],
        ..StopHandlerData::default()
    };
    let aggregate = aggregate_results(&[&stray, &blocking("first", "run-1")]);
    assert_eq!(aggregate.block_reason, Some("stray\n\nfirst".to_string()));
    assert_eq!(aggregate.continuation_fragments, vec![fragment("first", "run-1")]);

    assert_eq!(aggregate_results(&[&stray]), StopHandlerData::default());
}

#[test]
fn targets_name_their_event() {
    assert_eq!(StopHookTarget::Stop.event_name(), HookEventName::Stop);
    assert_eq!(StopHookTarget::Stop.matcher_input(), None);
    assert_eq!(subagent().event_name(), HookEventName::SubagentStop);
    assert_eq!(subagent().matcher_input(), Some("planner"));
}

#[test]
fn handlers_are_selected_by_event_and_matcher() {
    let other = ConfiguredHandler { event_name: HookEventName::Other, ..handler() };
    let second = ConfiguredHandler { display_order: 3, ..handler() };
    let handlers = [handler(), other, subagent_handler(), handler(), second];
    let matched = select_handlers(&handlers, HookEventName::Stop, &[true, true, true, false, true]);
    assert_eq!(matched, vec![&handlers[0], &handlers[4]]);
}

#[test]
fn preview_announces_the_runs() {
    let handlers = [handler(), subagent_handler()];
    let runs = preview(&handlers, &[true, true], &request(subagent()), 7);
    assert_eq!(runs.len(), 1);
    assert_eq!(runs[0].id, "subagent-stop:12:/tmp/hooks.json");
    assert_eq!(runs[0].status, HookRunStatus::Running);
    assert_eq!((runs[0].started_at, runs[0].completed_at, runs[0].duration_ms), (7, None, None));
    assert_eq!(runs[0].entries, vec![]);
}

#[test]
fn run_without_matching_handlers_is_over_at_once() {
    let handlers = [subagent_handler()];
    let (run, action) = start_run(&handlers, &[true], request(StopHookTarget::Stop));
    assert_eq!(run.phase(), RunPhase::Finished);
    assert_eq!(action, RunAction::Finish(StopOutcome::default()));
}

#[test]
fn run_goes_from_changed_files_to_outcome() {
    let handlers = [
        handler(),
        ConfiguredHandler { display_order: -1, ..handler() },
    ];
    let (mut run, action) = start_run(&handlers, &[true, true], request(StopHookTarget::Stop));
    assert_eq!(run.matched(), [&handlers[0], &handlers[1]]);
    assert_eq!(run.phase(), RunPhase::Collecting);
    assert_eq!(action, RunAction::CollectChangedFiles);

    let action = run.advance(RunEvent::ChangedFiles(Some(vec!["a.rs".to_string()])));
    assert_eq!(run.phase(), RunPhase::Serializing);
    assert_eq!(
        action,
        RunAction::Serialize(HookInput::Stop(StopCommandInput {
            session_id: "session-1".to_string(),
            turn_id: "turn-1".to_string(),
            transcript_path: Some("/tmp/transcript".to_string()),
            cwd: "/work".to_string(),
            hook_event_name: "Stop".to_string(),
            model: "model-1".to_string(),
            permission_mode: "default".to_string(),
            stop_hook_active: true,
            last_assistant_message: None,
            changed_files: Some(vec!["a.rs".to_string()]),
        }))
    );

    let action = run.advance(RunEvent::Serialized("{\"x\":1}".to_string()));
    assert_eq!(run.phase(), RunPhase::Executing);
    assert_eq!(action, RunAction::Execute("{\"x\":1}".to_string()));

    let action = run.advance(RunEvent::Executed(vec![
        run_result(Some(2), "", "first"),
        run_result(Some(0), r#"{"decision":"block","reason":"second"}"#, ""),
    ]));
    assert_eq!(run.phase(), RunPhase::Finished);
    let outcome = match action {
        RunAction::Finish(outcome) => outcome,
        _ => panic!("the run is over"),
    };
    assert_eq!(outcome.hook_events.len(), 2);
    assert_eq!(outcome.hook_events[0].run.id, "stop:0:/tmp/hooks.json");
    assert_eq!(outcome.hook_events[1].run.id, "stop:-1:/tmp/hooks.json");
    assert_eq!(outcome.hook_events[1].turn_id, Some("turn-1".to_string()));
    assert!(!outcome.should_stop);
    assert_eq!(outcome.stop_reason, None);
    assert!(outcome.should_block);
    assert_eq!(outcome.block_reason, Some("first\n\nsecond".to_string()));
    assert_eq!(
        outcome.continuation_fragments,
        vec![
            fragment("first", "stop:0:/tmp/hooks.json"),
            fragment("second", "stop:-1:/tmp/hooks.json"),
        ]
    );
}

#[test]
fn failed_serialization_decides_nothing() {
    let handlers = [subagent_handler()];
    let (mut run, _) = start_run(&handlers, &[true], request(subagent()));
    let action = run.advance(RunEvent::ChangedFiles(None));
    assert_eq!(
        action,
        RunAction::Serialize(HookInput::SubagentStop(SubagentStopCommandInput {
            session_id: "session-1".to_string(),
            turn_id: "turn-1".to_string(),
            transcript_path: Some("/tmp/transcript".to_string()),
            agent_transcript_path: None,
            cwd: "/work".to_string(),
            hook_event_name: "SubagentStop".to_string(),
            model: "model-1".to_string(),
            permission_mode: "default".to_string(),
            stop_hook_active: true,
            agent_id: "agent-1".to_string(),
            agent_type: "planner".to_string(),
            last_assistant_message: None,
            changed_files: None,
        }))
    );

    let action = run.advance(RunEvent::SerializationFailed { error: "bad".to_string(), at: 9 });
    assert_eq!(run.phase(), RunPhase::Finished);
    let events = serialization_failure_hook_events(
        &[&handlers[0]],
        Some("turn-1".to_string()),
        "failed to serialize subagent stop hook input: bad".to_string(),
        9,
    );
    assert_eq!(events[0].run.status, HookRunStatus::Failed);
    assert_eq!(events[0].run.completed_at, Some(9));
    assert_eq!(events[0].run.duration_ms, Some(0));
    assert_eq!(
        events[0].run.entries,
        vec![entry(
            HookOutputEntryKind::Error,
            "failed to serialize subagent stop hook input: bad"
        )]
    );
    assert_eq!(action, RunAction::Finish(serialization_failure_outcome(events)));
}

#[test]
fn no_runs_combine_to_nothing() {
    assert_eq!(combine_runs(vec![]), StopOutcome::default());
}
