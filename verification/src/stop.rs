//! Stop hooks: what a run of one means, and what all of them together decide.
use vstd::prelude::*;

use crate::engine;
use crate::engine::{
    completed_summary, running_summary, select_handlers, CommandRunResult, CommandRunResultView,
    ConfiguredHandler, ConfiguredHandlerView, ParsedHandler,
};
use crate::output_parser;
use crate::output_parser::{
    block_without_reason_text, parse_stop, parse_subagent_stop, StopHookOutput, StopHookOutputView,
};
use crate::protocol::{
    HookCompletedEvent, HookCompletedEventView, HookEventName, HookOutputEntry, HookOutputEntryKind,
    HookOutputEntryView, HookPromptFragment, HookPromptFragmentView, HookRunStatus, HookRunSummary,
};
use crate::text;
use crate::text::{copy_text, decimal_text, join_text_chunks, trimmed_non_empty};

verus! {

/// Which agent is about to stop.
#[derive(Debug, Clone, PartialEq, Eq)]
pub enum StopHookTarget {
    Stop,
    SubagentStop {
        agent_id: String,
        agent_type: String,
        agent_transcript_path: Option<String>,
    },
}

/// A turn that is about to end. Paths are given as they are displayed.
#[derive(Debug, Clone, PartialEq, Eq)]
pub struct StopRequest {
    pub session_id: String,
    pub turn_id: String,
    pub cwd: String,
    pub transcript_path: Option<String>,
    pub model: String,
    pub permission_mode: String,
    pub stop_hook_active: bool,
    pub last_assistant_message: Option<String>,
    pub target: StopHookTarget,
}

/// What the stop hooks decide together, with the news of their runs.
#[derive(Debug, PartialEq, Eq)]
pub struct StopOutcome {
    pub hook_events: Vec<HookCompletedEvent>,
    pub should_stop: bool,
    pub stop_reason: Option<String>,
    pub should_block: bool,
    pub block_reason: Option<String>,
    pub continuation_fragments: Vec<HookPromptFragment>,
}

/// What one stop hook decides.
#[derive(Debug, PartialEq, Eq)]
pub struct StopHandlerData {
    pub should_stop: bool,
    pub stop_reason: Option<String>,
    pub should_block: bool,
    pub block_reason: Option<String>,
    pub continuation_fragments: Vec<HookPromptFragment>,
}

#[verifier::ext_equal]
pub struct StopHandlerDataView {
    pub should_stop: bool,
    pub stop_reason: Option<Seq<char>>,
    pub should_block: bool,
    pub block_reason: Option<Seq<char>>,
    pub continuation_fragments: Seq<HookPromptFragmentView>,
}

#[verifier::ext_equal]
pub struct StopOutcomeView {
    pub hook_events: Seq<HookCompletedEventView>,
    pub decision: StopHandlerDataView,
}

/// A run that has ended, with what a stop hook's run decides.
#[verifier::ext_equal]
pub struct CompletionView {
    pub completed: HookCompletedEventView,
    pub data: StopHandlerDataView,
    pub completion_order: usize,
}

impl DeepView for StopHandlerData {
    type V = StopHandlerDataView;

    open spec fn deep_view(&self) -> StopHandlerDataView {
        StopHandlerDataView {
            should_stop: self.should_stop,
            stop_reason: self.stop_reason.deep_view(),
            should_block: self.should_block,
            block_reason: self.block_reason.deep_view(),
            continuation_fragments: self.continuation_fragments.deep_view(),
        }
    }
}

impl DeepView for StopOutcome {
    type V = StopOutcomeView;

    open spec fn deep_view(&self) -> StopOutcomeView {
        StopOutcomeView {
            hook_events: self.hook_events.deep_view(),
            decision: StopHandlerDataView {
                should_stop: self.should_stop,
                stop_reason: self.stop_reason.deep_view(),
                should_block: self.should_block,
                block_reason: self.block_reason.deep_view(),
                continuation_fragments: self.continuation_fragments.deep_view(),
            },
        }
    }
}

impl DeepView for ParsedHandler<StopHandlerData> {
    type V = CompletionView;

    open spec fn deep_view(&self) -> CompletionView {
        CompletionView {
            completed: self.completed.deep_view(),
            data: self.data.deep_view(),
            completion_order: self.completion_order,
        }
    }
}

/// The decision to do nothing.
pub open spec fn no_decision() -> StopHandlerDataView {
    StopHandlerDataView {
        should_stop: false,
        stop_reason: None,
        should_block: false,
        block_reason: None,
        continuation_fragments: Seq::empty(),
    }
}

impl Default for StopHandlerData {
    /// The decision to do nothing.
    fn default() -> (data: Self)
        ensures
            data.deep_view() == no_decision(),
    {
        let continuation_fragments: Vec<HookPromptFragment> = Vec::new();
        assert(continuation_fragments.deep_view() =~= Seq::empty());
        StopHandlerData {
            should_stop: false,
            stop_reason: None,
            should_block: false,
            block_reason: None,
            continuation_fragments,
        }
    }
}

impl Default for StopOutcome {
    /// No runs, and the decision to do nothing.
    fn default() -> (outcome: Self)
        ensures
            outcome.deep_view() == (StopOutcomeView {
                hook_events: Seq::empty(),
                decision: no_decision(),
            }),
    {
        let hook_events: Vec<HookCompletedEvent> = Vec::new();
        assert(hook_events.deep_view() =~= Seq::empty());
        serialization_failure_outcome(hook_events)
    }
}

/// Whether hooks for this event are stop hooks.
pub open spec fn is_stop_event(event_name: HookEventName) -> bool {
    event_name == HookEventName::Stop || event_name == HookEventName::SubagentStop
}

/// What one run of a stop hook comes down to.
pub enum Verdict {
    /// The hook has no objection.
    Pass,
    /// The run went wrong, as the text says.
    Fail(Seq<char>),
    /// All work shall stop, for this reason if one is given.
    Stop(Option<Seq<char>>),
    /// The agent shall not stop yet, for this reason.
    Block(Seq<char>),
}

/// The complaint about output that is not valid.
pub open spec fn invalid_output(event_name: HookEventName) -> Seq<char> {
    if event_name == HookEventName::SubagentStop {
        "hook returned invalid subagent stop hook JSON output"@
    } else {
        "hook returned invalid stop hook JSON output"@
    }
}

/// The complaint about a hook that blocks by its exit code and does not say why.
pub open spec fn missing_prompt(event_name: HookEventName) -> Seq<char> {
    if event_name == HookEventName::SubagentStop {
        "SubagentStop hook exited with code 2 but did not write a continuation prompt to stderr"@
    } else {
        "Stop hook exited with code 2 but did not write a continuation prompt to stderr"@
    }
}

/// What valid output comes down to: an order to stop outweighs all else, and an
/// invalid decision to block outweighs a valid one.
pub open spec fn verdict_of_output(
    event_name: HookEventName,
    output: StopHookOutputView,
) -> Verdict {
    if !output.universal.continue_processing {
        Verdict::Stop(output.universal.stop_reason)
    } else if output.invalid_block_reason is Some {
        Verdict::Fail(output.invalid_block_reason->0)
    } else if !output.should_block {
        Verdict::Pass
    } else if output_parser::has_reason(output.reason) {
        Verdict::Block(text::trimmed(output.reason->0))
    } else {
        Verdict::Fail(output_parser::block_without_reason(event_name))
    }
}

/// Whether the run's output counts: the command ran, succeeded and wrote something.
pub open spec fn has_output(run_result: CommandRunResultView) -> bool {
    &&& run_result.error is None
    &&& run_result.exit_code == Some(0i32)
    &&& text::non_blank(run_result.stdout) is Some
}

/// What a run comes down to, given what its output says (`None` for output that is
/// not valid). The exit code 2 blocks, for the reason on standard error.
pub open spec fn verdict(
    event_name: HookEventName,
    run_result: CommandRunResultView,
    output: Option<StopHookOutputView>,
) -> Verdict {
    match (run_result.error, run_result.exit_code) {
        (Some(error), _) => Verdict::Fail(error),
        (None, None) => Verdict::Fail("hook exited without a status code"@),
        (None, Some(code)) => if code == 0 && !has_output(run_result) {
            Verdict::Pass
        } else if code == 0 {
            match output {
                Some(output) => verdict_of_output(event_name, output),
                None => Verdict::Fail(invalid_output(event_name)),
            }
        } else if code == 2 {
            match text::non_blank(run_result.stderr) {
                Some(reason) => Verdict::Block(reason),
                None => Verdict::Fail(missing_prompt(event_name)),
            }
        } else {
            Verdict::Fail("hook exited with code "@ + text::decimal(code as int))
        },
    }
}

/// The status of a run with this verdict.
pub open spec fn status_of(verdict: Verdict) -> HookRunStatus {
    match verdict {
        Verdict::Pass => HookRunStatus::Completed,
        Verdict::Fail(_) => HookRunStatus::Failed,
        Verdict::Stop(_) => HookRunStatus::Stopped,
        Verdict::Block(_) => HookRunStatus::Blocked,
    }
}

/// The entry that a verdict leaves in the run's output, if any.
pub open spec fn verdict_entries(verdict: Verdict) -> Seq<HookOutputEntryView> {
    match verdict {
        Verdict::Pass => Seq::empty(),
        Verdict::Fail(text) => seq![HookOutputEntryView { kind: HookOutputEntryKind::Error, text }],
        Verdict::Stop(None) => Seq::empty(),
        Verdict::Stop(Some(text)) => seq![
            HookOutputEntryView { kind: HookOutputEntryKind::Stop, text },
        ],
        Verdict::Block(text) => seq![
            HookOutputEntryView { kind: HookOutputEntryKind::Feedback, text },
        ],
    }
}

/// The warning that the output carries, if it counts and carries one.
pub open spec fn warning_entries(
    run_result: CommandRunResultView,
    output: Option<StopHookOutputView>,
) -> Seq<HookOutputEntryView> {
    match output {
        Some(output) => match output.universal.system_message {
            Some(text) if has_output(run_result) => seq![
                HookOutputEntryView { kind: HookOutputEntryKind::Warning, text },
            ],
            _ => Seq::empty(),
        },
        None => Seq::empty(),
    }
}

/// What a verdict of the run with this id decides.
pub open spec fn decision_of(verdict: Verdict, run_id: Seq<char>) -> StopHandlerDataView {
    match verdict {
        Verdict::Pass => no_decision(),
        Verdict::Fail(_) => no_decision(),
        Verdict::Stop(reason) => StopHandlerDataView {
            should_stop: true,
            stop_reason: reason,
            ..no_decision()
        },
        Verdict::Block(reason) => StopHandlerDataView {
            should_block: true,
            block_reason: Some(reason),
            continuation_fragments: seq![
                HookPromptFragmentView { text: reason, hook_run_id: run_id },
            ],
            ..no_decision()
        },
    }
}

/// The end of a run, given what its output says.
pub open spec fn completion(
    handler: ConfiguredHandlerView,
    run_result: CommandRunResultView,
    output: Option<StopHookOutputView>,
    turn_id: Option<Seq<char>>,
) -> CompletionView {
    let verdict = verdict(handler.event_name, run_result, output);
    CompletionView {
        completed: HookCompletedEventView {
            turn_id,
            run: engine::completed_summary_of(
                handler,
                run_result,
                status_of(verdict),
                warning_entries(run_result, output) + verdict_entries(verdict),
            ),
        },
        data: decision_of(verdict, engine::run_id_of(handler)),
        completion_order: 0,
    }
}

fn push_entry(entries: &mut Vec<HookOutputEntry>, kind: HookOutputEntryKind, text: String)
    ensures
        final(entries).deep_view() == old(entries).deep_view().push(
            HookOutputEntryView { kind, text: text@ },
        ),
{
    let ghost before = entries.deep_view();
    let ghost view = HookOutputEntryView { kind, text: text@ };
    entries.push(HookOutputEntry { kind, text });
    assert(entries.deep_view() =~= before.push(view));
}

/// Ends the run of a stop hook, given what its output says (`None` for output that
/// is not valid).
pub fn complete_run(
    handler: &ConfiguredHandler,
    run_result: &CommandRunResult,
    output: Option<StopHookOutput>,
    turn_id: Option<String>,
) -> (parsed: ParsedHandler<StopHandlerData>)
    requires
        is_stop_event(handler.event_name),
    ensures
        parsed.deep_view() == completion(
            handler.deep_view(),
            run_result.deep_view(),
            output.deep_view(),
            turn_id.deep_view(),
        ),
{
    let ghost outcome = verdict(
        handler.event_name,
        run_result.deep_view(),
        output.deep_view(),
    );
    let ghost warnings = warning_entries(run_result.deep_view(), output.deep_view());
    let mut entries: Vec<HookOutputEntry> = Vec::new();
    let mut status = HookRunStatus::Completed;
    let mut should_stop = false;
    let mut stop_reason: Option<String> = None;
    let mut should_block = false;
    let mut block_reason: Option<String> = None;
    let mut continuation_prompt: Option<String> = None;
    assert(entries.deep_view() =~= Seq::empty());
    match &run_result.error {
        Some(error) => {
            status = HookRunStatus::Failed;
            push_entry(&mut entries, HookOutputEntryKind::Error, error.clone());
        },
        None => match run_result.exit_code {
            Some(0) => {
                let trimmed_stdout = run_result.stdout.as_str().trim();
                if trimmed_stdout.is_empty() {
                } else if let Some(parsed) = output {
                    if let Some(system_message) = parsed.universal.system_message {
                        push_entry(&mut entries, HookOutputEntryKind::Warning, system_message);
                    }
                    if !parsed.universal.continue_processing {
                        status = HookRunStatus::Stopped;
                        should_stop = true;
                        stop_reason = copy_text(&parsed.universal.stop_reason);
                        if let Some(stop_reason_text) = parsed.universal.stop_reason {
                            push_entry(&mut entries, HookOutputEntryKind::Stop, stop_reason_text);
                        }
                    } else if let Some(invalid_block_reason) = parsed.invalid_block_reason {
                        status = HookRunStatus::Failed;
                        push_entry(&mut entries, HookOutputEntryKind::Error, invalid_block_reason);
                    } else if parsed.should_block {
                        let reason = match &parsed.reason {
                            Some(reason) => trimmed_non_empty(reason.as_str()),
                            None => None,
                        };
                        if let Some(reason) = reason {
                            status = HookRunStatus::Blocked;
                            should_block = true;
                            block_reason = Some(reason.clone());
                            continuation_prompt = Some(reason.clone());
                            push_entry(&mut entries, HookOutputEntryKind::Feedback, reason);
                        } else {
                            status = HookRunStatus::Failed;
                            push_entry(
                                &mut entries,
                                HookOutputEntryKind::Error,
                                block_without_reason_text(handler.event_name),
                            );
                        }
                    }
                } else {
                    status = HookRunStatus::Failed;
                    let text = match handler.event_name {
                        HookEventName::SubagentStop => "hook returned invalid subagent stop hook JSON output",
                        _ => "hook returned invalid stop hook JSON output",
                    };
                    push_entry(&mut entries, HookOutputEntryKind::Error, text.to_owned());
                }
            },
            Some(2) => {
                if let Some(reason) = trimmed_non_empty(run_result.stderr.as_str()) {
                    status = HookRunStatus::Blocked;
                    should_block = true;
                    block_reason = Some(reason.clone());
                    continuation_prompt = Some(reason.clone());
                    push_entry(&mut entries, HookOutputEntryKind::Feedback, reason);
                } else {
                    status = HookRunStatus::Failed;
                    let text = match handler.event_name {
                        HookEventName::SubagentStop => "SubagentStop hook exited with code 2 but did not write a continuation prompt to stderr",
                        _ => "Stop hook exited with code 2 but did not write a continuation prompt to stderr",
                    };
                    push_entry(&mut entries, HookOutputEntryKind::Error, text.to_owned());
                }
            },
            Some(exit_code) => {
                status = HookRunStatus::Failed;
                let mut text = "hook exited with code ".to_owned();
                text.append(decimal_text(exit_code as i64).as_str());
                push_entry(&mut entries, HookOutputEntryKind::Error, text);
            },
            None => {
                status = HookRunStatus::Failed;
                push_entry(
                    &mut entries,
                    HookOutputEntryKind::Error,
                    "hook exited without a status code".to_owned(),
                );
            },
        },
    }
    assert(entries.deep_view() =~= warnings + verdict_entries(outcome));
    let completed = HookCompletedEvent {
        turn_id,
        run: completed_summary(handler, run_result, status, entries),
    };
    let mut continuation_fragments: Vec<HookPromptFragment> = Vec::new();
    if let Some(prompt) = continuation_prompt {
        continuation_fragments.push(
            HookPromptFragment::from_single_hook(prompt, completed.run.id.clone()),
        );
    }
    let data = StopHandlerData {
        should_stop,
        stop_reason,
        should_block,
        block_reason,
        continuation_fragments,
    };
    assert(data.deep_view() =~= decision_of(outcome, engine::run_id_of(handler.deep_view())));
    ParsedHandler { completed, data, completion_order: 0 }
}

/// Ends the run of a stop hook, from what its command wrote and returned.
pub fn parse_completed(
    handler: &ConfiguredHandler,
    run_result: CommandRunResult,
    turn_id: Option<String>,
) -> (parsed: ParsedHandler<StopHandlerData>)
    requires
        is_stop_event(handler.event_name),
    ensures
        parsed.deep_view() == completion(
            handler.deep_view(),
            run_result.deep_view(),
            output_parser::stop_output(run_result.stdout@, handler.event_name),
            turn_id.deep_view(),
        ),
{
    let output = match (&run_result.error, run_result.exit_code) {
        (None, Some(0)) => match handler.event_name {
            HookEventName::SubagentStop => parse_subagent_stop(run_result.stdout.as_str()),
            _ => parse_stop(run_result.stdout.as_str()),
        },
        _ => None,
    };
    complete_run(handler, &run_result, output, turn_id)
}

/// The outcome of hooks whose input could not be written: these runs, and the
/// decision to do nothing.
pub fn serialization_failure_outcome(hook_events: Vec<HookCompletedEvent>) -> (outcome: StopOutcome)
    ensures
        outcome.deep_view() == (StopOutcomeView {
            hook_events: hook_events.deep_view(),
            decision: no_decision(),
        }),
{
    let continuation_fragments: Vec<HookPromptFragment> = Vec::new();
    assert(continuation_fragments.deep_view() =~= Seq::empty());
    StopOutcome {
        hook_events,
        should_stop: false,
        stop_reason: None,
        should_block: false,
        block_reason: None,
        continuation_fragments,
    }
}

impl StopHookTarget {
    /// The event for this agent's stop.
    pub open spec fn event(&self) -> HookEventName {
        match self {
            StopHookTarget::Stop => HookEventName::Stop,
            StopHookTarget::SubagentStop { .. } => HookEventName::SubagentStop,
        }
    }

    /// The event for this agent's stop.
    pub fn event_name(&self) -> (event_name: HookEventName)
        ensures
            event_name == self.event(),
            is_stop_event(event_name),
    {
        match self {
            Self::Stop => HookEventName::Stop,
            Self::SubagentStop { .. } => HookEventName::SubagentStop,
        }
    }

    /// The text that the hooks' matchers are held against: the type of a subagent.
    pub fn matcher_input(&self) -> (input: Option<&str>)
        ensures
            match self {
                StopHookTarget::Stop => input is None,
                StopHookTarget::SubagentStop { agent_type, .. } => input is Some && input->0@
                    == agent_type@,
            },
    {
        match self {
            Self::Stop => None,
            Self::SubagentStop { agent_type, .. } => Some(agent_type.as_str()),
        }
    }
}

/// Whether one of the decisions is to stop.
pub open spec fn any_stops(results: Seq<StopHandlerDataView>) -> bool {
    exists|i: int| 0 <= i < results.len() && (#[trigger] results[i]).should_stop
}

/// Whether one of the decisions is to block.
pub open spec fn any_blocks(results: Seq<StopHandlerDataView>) -> bool {
    exists|i: int| 0 <= i < results.len() && (#[trigger] results[i]).should_block
}

/// The first stop reason that is given.
pub open spec fn first_stop_reason(results: Seq<StopHandlerDataView>) -> Option<Seq<char>>
    decreases results.len(),
{
    if results.len() == 0 {
        None
    } else if first_stop_reason(results.drop_last()) is Some {
        first_stop_reason(results.drop_last())
    } else {
        results.last().stop_reason
    }
}

/// The block reasons that are given, in order.
pub open spec fn block_reasons(results: Seq<StopHandlerDataView>) -> Seq<Seq<char>>
    decreases results.len(),
{
    if results.len() == 0 {
        Seq::empty()
    } else {
        let earlier = block_reasons(results.drop_last());
        match results.last().block_reason {
            Some(reason) => earlier.push(reason),
            None => earlier,
        }
    }
}

/// The fragments of the decisions to block, in order.
pub open spec fn blocking_fragments(
    results: Seq<StopHandlerDataView>,
) -> Seq<HookPromptFragmentView>
    decreases results.len(),
{
    if results.len() == 0 {
        Seq::empty()
    } else {
        let earlier = blocking_fragments(results.drop_last());
        if results.last().should_block {
            earlier + results.last().continuation_fragments
        } else {
            earlier
        }
    }
}

/// What the decisions come to together. One to stop outweighs all those to block;
/// those to block add up.
pub open spec fn aggregate_of(results: Seq<StopHandlerDataView>) -> StopHandlerDataView {
    let should_block = !any_stops(results) && any_blocks(results);
    StopHandlerDataView {
        should_stop: any_stops(results),
        stop_reason: first_stop_reason(results),
        should_block,
        block_reason: if should_block && block_reasons(results).len() > 0 {
            Some(text::joined(block_reasons(results)))
        } else {
            None
        },
        continuation_fragments: if should_block {
            blocking_fragments(results)
        } else {
            Seq::empty()
        },
    }
}

/// Combines the decisions, which stand in the order of the hooks.
pub fn aggregate_results(results: &[&StopHandlerData]) -> (aggregate: StopHandlerData)
    ensures
        aggregate.deep_view() == aggregate_of(results.deep_view()),
{
    let ghost all = results.deep_view();
    let mut should_stop = false;
    let mut stop_reason: Option<String> = None;
    let mut any_block = false;
    let mut reasons: Vec<String> = Vec::new();
    let mut fragments: Vec<HookPromptFragment> = Vec::new();
    let mut i: usize = 0;
    assert(reasons.deep_view() =~= Seq::empty());
    assert(fragments.deep_view() =~= Seq::empty());
    while i < results.len()
        invariant
            i <= results@.len(),
            all == results.deep_view(),
            should_stop == any_stops(all.take(i as int)),
            any_block == any_blocks(all.take(i as int)),
            stop_reason.deep_view() == first_stop_reason(all.take(i as int)),
            reasons.deep_view() == block_reasons(all.take(i as int)),
            fragments.deep_view() == blocking_fragments(all.take(i as int)),
        decreases results@.len() - i,
    {
        let result: &StopHandlerData = results[i];
        let ghost now = all.take(i + 1);
        let ghost held_reasons = reasons.deep_view();
        let ghost held_fragments = fragments.deep_view();
        proof {
            let before = all.take(i as int);
            assert(now.drop_last() =~= before);
            assert(now.last() == result.deep_view());
            any_grows(before, result.deep_view());
            assert(now =~= before.push(result.deep_view()));
        }
        if result.should_stop {
            should_stop = true;
        }
        if result.should_block {
            any_block = true;
        }
        if stop_reason.is_none() {
            stop_reason = copy_text(&result.stop_reason);
        }
        if let Some(reason) = &result.block_reason {
            reasons.push(reason.clone());
            assert(reasons.deep_view() =~= held_reasons.push(reason@));
        }
        if result.should_block {
            append_fragments(&mut fragments, &result.continuation_fragments);
        }
        i += 1;
    }
    assert(all.take(all.len() as int) =~= all);
    let should_block = !should_stop && any_block;
    let block_reason = if should_block {
        join_text_chunks(reasons)
    } else {
        None
    };
    let continuation_fragments = if should_block {
        fragments
    } else {
        Vec::new()
    };
    let aggregate = StopHandlerData {
        should_stop,
        stop_reason,
        should_block,
        block_reason,
        continuation_fragments,
    };
    assert(aggregate.deep_view() =~= aggregate_of(all));
    aggregate
}

fn append_fragments(fragments: &mut Vec<HookPromptFragment>, more: &Vec<HookPromptFragment>)
    ensures
        final(fragments).deep_view() == old(fragments).deep_view() + more.deep_view(),
{
    let ghost before = fragments.deep_view();
    let ghost added = more.deep_view();
    let mut i: usize = 0;
    assert(before + added.take(0) =~= before);
    while i < more.len()
        invariant
            i <= more@.len(),
            added == more.deep_view(),
            fragments.deep_view() == before + added.take(i as int),
        decreases more@.len() - i,
    {
        let ghost held = fragments.deep_view();
        fragments.push(more[i].duplicate());
        assert(fragments.deep_view() =~= held.push(added[i as int]));
        assert(before + added.take(i + 1) =~= (before + added.take(i as int)).push(added[i as int]));
        i += 1;
    }
    assert(added.take(added.len() as int) =~= added);
}

/// One more decision to stop, or to block, makes one among them all.
pub proof fn any_grows(results: Seq<StopHandlerDataView>, last: StopHandlerDataView)
    ensures
        any_stops(results.push(last)) == (any_stops(results) || last.should_stop),
        any_blocks(results.push(last)) == (any_blocks(results) || last.should_block),
{
    let more = results.push(last);
    assert(more[results.len() as int] == last);
    if any_stops(results) {
        let i = choose|i: int| 0 <= i < results.len() && (#[trigger] results[i]).should_stop;
        assert(more[i].should_stop);
    }
    if any_blocks(results) {
        let i = choose|i: int| 0 <= i < results.len() && (#[trigger] results[i]).should_block;
        assert(more[i].should_block);
    }
    if any_stops(more) && !last.should_stop {
        let i = choose|i: int| 0 <= i < more.len() && (#[trigger] more[i]).should_stop;
        assert(results[i].should_stop);
    }
    if any_blocks(more) && !last.should_block {
        let i = choose|i: int| 0 <= i < more.len() && (#[trigger] more[i]).should_block;
        assert(results[i].should_block);
    }
}

/// Summarises the runs that the request would start. `accepted` tells of each
/// handler whether its matcher accepts the target's `matcher_input`.
pub fn preview(
    handlers: &[ConfiguredHandler],
    accepted: &[bool],
    request: &StopRequest,
    started_at: i64,
) -> (runs: Vec<HookRunSummary>)
    requires
        accepted@.len() == handlers@.len(),
    ensures
        runs.deep_view() == engine::selected(
            handlers.deep_view(),
            request.target.event(),
            accepted@,
        ).map_values(
            |handler: ConfiguredHandlerView| engine::running_summary_of(handler, started_at),
        ),
{
    let matched = select_handlers(handlers, request.target.event_name(), accepted);
    let ghost all = matched.deep_view();
    let ghost run_of = |handler: ConfiguredHandlerView|
        engine::running_summary_of(handler, started_at);
    let mut runs: Vec<HookRunSummary> = Vec::new();
    let mut i: usize = 0;
    assert(runs.deep_view() =~= all.take(0).map_values(run_of));
    while i < matched.len()
        invariant
            i <= matched@.len(),
            all == matched.deep_view(),
            run_of == (|handler: ConfiguredHandlerView|
                engine::running_summary_of(handler, started_at)),
            runs.deep_view() == all.take(i as int).map_values(run_of),
        decreases matched@.len() - i,
    {
        let ghost before = runs.deep_view();
        runs.push(running_summary(matched[i], started_at));
        assert(runs.deep_view() =~= before.push(run_of(all[i as int])));
        assert(all.take(i + 1).map_values(run_of) =~= all.take(i as int).map_values(run_of).push(
            run_of(all[i as int]),
        ));
        i += 1;
    }
    assert(all.take(all.len() as int) =~= all);
    runs
}

} // verus!
