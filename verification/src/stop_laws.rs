//! What holds of stop hooks whatever they do.
use vstd::prelude::*;

use crate::engine;
use crate::engine::{CommandRunResultView, ConfiguredHandlerView, ParsedHandler};
use crate::output_parser;
use crate::output_parser::{StopHookOutputView, UniversalOutputView};
use crate::protocol::{
    HookEventName, HookOutputEntryKind, HookOutputEntryView, HookPromptFragmentView, HookRunStatus,
};
use crate::stop;
use crate::stop::{
    CompletionView, StopHandlerData, StopHandlerDataView, StopHookTarget, StopOutcome, StopRequest,
    Verdict,
};
use crate::stop_run;
use crate::stop_run::{HookInput, HookInputView, RunEvent, RunPhase, SharedInputView};
use crate::text;

verus! {

/// An order to stop outweighs a decision to block in the same output, valid or not.
pub proof fn order_to_stop_outweighs_block_decision(
    handler: ConfiguredHandlerView,
    run_result: CommandRunResultView,
    output: StopHookOutputView,
    turn_id: Option<Seq<char>>,
)
    requires
        stop::has_output(run_result),
        !output.universal.continue_processing,
    ensures
        ({
            let end = stop::completion(handler, run_result, Some(output), turn_id);
            &&& end.completed.run.status == HookRunStatus::Stopped
            &&& end.data == (StopHandlerDataView {
                should_stop: true,
                stop_reason: output.universal.stop_reason,
                ..stop::no_decision()
            })
        }),
{
}

/// Standard output counts only where the command succeeded. In particular a hook
/// that exits with code 2 is judged by its standard error alone.
pub proof fn output_counts_only_on_success(
    handler: ConfiguredHandlerView,
    run_result: CommandRunResultView,
    stdout: Seq<char>,
    output: Option<StopHookOutputView>,
    other: Option<StopHookOutputView>,
    turn_id: Option<Seq<char>>,
)
    requires
        run_result.error is Some || run_result.exit_code != Some(0i32),
    ensures
        stop::completion(handler, run_result, output, turn_id) == stop::completion(
            handler,
            CommandRunResultView { stdout, ..run_result },
            other,
            turn_id,
        ),
{
}

/// Whether a hook asks for its output to be hidden makes no difference to its run.
pub proof fn suppressed_output_counts_all_the_same(
    handler: ConfiguredHandlerView,
    run_result: CommandRunResultView,
    output: StopHookOutputView,
    suppress_output: bool,
    turn_id: Option<Seq<char>>,
)
    ensures
        ({
            let other = StopHookOutputView {
                universal: UniversalOutputView { suppress_output, ..output.universal },
                ..output
            };
            stop::completion(handler, run_result, Some(output), turn_id) == stop::completion(
                handler,
                run_result,
                Some(other),
                turn_id,
            )
        }),
{
}

/// What a run decides fits its status: it stops all work just if it is `Stopped`, and
/// blocks just if it is `Blocked`, so never both. A block has a reason that is
/// neither blank nor padded, which the one fragment carries under the run's own id.
/// Runs of any other status decide nothing, and one that failed says why.
pub proof fn decisions_fit_the_status(
    handler: ConfiguredHandlerView,
    run_result: CommandRunResultView,
    output: Option<StopHookOutputView>,
    turn_id: Option<Seq<char>>,
)
    ensures
        ({
            let end = stop::completion(handler, run_result, output, turn_id);
            let run = end.completed.run;
            &&& end.data.should_stop <==> run.status == HookRunStatus::Stopped
            &&& end.data.should_block <==> run.status == HookRunStatus::Blocked
            &&& !(end.data.should_stop && end.data.should_block)
            &&& end.data.should_block ==> {
                &&& end.data.block_reason is Some
                &&& end.data.block_reason->0.len() > 0
                &&& text::trimmed(end.data.block_reason->0) == end.data.block_reason->0
                &&& end.data.continuation_fragments == seq![
                    HookPromptFragmentView { text: end.data.block_reason->0, hook_run_id: run.id },
                ]
            }
            &&& run.status == HookRunStatus::Failed || run.status == HookRunStatus::Completed
                ==> end.data == stop::no_decision()
            &&& run.status == HookRunStatus::Failed ==> run.entries.len() > 0
                && run.entries.last().kind == HookOutputEntryKind::Error
            &&& run.status != HookRunStatus::Running
        }),
{
    if let Some(output) = output {
        if let Some(reason) = output.reason {
            text::trimmed_is_stable(reason);
        }
    }
    text::trimmed_is_stable(run_result.stderr);
}

/// A run has the id that was announced for it.
pub proof fn completed_runs_keep_their_ids(
    handler: ConfiguredHandlerView,
    run_result: CommandRunResultView,
    output: Option<StopHookOutputView>,
    turn_id: Option<Seq<char>>,
    started_at: i64,
)
    ensures
        stop::completion(handler, run_result, output, turn_id).completed.run.id
            == engine::running_summary_of(handler, started_at).id,
{
}

/// Together the hooks never both stop all work and block: one order to stop sets
/// every decision to block aside.
pub proof fn one_order_to_stop_sets_blocks_aside(results: Seq<StopHandlerDataView>, i: int)
    requires
        0 <= i < results.len(),
        results[i].should_stop,
    ensures
        stop::aggregate_of(results) == (StopHandlerDataView {
            should_stop: true,
            stop_reason: stop::first_stop_reason(results),
            ..stop::no_decision()
        }),
{
    assert(results[i].should_stop);
}

/// No hooks, no decision.
pub proof fn no_hooks_decide_nothing()
    ensures
        stop::aggregate_of(Seq::empty()) == stop::no_decision(),
{
}

/// The reasons and fragments of hooks in two groups are those of the first group,
/// then those of the second; so they stand in the order of the hooks.
pub proof fn decisions_stay_in_order(
    first: Seq<StopHandlerDataView>,
    second: Seq<StopHandlerDataView>,
)
    ensures
        stop::any_stops(first + second) == (stop::any_stops(first) || stop::any_stops(second)),
        stop::any_blocks(first + second) == (stop::any_blocks(first) || stop::any_blocks(second)),
        stop::first_stop_reason(first + second) == (if stop::first_stop_reason(first) is Some {
            stop::first_stop_reason(first)
        } else {
            stop::first_stop_reason(second)
        }),
        stop::block_reasons(first + second) == stop::block_reasons(first) + stop::block_reasons(
            second,
        ),
        stop::blocking_fragments(first + second) == stop::blocking_fragments(first)
            + stop::blocking_fragments(second),
    decreases second.len(),
{
    let all = first + second;
    if second.len() == 0 {
        assert(all =~= first);
        assert(stop::block_reasons(second) =~= Seq::empty());
        assert(stop::block_reasons(first) + stop::block_reasons(second) =~= stop::block_reasons(
            first,
        ));
        assert(stop::blocking_fragments(first) + stop::blocking_fragments(second)
            =~= stop::blocking_fragments(first));
    } else {
        let shorter = second.drop_last();
        assert(all.drop_last() =~= first + shorter);
        assert(all.last() == second.last());
        decisions_stay_in_order(first, shorter);
        stop::any_grows(first + shorter, second.last());
        stop::any_grows(shorter, second.last());
        assert((first + shorter).push(second.last()) =~= all);
        assert(shorter.push(second.last()) =~= second);
        assert(stop::block_reasons(all) =~= stop::block_reasons(first) + stop::block_reasons(
            second,
        ));
        assert(stop::blocking_fragments(all) =~= stop::blocking_fragments(first)
            + stop::blocking_fragments(second));
    }
}

/// A hook that decides nothing makes no difference, wherever it stands.
pub proof fn undecided_hooks_make_no_difference(
    before: Seq<StopHandlerDataView>,
    after: Seq<StopHandlerDataView>,
)
    ensures
        stop::aggregate_of(before + seq![stop::no_decision()] + after) == stop::aggregate_of(
            before + after,
        ),
{
    let one = seq![stop::no_decision()];
    decisions_stay_in_order(before, one);
    decisions_stay_in_order(before + one, after);
    decisions_stay_in_order(before, after);
    assert(one.drop_last() =~= Seq::empty());
    assert(!stop::any_stops(one));
    assert(!stop::any_blocks(one));
    reveal_with_fuel(stop::first_stop_reason, 2);
    reveal_with_fuel(stop::block_reasons, 2);
    reveal_with_fuel(stop::blocking_fragments, 2);
    assert(stop::block_reasons(before + one) =~= stop::block_reasons(before));
    assert(stop::blocking_fragments(before + one) =~= stop::blocking_fragments(before));
}

/// What one hook decides alone is what comes of it.
pub proof fn one_hook_decides_for_itself(verdict: Verdict, run_id: Seq<char>)
    ensures
        ({
            let decision = stop::decision_of(verdict, run_id);
            stop::aggregate_of(seq![decision]) == decision
        }),
{
    let decision = stop::decision_of(verdict, run_id);
    let one = seq![decision];
    assert(one.drop_last() =~= Seq::empty());
    assert(one[0] == decision);
    assert(stop::any_stops(one) == decision.should_stop);
    assert(stop::any_blocks(one) == decision.should_block);
    reveal_with_fuel(stop::first_stop_reason, 2);
    reveal_with_fuel(stop::block_reasons, 2);
    reveal_with_fuel(stop::blocking_fragments, 2);
    if decision.should_block {
        assert(stop::block_reasons(one) =~= seq![decision.block_reason->0]);
        assert(stop::blocking_fragments(one) =~= decision.continuation_fragments);
    }
    assert(stop::aggregate_of(one) =~= decision);
}

/// Whether decisions are such as runs make.
pub open spec fn made_by_runs(results: Seq<StopHandlerDataView>) -> bool {
    forall|i: int|
        0 <= i < results.len() ==> exists|verdict: Verdict, run_id: Seq<char>|
            (#[trigger] results[i]) == #[trigger] stop::decision_of(verdict, run_id)
}

proof fn blocks_have_fragments(results: Seq<StopHandlerDataView>)
    requires
        made_by_runs(results),
    ensures
        stop::block_reasons(results).len() == stop::blocking_fragments(results).len(),
        forall|i: int|
            0 <= i < stop::block_reasons(results).len() ==> stop::block_reasons(results)[i]
                == #[trigger] stop::blocking_fragments(results)[i].text,
        stop::any_blocks(results) ==> stop::block_reasons(results).len() > 0,
    decreases results.len(),
{
    if results.len() > 0 {
        let shorter = results.drop_last();
        assert forall|i: int| 0 <= i < shorter.len() implies exists|
            verdict: Verdict,
            run_id: Seq<char>,
        |
            (#[trigger] shorter[i]) == #[trigger] stop::decision_of(verdict, run_id) by {
            assert(shorter[i] == results[i]);
        }
        blocks_have_fragments(shorter);
        stop::any_grows(shorter, results.last());
        assert(shorter.push(results.last()) =~= results);
        let last = results[results.len() - 1];
        let (verdict, run_id) = choose|verdict: Verdict, run_id: Seq<char>|
            last == #[trigger] stop::decision_of(verdict, run_id);
        assert(last == stop::decision_of(verdict, run_id));
    }
}

/// If hooks block together there is a reason, and the fragments are the reasons of
/// the hooks that block, one each, in order.
pub proof fn blocks_are_explained(results: Seq<StopHandlerDataView>)
    requires
        made_by_runs(results),
        stop::aggregate_of(results).should_block,
    ensures
        ({
            let together = stop::aggregate_of(results);
            let texts = together.continuation_fragments.map_values(
                |fragment: HookPromptFragmentView| fragment.text,
            );
            &&& texts.len() > 0
            &&& together.block_reason == Some(text::joined(texts))
        }),
{
    blocks_have_fragments(results);
    let texts = stop::blocking_fragments(results).map_values(
        |fragment: HookPromptFragmentView| fragment.text,
    );
    assert forall|i: int| 0 <= i < texts.len() implies texts[i] == stop::block_reasons(results)[i] by {
        assert(texts[i] == stop::blocking_fragments(results)[i].text);
    }
    assert(texts =~= stop::block_reasons(results));
}

/// The outcome of a run tells of each matched handler, in order, and never both
/// stops all work and blocks.
pub proof fn outcomes_cover_the_handlers(
    matched: Seq<ConfiguredHandlerView>,
    results: Seq<CommandRunResultView>,
    turn_id: Seq<char>,
)
    requires
        results.len() == matched.len(),
    ensures
        ({
            let outcome = stop_run::outcome_of(stop_run::completions(matched, results, turn_id));
            &&& outcome.hook_events.len() == matched.len()
            &&& forall|i: int|
                0 <= i < matched.len() ==> (#[trigger] outcome.hook_events[i]).run.id
                    == engine::run_id_of(matched[i]) && outcome.hook_events[i].turn_id == Some(
                    turn_id,
                )
            &&& !(outcome.decision.should_stop && outcome.decision.should_block)
            &&& outcome.decision.should_block ==> outcome.decision.block_reason is Some
                && outcome.decision.continuation_fragments.len() > 0
        }),
{
    let ends = stop_run::completions(matched, results, turn_id);
    let data = ends.map_values(|run: stop::CompletionView| run.data);
    assert forall|i: int| 0 <= i < data.len() implies exists|verdict: Verdict, run_id: Seq<char>|
        (#[trigger] data[i]) == #[trigger] stop::decision_of(verdict, run_id) by {
        let verdict = stop::verdict(
            matched[i].event_name,
            results[i],
            output_parser::stop_output(results[i].stdout, matched[i].event_name),
        );
        assert(data[i] == stop::decision_of(verdict, engine::run_id_of(matched[i])));
    }
    if stop::aggregate_of(data).should_block {
        blocks_are_explained(data);
    }
}

/// Input that cannot be written neither stops nor blocks: every matched handler's
/// run fails, and says why.
pub proof fn unwritten_input_decides_nothing(
    matched: Seq<ConfiguredHandlerView>,
    request: StopRequest,
    error: Seq<char>,
    at: i64,
)
    ensures
        ({
            let outcome = stop_run::failure_outcome(matched, request, error, at);
            &&& outcome.decision == stop::no_decision()
            &&& outcome.hook_events.len() == matched.len()
            &&& forall|i: int|
                0 <= i < matched.len() ==> (#[trigger] outcome.hook_events[i]).run.status
                    == HookRunStatus::Failed && outcome.hook_events[i].run.entries == seq![
                    HookOutputEntryView {
                        kind: HookOutputEntryKind::Error,
                        text: stop_run::serialization_failure(request.target, error),
                    },
                ]
        }),
{
}

/// How many events a run in this phase can still take.
pub open spec fn events_left(phase: RunPhase) -> nat {
    match phase {
        RunPhase::Collecting => 3,
        RunPhase::Serializing => 2,
        RunPhase::Executing => 1,
        RunPhase::Finished => 0,
    }
}

/// Every event brings a run closer to its end, and none is expected after that.
pub proof fn runs_come_to_an_end(phase: RunPhase, matched: nat, event: RunEvent)
    requires
        stop_run::expects(phase, matched, event),
    ensures
        events_left(stop_run::next_phase(event)) < events_left(phase),
        phase != RunPhase::Finished,
{
}

/// Whether nothing is decided: neither to stop nor to block, and with no reasons.
pub open spec fn undecided(data: StopHandlerDataView) -> bool {
    &&& !data.should_stop
    &&& !data.should_block
    &&& data.stop_reason is None
    &&& data.block_reason is None
    &&& data.continuation_fragments.len() == 0
}

/// Whether the agent is kept from stopping for just this reason, which the run with
/// this id puts into the next prompt.
pub open spec fn blocks_for(
    data: StopHandlerDataView,
    reason: Seq<char>,
    run_id: Seq<char>,
) -> bool {
    &&& !data.should_stop
    &&& data.should_block
    &&& data.stop_reason is None
    &&& data.block_reason == Some(reason)
    &&& data.continuation_fragments.len() == 1
    &&& data.continuation_fragments[0].text == reason
    &&& data.continuation_fragments[0].hook_run_id == run_id
}

/// Whether a run's entries are these warnings and then this one entry.
pub open spec fn warns_and_says(
    entries: Seq<HookOutputEntryView>,
    warning: Option<Seq<char>>,
    kind: HookOutputEntryKind,
    words: Seq<char>,
) -> bool {
    let n: int = if warning is Some {
        1
    } else {
        0
    };
    &&& entries.len() == n + 1
    &&& warning matches Some(w) ==> entries[0].kind == HookOutputEntryKind::Warning
        && entries[0].text == w
    &&& entries[n].kind == kind
    &&& entries[n].text == words
}

/// Whether a run's entries are these warnings alone.
pub open spec fn only_warns(entries: Seq<HookOutputEntryView>, warning: Option<Seq<char>>) -> bool {
    match warning {
        Some(w) => entries.len() == 1 && entries[0].kind == HookOutputEntryKind::Warning
            && entries[0].text == w,
        None => entries.len() == 0,
    }
}

/// Whether a run failed with these words as its only entry, and decided nothing.
pub open spec fn fails_with(end: CompletionView, words: Seq<char>) -> bool {
    &&& end.completed.run.status == HookRunStatus::Failed
    &&& warns_and_says(end.completed.run.entries, None, HookOutputEntryKind::Error, words)
    &&& undecided(end.data)
}

/// The neutral decision decides nothing, and is the only one that does so.
pub proof fn neutral_decision_decides_nothing(data: StopHandlerDataView)
    ensures
        undecided(data) <==> data == stop::no_decision(),
{
    if undecided(data) {
        assert(data =~= stop::no_decision());
    }
}

/// The end of a run tells of its handler, its command and its turn.
pub proof fn ends_tell_of_their_runs(
    handler: ConfiguredHandlerView,
    run_result: CommandRunResultView,
    output: Option<StopHookOutputView>,
    turn_id: Option<Seq<char>>,
)
    ensures
        ({
            let end = stop::completion(handler, run_result, output, turn_id);
            let run = end.completed.run;
            &&& end.completed.turn_id == turn_id
            &&& end.completion_order == 0
            &&& run.id == engine::run_id_of(handler)
            &&& run.event_name == handler.event_name
            &&& run.source_path == handler.source_path
            &&& run.display_order == handler.display_order
            &&& run.status_message == handler.status_message
            &&& run.started_at == run_result.started_at
            &&& run.completed_at == Some(run_result.completed_at)
            &&& run.duration_ms == Some(run_result.duration_ms)
        }),
{
}

/// A hook whose command could not be run, or ended without an exit code, or with one
/// that is neither 0 nor 2, fails and decides nothing, whatever it wrote.
pub proof fn unsuccessful_commands_fail(
    handler: ConfiguredHandlerView,
    run_result: CommandRunResultView,
    output: Option<StopHookOutputView>,
    turn_id: Option<Seq<char>>,
)
    ensures
        ({
            let end = stop::completion(handler, run_result, output, turn_id);
            &&& run_result.error matches Some(error) ==> fails_with(end, error)
            &&& run_result.error is None && run_result.exit_code is None ==> fails_with(
                end,
                "hook exited without a status code"@,
            )
            &&& run_result.error is None && run_result.exit_code is Some && run_result.exit_code->0
                != 0 && run_result.exit_code->0 != 2 ==> fails_with(
                end,
                "hook exited with code "@ + text::decimal(run_result.exit_code->0 as int),
            )
        }),
{
}

/// A hook that exits with code 2 blocks for what it wrote to standard error, trimmed.
/// If that is blank, it fails, in the words for its event, and decides nothing.
pub proof fn exit_code_two_blocks_for_standard_error(
    handler: ConfiguredHandlerView,
    run_result: CommandRunResultView,
    output: Option<StopHookOutputView>,
    turn_id: Option<Seq<char>>,
)
    requires
        run_result.error is None,
        run_result.exit_code == Some(2i32),
    ensures
        ({
            let end = stop::completion(handler, run_result, output, turn_id);
            let run = end.completed.run;
            let reason = text::trimmed(run_result.stderr);
            let blank = forall|i: int|
                0 <= i < run_result.stderr.len() ==> text::is_white_space(
                    #[trigger] run_result.stderr[i],
                );
            &&& !blank ==> run.status == HookRunStatus::Blocked
            &&& !blank ==> warns_and_says(run.entries, None, HookOutputEntryKind::Feedback, reason)
            &&& !blank ==> blocks_for(end.data, reason, engine::run_id_of(handler))
            &&& blank && handler.event_name == HookEventName::Stop ==> fails_with(
                end,
                "Stop hook exited with code 2 but did not write a continuation prompt to stderr"@,
            )
            &&& blank && handler.event_name == HookEventName::SubagentStop ==> fails_with(
                end,
                "SubagentStop hook exited with code 2 but did not write a continuation prompt to stderr"@,
            )
        }),
{
    text::blank_text_is_all_white_space(run_result.stderr);
}

/// A hook that succeeds and writes nothing but white space passes; one that writes
/// anything that is not valid output fails, in the words for its event.
pub proof fn successful_commands_may_be_silent_but_not_invalid(
    handler: ConfiguredHandlerView,
    run_result: CommandRunResultView,
    output: Option<StopHookOutputView>,
    turn_id: Option<Seq<char>>,
)
    requires
        run_result.error is None,
        run_result.exit_code == Some(0i32),
    ensures
        ({
            let end = stop::completion(handler, run_result, output, turn_id);
            let run = end.completed.run;
            let blank = forall|i: int|
                0 <= i < run_result.stdout.len() ==> text::is_white_space(
                    #[trigger] run_result.stdout[i],
                );
            &&& blank ==> run.status == HookRunStatus::Completed && run.entries.len() == 0
                && undecided(end.data)
            &&& !blank && output is None && handler.event_name == HookEventName::Stop
                ==> fails_with(end, "hook returned invalid stop hook JSON output"@)
            &&& !blank && output is None && handler.event_name == HookEventName::SubagentStop
                ==> fails_with(end, "hook returned invalid subagent stop hook JSON output"@)
        }),
{
    text::blank_text_is_all_white_space(run_result.stdout);
}

/// Valid output of a hook that succeeds decides in this order. If it does not want the
/// agent to go on, all work stops, for its stop reason. If its decision to block is
/// invalid, the run fails with the complaint. If it does not block, it passes. If it
/// blocks for a reason that is not blank, it blocks for that reason, trimmed. Else it
/// fails. Its message for the user, if any, stands first among the entries.
pub proof fn valid_output_decides(
    handler: ConfiguredHandlerView,
    run_result: CommandRunResultView,
    output: StopHookOutputView,
    turn_id: Option<Seq<char>>,
)
    requires
        run_result.error is None,
        run_result.exit_code == Some(0i32),
        exists|i: int|
            0 <= i < run_result.stdout.len() && !text::is_white_space(
                #[trigger] run_result.stdout[i],
            ),
    ensures
        ({
            let end = stop::completion(handler, run_result, Some(output), turn_id);
            let run = end.completed.run;
            let warning = output.universal.system_message;
            let goes_on = output.universal.continue_processing;
            let invalid = output.invalid_block_reason is Some;
            let reasoned = output.reason is Some && exists|i: int|
                0 <= i < output.reason->0.len() && !text::is_white_space(
                    #[trigger] output.reason->0[i],
                );
            &&& !goes_on ==> {
                &&& run.status == HookRunStatus::Stopped
                &&& end.data.should_stop
                &&& !end.data.should_block
                &&& end.data.stop_reason == output.universal.stop_reason
                &&& end.data.block_reason is None
                &&& end.data.continuation_fragments.len() == 0
                &&& match output.universal.stop_reason {
                    Some(words) => warns_and_says(
                        run.entries,
                        warning,
                        HookOutputEntryKind::Stop,
                        words,
                    ),
                    None => only_warns(run.entries, warning),
                }
            }
            &&& goes_on && invalid ==> {
                &&& run.status == HookRunStatus::Failed
                &&& undecided(end.data)
                &&& warns_and_says(
                    run.entries,
                    warning,
                    HookOutputEntryKind::Error,
                    output.invalid_block_reason->0,
                )
            }
            &&& goes_on && !invalid && !output.should_block ==> {
                &&& run.status == HookRunStatus::Completed
                &&& undecided(end.data)
                &&& only_warns(run.entries, warning)
            }
            &&& goes_on && !invalid && output.should_block && reasoned ==> {
                let reason = text::trimmed(output.reason->0);
                &&& run.status == HookRunStatus::Blocked
                &&& blocks_for(end.data, reason, engine::run_id_of(handler))
                &&& warns_and_says(run.entries, warning, HookOutputEntryKind::Feedback, reason)
            }
            &&& goes_on && !invalid && output.should_block && !reasoned ==> {
                &&& run.status == HookRunStatus::Failed
                &&& undecided(end.data)
                &&& handler.event_name == HookEventName::Stop ==> warns_and_says(
                    run.entries,
                    warning,
                    HookOutputEntryKind::Error,
                    "Stop hook returned decision:block without a non-empty reason"@,
                )
                &&& handler.event_name == HookEventName::SubagentStop ==> warns_and_says(
                    run.entries,
                    warning,
                    HookOutputEntryKind::Error,
                    "SubagentStop hook returned decision:block without a non-empty reason"@,
                )
            }
        }),
{
    text::blank_text_is_all_white_space(run_result.stdout);
    if let Some(reason) = output.reason {
        text::blank_text_is_all_white_space(reason);
    }
}

/// A run ends `Blocked` only if its command exited with code 2 and wrote a reason to
/// standard error, or succeeded with output that decides to block; and `Stopped` only
/// if it succeeded with output that does not want the agent to go on.
pub proof fn runs_block_or_stop_only_on_purpose(
    handler: ConfiguredHandlerView,
    run_result: CommandRunResultView,
    output: Option<StopHookOutputView>,
    turn_id: Option<Seq<char>>,
)
    ensures
        ({
            let status = stop::completion(handler, run_result, output, turn_id).completed.run.status;
            &&& status == HookRunStatus::Blocked ==> {
                &&& run_result.error is None
                &&& run_result.exit_code == Some(2i32) || (run_result.exit_code == Some(0i32)
                    && output is Some && output->0.should_block
                    && output->0.universal.continue_processing
                    && output->0.invalid_block_reason is None)
            }
            &&& status == HookRunStatus::Stopped ==> {
                &&& run_result.error is None
                &&& run_result.exit_code == Some(0i32)
                &&& output is Some
                &&& !output->0.universal.continue_processing
            }
        }),
{
}

/// Each agent's stop is an event of its own, and both are events of stop hooks; no
/// other event is.
pub proof fn targets_have_their_own_events(target: StopHookTarget, event_name: HookEventName)
    ensures
        target is Stop ==> target.event() == HookEventName::Stop,
        target is SubagentStop ==> target.event() == HookEventName::SubagentStop,
        stop::is_stop_event(event_name) <==> event_name != HookEventName::Other,
{
}

/// Together hooks stop all work just if one of them does, and block just if none stops
/// all work and one of them blocks. If they do not block, there is neither a reason to
/// block nor a fragment.
pub proof fn decisions_together(results: Seq<StopHandlerDataView>)
    ensures
        ({
            let together = stop::aggregate_of(results);
            let stops = exists|i: int| 0 <= i < results.len() && (#[trigger] results[i]).should_stop;
            let blocks = exists|i: int|
                0 <= i < results.len() && (#[trigger] results[i]).should_block;
            &&& together.should_stop <==> stops
            &&& together.should_block <==> blocks && !stops
            &&& !together.should_block ==> together.block_reason is None
                && together.continuation_fragments.len() == 0
        }),
{
}

/// The stop reason of all hooks together is that of the first hook that gives one.
pub proof fn first_stop_reason_counts(results: Seq<StopHandlerDataView>, i: int)
    requires
        0 <= i <= results.len(),
        forall|k: int| 0 <= k < i ==> (#[trigger] results[k]).stop_reason is None,
        i < results.len() ==> results[i].stop_reason is Some,
    ensures
        stop::aggregate_of(results).stop_reason == (if i < results.len() {
            results[i].stop_reason
        } else {
            None
        }),
    decreases results.len(),
{
    if results.len() > 0 {
        let shorter = results.drop_last();
        assert forall|k: int| 0 <= k < i && k < shorter.len() implies (
        #[trigger] shorter[k]).stop_reason is None by {
            assert(shorter[k] == results[k]);
        }
        if i >= shorter.len() {
            first_stop_reason_counts(shorter, shorter.len() as int);
        } else {
            assert(shorter[i] == results[i]);
            first_stop_reason_counts(shorter, i);
        }
    }
}

proof fn decisions_around(results: Seq<StopHandlerDataView>, i: int)
    requires
        0 <= i < results.len(),
    ensures
        stop::block_reasons(results) == stop::block_reasons(results.take(i)) + (
        match results[i].block_reason {
            Some(reason) => seq![reason],
            None => Seq::empty(),
        }) + stop::block_reasons(results.skip(i + 1)),
        stop::blocking_fragments(results) == stop::blocking_fragments(results.take(i)) + (
        if results[i].should_block {
            results[i].continuation_fragments
        } else {
            Seq::empty()
        }) + stop::blocking_fragments(results.skip(i + 1)),
{
    let (x, one, y) = (results.take(i), seq![results[i]], results.skip(i + 1));
    decisions_stay_in_order(x, one);
    decisions_stay_in_order(x + one, y);
    assert(results =~= x + one + y);
    assert(one.drop_last() =~= Seq::empty());
    reveal_with_fuel(stop::block_reasons, 2);
    reveal_with_fuel(stop::blocking_fragments, 2);
    assert(stop::block_reasons(one) =~= (match results[i].block_reason {
        Some(reason) => seq![reason],
        None => Seq::empty(),
    }));
    assert(stop::blocking_fragments(one) =~= (if results[i].should_block {
        results[i].continuation_fragments
    } else {
        Seq::empty()
    }));
}

/// If hooks block together, every reason to block that one of them gives stands in
/// the reason in one piece, and every fragment of a hook that blocks is handed on.
pub proof fn every_block_is_heard(results: Seq<StopHandlerDataView>, i: int)
    requires
        0 <= i < results.len(),
        stop::aggregate_of(results).should_block,
    ensures
        results[i].block_reason matches Some(reason) ==> exists|
            before: Seq<char>,
            after: Seq<char>,
        |
            stop::aggregate_of(results).block_reason == Some(#[trigger] (before + reason + after)),
        results[i].should_block ==> exists|
            before: Seq<HookPromptFragmentView>,
            after: Seq<HookPromptFragmentView>,
        |
            stop::aggregate_of(results).continuation_fragments == #[trigger] (before
                + results[i].continuation_fragments + after),
{
    decisions_around(results, i);
    if let Some(reason) = results[i].block_reason {
        let reasons = stop::block_reasons(results);
        let n = stop::block_reasons(results.take(i)).len() as int;
        assert(reasons[n] == reason);
        text::every_chunk_is_in_the_joined_text(reasons, n);
        let (before, after) = choose|before: Seq<char>, after: Seq<char>|
            text::joined(reasons) == #[trigger] (before + reasons[n] + after);
        assert(stop::aggregate_of(results).block_reason == Some(before + reason + after));
    }
    if results[i].should_block {
        let before = stop::blocking_fragments(results.take(i));
        let after = stop::blocking_fragments(results.skip(i + 1));
        assert(stop::aggregate_of(results).continuation_fragments == before
            + results[i].continuation_fragments + after);
    }
}

/// If two groups of hooks block each for itself, the reason of all together is that of
/// the one, an empty line, and that of the other; and so are the fragments, without a
/// line between.
pub proof fn groups_that_block_add_up(
    first: Seq<StopHandlerDataView>,
    second: Seq<StopHandlerDataView>,
)
    requires
        stop::aggregate_of(first).block_reason is Some,
        stop::aggregate_of(second).block_reason is Some,
    ensures
        ({
            let (x, y) = (stop::aggregate_of(first), stop::aggregate_of(second));
            let together = stop::aggregate_of(first + second);
            &&& together.should_block
            &&& together.block_reason == Some(
                x.block_reason->0 + seq!['\n', '\n'] + y.block_reason->0,
            )
            &&& together.continuation_fragments == x.continuation_fragments
                + y.continuation_fragments
        }),
{
    decisions_stay_in_order(first, second);
    text::joining_keeps_every_chunk(
        stop::block_reasons(first),
        stop::block_reasons(second),
        Seq::empty(),
    );
}

/// One hook alone that blocks gives its own reason and fragments.
pub proof fn lone_block_is_handed_on(data: StopHandlerDataView)
    requires
        data.should_block,
        !data.should_stop,
    ensures
        stop::aggregate_of(seq![data]) == data,
{
    let one = seq![data];
    decisions_around(one, 0);
    decisions_together(one);
    assert(one[0] == data);
    let none = Seq::<StopHandlerDataView>::empty();
    assert(one.take(0) =~= none);
    assert(one.skip(1) =~= none);
    if data.stop_reason is Some {
        first_stop_reason_counts(one, 0);
    } else {
        first_stop_reason_counts(one, 1);
    }
    if let Some(reason) = data.block_reason {
        assert(stop::block_reasons(one) =~= seq![reason]);
        text::joining_keeps_every_chunk(stop::block_reasons(one), stop::block_reasons(none), reason);
    } else {
        assert(stop::block_reasons(one) =~= Seq::empty());
    }
    assert(stop::blocking_fragments(one) =~= data.continuation_fragments);
    assert(stop::aggregate_of(one) =~= data);
}

/// What the hooks for any agent are told.
pub open spec fn shared_part(input: HookInputView) -> SharedInputView {
    match input {
        HookInputView::Stop(shared) => shared,
        HookInputView::SubagentStop(shared, _) => shared,
    }
}

/// The hooks are told everything that the request holds, and the changed files; those
/// for a subagent are told which one it is besides.
pub proof fn input_carries_the_whole_request(
    request: StopRequest,
    changed_files: Option<Seq<Seq<char>>>,
)
    ensures
        ({
            let input = stop_run::input_for(request, changed_files);
            let shared = shared_part(input);
            &&& shared.session_id == request.session_id@
            &&& shared.turn_id == request.turn_id@
            &&& shared.transcript_path == request.transcript_path.deep_view()
            &&& shared.cwd == request.cwd@
            &&& shared.model == request.model@
            &&& shared.permission_mode == request.permission_mode@
            &&& shared.stop_hook_active == request.stop_hook_active
            &&& shared.last_assistant_message == request.last_assistant_message.deep_view()
            &&& shared.changed_files == changed_files
            &&& match request.target {
                StopHookTarget::Stop => input is Stop && shared.hook_event_name == "Stop"@,
                StopHookTarget::SubagentStop { agent_id, agent_type, agent_transcript_path } => {
                    &&& input matches HookInputView::SubagentStop(_, agent)
                    &&& shared.hook_event_name == "SubagentStop"@
                    &&& agent.agent_id == agent_id@
                    &&& agent.agent_type == agent_type@
                    &&& agent.agent_transcript_path == agent_transcript_path.deep_view()
                },
            }
        }),
{
}

/// Two requests whose hooks are told the same agree in everything that they hold.
pub proof fn requests_are_recovered_from_their_inputs(
    request: StopRequest,
    other: StopRequest,
    changed_files: Option<Seq<Seq<char>>>,
    other_files: Option<Seq<Seq<char>>>,
)
    requires
        stop_run::input_for(request, changed_files) == stop_run::input_for(other, other_files),
    ensures
        changed_files == other_files,
        request.session_id@ == other.session_id@,
        request.turn_id@ == other.turn_id@,
        request.transcript_path.deep_view() == other.transcript_path.deep_view(),
        request.cwd@ == other.cwd@,
        request.model@ == other.model@,
        request.permission_mode@ == other.permission_mode@,
        request.stop_hook_active == other.stop_hook_active,
        request.last_assistant_message.deep_view() == other.last_assistant_message.deep_view(),
        request.target is Stop <==> other.target is Stop,
{
    input_carries_the_whole_request(request, changed_files);
    input_carries_the_whole_request(other, other_files);
}

/// The end of each command is read as the end of the handler at the same place, from
/// what it wrote itself.
pub proof fn results_belong_to_their_handlers(
    matched: Seq<ConfiguredHandlerView>,
    results: Seq<CommandRunResultView>,
    turn_id: Seq<char>,
    i: int,
)
    ensures
        stop_run::completions(matched, results, turn_id).len() == matched.len(),
        0 <= i < matched.len() ==> stop_run::completions(matched, results, turn_id)[i]
            == stop::completion(
            matched[i],
            results[i],
            output_parser::stop_output(results[i].stdout, matched[i].event_name),
            Some(turn_id),
        ),
{
}

/// The outcome of runs hands on the news of each, in order, and what their decisions
/// come to together; so two runs of the same decisions have the same outcome but for
/// the news.
pub proof fn outcomes_hand_on_news_and_decision(
    parsed: Seq<CompletionView>,
    decisions: Seq<StopHandlerDataView>,
    i: int,
)
    requires
        decisions.len() == parsed.len(),
        forall|k: int| 0 <= k < parsed.len() ==> decisions[k] == (#[trigger] parsed[k]).data,
    ensures
        stop_run::outcome_of(parsed).hook_events.len() == parsed.len(),
        0 <= i < parsed.len() ==> stop_run::outcome_of(parsed).hook_events[i] == parsed[i].completed,
        stop_run::outcome_of(parsed).decision == stop::aggregate_of(decisions),
{
    assert(parsed.map_values(|run: CompletionView| run.data) =~= decisions);
}

/// Input that cannot be written is told to each matched handler's run, in order, in the
/// words for the agent that stops and with the error; and nothing is decided.
pub proof fn unwritten_input_is_told_of(
    matched: Seq<ConfiguredHandlerView>,
    request: StopRequest,
    error: Seq<char>,
    at: i64,
    i: int,
)
    ensures
        ({
            let outcome = stop_run::failure_outcome(matched, request, error, at);
            let words = if request.target is Stop {
                "failed to serialize stop hook input: "@ + error
            } else {
                "failed to serialize subagent stop hook input: "@ + error
            };
            &&& undecided(outcome.decision)
            &&& outcome.hook_events.len() == matched.len()
            &&& 0 <= i < matched.len() ==> {
                let event = outcome.hook_events[i];
                &&& event.turn_id == Some(request.turn_id@)
                &&& event.run.id == engine::run_id_of(matched[i])
                &&& event.run.event_name == matched[i].event_name
                &&& event.run.source_path == matched[i].source_path
                &&& event.run.display_order == matched[i].display_order
                &&& event.run.status_message == matched[i].status_message
                &&& event.run.status == HookRunStatus::Failed
                &&& event.run.started_at == at
                &&& event.run.completed_at == Some(at)
                &&& event.run.duration_ms == Some(0i64)
                &&& warns_and_says(event.run.entries, None, HookOutputEntryKind::Error, words)
            }
        }),
{
}

/// A run waits first for the changed files, then for its input, then for the commands,
/// one end for each handler. It is over after these, or when its input cannot be
/// written.
pub proof fn runs_go_step_by_step(phase: RunPhase, matched: nat, event: RunEvent)
    ensures
        event is ChangedFiles ==> (stop_run::expects(phase, matched, event) <==> phase
            == RunPhase::Collecting) && stop_run::next_phase(event) == RunPhase::Serializing,
        event is Serialized ==> (stop_run::expects(phase, matched, event) <==> phase
            == RunPhase::Serializing) && stop_run::next_phase(event) == RunPhase::Executing,
        event is SerializationFailed ==> (stop_run::expects(phase, matched, event) <==> phase
            == RunPhase::Serializing) && stop_run::next_phase(event) == RunPhase::Finished,
        event is Executed ==> (stop_run::expects(phase, matched, event) <==> phase
            == RunPhase::Executing && event->Executed_0@.len() == matched) && stop_run::next_phase(
            event,
        ) == RunPhase::Finished,
{
}

/// What is stated of decisions, outcomes and ended runs is stated of their own fields.
pub proof fn stop_views_are_faithful(
    data: StopHandlerData,
    outcome: StopOutcome,
    parsed: ParsedHandler<StopHandlerData>,
)
    ensures
        data.deep_view().should_stop == data.should_stop,
        data.deep_view().stop_reason == data.stop_reason.deep_view(),
        data.deep_view().should_block == data.should_block,
        data.deep_view().block_reason == data.block_reason.deep_view(),
        data.deep_view().continuation_fragments == data.continuation_fragments.deep_view(),
        outcome.deep_view().hook_events == outcome.hook_events.deep_view(),
        outcome.deep_view().decision.should_stop == outcome.should_stop,
        outcome.deep_view().decision.stop_reason == outcome.stop_reason.deep_view(),
        outcome.deep_view().decision.should_block == outcome.should_block,
        outcome.deep_view().decision.block_reason == outcome.block_reason.deep_view(),
        outcome.deep_view().decision.continuation_fragments
            == outcome.continuation_fragments.deep_view(),
        parsed.deep_view().completed == parsed.completed.deep_view(),
        parsed.deep_view().data == parsed.data.deep_view(),
        parsed.deep_view().completion_order == parsed.completion_order,
{
}

/// What is stated of the hooks' input is stated of its own fields.
pub proof fn input_views_are_faithful(input: HookInput)
    ensures
        match input {
            HookInput::Stop(fields) => {
                let shared = shared_part(input.deep_view());
                &&& input.deep_view() is Stop
                &&& shared.session_id == fields.session_id@
                &&& shared.turn_id == fields.turn_id@
                &&& shared.transcript_path == fields.transcript_path.deep_view()
                &&& shared.cwd == fields.cwd@
                &&& shared.hook_event_name == fields.hook_event_name@
                &&& shared.model == fields.model@
                &&& shared.permission_mode == fields.permission_mode@
                &&& shared.stop_hook_active == fields.stop_hook_active
                &&& shared.last_assistant_message == fields.last_assistant_message.deep_view()
                &&& shared.changed_files == fields.changed_files.deep_view()
            },
            HookInput::SubagentStop(fields) => {
                let shared = shared_part(input.deep_view());
                &&& input.deep_view() matches HookInputView::SubagentStop(_, agent)
                &&& shared.session_id == fields.session_id@
                &&& shared.turn_id == fields.turn_id@
                &&& shared.transcript_path == fields.transcript_path.deep_view()
                &&& shared.cwd == fields.cwd@
                &&& shared.hook_event_name == fields.hook_event_name@
                &&& shared.model == fields.model@
                &&& shared.permission_mode == fields.permission_mode@
                &&& shared.stop_hook_active == fields.stop_hook_active
                &&& shared.last_assistant_message == fields.last_assistant_message.deep_view()
                &&& shared.changed_files == fields.changed_files.deep_view()
                &&& agent.agent_transcript_path == fields.agent_transcript_path.deep_view()
                &&& agent.agent_id == fields.agent_id@
                &&& agent.agent_type == fields.agent_type@
            },
        },
{
}

} // verus!
