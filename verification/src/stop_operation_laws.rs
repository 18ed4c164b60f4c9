//! What the operations of stop hooks do, said of their arguments and results.
use vstd::prelude::*;

use crate::engine;
use crate::engine::{
    completed_summary, running_summary, select_handlers, serialization_failure_hook_events,
    CommandRunResult, ConfiguredHandler, ParsedHandler,
};
use crate::output_parser;
use crate::output_parser::{
    interpret_fields, parse_stop, parse_subagent_stop, JsonField, StopHookOutput, StopOutputFields,
};
use crate::protocol::{
    HookCompletedEvent, HookEventName, HookOutputEntry, HookOutputEntryKind, HookPromptFragment,
    HookPromptFragmentView, HookRunStatus, HookRunSummary,
};
use crate::stop;
use crate::stop::{
    aggregate_results, complete_run, parse_completed, preview, serialization_failure_outcome,
    StopHandlerData, StopHookTarget, StopOutcome, StopRequest,
};
use crate::stop_laws;
use crate::stop_run;
use crate::stop_run::{
    combine_runs, start_run, HookInput, RunAction, RunEvent, RunPhase, StopRun,
};
use crate::text;

verus! {

/// The handlers that are picked are those for the event whose matchers accept, in
/// their order: there are places, in ascending order, at which just these stand.
pub proof fn handlers_are_picked_in_order<'a>(
    handlers: &'a [ConfiguredHandler],
    event_name: HookEventName,
    accepted: &[bool],
    matched: Vec<&'a ConfiguredHandler>,
) -> (places: Seq<int>)
    requires
        accepted@.len() == handlers@.len(),
        call_ensures(select_handlers, (handlers, event_name, accepted), matched),
    ensures
        matched@.len() == places.len(),
        forall|k: int, l: int| 0 <= k < l < places.len() ==> #[trigger] places[k] < #[trigger] places[l],
        forall|k: int|
            0 <= k < places.len() ==> 0 <= #[trigger] places[k] < handlers@.len()
                && matched@[k].deep_view() == handlers@[places[k]].deep_view(),
        forall|i: int|
            0 <= i < handlers@.len() ==> ((#[trigger] handlers@[i]).event_name == event_name
                && accepted@[i] <==> places.contains(i)),
{
    let all = handlers.deep_view();
    let places = engine::selected_handlers_stand_at_matching_places(all, event_name, accepted@);
    assert(matched.deep_view().len() == matched@.len());
    assert forall|k: int| 0 <= k < places.len() implies 0 <= #[trigger] places[k] < handlers@.len()
        && matched@[k].deep_view() == handlers@[places[k]].deep_view() by {
        assert(matched.deep_view()[k] == all[places[k]]);
    }
    assert forall|i: int|
        0 <= i < handlers@.len() implies ((#[trigger] handlers@[i]).event_name == event_name
        && accepted@[i] <==> places.contains(i)) by {
        assert(all[i].event_name == handlers@[i].event_name);
        if places.contains(i) {
            let k = choose|k: int| 0 <= k < places.len() && places[k] == i;
            assert(all[places[k]].event_name == event_name);
        }
    }
    places
}

/// The id of a handler's run names its event, its place and its source.
pub proof fn run_ids_are_made_of_three_parts(handler: ConfiguredHandler, id: String)
    requires
        call_ensures(ConfiguredHandler::run_id, (&handler,), id),
    ensures
        id@ == (match handler.event_name {
            HookEventName::Stop => "stop:"@,
            HookEventName::SubagentStop => "subagent-stop:"@,
            HookEventName::Other => "other:"@,
        }) + text::decimal(handler.display_order as int) + seq![':'] + handler.source_path@,
{
    engine::run_ids_name_event_place_and_source(handler.deep_view());
}

/// Summaries of a handler's run tell of the handler, and of the run as far as it went.
pub proof fn summaries_tell_how_far_a_run_went(
    handler: ConfiguredHandler,
    result: CommandRunResult,
    status: HookRunStatus,
    entries: Vec<HookOutputEntry>,
    at: i64,
    id: String,
    going_on: HookRunSummary,
    ended: HookRunSummary,
)
    requires
        call_ensures(ConfiguredHandler::run_id, (&handler,), id),
        call_ensures(running_summary, (&handler, at), going_on),
        call_ensures(completed_summary, (&handler, &result, status, entries), ended),
    ensures
        going_on.id@ == id@,
        ended.id@ == id@,
        going_on.event_name == handler.event_name,
        ended.event_name == handler.event_name,
        going_on.source_path@ == handler.source_path@,
        ended.source_path@ == handler.source_path@,
        going_on.display_order == handler.display_order,
        ended.display_order == handler.display_order,
        going_on.status_message.deep_view() == handler.status_message.deep_view(),
        ended.status_message.deep_view() == handler.status_message.deep_view(),
        going_on.status == HookRunStatus::Running,
        ended.status == status,
        going_on.started_at == at,
        ended.started_at == result.started_at,
        going_on.completed_at is None,
        ended.completed_at == Some(result.completed_at),
        going_on.duration_ms is None,
        ended.duration_ms == Some(result.duration_ms),
        going_on.entries@.len() == 0,
        ended.entries.deep_view() == entries.deep_view(),
{
    assert(going_on.deep_view().id == going_on.id@);
    assert(ended.deep_view().id == ended.id@);
    assert(going_on.entries.deep_view().len() == going_on.entries@.len());
}

/// Handlers whose input cannot be written get one failed run each, in order, with the
/// message as its error.
pub proof fn failed_starts_are_reported_in_order(
    matched: &[&ConfiguredHandler],
    turn_id: Option<String>,
    message: String,
    at: i64,
    events: Vec<HookCompletedEvent>,
    i: int,
)
    requires
        call_ensures(
            serialization_failure_hook_events,
            (matched, turn_id, message, at),
            events,
        ),
    ensures
        events@.len() == matched@.len(),
        0 <= i < matched@.len() ==> {
            let event = events@[i];
            let entry = event.run.entries@[0];
            &&& event.turn_id.deep_view() == turn_id.deep_view()
            &&& event.run.id@ == engine::run_id_of(matched@[i].deep_view())
            &&& event.run.event_name == matched@[i].event_name
            &&& event.run.source_path@ == matched@[i].source_path@
            &&& event.run.display_order == matched@[i].display_order
            &&& event.run.status_message.deep_view() == matched@[i].status_message.deep_view()
            &&& event.run.status == HookRunStatus::Failed
            &&& event.run.started_at == at
            &&& event.run.completed_at == Some(at)
            &&& event.run.duration_ms == Some(0i64)
            &&& event.run.entries@.len() == 1
            &&& entry.kind == HookOutputEntryKind::Error
            &&& entry.text@ == message@
        },
{
    assert(events.deep_view().len() == events@.len());
    assert(matched.deep_view().len() == matched@.len());
    if 0 <= i < matched@.len() {
        let event = events@[i];
        assert(events.deep_view()[i] == event.deep_view());
        assert(matched.deep_view()[i] == matched@[i].deep_view());
        assert(event.run.entries.deep_view().len() == event.run.entries@.len());
        assert(event.run.entries.deep_view()[0] == event.run.entries@[0].deep_view());
    }
}

/// Output is valid just if its members have the right types. Then it says what they
/// say: the agent goes on unless `continue` is false, and is blocked if the decision
/// is to block and the reason is not blank.
pub proof fn output_says_what_its_members_say(
    fields: StopOutputFields,
    event_name: HookEventName,
    output: Option<StopHookOutput>,
)
    requires
        call_ensures(interpret_fields, (fields, event_name), output),
    ensures
        output is Some <==> {
            &&& fields.continue_processing matches Some(v) ==> v is Bool
            &&& fields.suppress_output matches Some(v) ==> v is Bool
            &&& fields.stop_reason matches Some(v) ==> v is Null || v is Text
            &&& fields.system_message matches Some(v) ==> v is Null || v is Text
            &&& fields.reason matches Some(v) ==> v is Null || v is Text
            &&& fields.decision matches Some(v) ==> v is Null || (v is Text && v->Text_0@
                == "block"@)
        },
        output matches Some(output) ==> {
            let decided = fields.decision is Some && fields.decision->0 is Text;
            let reasoned = fields.reason is Some && fields.reason->0 is Text && exists|i: int|
                0 <= i < fields.reason->0->Text_0@.len() && !text::is_white_space(
                    #[trigger] fields.reason->0->Text_0@[i],
                );
            &&& output.universal.continue_processing <==> fields.continue_processing != Some(
                JsonField::Bool(false),
            )
            &&& output.universal.suppress_output <==> fields.suppress_output == Some(
                JsonField::Bool(true),
            )
            &&& says_the_member(output.universal.stop_reason, fields.stop_reason)
            &&& says_the_member(output.universal.system_message, fields.system_message)
            &&& says_the_member(output.reason, fields.reason)
            &&& output.should_block <==> decided && reasoned
            &&& output.invalid_block_reason is Some <==> decided && !reasoned
        },
{
    let view = fields.deep_view();
    output_parser::valid_output_has_the_right_types(view, event_name);
    if output is Some {
        output_parser::block_decisions_count_with_a_reason(view, event_name);
    }
}

/// Whether a text is the one that a member holds, and absent if the member is no text.
pub open spec fn says_the_member(said: Option<String>, member: Option<JsonField>) -> bool {
    match member {
        Some(JsonField::Text(words)) => said is Some && said->0@ == words@,
        _ => said is None,
    }
}

/// A hook that a subagent's stop runs is read like one that the main agent's stop runs,
/// but for the words of a complaint.
pub proof fn both_events_read_output_alike(
    stdout: &str,
    output: Option<StopHookOutput>,
    other: Option<StopHookOutput>,
)
    requires
        call_ensures(parse_stop, (stdout,), output),
        call_ensures(parse_subagent_stop, (stdout,), other),
    ensures
        output is Some <==> other is Some,
        output_parser::json_object(stdout@) is None ==> output is None,
        output is Some && other is Some ==> {
            let (x, y) = (output->0, other->0);
            &&& x.universal.deep_view() == y.universal.deep_view()
            &&& x.should_block == y.should_block
            &&& x.reason.deep_view() == y.reason.deep_view()
            &&& x.invalid_block_reason is Some <==> y.invalid_block_reason is Some
            &&& x.invalid_block_reason matches Some(words) ==> words@
                == "Stop hook returned decision:block without a non-empty reason"@
            &&& y.invalid_block_reason matches Some(words) ==> words@
                == "SubagentStop hook returned decision:block without a non-empty reason"@
        },
{
}

/// Whether a text holds a character that is no white space.
pub open spec fn says_something(words: Seq<char>) -> bool {
    exists|i: int| 0 <= i < words.len() && !text::is_white_space(#[trigger] words[i])
}

/// Whether nothing is decided.
pub open spec fn decides_nothing(data: StopHandlerData) -> bool {
    &&& !data.should_stop
    &&& !data.should_block
    &&& data.stop_reason is None
    &&& data.block_reason is None
    &&& data.continuation_fragments@.len() == 0
}

/// Whether the agent is kept from stopping for just this reason, which goes into the
/// next prompt.
pub open spec fn decides_to_block(data: StopHandlerData, reason: Seq<char>) -> bool {
    &&& !data.should_stop
    &&& data.should_block
    &&& data.stop_reason is None
    &&& data.block_reason is Some
    &&& data.block_reason->0@ == reason
    &&& data.continuation_fragments@.len() == 1
    &&& data.continuation_fragments@[0].text@ == reason
}

/// Whether an ended run's last entry is of this kind and has these words.
pub open spec fn last_says(
    entries: Vec<HookOutputEntry>,
    kind: HookOutputEntryKind,
    words: Seq<char>,
) -> bool {
    &&& entries@.len() > 0
    &&& entries@.last().kind == kind
    &&& entries@.last().text@ == words
}

proof fn ends_are_seen_in_their_fields(parsed: ParsedHandler<StopHandlerData>)
    ensures
        ({
            let (view, entries) = (parsed.deep_view(), parsed.completed.run.entries);
            let fragments = parsed.data.continuation_fragments;
            &&& view.completed.run.entries.len() == entries@.len()
            &&& forall|i: int|
                0 <= i < entries@.len() ==> (#[trigger] view.completed.run.entries[i]).kind
                    == entries@[i].kind && view.completed.run.entries[i].text == entries@[i].text@
            &&& view.data.continuation_fragments.len() == fragments@.len()
            &&& forall|i: int|
                0 <= i < fragments@.len() ==> (#[trigger] view.data.continuation_fragments[i]).text
                    == fragments@[i].text@ && view.data.continuation_fragments[i].hook_run_id
                    == fragments@[i].hook_run_id@
            &&& stop_laws::undecided(view.data) <==> decides_nothing(parsed.data)
        }),
{
}

/// A command that could not be run, ended without an exit code, or with one that is
/// neither 0 nor 2, fails its run, and nothing is decided, whatever it wrote.
pub proof fn failed_commands_decide_nothing(
    handler: ConfiguredHandler,
    result: CommandRunResult,
    output: Option<StopHookOutput>,
    turn_id: Option<String>,
    parsed: ParsedHandler<StopHandlerData>,
)
    requires
        stop::is_stop_event(handler.event_name),
        call_ensures(complete_run, (&handler, &result, output, turn_id), parsed),
        result.error is Some || (result.exit_code != Some(0i32) && result.exit_code != Some(2i32)),
    ensures
        parsed.completed.run.status == HookRunStatus::Failed,
        decides_nothing(parsed.data),
        parsed.completed.run.entries@.len() == 1,
        last_says(
            parsed.completed.run.entries,
            HookOutputEntryKind::Error,
            match (result.error, result.exit_code) {
                (Some(error), _) => error@,
                (None, None) => "hook exited without a status code"@,
                (None, Some(code)) => "hook exited with code "@ + text::decimal(code as int),
            },
        ),
{
    stop_laws::unsuccessful_commands_fail(
        handler.deep_view(),
        result.deep_view(),
        output.deep_view(),
        turn_id.deep_view(),
    );
    ends_are_seen_in_their_fields(parsed);
}

/// A command that exits with code 2 blocks for what it wrote to standard error, without
/// the white space around it. If that is nothing, its run fails instead.
pub proof fn exit_code_two_blocks(
    handler: ConfiguredHandler,
    result: CommandRunResult,
    output: Option<StopHookOutput>,
    turn_id: Option<String>,
    parsed: ParsedHandler<StopHandlerData>,
)
    requires
        stop::is_stop_event(handler.event_name),
        call_ensures(complete_run, (&handler, &result, output, turn_id), parsed),
        result.error is None,
        result.exit_code == Some(2i32),
    ensures
        says_something(result.stderr@) ==> {
            let reason = text::trimmed(result.stderr@);
            &&& parsed.completed.run.status == HookRunStatus::Blocked
            &&& decides_to_block(parsed.data, reason)
            &&& last_says(parsed.completed.run.entries, HookOutputEntryKind::Feedback, reason)
        },
        !says_something(result.stderr@) ==> {
            &&& parsed.completed.run.status == HookRunStatus::Failed
            &&& decides_nothing(parsed.data)
            &&& last_says(
                parsed.completed.run.entries,
                HookOutputEntryKind::Error,
                if handler.event_name == HookEventName::Stop {
                    "Stop hook exited with code 2 but did not write a continuation prompt to stderr"@
                } else {
                    "SubagentStop hook exited with code 2 but did not write a continuation prompt to stderr"@
                },
            )
        },
        parsed.completed.run.entries@.len() == 1,
{
    stop_laws::exit_code_two_blocks_for_standard_error(
        handler.deep_view(),
        result.deep_view(),
        output.deep_view(),
        turn_id.deep_view(),
    );
    ends_are_seen_in_their_fields(parsed);
}

/// A command that succeeds in silence passes. What else it wrote must be valid output,
/// or its run fails.
pub proof fn silent_success_passes(
    handler: ConfiguredHandler,
    result: CommandRunResult,
    output: Option<StopHookOutput>,
    turn_id: Option<String>,
    parsed: ParsedHandler<StopHandlerData>,
)
    requires
        stop::is_stop_event(handler.event_name),
        call_ensures(complete_run, (&handler, &result, output, turn_id), parsed),
        result.error is None,
        result.exit_code == Some(0i32),
    ensures
        !says_something(result.stdout@) ==> {
            &&& parsed.completed.run.status == HookRunStatus::Completed
            &&& decides_nothing(parsed.data)
            &&& parsed.completed.run.entries@.len() == 0
        },
        says_something(result.stdout@) && output is None ==> {
            &&& parsed.completed.run.status == HookRunStatus::Failed
            &&& decides_nothing(parsed.data)
            &&& parsed.completed.run.entries@.len() == 1
            &&& last_says(
                parsed.completed.run.entries,
                HookOutputEntryKind::Error,
                if handler.event_name == HookEventName::Stop {
                    "hook returned invalid stop hook JSON output"@
                } else {
                    "hook returned invalid subagent stop hook JSON output"@
                },
            )
        },
{
    stop_laws::successful_commands_may_be_silent_but_not_invalid(
        handler.deep_view(),
        result.deep_view(),
        output.deep_view(),
        turn_id.deep_view(),
    );
    ends_are_seen_in_their_fields(parsed);
}

/// Valid output of a command that succeeds decides. An order to stop comes first, then
/// a complaint, then a decision to block for a reason; else the hook passes. A message
/// for the user stands first among the entries, as a warning.
pub proof fn valid_output_is_followed(
    handler: ConfiguredHandler,
    result: CommandRunResult,
    output: StopHookOutput,
    turn_id: Option<String>,
    parsed: ParsedHandler<StopHandlerData>,
)
    requires
        stop::is_stop_event(handler.event_name),
        call_ensures(complete_run, (&handler, &result, Some(output), turn_id), parsed),
        result.error is None,
        result.exit_code == Some(0i32),
        says_something(result.stdout@),
    ensures
        ({
            let (run, data) = (parsed.completed.run, parsed.data);
            let goes_on = output.universal.continue_processing;
            let invalid = output.invalid_block_reason is Some;
            let blocks = output.should_block;
            let reasoned = output.reason is Some && says_something(output.reason->0@);
            &&& output.universal.system_message matches Some(warning) ==> run.entries@.len() > 0
                && run.entries@[0].kind == HookOutputEntryKind::Warning && run.entries@[0].text@
                == warning@
            &&& !goes_on ==> {
                &&& run.status == HookRunStatus::Stopped
                &&& data.should_stop
                &&& !data.should_block
                &&& data.stop_reason.deep_view() == output.universal.stop_reason.deep_view()
                &&& data.block_reason is None
                &&& data.continuation_fragments@.len() == 0
                &&& output.universal.stop_reason matches Some(words) ==> last_says(
                    run.entries,
                    HookOutputEntryKind::Stop,
                    words@,
                )
            }
            &&& goes_on && invalid ==> {
                &&& run.status == HookRunStatus::Failed
                &&& decides_nothing(data)
                &&& last_says(
                    run.entries,
                    HookOutputEntryKind::Error,
                    output.invalid_block_reason->0@,
                )
            }
            &&& goes_on && !invalid && !blocks ==> {
                &&& run.status == HookRunStatus::Completed
                &&& decides_nothing(data)
                &&& output.universal.system_message is None ==> run.entries@.len() == 0
            }
            &&& goes_on && !invalid && blocks && reasoned ==> {
                let reason = text::trimmed(output.reason->0@);
                &&& run.status == HookRunStatus::Blocked
                &&& decides_to_block(data, reason)
                &&& last_says(run.entries, HookOutputEntryKind::Feedback, reason)
            }
            &&& goes_on && !invalid && blocks && !reasoned ==> {
                &&& run.status == HookRunStatus::Failed
                &&& decides_nothing(data)
                &&& last_says(
                    run.entries,
                    HookOutputEntryKind::Error,
                    if handler.event_name == HookEventName::Stop {
                        "Stop hook returned decision:block without a non-empty reason"@
                    } else {
                        "SubagentStop hook returned decision:block without a non-empty reason"@
                    },
                )
            }
        }),
{
    stop_laws::valid_output_decides(
        handler.deep_view(),
        result.deep_view(),
        output.deep_view(),
        turn_id.deep_view(),
    );
    ends_are_seen_in_their_fields(parsed);
}

/// The end of a run tells of its handler, its command and its turn; and what it puts
/// into the next prompt bears the run's id.
pub proof fn ended_runs_are_told_of(
    handler: ConfiguredHandler,
    result: CommandRunResult,
    output: Option<StopHookOutput>,
    turn_id: Option<String>,
    parsed: ParsedHandler<StopHandlerData>,
    id: String,
    i: int,
)
    requires
        stop::is_stop_event(handler.event_name),
        call_ensures(complete_run, (&handler, &result, output, turn_id), parsed),
        call_ensures(ConfiguredHandler::run_id, (&handler,), id),
    ensures
        ({
            let run = parsed.completed.run;
            &&& parsed.completed.turn_id.deep_view() == turn_id.deep_view()
            &&& parsed.completion_order == 0
            &&& run.id@ == id@
            &&& run.event_name == handler.event_name
            &&& run.source_path@ == handler.source_path@
            &&& run.display_order == handler.display_order
            &&& run.status_message.deep_view() == handler.status_message.deep_view()
            &&& run.started_at == result.started_at
            &&& run.completed_at == Some(result.completed_at)
            &&& run.duration_ms == Some(result.duration_ms)
            &&& 0 <= i < parsed.data.continuation_fragments@.len()
                ==> parsed.data.continuation_fragments@[i].hook_run_id@ == id@
        }),
{
    stop_laws::ends_tell_of_their_runs(
        handler.deep_view(),
        result.deep_view(),
        output.deep_view(),
        turn_id.deep_view(),
    );
    ends_are_seen_in_their_fields(parsed);
    let view = parsed.deep_view();
    if 0 <= i < parsed.data.continuation_fragments@.len() {
        assert(view.data.continuation_fragments[i].hook_run_id
            == parsed.data.continuation_fragments@[i].hook_run_id@);
    }
}

/// The end of a run is read from what its command wrote to standard output, as its
/// event has it read.
pub proof fn ends_are_read_from_standard_output(
    handler: ConfiguredHandler,
    result: CommandRunResult,
    turn_id: Option<String>,
    output: Option<StopHookOutput>,
    parsed: ParsedHandler<StopHandlerData>,
    other: ParsedHandler<StopHandlerData>,
    stdout: &str,
)
    requires
        stdout@ == result.stdout@,
        handler.event_name == HookEventName::Stop ==> call_ensures(parse_stop, (stdout,), output),
        handler.event_name == HookEventName::SubagentStop ==> call_ensures(
            parse_subagent_stop,
            (stdout,),
            output,
        ),
        stop::is_stop_event(handler.event_name),
        call_ensures(parse_completed, (&handler, result, turn_id), parsed),
        call_ensures(complete_run, (&handler, &result, output, turn_id), other),
    ensures
        parsed.deep_view() == other.deep_view(),
{
}

/// Each agent's stop has its own event, and only a subagent's has an input for the
/// matchers: its type.
pub proof fn targets_name_event_and_matcher_input(
    target: StopHookTarget,
    event_name: HookEventName,
    input: Option<&str>,
)
    requires
        call_ensures(StopHookTarget::event_name, (&target,), event_name),
        call_ensures(StopHookTarget::matcher_input, (&target,), input),
    ensures
        match target {
            StopHookTarget::Stop => event_name == HookEventName::Stop && input is None,
            StopHookTarget::SubagentStop { agent_type, .. } => event_name
                == HookEventName::SubagentStop && input is Some && input->0@ == agent_type@,
        },
{
}

/// A fragment holds the text and the run id that it was made with, and so does its
/// duplicate.
pub proof fn fragments_hold_what_they_are_made_with(
    words: String,
    id: String,
    fragment: HookPromptFragment,
    other: HookPromptFragment,
)
    requires
        call_ensures(HookPromptFragment::from_single_hook, (words, id), fragment),
        call_ensures(HookPromptFragment::duplicate, (&fragment,), other),
    ensures
        fragment.text@ == words@,
        fragment.hook_run_id@ == id@,
        other.text@ == words@,
        other.hook_run_id@ == id@,
{
    assert(other.deep_view().text == fragment.deep_view().text);
    assert(other.deep_view().hook_run_id == fragment.deep_view().hook_run_id);
}

/// Together hooks stop all work if one of them does, for the first reason that one of
/// them gives. They block if none stops all work and one of them blocks; then every
/// reason stands in the reason and every fragment of a hook that blocks is handed on.
pub proof fn every_hook_has_a_say(
    results: &[&StopHandlerData],
    aggregate: StopHandlerData,
    i: int,
)
    requires
        call_ensures(aggregate_results, (results,), aggregate),
        0 <= i <= results@.len(),
    ensures
        ({
            let stops = exists|k: int| 0 <= k < results@.len() && (#[trigger] results@[k]).should_stop;
            let blocks = exists|k: int|
                0 <= k < results@.len() && (#[trigger] results@[k]).should_block;
            &&& aggregate.should_stop <==> stops
            &&& aggregate.should_block <==> blocks && !stops
            &&& !aggregate.should_block ==> aggregate.block_reason is None
                && aggregate.continuation_fragments@.len() == 0
        }),
        (forall|k: int| 0 <= k < i ==> (#[trigger] results@[k]).stop_reason is None) ==> {
            &&& i < results@.len() && results@[i].stop_reason is Some
                ==> aggregate.stop_reason.deep_view() == results@[i].stop_reason.deep_view()
            &&& i == results@.len() ==> aggregate.stop_reason is None
        },
        aggregate.should_block && i < results@.len() ==> {
            &&& results@[i].block_reason is Some ==> exists|before: Seq<char>, after: Seq<char>|
                aggregate.block_reason is Some && aggregate.block_reason->0@ == #[trigger] (before
                    + results@[i].block_reason->0@ + after)
            &&& results@[i].should_block ==> forall|k: int|
                0 <= k < results@[i].continuation_fragments@.len()
                    ==> aggregate.continuation_fragments.deep_view().contains(
                    (#[trigger] results@[i].continuation_fragments@[k]).deep_view(),
                )
        },
{
    let all = results.deep_view();
    assert(all.len() == results@.len());
    assert forall|k: int| 0 <= k < all.len() implies #[trigger] all[k] == results@[k].deep_view() by {}
    stop_laws::decisions_together(all);
    let together = stop::aggregate_of(all);
    assert(aggregate.continuation_fragments.deep_view().len()
        == aggregate.continuation_fragments@.len());
    if exists|k: int| 0 <= k < results@.len() && (#[trigger] results@[k]).should_stop {
        let k = choose|k: int| 0 <= k < results@.len() && (#[trigger] results@[k]).should_stop;
        assert(all[k].should_stop);
    }
    if exists|k: int| 0 <= k < results@.len() && (#[trigger] results@[k]).should_block {
        let k = choose|k: int| 0 <= k < results@.len() && (#[trigger] results@[k]).should_block;
        assert(all[k].should_block);
    }
    if forall|k: int| 0 <= k < i ==> (#[trigger] results@[k]).stop_reason is None {
        assert forall|k: int| 0 <= k < i implies (#[trigger] all[k]).stop_reason is None by {
            assert(results@[k].stop_reason is None);
        }
        if i == all.len() || results@[i].stop_reason is Some {
            stop_laws::first_stop_reason_counts(all, i);
        }
    }
    if aggregate.should_block && i < all.len() {
        stop_laws::every_block_is_heard(all, i);
        if results@[i].block_reason is Some {
            let reason = results@[i].block_reason->0@;
            assert(all[i].block_reason == Some(reason));
            let (before, after) = choose|before: Seq<char>, after: Seq<char>|
                together.block_reason == Some(#[trigger] (before + reason + after));
            assert(aggregate.block_reason->0@ == before + reason + after);
        }
        if results@[i].should_block {
            let own = all[i].continuation_fragments;
            let (before, after) = choose|
                before: Seq<HookPromptFragmentView>,
                after: Seq<HookPromptFragmentView>,
            |
                together.continuation_fragments == #[trigger] (before + own + after);
            assert forall|k: int|
                0 <= k < results@[i].continuation_fragments@.len() implies aggregate.continuation_fragments.deep_view().contains(
            (#[trigger] results@[i].continuation_fragments@[k]).deep_view()) by {
                assert((before + own + after)[before.len() + k] == own[k]);
                assert(own[k] == results@[i].continuation_fragments@[k].deep_view());
            }
        }
    }
}

/// If some hooks block together, and some others, then all of them together block for
/// the one reason, an empty line and the other, with the fragments of both.
pub proof fn blocking_groups_add_up(
    first: &[&StopHandlerData],
    second: &[&StopHandlerData],
    all: &[&StopHandlerData],
    one: StopHandlerData,
    other: StopHandlerData,
    together: StopHandlerData,
)
    requires
        call_ensures(aggregate_results, (first,), one),
        call_ensures(aggregate_results, (second,), other),
        call_ensures(aggregate_results, (all,), together),
        all.deep_view() == first.deep_view() + second.deep_view(),
        one.block_reason is Some,
        other.block_reason is Some,
    ensures
        together.should_block,
        together.block_reason is Some,
        together.block_reason->0@ == one.block_reason->0@ + seq!['\n', '\n']
            + other.block_reason->0@,
        together.continuation_fragments.deep_view() == one.continuation_fragments.deep_view()
            + other.continuation_fragments.deep_view(),
{
    stop_laws::groups_that_block_add_up(first.deep_view(), second.deep_view());
}

/// One hook alone that blocks gives its own reason and fragments.
pub proof fn one_hook_speaks_for_itself(
    results: &[&StopHandlerData],
    aggregate: StopHandlerData,
)
    requires
        call_ensures(aggregate_results, (results,), aggregate),
        results@.len() == 1,
        results@[0].should_block,
        !results@[0].should_stop,
    ensures
        aggregate.deep_view() == results@[0].deep_view(),
{
    stop_laws::lone_block_is_handed_on(results@[0].deep_view());
    assert(results.deep_view() =~= seq![results@[0].deep_view()]);
}

/// The outcome of ended runs hands on the news of each, in order, and decides what
/// their decisions come to together.
pub proof fn outcomes_are_made_of_ended_runs(
    parsed: Vec<ParsedHandler<StopHandlerData>>,
    outcome: StopOutcome,
    results: &[&StopHandlerData],
    aggregate: StopHandlerData,
    i: int,
)
    requires
        call_ensures(combine_runs, (parsed,), outcome),
        call_ensures(aggregate_results, (results,), aggregate),
        results@.len() == parsed@.len(),
        forall|k: int|
            0 <= k < parsed@.len() ==> (#[trigger] results@[k]).deep_view()
                == parsed@[k].data.deep_view(),
    ensures
        outcome.hook_events@.len() == parsed@.len(),
        0 <= i < parsed@.len() ==> outcome.hook_events@[i].deep_view()
            == parsed@[i].completed.deep_view(),
        outcome.should_stop == aggregate.should_stop,
        outcome.stop_reason.deep_view() == aggregate.stop_reason.deep_view(),
        outcome.should_block == aggregate.should_block,
        outcome.block_reason.deep_view() == aggregate.block_reason.deep_view(),
        outcome.continuation_fragments.deep_view()
            == aggregate.continuation_fragments.deep_view(),
{
    let (ends, decisions) = (parsed.deep_view(), results.deep_view());
    assert(ends.len() == parsed@.len() && decisions.len() == results@.len());
    assert forall|k: int| 0 <= k < ends.len() implies decisions[k] == (#[trigger] ends[k]).data by {
        assert(decisions[k] == results@[k].deep_view());
        assert(ends[k] == parsed@[k].deep_view());
    }
    stop_laws::outcomes_hand_on_news_and_decision(ends, decisions, i);
    assert(outcome.hook_events.deep_view().len() == outcome.hook_events@.len());
    if 0 <= i < parsed@.len() {
        assert(outcome.hook_events.deep_view()[i] == outcome.hook_events@[i].deep_view());
        assert(ends[i] == parsed@[i].deep_view());
    }
}

/// Hooks whose input could not be written decide nothing, and the news of them is
/// handed on.
pub proof fn unwritten_input_leaves_the_agent_alone(
    hook_events: Vec<HookCompletedEvent>,
    outcome: StopOutcome,
)
    requires
        call_ensures(serialization_failure_outcome, (hook_events,), outcome),
    ensures
        outcome.hook_events.deep_view() == hook_events.deep_view(),
        !outcome.should_stop,
        !outcome.should_block,
        outcome.stop_reason is None,
        outcome.block_reason is None,
        outcome.continuation_fragments@.len() == 0,
{
    assert(outcome.continuation_fragments.deep_view().len()
        == outcome.continuation_fragments@.len());
}

/// Without any hooks nothing is decided, and there is no news.
pub proof fn nothing_is_decided_by_default(data: StopHandlerData, outcome: StopOutcome)
    requires
        call_ensures(StopHandlerData::default, (), data),
        call_ensures(StopOutcome::default, (), outcome),
    ensures
        decides_nothing(data),
        outcome.hook_events@.len() == 0,
        !outcome.should_stop,
        !outcome.should_block,
        outcome.stop_reason is None,
        outcome.block_reason is None,
        outcome.continuation_fragments@.len() == 0,
{
    assert(data.continuation_fragments.deep_view().len() == data.continuation_fragments@.len());
    assert(outcome.hook_events.deep_view().len() == outcome.hook_events@.len());
    assert(outcome.continuation_fragments.deep_view().len()
        == outcome.continuation_fragments@.len());
}

/// A preview shows a run that goes on for each handler that a run of the request would
/// pick, in order.
pub proof fn previews_show_the_picked_handlers<'a>(
    handlers: &'a [ConfiguredHandler],
    accepted: &[bool],
    request: StopRequest,
    started_at: i64,
    event_name: HookEventName,
    matched: Vec<&'a ConfiguredHandler>,
    runs: Vec<HookRunSummary>,
    run: HookRunSummary,
    i: int,
)
    requires
        accepted@.len() == handlers@.len(),
        call_ensures(preview, (handlers, accepted, &request, started_at), runs),
        call_ensures(StopHookTarget::event_name, (&request.target,), event_name),
        call_ensures(select_handlers, (handlers, event_name, accepted), matched),
        0 <= i < matched@.len() ==> call_ensures(running_summary, (matched@[i], started_at), run),
    ensures
        runs@.len() == matched@.len(),
        0 <= i < matched@.len() ==> runs@[i].deep_view() == run.deep_view(),
{
    assert(runs.deep_view().len() == runs@.len());
    assert(matched.deep_view().len() == matched@.len());
    if 0 <= i < matched@.len() {
        assert(runs.deep_view()[i] == runs@[i].deep_view());
        assert(matched.deep_view()[i] == matched@[i].deep_view());
    }
}

/// A run starts with the handlers that are picked for the request. Without any it is
/// over at once, with nothing decided; else the changed files are asked for first.
pub proof fn runs_start_with_the_picked_handlers<'a>(
    handlers: &'a [ConfiguredHandler],
    accepted: &[bool],
    request: StopRequest,
    event_name: HookEventName,
    matched: Vec<&'a ConfiguredHandler>,
    started: (StopRun<'a>, RunAction),
    phase: RunPhase,
    own: &[&'a ConfiguredHandler],
)
    requires
        accepted@.len() == handlers@.len(),
        call_ensures(start_run, (handlers, accepted, request), started),
        call_ensures(StopHookTarget::event_name, (&request.target,), event_name),
        call_ensures(select_handlers, (handlers, event_name, accepted), matched),
        call_ensures(StopRun::phase, (&started.0,), phase),
        call_ensures(StopRun::matched, (&started.0,), own),
    ensures
        started.0.asked() == request,
        own.deep_view() == matched.deep_view(),
        matched@.len() == 0 ==> {
            &&& phase == RunPhase::Finished
            &&& started.1 is Finish
            &&& started.1->Finish_0.hook_events@.len() == 0
            &&& stop_laws::undecided(started.1->Finish_0.deep_view().decision)
        },
        matched@.len() > 0 ==> phase == RunPhase::Collecting && started.1 is CollectChangedFiles,
{
    assert(matched.deep_view().len() == matched@.len());
    if matched@.len() == 0 {
        let outcome = started.1->Finish_0;
        assert(outcome.hook_events.deep_view().len() == outcome.hook_events@.len());
    }
}

/// Once the changed files are known, they and everything that the request holds are to
/// be written as the hooks' input. Once that is written, the commands are to be run
/// with just this text. The run keeps its request and its handlers all along.
pub proof fn runs_hand_the_whole_request_to_the_hooks<'a>(
    run: &mut StopRun<'a>,
    event: RunEvent,
    action: RunAction,
)
    requires
        stop_run::expects(old(run).stage(), old(run).handlers().len(), event),
        call_ensures(StopRun::advance, (run, event), action),
    ensures
        final(run).asked() == old(run).asked(),
        final(run).handlers() == old(run).handlers(),
        event matches RunEvent::Serialized(json) ==> final(run).stage() == RunPhase::Executing
            && action is Execute && action->Execute_0@ == json@,
        event matches RunEvent::ChangedFiles(files) ==> {
            let request = old(run).asked();
            &&& final(run).stage() == RunPhase::Serializing
            &&& action is Serialize
            &&& match (action->Serialize_0, request.target) {
                (HookInput::Stop(input), StopHookTarget::Stop) => {
                    &&& input.session_id@ == request.session_id@
                    &&& input.turn_id@ == request.turn_id@
                    &&& input.transcript_path.deep_view() == request.transcript_path.deep_view()
                    &&& input.cwd@ == request.cwd@
                    &&& input.hook_event_name@ == "Stop"@
                    &&& input.model@ == request.model@
                    &&& input.permission_mode@ == request.permission_mode@
                    &&& input.stop_hook_active == request.stop_hook_active
                    &&& input.last_assistant_message.deep_view()
                        == request.last_assistant_message.deep_view()
                    &&& input.changed_files.deep_view() == files.deep_view()
                },
                (
                    HookInput::SubagentStop(input),
                    StopHookTarget::SubagentStop { agent_id, agent_type, agent_transcript_path },
                ) => {
                    &&& input.session_id@ == request.session_id@
                    &&& input.turn_id@ == request.turn_id@
                    &&& input.transcript_path.deep_view() == request.transcript_path.deep_view()
                    &&& input.agent_transcript_path.deep_view() == agent_transcript_path.deep_view()
                    &&& input.cwd@ == request.cwd@
                    &&& input.hook_event_name@ == "SubagentStop"@
                    &&& input.model@ == request.model@
                    &&& input.permission_mode@ == request.permission_mode@
                    &&& input.stop_hook_active == request.stop_hook_active
                    &&& input.agent_id@ == agent_id@
                    &&& input.agent_type@ == agent_type@
                    &&& input.last_assistant_message.deep_view()
                        == request.last_assistant_message.deep_view()
                    &&& input.changed_files.deep_view() == files.deep_view()
                },
                _ => false,
            }
        },
{
    if let RunEvent::ChangedFiles(files) = event {
        stop_laws::input_carries_the_whole_request(old(run).asked(), files.deep_view());
        stop_laws::input_views_are_faithful(action->Serialize_0);
    }
}

/// A run whose input cannot be written is over, and decides nothing. Every handler's
/// run fails, in order, with the error.
pub proof fn runs_without_input_are_over<'a>(
    run: &mut StopRun<'a>,
    error: String,
    at: i64,
    action: RunAction,
    i: int,
)
    requires
        old(run).stage() == RunPhase::Serializing,
        call_ensures(
            StopRun::advance,
            (run, RunEvent::SerializationFailed { error, at }),
            action,
        ),
    ensures
        final(run).stage() == RunPhase::Finished,
        action is Finish,
        ({
            let outcome = action->Finish_0.deep_view();
            let words = if old(run).asked().target is Stop {
                "failed to serialize stop hook input: "@ + error@
            } else {
                "failed to serialize subagent stop hook input: "@ + error@
            };
            &&& stop_laws::undecided(outcome.decision)
            &&& outcome.hook_events.len() == old(run).handlers().len()
            &&& 0 <= i < old(run).handlers().len() ==> {
                let (event, handler) = (outcome.hook_events[i], old(run).handlers()[i]);
                &&& event.turn_id == Some(old(run).asked().turn_id@)
                &&& event.run.id == engine::run_id_of(handler)
                &&& event.run.status == HookRunStatus::Failed
                &&& event.run.started_at == at
                &&& event.run.completed_at == Some(at)
                &&& stop_laws::warns_and_says(
                    event.run.entries,
                    None,
                    HookOutputEntryKind::Error,
                    words,
                )
            }
        }),
{
    stop_laws::unwritten_input_is_told_of(old(run).handlers(), old(run).asked(), error@, at, i);
}

/// When the commands have ended, the run is over. Its outcome is what the ends come to
/// together, each read as the end of the handler at the same place.
pub proof fn executed_runs_are_over<'a>(
    run: &mut StopRun<'a>,
    results: Vec<CommandRunResult>,
    action: RunAction,
    parsed: Vec<ParsedHandler<StopHandlerData>>,
    matched: Seq<ConfiguredHandler>,
    turn_id: String,
    outcome: StopOutcome,
)
    requires
        old(run).stage() == RunPhase::Executing,
        call_ensures(StopRun::advance, (run, RunEvent::Executed(results)), action),
        results@.len() == old(run).handlers().len(),
        matched.len() == results@.len(),
        parsed@.len() == results@.len(),
        turn_id@ == old(run).asked().turn_id@,
        forall|i: int|
            0 <= i < matched.len() ==> (#[trigger] matched[i]).deep_view()
                == old(run).handlers()[i] && call_ensures(
                parse_completed,
                (&matched[i], results@[i], Some(turn_id)),
                parsed@[i],
            ),
        call_ensures(combine_runs, (parsed,), outcome),
    ensures
        final(run).stage() == RunPhase::Finished,
        action is Finish,
        action->Finish_0.deep_view() == outcome.deep_view(),
{
    let ends = stop_run::completions(
        old(run).handlers(),
        results.deep_view(),
        old(run).asked().turn_id@,
    );
    assert(results.deep_view().len() == results@.len());
    assert(parsed.deep_view().len() == parsed@.len());
    assert forall|i: int| 0 <= i < ends.len() implies #[trigger] ends[i] == parsed.deep_view()[i] by {
        assert(matched[i].deep_view() == old(run).handlers()[i]);
        assert(results.deep_view()[i] == results@[i].deep_view());
        assert(parsed.deep_view()[i] == parsed@[i].deep_view());
        assert(matched[i].event_name == old(run).handlers()[i].event_name);
    }
    assert(ends =~= parsed.deep_view());
}

} // verus!
