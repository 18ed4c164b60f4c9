//! Handlers and their runs, as far as every kind of hook shares them.
use vstd::prelude::*;

use crate::protocol::{
    HookCompletedEvent, HookCompletedEventView, HookEventName, HookOutputEntry,
    HookOutputEntryKind, HookOutputEntryView, HookRunStatus, HookRunSummary, HookRunSummaryView,
};
use crate::text;
use crate::text::{copy_text, decimal_text};

verus! {

/// A hook that is configured for an event.
#[derive(Debug, PartialEq, Eq)]
pub struct ConfiguredHandler {
    pub event_name: HookEventName,
    pub matcher: Option<String>,
    pub command: String,
    pub timeout_sec: u64,
    pub status_message: Option<String>,
    pub source_path: String,
    pub display_order: i64,
}

/// What became of a hook's command.
#[derive(Debug, PartialEq, Eq)]
pub struct CommandRunResult {
    pub started_at: i64,
    pub completed_at: i64,
    pub duration_ms: i64,
    pub exit_code: Option<i32>,
    pub stdout: String,
    pub stderr: String,
    pub error: Option<String>,
}

/// A run that has ended, with what the hook's event makes of it.
#[derive(Debug, PartialEq, Eq)]
pub struct ParsedHandler<T> {
    pub completed: HookCompletedEvent,
    pub data: T,
    pub completion_order: usize,
}

#[verifier::ext_equal]
pub struct ConfiguredHandlerView {
    pub event_name: HookEventName,
    pub matcher: Option<Seq<char>>,
    pub command: Seq<char>,
    pub timeout_sec: u64,
    pub status_message: Option<Seq<char>>,
    pub source_path: Seq<char>,
    pub display_order: i64,
}

#[verifier::ext_equal]
pub struct CommandRunResultView {
    pub started_at: i64,
    pub completed_at: i64,
    pub duration_ms: i64,
    pub exit_code: Option<i32>,
    pub stdout: Seq<char>,
    pub stderr: Seq<char>,
    pub error: Option<Seq<char>>,
}

impl DeepView for ConfiguredHandler {
    type V = ConfiguredHandlerView;

    open spec fn deep_view(&self) -> ConfiguredHandlerView {
        ConfiguredHandlerView {
            event_name: self.event_name,
            matcher: self.matcher.deep_view(),
            command: self.command@,
            timeout_sec: self.timeout_sec,
            status_message: self.status_message.deep_view(),
            source_path: self.source_path@,
            display_order: self.display_order,
        }
    }
}

impl DeepView for CommandRunResult {
    type V = CommandRunResultView;

    open spec fn deep_view(&self) -> CommandRunResultView {
        CommandRunResultView {
            started_at: self.started_at,
            completed_at: self.completed_at,
            duration_ms: self.duration_ms,
            exit_code: self.exit_code,
            stdout: self.stdout@,
            stderr: self.stderr@,
            error: self.error.deep_view(),
        }
    }
}

/// The handlers for the event whose matchers accept the event's input, in order.
/// `accepted` tells of each handler whether its matcher does.
pub open spec fn selected(
    handlers: Seq<ConfiguredHandlerView>,
    event_name: HookEventName,
    accepted: Seq<bool>,
) -> Seq<ConfiguredHandlerView>
    decreases handlers.len(),
{
    if handlers.len() == 0 {
        Seq::empty()
    } else {
        let earlier = selected(handlers.drop_last(), event_name, accepted);
        if handlers.last().event_name == event_name && accepted[handlers.len() - 1] {
            earlier.push(handlers.last())
        } else {
            earlier
        }
    }
}

/// Picks the handlers for the event whose matchers accept the event's input.
/// `accepted` tells of each handler whether its matcher does.
pub fn select_handlers<'a>(
    handlers: &'a [ConfiguredHandler],
    event_name: HookEventName,
    accepted: &[bool],
) -> (matched: Vec<&'a ConfiguredHandler>)
    requires
        accepted@.len() == handlers@.len(),
    ensures
        matched.deep_view() == selected(handlers.deep_view(), event_name, accepted@),
{
    let mut matched: Vec<&'a ConfiguredHandler> = Vec::new();
    let ghost all = handlers.deep_view();
    let mut i: usize = 0;
    assert(matched.deep_view() =~= selected(all.take(0), event_name, accepted@));
    while i < handlers.len()
        invariant
            i <= handlers@.len(),
            accepted@.len() == handlers@.len(),
            all == handlers.deep_view(),
            matched.deep_view() == selected(all.take(i as int), event_name, accepted@),
        decreases handlers@.len() - i,
    {
        let ghost before = matched.deep_view();
        assert(all.take(i + 1).drop_last() =~= all.take(i as int));
        assert(all.take(i + 1).last() == handlers@[i as int].deep_view());
        if handlers[i].event_name == event_name && accepted[i] {
            matched.push(&handlers[i]);
            assert(matched.deep_view() =~= before.push(handlers@[i as int].deep_view()));
        }
        i += 1;
    }
    assert(all.take(all.len() as int) =~= all);
    matched
}

/// Every selected handler is for the event, and is one of the handlers.
pub proof fn selected_are_for_the_event(
    handlers: Seq<ConfiguredHandlerView>,
    event_name: HookEventName,
    accepted: Seq<bool>,
)
    ensures
        forall|i: int|
            0 <= i < selected(handlers, event_name, accepted).len() ==> (#[trigger] selected(
                handlers,
                event_name,
                accepted,
            )[i]).event_name == event_name && handlers.contains(
                selected(handlers, event_name, accepted)[i],
            ),
    decreases handlers.len(),
{
    if handlers.len() > 0 {
        let shorter = handlers.drop_last();
        selected_are_for_the_event(shorter, event_name, accepted);
        let picked = selected(handlers, event_name, accepted);
        let earlier = selected(shorter, event_name, accepted);
        assert forall|i: int| 0 <= i < picked.len() implies (#[trigger] picked[i]).event_name
            == event_name && handlers.contains(picked[i]) by {
            if i < earlier.len() {
                assert(picked[i] == earlier[i]);
                let k = choose|k: int| 0 <= k < shorter.len() && shorter[k] == earlier[i];
                assert(handlers[k] == earlier[i]);
            } else {
                assert(handlers[handlers.len() - 1] == picked[i]);
            }
        }
    }
}

/// The word for an event in the ids of its runs.
pub open spec fn event_label(event_name: HookEventName) -> Seq<char> {
    match event_name {
        HookEventName::Stop => "stop"@,
        HookEventName::SubagentStop => "subagent-stop"@,
        HookEventName::Other => "other"@,
    }
}

/// The id of a handler's run: the event, the handler's place and its source.
pub open spec fn run_id_of(handler: ConfiguredHandlerView) -> Seq<char> {
    event_label(handler.event_name) + ":"@ + text::decimal(handler.display_order as int) + ":"@
        + handler.source_path
}

/// The summary of a run that started at `started_at` and goes on.
pub open spec fn running_summary_of(
    handler: ConfiguredHandlerView,
    started_at: i64,
) -> HookRunSummaryView {
    HookRunSummaryView {
        id: run_id_of(handler),
        event_name: handler.event_name,
        source_path: handler.source_path,
        display_order: handler.display_order,
        status: HookRunStatus::Running,
        status_message: handler.status_message,
        started_at,
        completed_at: None,
        duration_ms: None,
        entries: Seq::empty(),
    }
}

/// The summary of a run that ended with this status and these entries.
pub open spec fn completed_summary_of(
    handler: ConfiguredHandlerView,
    run_result: CommandRunResultView,
    status: HookRunStatus,
    entries: Seq<HookOutputEntryView>,
) -> HookRunSummaryView {
    HookRunSummaryView {
        status,
        completed_at: Some(run_result.completed_at),
        duration_ms: Some(run_result.duration_ms),
        entries,
        ..running_summary_of(handler, run_result.started_at)
    }
}

/// The news that a run failed at `at` before its command could start.
pub open spec fn failed_start_of(
    handler: ConfiguredHandlerView,
    turn_id: Option<Seq<char>>,
    message: Seq<char>,
    at: i64,
) -> HookCompletedEventView {
    HookCompletedEventView {
        turn_id,
        run: HookRunSummaryView {
            status: HookRunStatus::Failed,
            completed_at: Some(at),
            duration_ms: Some(0),
            entries: seq![HookOutputEntryView { kind: HookOutputEntryKind::Error, text: message }],
            ..running_summary_of(handler, at)
        },
    }
}

impl ConfiguredHandler {
    /// The id of this handler's run.
    pub fn run_id(&self) -> (id: String)
        ensures
            id@ == run_id_of(self.deep_view()),
    {
        let label = match self.event_name {
            HookEventName::Stop => "stop",
            HookEventName::SubagentStop => "subagent-stop",
            HookEventName::Other => "other",
        };
        let mut id = label.to_owned();
        id.append(":");
        id.append(decimal_text(self.display_order).as_str());
        id.append(":");
        id.append(self.source_path.as_str());
        id
    }
}

/// Summarises the run of `handler` that started at `started_at` and goes on.
pub fn running_summary(handler: &ConfiguredHandler, started_at: i64) -> (run: HookRunSummary)
    ensures
        run.deep_view() == running_summary_of(handler.deep_view(), started_at),
{
    let run = HookRunSummary {
        id: handler.run_id(),
        event_name: handler.event_name,
        source_path: handler.source_path.clone(),
        display_order: handler.display_order,
        status: HookRunStatus::Running,
        status_message: copy_text(&handler.status_message),
        started_at,
        completed_at: None,
        duration_ms: None,
        entries: Vec::new(),
    };
    assert(run.entries.deep_view() =~= Seq::empty());
    run
}

/// Summarises the run of `handler` that ended with this status and these entries.
pub fn completed_summary(
    handler: &ConfiguredHandler,
    run_result: &CommandRunResult,
    status: HookRunStatus,
    entries: Vec<HookOutputEntry>,
) -> (run: HookRunSummary)
    ensures
        run.deep_view() == completed_summary_of(
            handler.deep_view(),
            run_result.deep_view(),
            status,
            entries.deep_view(),
        ),
{
    let mut run = running_summary(handler, run_result.started_at);
    run.status = status;
    run.completed_at = Some(run_result.completed_at);
    run.duration_ms = Some(run_result.duration_ms);
    run.entries = entries;
    run
}

/// Reports that the input for the handlers could not be written, so that none of
/// their commands ran.
pub fn serialization_failure_hook_events(
    matched: &[&ConfiguredHandler],
    turn_id: Option<String>,
    message: String,
    at: i64,
) -> (events: Vec<HookCompletedEvent>)
    ensures
        events.deep_view() == matched.deep_view().map_values(
            |handler: ConfiguredHandlerView|
                failed_start_of(handler, turn_id.deep_view(), message@, at),
        ),
{
    let mut events: Vec<HookCompletedEvent> = Vec::new();
    let ghost all = matched.deep_view();
    let ghost event_of = |handler: ConfiguredHandlerView|
        failed_start_of(handler, turn_id.deep_view(), message@, at);
    let mut i: usize = 0;
    assert(events.deep_view() =~= all.take(0).map_values(event_of));
    while i < matched.len()
        invariant
            i <= matched@.len(),
            all == matched.deep_view(),
            event_of == (|handler: ConfiguredHandlerView|
                failed_start_of(handler, turn_id.deep_view(), message@, at)),
            events.deep_view() == all.take(i as int).map_values(event_of),
        decreases matched@.len() - i,
    {
        let ghost before = events.deep_view();
        let mut run = running_summary(matched[i], at);
        run.status = HookRunStatus::Failed;
        run.completed_at = Some(at);
        run.duration_ms = Some(0);
        let mut entries: Vec<HookOutputEntry> = Vec::new();
        entries.push(HookOutputEntry { kind: HookOutputEntryKind::Error, text: message.clone() });
        assert(entries.deep_view() =~= seq![
            HookOutputEntryView { kind: HookOutputEntryKind::Error, text: message@ },
        ]);
        run.entries = entries;
        let event = HookCompletedEvent { turn_id: copy_text(&turn_id), run };
        let ghost view = event.deep_view();
        assert(view == event_of(all[i as int]));
        events.push(event);
        assert(events.deep_view() =~= before.push(view));
        assert(all.take(i + 1).map_values(event_of) =~= all.take(i as int).map_values(event_of).push(
            view,
        ));
        i += 1;
    }
    assert(all.take(all.len() as int) =~= all);
    events
}

/// No handlers, none selected. One handler is selected just if it is for the event and
/// its matcher accepts. Of handlers in two groups those of the first are selected,
/// then those of the second. Together this says which are selected of any handlers,
/// and in what order.
pub proof fn handlers_are_selected_one_by_one(
    handler: ConfiguredHandlerView,
    accepts: bool,
    event_name: HookEventName,
    first: Seq<ConfiguredHandlerView>,
    second: Seq<ConfiguredHandlerView>,
    accepted_first: Seq<bool>,
    accepted_second: Seq<bool>,
)
    requires
        accepted_first.len() == first.len(),
        accepted_second.len() == second.len(),
    ensures
        selected(Seq::empty(), event_name, Seq::empty()).len() == 0,
        handler.event_name == event_name && accepts ==> selected(
            seq![handler],
            event_name,
            seq![accepts],
        ) == seq![handler],
        handler.event_name != event_name || !accepts ==> selected(
            seq![handler],
            event_name,
            seq![accepts],
        ).len() == 0,
        selected(first + second, event_name, accepted_first + accepted_second) == selected(
            first,
            event_name,
            accepted_first,
        ) + selected(second, event_name, accepted_second),
    decreases second.len(),
{
    let one = seq![handler];
    assert(one.drop_last() =~= Seq::empty());
    assert(selected(one.drop_last(), event_name, seq![accepts]) =~= Seq::empty());
    if handler.event_name == event_name && accepts {
        assert(selected(one, event_name, seq![accepts]) =~= one);
    }
    let all = first + second;
    let accepted = accepted_first + accepted_second;
    if second.len() == 0 {
        assert(all =~= first);
        assert(accepted =~= accepted_first);
        assert(selected(second, event_name, accepted_second) =~= Seq::empty());
    } else {
        let shorter = second.drop_last();
        let fewer = accepted_second.drop_last();
        handlers_are_selected_one_by_one(
            handler,
            accepts,
            event_name,
            first,
            shorter,
            accepted_first,
            fewer,
        );
        assert(all.drop_last() =~= first + shorter);
        selection_looks_no_further(first + shorter, event_name, accepted_first + fewer, accepted);
        selection_looks_no_further(shorter, event_name, fewer, accepted_second);
        assert(accepted[all.len() - 1] == accepted_second[second.len() - 1]);
    }
    assert(selected(all, event_name, accepted) =~= selected(first, event_name, accepted_first)
        + selected(second, event_name, accepted_second));
}

proof fn selection_looks_no_further(
    handlers: Seq<ConfiguredHandlerView>,
    event_name: HookEventName,
    accepted: Seq<bool>,
    longer: Seq<bool>,
)
    requires
        accepted.len() >= handlers.len(),
        longer.len() >= handlers.len(),
        forall|i: int| 0 <= i < handlers.len() ==> accepted[i] == #[trigger] longer[i],
    ensures
        selected(handlers, event_name, accepted) == selected(handlers, event_name, longer),
    decreases handlers.len(),
{
    if handlers.len() > 0 {
        selection_looks_no_further(handlers.drop_last(), event_name, accepted, longer);
        assert(accepted[handlers.len() - 1] == longer[handlers.len() - 1]);
    }
}

/// The places at which handlers are for the event and accepted.
pub open spec fn matching_places(
    handlers: Seq<ConfiguredHandlerView>,
    event_name: HookEventName,
    accepted: Seq<bool>,
) -> Set<int> {
    Set::new(|i: int| 0 <= i < handlers.len() && handlers[i].event_name == event_name && accepted[i])
}

/// As many handlers are selected as are for the event and accepted. So none is where
/// no matcher accepts, and all are where all are for the event and accepted.
pub proof fn as_many_are_selected_as_match(
    handlers: Seq<ConfiguredHandlerView>,
    event_name: HookEventName,
    accepted: Seq<bool>,
)
    requires
        accepted.len() == handlers.len(),
    ensures
        matching_places(handlers, event_name, accepted).finite(),
        selected(handlers, event_name, accepted).len() == matching_places(
            handlers,
            event_name,
            accepted,
        ).len(),
        (forall|i: int|
            0 <= i < handlers.len() ==> !(accepted[i] && (#[trigger] handlers[i]).event_name
                == event_name)) ==> selected(handlers, event_name, accepted).len() == 0,
        (forall|i: int|
            0 <= i < handlers.len() ==> accepted[i] && (#[trigger] handlers[i]).event_name
                == event_name) ==> selected(handlers, event_name, accepted) == handlers,
    decreases handlers.len(),
{
    let places = matching_places(handlers, event_name, accepted);
    if handlers.len() == 0 {
        assert(places =~= Set::empty());
        assert(selected(handlers, event_name, accepted) =~= handlers);
    } else {
        let last = handlers.len() - 1;
        let shorter = handlers.drop_last();
        let fewer = accepted.drop_last();
        as_many_are_selected_as_match(shorter, event_name, fewer);
        selection_looks_no_further(shorter, event_name, fewer, accepted);
        let earlier = matching_places(shorter, event_name, fewer);
        assert(handlers[last].event_name == handlers.last().event_name);
        if handlers[last].event_name == event_name && accepted[last] {
            assert(places =~= earlier.insert(last));
        } else {
            assert(places =~= earlier);
        }
        if forall|i: int|
            0 <= i < handlers.len() ==> !(accepted[i] && (#[trigger] handlers[i]).event_name
                == event_name) {
            assert(places =~= Set::empty());
        }
        if forall|i: int|
            0 <= i < handlers.len() ==> accepted[i] && (#[trigger] handlers[i]).event_name
                == event_name {
            assert forall|i: int| 0 <= i < shorter.len() implies fewer[i] && (
            #[trigger] shorter[i]).event_name == event_name by {
                assert(shorter[i] == handlers[i]);
            }
            assert(selected(handlers, event_name, accepted) =~= handlers);
        }
    }
}

/// A run's id names the event, the handler's place in decimal, and its source, with a
/// colon between.
pub proof fn run_ids_name_event_place_and_source(handler: ConfiguredHandlerView)
    ensures
        handler.event_name == HookEventName::Stop ==> run_id_of(handler) == "stop:"@
            + text::decimal(handler.display_order as int) + seq![':'] + handler.source_path,
        handler.event_name == HookEventName::SubagentStop ==> run_id_of(handler)
            == "subagent-stop:"@ + text::decimal(handler.display_order as int) + seq![':']
            + handler.source_path,
        handler.event_name == HookEventName::Other ==> run_id_of(handler) == "other:"@
            + text::decimal(handler.display_order as int) + seq![':'] + handler.source_path,
{
    reveal_strlit("other");
    reveal_strlit("other:");
    reveal_strlit("stop");
    reveal_strlit("stop:");
    reveal_strlit("subagent-stop");
    reveal_strlit("subagent-stop:");
    reveal_strlit(":");
    assert("other:"@ =~= "other"@ + ":"@);
    assert("stop:"@ =~= "stop"@ + ":"@);
    assert("subagent-stop:"@ =~= "subagent-stop"@ + ":"@);
    assert(":"@ =~= seq![':']);
}

/// Whatever the state of a handler's run, its summary has the run's id and what the
/// handler is configured with. One that goes on tells when it started and no more;
/// one that has ended tells its times, its status and its entries; one that failed to
/// start tells why.
pub proof fn summaries_tell_of_handler_and_run(
    handler: ConfiguredHandlerView,
    run_result: CommandRunResultView,
    status: HookRunStatus,
    entries: Seq<HookOutputEntryView>,
    turn_id: Option<Seq<char>>,
    message: Seq<char>,
    at: i64,
)
    ensures
        ({
            let going_on = running_summary_of(handler, at);
            let ended = completed_summary_of(handler, run_result, status, entries);
            let failed = failed_start_of(handler, turn_id, message, at);
            &&& going_on.id == run_id_of(handler)
            &&& ended.id == run_id_of(handler)
            &&& failed.run.id == run_id_of(handler)
            &&& going_on.event_name == handler.event_name
            &&& ended.event_name == handler.event_name
            &&& failed.run.event_name == handler.event_name
            &&& going_on.source_path == handler.source_path
            &&& ended.source_path == handler.source_path
            &&& failed.run.source_path == handler.source_path
            &&& going_on.display_order == handler.display_order
            &&& ended.display_order == handler.display_order
            &&& failed.run.display_order == handler.display_order
            &&& going_on.status_message == handler.status_message
            &&& ended.status_message == handler.status_message
            &&& failed.run.status_message == handler.status_message
            &&& going_on.status == HookRunStatus::Running
            &&& ended.status == status
            &&& failed.run.status == HookRunStatus::Failed
            &&& going_on.started_at == at
            &&& ended.started_at == run_result.started_at
            &&& failed.run.started_at == at
            &&& going_on.completed_at is None
            &&& ended.completed_at == Some(run_result.completed_at)
            &&& failed.run.completed_at == Some(at)
            &&& going_on.duration_ms is None
            &&& ended.duration_ms == Some(run_result.duration_ms)
            &&& failed.run.duration_ms == Some(0i64)
            &&& going_on.entries.len() == 0
            &&& ended.entries == entries
            &&& failed.run.entries.len() == 1
            &&& failed.run.entries[0].kind == HookOutputEntryKind::Error
            &&& failed.run.entries[0].text == message
            &&& failed.turn_id == turn_id
        }),
{
}

/// What is stated of a handler or of a command's end is stated of its own fields.
pub proof fn engine_views_are_faithful(
    handler: ConfiguredHandler,
    result: CommandRunResult,
)
    ensures
        handler.deep_view().event_name == handler.event_name,
        handler.deep_view().matcher == handler.matcher.deep_view(),
        handler.deep_view().command == handler.command@,
        handler.deep_view().timeout_sec == handler.timeout_sec,
        handler.deep_view().status_message == handler.status_message.deep_view(),
        handler.deep_view().source_path == handler.source_path@,
        handler.deep_view().display_order == handler.display_order,
        result.deep_view().started_at == result.started_at,
        result.deep_view().completed_at == result.completed_at,
        result.deep_view().duration_ms == result.duration_ms,
        result.deep_view().exit_code == result.exit_code,
        result.deep_view().stdout == result.stdout@,
        result.deep_view().stderr == result.stderr@,
        result.deep_view().error == result.error.deep_view(),
{
}

/// Whether these are, in ascending order, the places at which handlers are for the
/// event and accepted.
pub open spec fn are_matching_places(
    handlers: Seq<ConfiguredHandlerView>,
    event_name: HookEventName,
    accepted: Seq<bool>,
    places: Seq<int>,
) -> bool {
    &&& forall|k: int, l: int| 0 <= k < l < places.len() ==> #[trigger] places[k] < #[trigger] places[l]
    &&& forall|k: int|
        0 <= k < places.len() ==> 0 <= #[trigger] places[k] < handlers.len()
            && handlers[places[k]].event_name == event_name && accepted[places[k]]
    &&& forall|i: int|
        0 <= i < handlers.len() && (#[trigger] handlers[i]).event_name == event_name && accepted[i]
            ==> places.contains(i)
}

/// The selected handlers are those at the matching places, in ascending order.
pub proof fn selected_handlers_stand_at_matching_places(
    handlers: Seq<ConfiguredHandlerView>,
    event_name: HookEventName,
    accepted: Seq<bool>,
) -> (places: Seq<int>)
    requires
        accepted.len() == handlers.len(),
    ensures
        are_matching_places(handlers, event_name, accepted, places),
        selected(handlers, event_name, accepted).len() == places.len(),
        forall|k: int|
            0 <= k < places.len() ==> #[trigger] selected(handlers, event_name, accepted)[k]
                == handlers[places[k]],
    decreases handlers.len(),
{
    if handlers.len() == 0 {
        Seq::empty()
    } else {
        let last = handlers.len() - 1;
        let shorter = handlers.drop_last();
        let fewer = accepted.drop_last();
        let earlier = selected_handlers_stand_at_matching_places(shorter, event_name, fewer);
        selection_looks_no_further(shorter, event_name, fewer, accepted);
        assert forall|k: int| 0 <= k < earlier.len() implies 0 <= #[trigger] earlier[k] < last
            && handlers[earlier[k]] == shorter[earlier[k]] && handlers[earlier[k]].event_name
            == event_name && accepted[earlier[k]] by {}
        let places = if handlers[last].event_name == event_name && accepted[last] {
            earlier.push(last)
        } else {
            earlier
        };
        assert forall|i: int|
            0 <= i < handlers.len() && (#[trigger] handlers[i]).event_name == event_name
                && accepted[i] implies places.contains(i) by {
            if i < last {
                assert(shorter[i] == handlers[i] && fewer[i] == accepted[i]);
                let k = choose|k: int| 0 <= k < earlier.len() && earlier[k] == i;
                assert(places[k] == i);
            } else {
                assert(places[places.len() - 1] == i);
            }
        }
        assert forall|k: int| 0 <= k < places.len() implies #[trigger] selected(
            handlers,
            event_name,
            accepted,
        )[k] == handlers[places[k]] by {
            if k < earlier.len() {
                assert(places[k] == earlier[k]);
                assert(selected(shorter, event_name, fewer)[k] == shorter[earlier[k]]);
            }
        }
        places
    }
}

} // verus!
