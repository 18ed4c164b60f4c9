//! A run of all stop hooks for one request, step by step. The caller does what an
//! action asks for and reports back what came of it.
use vstd::prelude::*;

use crate::engine;
use crate::engine::{
    select_handlers, serialization_failure_hook_events, CommandRunResult, CommandRunResultView,
    ConfiguredHandler, ConfiguredHandlerView, ParsedHandler,
};
use crate::output_parser;
use crate::protocol::HookCompletedEvent;
use crate::stop;
use crate::stop::{
    aggregate_results, parse_completed, serialization_failure_outcome, CompletionView,
    StopHandlerData, StopHookTarget, StopOutcome, StopOutcomeView, StopRequest,
};
use crate::text::copy_text;

verus! {

/// What a hook is told when the main agent is about to stop.
#[derive(Debug, PartialEq, Eq)]
pub struct StopCommandInput {
    pub session_id: String,
    pub turn_id: String,
    pub transcript_path: Option<String>,
    pub cwd: String,
    pub hook_event_name: String,
    pub model: String,
    pub permission_mode: String,
    pub stop_hook_active: bool,
    pub last_assistant_message: Option<String>,
    pub changed_files: Option<Vec<String>>,
}

/// What a hook is told when a subagent is about to stop.
#[derive(Debug, PartialEq, Eq)]
pub struct SubagentStopCommandInput {
    pub session_id: String,
    pub turn_id: String,
    pub transcript_path: Option<String>,
    pub agent_transcript_path: Option<String>,
    pub cwd: String,
    pub hook_event_name: String,
    pub model: String,
    pub permission_mode: String,
    pub stop_hook_active: bool,
    pub agent_id: String,
    pub agent_type: String,
    pub last_assistant_message: Option<String>,
    pub changed_files: Option<Vec<String>>,
}

/// What a stop hook is told.
#[derive(Debug, PartialEq, Eq)]
pub enum HookInput {
    Stop(StopCommandInput),
    SubagentStop(SubagentStopCommandInput),
}

/// What the hooks for any agent are told.
#[verifier::ext_equal]
pub struct SharedInputView {
    pub session_id: Seq<char>,
    pub turn_id: Seq<char>,
    pub transcript_path: Option<Seq<char>>,
    pub cwd: Seq<char>,
    pub hook_event_name: Seq<char>,
    pub model: Seq<char>,
    pub permission_mode: Seq<char>,
    pub stop_hook_active: bool,
    pub last_assistant_message: Option<Seq<char>>,
    pub changed_files: Option<Seq<Seq<char>>>,
}

/// What the hooks for a subagent are told besides.
#[verifier::ext_equal]
pub struct SubagentInputView {
    pub agent_transcript_path: Option<Seq<char>>,
    pub agent_id: Seq<char>,
    pub agent_type: Seq<char>,
}

pub enum HookInputView {
    Stop(SharedInputView),
    SubagentStop(SharedInputView, SubagentInputView),
}

impl DeepView for HookInput {
    type V = HookInputView;

    open spec fn deep_view(&self) -> HookInputView {
        match self {
            HookInput::Stop(input) => HookInputView::Stop(
                SharedInputView {
                    session_id: input.session_id@,
                    turn_id: input.turn_id@,
                    transcript_path: input.transcript_path.deep_view(),
                    cwd: input.cwd@,
                    hook_event_name: input.hook_event_name@,
                    model: input.model@,
                    permission_mode: input.permission_mode@,
                    stop_hook_active: input.stop_hook_active,
                    last_assistant_message: input.last_assistant_message.deep_view(),
                    changed_files: input.changed_files.deep_view(),
                },
            ),
            HookInput::SubagentStop(input) => HookInputView::SubagentStop(
                SharedInputView {
                    session_id: input.session_id@,
                    turn_id: input.turn_id@,
                    transcript_path: input.transcript_path.deep_view(),
                    cwd: input.cwd@,
                    hook_event_name: input.hook_event_name@,
                    model: input.model@,
                    permission_mode: input.permission_mode@,
                    stop_hook_active: input.stop_hook_active,
                    last_assistant_message: input.last_assistant_message.deep_view(),
                    changed_files: input.changed_files.deep_view(),
                },
                SubagentInputView {
                    agent_transcript_path: input.agent_transcript_path.deep_view(),
                    agent_id: input.agent_id@,
                    agent_type: input.agent_type@,
                },
            ),
        }
    }
}

/// The name of the event in the hooks' input.
pub open spec fn event_text(target: StopHookTarget) -> Seq<char> {
    match target {
        StopHookTarget::Stop => "Stop"@,
        StopHookTarget::SubagentStop { .. } => "SubagentStop"@,
    }
}

/// What the hooks are told about the request and the changed files.
pub open spec fn input_for(
    request: StopRequest,
    changed_files: Option<Seq<Seq<char>>>,
) -> HookInputView {
    let shared = SharedInputView {
        session_id: request.session_id@,
        turn_id: request.turn_id@,
        transcript_path: request.transcript_path.deep_view(),
        cwd: request.cwd@,
        hook_event_name: event_text(request.target),
        model: request.model@,
        permission_mode: request.permission_mode@,
        stop_hook_active: request.stop_hook_active,
        last_assistant_message: request.last_assistant_message.deep_view(),
        changed_files,
    };
    match request.target {
        StopHookTarget::Stop => HookInputView::Stop(shared),
        StopHookTarget::SubagentStop { agent_id, agent_type, agent_transcript_path } =>
            HookInputView::SubagentStop(
            shared,
            SubagentInputView {
                agent_transcript_path: agent_transcript_path.deep_view(),
                agent_id: agent_id@,
                agent_type: agent_type@,
            },
        ),
    }
}

/// The ends of the runs of `matched`, whose commands gave `results`.
pub open spec fn completions(
    matched: Seq<ConfiguredHandlerView>,
    results: Seq<CommandRunResultView>,
    turn_id: Seq<char>,
) -> Seq<CompletionView> {
    Seq::new(
        matched.len(),
        |i: int|
            stop::completion(
                matched[i],
                results[i],
                output_parser::stop_output(results[i].stdout, matched[i].event_name),
                Some(turn_id),
            ),
    )
}

/// What runs that have ended come to: the news of each, in order, and what their
/// decisions come to together.
pub open spec fn outcome_of(parsed: Seq<CompletionView>) -> StopOutcomeView {
    StopOutcomeView {
        hook_events: parsed.map_values(|run: CompletionView| run.completed),
        decision: stop::aggregate_of(parsed.map_values(|run: CompletionView| run.data)),
    }
}

/// The complaint about input that cannot be written.
pub open spec fn serialization_failure(target: StopHookTarget, error: Seq<char>) -> Seq<char> {
    match target {
        StopHookTarget::Stop => "failed to serialize stop hook input: "@ + error,
        StopHookTarget::SubagentStop { .. } => "failed to serialize subagent stop hook input: "@
            + error,
    }
}

/// The outcome of hooks whose input could not be written at `at`.
pub open spec fn failure_outcome(
    matched: Seq<ConfiguredHandlerView>,
    request: StopRequest,
    error: Seq<char>,
    at: i64,
) -> StopOutcomeView {
    StopOutcomeView {
        hook_events: matched.map_values(
            |handler: ConfiguredHandlerView|
                engine::failed_start_of(
                    handler,
                    Some(request.turn_id@),
                    serialization_failure(request.target, error),
                    at,
                ),
        ),
        decision: stop::no_decision(),
    }
}

/// What a run waits for.
#[derive(Debug, Clone, Copy, PartialEq, Eq, Structural)]
pub enum RunPhase {
    /// The list of changed files.
    Collecting,
    /// The hooks' input as JSON.
    Serializing,
    /// The ends of the hooks' commands.
    Executing,
    /// Nothing: the run is over.
    Finished,
}

/// What the caller shall do next.
#[derive(Debug, PartialEq, Eq)]
pub enum RunAction {
    /// Collect the changed files in the working directory.
    CollectChangedFiles,
    /// Write this input as JSON.
    Serialize(HookInput),
    /// Run the commands of the matched handlers, each with this text as its input.
    Execute(String),
    /// Hand this outcome to whoever asked for the run.
    Finish(StopOutcome),
}

/// What came of an action.
#[derive(Debug, PartialEq, Eq)]
pub enum RunEvent {
    /// The changed files, where they are known.
    ChangedFiles(Option<Vec<String>>),
    /// The input as JSON.
    Serialized(String),
    /// The input could not be written, as `error` says.
    SerializationFailed { error: String, at: i64 },
    /// The ends of the commands, in the order of the matched handlers.
    Executed(Vec<CommandRunResult>),
}

/// A run of all stop hooks for one request.
pub struct StopRun<'a> {
    request: StopRequest,
    matched: Vec<&'a ConfiguredHandler>,
    phase: RunPhase,
}

/// Whether an event is one that a run in this phase waits for.
pub open spec fn expects(phase: RunPhase, matched: nat, event: RunEvent) -> bool {
    match event {
        RunEvent::ChangedFiles(_) => phase == RunPhase::Collecting,
        RunEvent::Serialized(_) => phase == RunPhase::Serializing,
        RunEvent::SerializationFailed { .. } => phase == RunPhase::Serializing,
        RunEvent::Executed(results) => phase == RunPhase::Executing && results@.len() == matched,
    }
}

/// The phase after an event.
pub open spec fn next_phase(event: RunEvent) -> RunPhase {
    match event {
        RunEvent::ChangedFiles(_) => RunPhase::Serializing,
        RunEvent::Serialized(_) => RunPhase::Executing,
        RunEvent::SerializationFailed { .. } => RunPhase::Finished,
        RunEvent::Executed(_) => RunPhase::Finished,
    }
}

/// Combines the runs that have ended.
pub fn combine_runs(parsed: Vec<ParsedHandler<StopHandlerData>>) -> (outcome: StopOutcome)
    ensures
        outcome.deep_view() == outcome_of(parsed.deep_view()),
{
    let ghost all = parsed.deep_view();
    let ghost data_of = |run: CompletionView| run.data;
    let ghost news_of = |run: CompletionView| run.completed;
    let mut decisions: Vec<&StopHandlerData> = Vec::new();
    let mut i: usize = 0;
    assert(decisions.deep_view() =~= all.take(0).map_values(data_of));
    while i < parsed.len()
        invariant
            i <= parsed@.len(),
            all == parsed.deep_view(),
            data_of == (|run: CompletionView| run.data),
            decisions.deep_view() == all.take(i as int).map_values(data_of),
        decreases parsed@.len() - i,
    {
        let ghost before = decisions.deep_view();
        decisions.push(&parsed[i].data);
        assert(decisions.deep_view() =~= before.push(data_of(all[i as int])));
        assert(all.take(i + 1).map_values(data_of) =~= all.take(i as int).map_values(data_of).push(
            data_of(all[i as int]),
        ));
        i += 1;
    }
    assert(all.take(all.len() as int) =~= all);
    let aggregate = aggregate_results(decisions.as_slice());
    let mut hook_events: Vec<HookCompletedEvent> = Vec::new();
    let ghost mut taken: int = 0;
    assert(hook_events.deep_view() =~= all.take(0).map_values(news_of));
    for run in iter: parsed
        invariant
            taken == iter.index(),
            iter.seq().len() == all.len(),
            news_of == (|run: CompletionView| run.completed),
            forall|k: int| 0 <= k < all.len() ==> all[k] == (#[trigger] iter.seq()[k]).deep_view(),
            hook_events.deep_view() == all.take(taken).map_values(news_of),
    {
        let ghost before = hook_events.deep_view();
        let ghost view = run.deep_view();
        hook_events.push(run.completed);
        proof {
            assert(hook_events.deep_view() =~= before.push(news_of(view)));
            assert(all.take(taken + 1).map_values(news_of) =~= all.take(taken).map_values(
                news_of,
            ).push(news_of(view)));
            taken = taken + 1;
        }
    }
    assert(all.take(all.len() as int) =~= all);
    StopOutcome {
        hook_events,
        should_stop: aggregate.should_stop,
        stop_reason: aggregate.stop_reason,
        should_block: aggregate.should_block,
        block_reason: aggregate.block_reason,
        continuation_fragments: aggregate.continuation_fragments,
    }
}

/// Starts a run of the handlers for the request. `accepted` tells of each handler
/// whether its matcher accepts the target's `matcher_input`. Without a matching
/// handler the run is over at once, and the changed files are not asked for.
pub fn start_run<'a>(
    handlers: &'a [ConfiguredHandler],
    accepted: &[bool],
    request: StopRequest,
) -> (started: (StopRun<'a>, RunAction))
    requires
        accepted@.len() == handlers@.len(),
    ensures
        started.0.asked() == request,
        started.0.handlers() == engine::selected(
            handlers.deep_view(),
            request.target.event(),
            accepted@,
        ),
        if engine::selected(handlers.deep_view(), request.target.event(), accepted@).len() == 0 {
            &&& started.0.stage() == RunPhase::Finished
            &&& started.1 is Finish
            &&& started.1->Finish_0.deep_view() == (StopOutcomeView {
                hook_events: Seq::empty(),
                decision: stop::no_decision(),
            })
        } else {
            &&& started.0.stage() == RunPhase::Collecting
            &&& started.1 is CollectChangedFiles
        },
{
    let matched = select_handlers(handlers, request.target.event_name(), accepted);
    proof {
        engine::selected_are_for_the_event(
            handlers.deep_view(),
            request.target.event(),
            accepted@,
        );
        assert forall|i: int| 0 <= i < matched@.len() implies (#[trigger] matched@[i]).event_name
            == request.target.event() by {
            assert(matched.deep_view()[i].event_name == request.target.event());
        }
    }
    if matched.is_empty() {
        (StopRun { request, matched, phase: RunPhase::Finished }, RunAction::Finish(StopOutcome::default()))
    } else {
        (StopRun { request, matched, phase: RunPhase::Collecting }, RunAction::CollectChangedFiles)
    }
}

impl<'a> StopRun<'a> {
    /// The matched handlers are for the request's event, and a run that is not over
    /// has one.
    #[verifier::type_invariant]
    spec fn well_formed(&self) -> bool {
        &&& forall|i: int|
            0 <= i < self.matched@.len() ==> (#[trigger] self.matched@[i]).event_name
                == self.request.target.event()
        &&& self.phase != RunPhase::Finished ==> self.matched@.len() > 0
    }

    /// The request that the run is for.
    pub closed spec fn asked(&self) -> StopRequest {
        self.request
    }

    /// The handlers that match the request, in order.
    pub closed spec fn handlers(&self) -> Seq<ConfiguredHandlerView> {
        self.matched.deep_view()
    }

    /// What the run waits for.
    pub closed spec fn stage(&self) -> RunPhase {
        self.phase
    }

    /// The handlers that match the request, in order.
    pub fn matched(&self) -> (matched: &[&'a ConfiguredHandler])
        ensures
            matched.deep_view() == self.handlers(),
    {
        self.matched.as_slice()
    }

    /// What the run waits for.
    pub fn phase(&self) -> (phase: RunPhase)
        ensures
            phase == self.stage(),
    {
        self.phase
    }

    /// The hooks' input.
    fn input(&self, changed_files: Option<Vec<String>>) -> (input: HookInput)
        ensures
            input.deep_view() == input_for(self.request, changed_files.deep_view()),
    {
        let request = &self.request;
        match &request.target {
            StopHookTarget::Stop => HookInput::Stop(
                StopCommandInput {
                    session_id: request.session_id.clone(),
                    turn_id: request.turn_id.clone(),
                    transcript_path: copy_text(&request.transcript_path),
                    cwd: request.cwd.clone(),
                    hook_event_name: "Stop".to_owned(),
                    model: request.model.clone(),
                    permission_mode: request.permission_mode.clone(),
                    stop_hook_active: request.stop_hook_active,
                    last_assistant_message: copy_text(&request.last_assistant_message),
                    changed_files,
                },
            ),
            StopHookTarget::SubagentStop { agent_id, agent_type, agent_transcript_path } =>
                HookInput::SubagentStop(
                SubagentStopCommandInput {
                    session_id: request.session_id.clone(),
                    turn_id: request.turn_id.clone(),
                    transcript_path: copy_text(&request.transcript_path),
                    agent_transcript_path: copy_text(agent_transcript_path),
                    cwd: request.cwd.clone(),
                    hook_event_name: "SubagentStop".to_owned(),
                    model: request.model.clone(),
                    permission_mode: request.permission_mode.clone(),
                    stop_hook_active: request.stop_hook_active,
                    agent_id: agent_id.clone(),
                    agent_type: agent_type.clone(),
                    last_assistant_message: copy_text(&request.last_assistant_message),
                    changed_files,
                },
            ),
        }
    }

    /// Ends the run without any command, since the input could not be written.
    fn fail(&self, error: String, at: i64) -> (outcome: StopOutcome)
        ensures
            outcome.deep_view() == failure_outcome(
                self.matched.deep_view(),
                self.request,
                error@,
                at,
            ),
    {
        let mut message = match &self.request.target {
            StopHookTarget::Stop => "failed to serialize stop hook input: ".to_owned(),
            StopHookTarget::SubagentStop { .. } => "failed to serialize subagent stop hook input: ".to_owned(),
        };
        message.append(error.as_str());
        let events = serialization_failure_hook_events(
            self.matched.as_slice(),
            Some(self.request.turn_id.clone()),
            message,
            at,
        );
        assert(events.deep_view() =~= failure_outcome(
            self.matched.deep_view(),
            self.request,
            error@,
            at,
        ).hook_events);
        serialization_failure_outcome(events)
    }

    /// Reads what the commands gave.
    fn finish(&self, results: Vec<CommandRunResult>) -> (outcome: StopOutcome)
        requires
            self.well_formed(),
            results@.len() == self.matched@.len(),
        ensures
            outcome.deep_view() == outcome_of(
                completions(
                    self.matched.deep_view(),
                    results.deep_view(),
                    self.request.turn_id@,
                ),
            ),
    {
        let ghost given = results.deep_view();
        let ghost ends = completions(self.matched.deep_view(), given, self.request.turn_id@);
        let mut parsed: Vec<ParsedHandler<StopHandlerData>> = Vec::new();
        let mut i: usize = 0;
        for result in iter: results
            invariant
                i == iter.index(),
                iter.seq().len() == self.matched@.len(),
                given.len() == self.matched@.len(),
                self.well_formed(),
                forall|k: int|
                    0 <= k < given.len() ==> given[k] == (#[trigger] iter.seq()[k]).deep_view(),
                ends == completions(self.matched.deep_view(), given, self.request.turn_id@),
                parsed.deep_view() =~= ends.take(i as int),
        {
            let ghost before = parsed.deep_view();
            let handler: &ConfiguredHandler = self.matched[i];
            let run = parse_completed(handler, result, Some(self.request.turn_id.clone()));
            assert(i < self.matched.len());
            assert(run.deep_view() == ends[i as int]);
            parsed.push(run);
            assert(parsed.deep_view() =~= before.push(ends[i as int]));
            i += 1;
        }
        assert(parsed.deep_view() =~= ends);
        combine_runs(parsed)
    }

    /// Takes an event that the run waits for, and says what to do next.
    pub fn advance(&mut self, event: RunEvent) -> (action: RunAction)
        requires
            expects(old(self).stage(), old(self).handlers().len(), event),
        ensures
            final(self).asked() == old(self).asked(),
            final(self).handlers() == old(self).handlers(),
            final(self).stage() == next_phase(event),
            match event {
                RunEvent::ChangedFiles(changed_files) => action is Serialize
                    && action->Serialize_0.deep_view() == input_for(
                    old(self).asked(),
                    changed_files.deep_view(),
                ),
                RunEvent::Serialized(input_json) => action == RunAction::Execute(input_json),
                RunEvent::SerializationFailed { error, at } => action is Finish
                    && action->Finish_0.deep_view() == failure_outcome(
                    old(self).handlers(),
                    old(self).asked(),
                    error@,
                    at,
                ),
                RunEvent::Executed(results) => action is Finish && action->Finish_0.deep_view()
                    == outcome_of(
                    completions(
                        old(self).handlers(),
                        results.deep_view(),
                        old(self).asked().turn_id@,
                    ),
                ),
            },
    {
        proof {
            use_type_invariant(&*self);
        }
        match event {
            RunEvent::ChangedFiles(changed_files) => {
                let input = self.input(changed_files);
                self.phase = RunPhase::Serializing;
                RunAction::Serialize(input)
            },
            RunEvent::Serialized(input_json) => {
                self.phase = RunPhase::Executing;
                RunAction::Execute(input_json)
            },
            RunEvent::SerializationFailed { error, at } => {
                let outcome = self.fail(error, at);
                self.phase = RunPhase::Finished;
                RunAction::Finish(outcome)
            },
            RunEvent::Executed(results) => {
                let outcome = self.finish(results);
                self.phase = RunPhase::Finished;
                RunAction::Finish(outcome)
            },
        }
    }
}

} // verus!
