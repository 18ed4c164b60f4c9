//! What hooks report about their runs.
use vstd::prelude::*;

verus! {

/// The events that hooks are configured for.
#[derive(Debug, Clone, Copy, PartialEq, Eq, Structural)]
pub enum HookEventName {
    /// A turn of the main agent is about to end.
    Stop,
    /// A turn of a subagent is about to end.
    SubagentStop,
    /// An event that no stop hook handles.
    Other,
}

/// What an entry of a run's output is.
#[derive(Debug, Clone, Copy, PartialEq, Eq, Structural)]
pub enum HookOutputEntryKind {
    Warning,
    Stop,
    Feedback,
    Error,
}

/// How a run stands or ended.
#[derive(Debug, Clone, Copy, PartialEq, Eq, Structural)]
pub enum HookRunStatus {
    Running,
    Completed,
    Failed,
    Blocked,
    Stopped,
}

/// A text that a run has for its reader.
#[derive(Debug, PartialEq, Eq)]
pub struct HookOutputEntry {
    pub kind: HookOutputEntryKind,
    pub text: String,
}

/// A run of one hook.
#[derive(Debug, PartialEq, Eq)]
pub struct HookRunSummary {
    pub id: String,
    pub event_name: HookEventName,
    pub source_path: String,
    pub display_order: i64,
    pub status: HookRunStatus,
    pub status_message: Option<String>,
    pub started_at: i64,
    pub completed_at: Option<i64>,
    pub duration_ms: Option<i64>,
    pub entries: Vec<HookOutputEntry>,
}

/// The news that a run has ended.
#[derive(Debug, PartialEq, Eq)]
pub struct HookCompletedEvent {
    pub turn_id: Option<String>,
    pub run: HookRunSummary,
}

/// A text that a hook's run puts into the next prompt.
#[derive(Debug, PartialEq, Eq)]
pub struct HookPromptFragment {
    pub text: String,
    pub hook_run_id: String,
}

#[verifier::ext_equal]
pub struct HookOutputEntryView {
    pub kind: HookOutputEntryKind,
    pub text: Seq<char>,
}

#[verifier::ext_equal]
pub struct HookRunSummaryView {
    pub id: Seq<char>,
    pub event_name: HookEventName,
    pub source_path: Seq<char>,
    pub display_order: i64,
    pub status: HookRunStatus,
    pub status_message: Option<Seq<char>>,
    pub started_at: i64,
    pub completed_at: Option<i64>,
    pub duration_ms: Option<i64>,
    pub entries: Seq<HookOutputEntryView>,
}

#[verifier::ext_equal]
pub struct HookCompletedEventView {
    pub turn_id: Option<Seq<char>>,
    pub run: HookRunSummaryView,
}

#[verifier::ext_equal]
pub struct HookPromptFragmentView {
    pub text: Seq<char>,
    pub hook_run_id: Seq<char>,
}

impl DeepView for HookOutputEntry {
    type V = HookOutputEntryView;

    open spec fn deep_view(&self) -> HookOutputEntryView {
        HookOutputEntryView { kind: self.kind, text: self.text@ }
    }
}

impl DeepView for HookRunSummary {
    type V = HookRunSummaryView;

    open spec fn deep_view(&self) -> HookRunSummaryView {
        HookRunSummaryView {
            id: self.id@,
            event_name: self.event_name,
            source_path: self.source_path@,
            display_order: self.display_order,
            status: self.status,
            status_message: self.status_message.deep_view(),
            started_at: self.started_at,
            completed_at: self.completed_at,
            duration_ms: self.duration_ms,
            entries: self.entries.deep_view(),
        }
    }
}

impl DeepView for HookCompletedEvent {
    type V = HookCompletedEventView;

    open spec fn deep_view(&self) -> HookCompletedEventView {
        HookCompletedEventView { turn_id: self.turn_id.deep_view(), run: self.run.deep_view() }
    }
}

impl DeepView for HookPromptFragment {
    type V = HookPromptFragmentView;

    open spec fn deep_view(&self) -> HookPromptFragmentView {
        HookPromptFragmentView { text: self.text@, hook_run_id: self.hook_run_id@ }
    }
}

impl HookPromptFragment {
    /// The fragment with this text from the run with this id.
    pub fn from_single_hook(text: String, hook_run_id: String) -> (fragment: Self)
        ensures
            fragment == (HookPromptFragment { text, hook_run_id }),
    {
        HookPromptFragment { text, hook_run_id }
    }

    /// A fragment with the same text and run id.
    pub fn duplicate(&self) -> (fragment: Self)
        ensures
            fragment.deep_view() == self.deep_view(),
    {
        HookPromptFragment { text: self.text.clone(), hook_run_id: self.hook_run_id.clone() }
    }
}

/// What is stated of a report is stated of its own fields.
pub proof fn protocol_views_are_faithful(
    entry: HookOutputEntry,
    run: HookRunSummary,
    event: HookCompletedEvent,
    fragment: HookPromptFragment,
)
    ensures
        entry.deep_view().kind == entry.kind,
        entry.deep_view().text == entry.text@,
        run.deep_view().id == run.id@,
        run.deep_view().event_name == run.event_name,
        run.deep_view().source_path == run.source_path@,
        run.deep_view().display_order == run.display_order,
        run.deep_view().status == run.status,
        run.deep_view().status_message == run.status_message.deep_view(),
        run.deep_view().started_at == run.started_at,
        run.deep_view().completed_at == run.completed_at,
        run.deep_view().duration_ms == run.duration_ms,
        run.deep_view().entries == run.entries.deep_view(),
        event.deep_view().turn_id == event.turn_id.deep_view(),
        event.deep_view().run == event.run.deep_view(),
        fragment.deep_view().text == fragment.text@,
        fragment.deep_view().hook_run_id == fragment.hook_run_id@,
{
}

} // verus!
