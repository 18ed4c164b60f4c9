//! The JSON that a stop hook writes to its standard output.
use vstd::prelude::*;

use crate::protocol::HookEventName;
use crate::text;
use crate::text::{same_text, trimmed_non_empty};

verus! {

/// A member of a JSON object, as far as hook output has a use for it.
#[derive(Debug, PartialEq, Eq)]
pub enum JsonField {
    Null,
    Bool(bool),
    Text(String),
    /// A number, an array or an object.
    Other,
}

pub enum JsonFieldView {
    Null,
    Bool(bool),
    Text(Seq<char>),
    Other,
}

impl DeepView for JsonField {
    type V = JsonFieldView;

    open spec fn deep_view(&self) -> JsonFieldView {
        match self {
            JsonField::Null => JsonFieldView::Null,
            JsonField::Bool(b) => JsonFieldView::Bool(*b),
            JsonField::Text(t) => JsonFieldView::Text(t@),
            JsonField::Other => JsonFieldView::Other,
        }
    }
}

/// `serde_json::Value`, a JSON value.
#[verifier::external_type_specification]
#[verifier::external_body]
pub struct ExJsonValue(serde_json::Value);

/// `serde_json::Map`, the members of a JSON object by name.
#[verifier::external_type_specification]
#[verifier::external_body]
#[verifier::reject_recursive_types(K)]
#[verifier::reject_recursive_types(V)]
pub struct ExJsonMap<K, V>(serde_json::Map<K, V>);

/// The members of an object by name.
pub uninterp spec fn object_members(
    object: serde_json::Map<String, serde_json::Value>,
) -> Map<Seq<char>, JsonFieldView>;

/// The members of the JSON object that `text` is, or `None` if `text` is anything
/// but one JSON object, or one that the parser refuses.
pub uninterp spec fn json_object(text: Seq<char>) -> Option<Map<Seq<char>, JsonFieldView>>;

/// `serde_json::from_str` at the type of JSON objects. It gives the object that the
/// whole text is, apart from white space around it, and an error, here `None`, for
/// any other text. It also refuses objects that nest deeper than its limit or hold a
/// number out of its range. Which it is, and what the members are, rests on the text
/// alone.
#[verifier::external_body]
fn parse_object(text: &str) -> (object: Option<serde_json::Map<String, serde_json::Value>>)
    ensures
        json_object(text@) == (match object {
            Some(object) => Some(object_members(object)),
            None => None,
        }),
{
    serde_json::from_str(text).ok()
}

/// `serde_json::Map::get`: the member with this name, if the object has one.
#[verifier::external_body]
fn object_member(
    object: &serde_json::Map<String, serde_json::Value>,
    name: &str,
) -> (member: Option<JsonField>)
    ensures
        member.deep_view() == (if object_members(*object).contains_key(name@) {
            Some(object_members(*object)[name@])
        } else {
            None
        }),
{
    match object.get(name) {
        None => None,
        Some(serde_json::Value::Null) => Some(JsonField::Null),
        Some(serde_json::Value::Bool(b)) => Some(JsonField::Bool(*b)),
        Some(serde_json::Value::String(t)) => Some(JsonField::Text(t.clone())),
        Some(serde_json::Value::Number(_)) => Some(JsonField::Other),
        Some(serde_json::Value::Array(_)) => Some(JsonField::Other),
        Some(serde_json::Value::Object(_)) => Some(JsonField::Other),
    }
}

/// What every hook can say, whatever its event.
#[derive(Debug, PartialEq, Eq)]
pub struct UniversalOutput {
    pub continue_processing: bool,
    pub stop_reason: Option<String>,
    pub suppress_output: bool,
    pub system_message: Option<String>,
}

/// What a stop hook says.
#[derive(Debug, PartialEq, Eq)]
pub struct StopHookOutput {
    pub universal: UniversalOutput,
    pub should_block: bool,
    pub reason: Option<String>,
    /// Why a decision to block does not count, where it does not.
    pub invalid_block_reason: Option<String>,
}

#[verifier::ext_equal]
pub struct UniversalOutputView {
    pub continue_processing: bool,
    pub stop_reason: Option<Seq<char>>,
    pub suppress_output: bool,
    pub system_message: Option<Seq<char>>,
}

#[verifier::ext_equal]
pub struct StopHookOutputView {
    pub universal: UniversalOutputView,
    pub should_block: bool,
    pub reason: Option<Seq<char>>,
    pub invalid_block_reason: Option<Seq<char>>,
}

impl DeepView for UniversalOutput {
    type V = UniversalOutputView;

    open spec fn deep_view(&self) -> UniversalOutputView {
        UniversalOutputView {
            continue_processing: self.continue_processing,
            stop_reason: self.stop_reason.deep_view(),
            suppress_output: self.suppress_output,
            system_message: self.system_message.deep_view(),
        }
    }
}

impl DeepView for StopHookOutput {
    type V = StopHookOutputView;

    open spec fn deep_view(&self) -> StopHookOutputView {
        StopHookOutputView {
            universal: self.universal.deep_view(),
            should_block: self.should_block,
            reason: self.reason.deep_view(),
            invalid_block_reason: self.invalid_block_reason.deep_view(),
        }
    }
}

/// The members of hook output that count. Each is `None` where the object has no
/// such member.
#[derive(Debug, PartialEq, Eq)]
pub struct StopOutputFields {
    /// `continue`
    pub continue_processing: Option<JsonField>,
    /// `stopReason`
    pub stop_reason: Option<JsonField>,
    /// `suppressOutput`
    pub suppress_output: Option<JsonField>,
    /// `systemMessage`
    pub system_message: Option<JsonField>,
    /// `decision`
    pub decision: Option<JsonField>,
    /// `reason`
    pub reason: Option<JsonField>,
}

#[verifier::ext_equal]
pub struct StopOutputFieldsView {
    pub continue_processing: Option<JsonFieldView>,
    pub stop_reason: Option<JsonFieldView>,
    pub suppress_output: Option<JsonFieldView>,
    pub system_message: Option<JsonFieldView>,
    pub decision: Option<JsonFieldView>,
    pub reason: Option<JsonFieldView>,
}

impl DeepView for StopOutputFields {
    type V = StopOutputFieldsView;

    open spec fn deep_view(&self) -> StopOutputFieldsView {
        StopOutputFieldsView {
            continue_processing: self.continue_processing.deep_view(),
            stop_reason: self.stop_reason.deep_view(),
            suppress_output: self.suppress_output.deep_view(),
            system_message: self.system_message.deep_view(),
            decision: self.decision.deep_view(),
            reason: self.reason.deep_view(),
        }
    }
}

/// The member with this name, if there is one.
pub open spec fn member(
    members: Map<Seq<char>, JsonFieldView>,
    name: Seq<char>,
) -> Option<JsonFieldView> {
    if members.contains_key(name) {
        Some(members[name])
    } else {
        None
    }
}

/// The members that count among all members of an object.
pub open spec fn output_fields(members: Map<Seq<char>, JsonFieldView>) -> StopOutputFieldsView {
    StopOutputFieldsView {
        continue_processing: member(members, "continue"@),
        stop_reason: member(members, "stopReason"@),
        suppress_output: member(members, "suppressOutput"@),
        system_message: member(members, "systemMessage"@),
        decision: member(members, "decision"@),
        reason: member(members, "reason"@),
    }
}

/// The flag that a member gives, which is `default` where there is no such member.
/// `None` if the member is no flag.
pub open spec fn flag_of(member: Option<JsonFieldView>, default: bool) -> Option<bool> {
    match member {
        None => Some(default),
        Some(JsonFieldView::Bool(b)) => Some(b),
        _ => None,
    }
}

/// Whether a member can stand where a text may stand.
pub open spec fn is_optional_text(member: Option<JsonFieldView>) -> bool {
    match member {
        None => true,
        Some(JsonFieldView::Null) => true,
        Some(JsonFieldView::Text(_)) => true,
        _ => false,
    }
}

/// The text that a member gives, if any.
pub open spec fn text_of(member: Option<JsonFieldView>) -> Option<Seq<char>> {
    match member {
        Some(JsonFieldView::Text(t)) => Some(t),
        _ => None,
    }
}

/// Whether the members have the types and values that hook output may have.
pub open spec fn well_typed(fields: StopOutputFieldsView) -> bool {
    &&& flag_of(fields.continue_processing, true) is Some
    &&& flag_of(fields.suppress_output, false) is Some
    &&& is_optional_text(fields.stop_reason)
    &&& is_optional_text(fields.system_message)
    &&& is_optional_text(fields.reason)
    &&& is_optional_text(fields.decision)
    &&& text_of(fields.decision) is Some ==> text_of(fields.decision) == Some("block"@)
}

/// The complaint about a decision to block for which no reason is given.
pub open spec fn block_without_reason(event_name: HookEventName) -> Seq<char> {
    if event_name == HookEventName::SubagentStop {
        "SubagentStop hook returned decision:block without a non-empty reason"@
    } else {
        "Stop hook returned decision:block without a non-empty reason"@
    }
}

/// Whether a reason is given and is not blank.
pub open spec fn has_reason(reason: Option<Seq<char>>) -> bool {
    match reason {
        Some(reason) => text::non_blank(reason) is Some,
        None => false,
    }
}

/// What the members say. `None` if one of them has a wrong type or value. Output
/// goes on unless it says otherwise, and blocks if it says so and why.
pub open spec fn meaning_of(
    fields: StopOutputFieldsView,
    event_name: HookEventName,
) -> Option<StopHookOutputView> {
    if well_typed(fields) {
        let blocks = text_of(fields.decision) is Some;
        let reason = text_of(fields.reason);
        Some(
            StopHookOutputView {
                universal: UniversalOutputView {
                    continue_processing: flag_of(fields.continue_processing, true)->0,
                    stop_reason: text_of(fields.stop_reason),
                    suppress_output: flag_of(fields.suppress_output, false)->0,
                    system_message: text_of(fields.system_message),
                },
                should_block: blocks && has_reason(reason),
                reason,
                invalid_block_reason: if blocks && !has_reason(reason) {
                    Some(block_without_reason(event_name))
                } else {
                    None
                },
            },
        )
    } else {
        None
    }
}

/// What a stop hook for this event says with the text `stdout`. `None` if the text
/// is no valid output of such a hook.
pub open spec fn stop_output(
    stdout: Seq<char>,
    event_name: HookEventName,
) -> Option<StopHookOutputView> {
    match json_object(stdout) {
        Some(members) => meaning_of(output_fields(members), event_name),
        None => None,
    }
}

fn read_flag(member: &Option<JsonField>, default: bool) -> (flag: Option<bool>)
    ensures
        flag == flag_of(member.deep_view(), default),
{
    match member {
        None => Some(default),
        Some(JsonField::Bool(b)) => Some(*b),
        _ => None,
    }
}

fn allows_text(member: &Option<JsonField>) -> (allowed: bool)
    ensures
        allowed == is_optional_text(member.deep_view()),
{
    match member {
        None => true,
        Some(JsonField::Null) => true,
        Some(JsonField::Text(_)) => true,
        _ => false,
    }
}

fn take_text(member: Option<JsonField>) -> (text: Option<String>)
    ensures
        text.deep_view() == text_of(member.deep_view()),
{
    match member {
        Some(JsonField::Text(t)) => Some(t),
        _ => None,
    }
}

/// Complains about a decision to block for which no reason is given.
pub fn block_without_reason_text(event_name: HookEventName) -> (text: String)
    ensures
        text@ == block_without_reason(event_name),
{
    match event_name {
        HookEventName::SubagentStop => "SubagentStop hook returned decision:block without a non-empty reason".to_owned(),
        _ => "Stop hook returned decision:block without a non-empty reason".to_owned(),
    }
}

/// Reads what the members say, if they have the types and values that they may have.
pub fn interpret_fields(
    fields: StopOutputFields,
    event_name: HookEventName,
) -> (output: Option<StopHookOutput>)
    ensures
        output.deep_view() == meaning_of(fields.deep_view(), event_name),
{
    let continue_processing = match read_flag(&fields.continue_processing, true) {
        Some(flag) => flag,
        None => return None,
    };
    let suppress_output = match read_flag(&fields.suppress_output, false) {
        Some(flag) => flag,
        None => return None,
    };
    if !allows_text(&fields.stop_reason) || !allows_text(&fields.system_message)
        || !allows_text(&fields.reason) || !allows_text(&fields.decision) {
        return None;
    }
    let blocks = match &fields.decision {
        Some(JsonField::Text(decision)) => {
            if !same_text(decision.as_str(), "block") {
                return None;
            }
            true
        },
        _ => false,
    };
    let reason = take_text(fields.reason);
    let reasoned = match &reason {
        Some(reason) => trimmed_non_empty(reason.as_str()).is_some(),
        None => false,
    };
    let invalid_block_reason = if blocks && !reasoned {
        Some(block_without_reason_text(event_name))
    } else {
        None
    };
    Some(
        StopHookOutput {
            universal: UniversalOutput {
                continue_processing,
                stop_reason: take_text(fields.stop_reason),
                suppress_output,
                system_message: take_text(fields.system_message),
            },
            should_block: blocks && reasoned,
            reason,
            invalid_block_reason,
        },
    )
}

/// Reads the output of a hook for this event.
fn parse_output(stdout: &str, event_name: HookEventName) -> (output: Option<StopHookOutput>)
    ensures
        output.deep_view() == stop_output(stdout@, event_name),
{
    match parse_object(stdout) {
        Some(object) => {
            let fields = StopOutputFields {
                continue_processing: object_member(&object, "continue"),
                stop_reason: object_member(&object, "stopReason"),
                suppress_output: object_member(&object, "suppressOutput"),
                system_message: object_member(&object, "systemMessage"),
                decision: object_member(&object, "decision"),
                reason: object_member(&object, "reason"),
            };
            interpret_fields(fields, event_name)
        },
        None => None,
    }
}

/// Reads the output of a hook that ran because the main agent stops.
pub fn parse_stop(stdout: &str) -> (output: Option<StopHookOutput>)
    ensures
        output.deep_view() == stop_output(stdout@, HookEventName::Stop),
{
    parse_output(stdout, HookEventName::Stop)
}

/// Reads the output of a hook that ran because a subagent stops.
pub fn parse_subagent_stop(stdout: &str) -> (output: Option<StopHookOutput>)
    ensures
        output.deep_view() == stop_output(stdout@, HookEventName::SubagentStop),
{
    parse_output(stdout, HookEventName::SubagentStop)
}

/// A decision to block counts, or is declared invalid, but never both; and one
/// that counts has a reason that is not blank.
pub proof fn block_decisions_are_reasoned(fields: StopOutputFieldsView, event_name: HookEventName)
    ensures
        meaning_of(fields, event_name) matches Some(output) ==> {
            &&& !(output.should_block && output.invalid_block_reason is Some)
            &&& output.should_block ==> has_reason(output.reason)
            &&& text_of(fields.decision) is Some <==> (output.should_block
                || output.invalid_block_reason is Some)
        },
{
}

/// Each part of a hook's output comes from the member of its own name.
pub proof fn members_are_read_by_name(members: Map<Seq<char>, JsonFieldView>)
    ensures
        ({
            let fields = output_fields(members);
            &&& fields.continue_processing is Some <==> members.dom().contains("continue"@)
            &&& fields.stop_reason is Some <==> members.dom().contains("stopReason"@)
            &&& fields.suppress_output is Some <==> members.dom().contains("suppressOutput"@)
            &&& fields.system_message is Some <==> members.dom().contains("systemMessage"@)
            &&& fields.decision is Some <==> members.dom().contains("decision"@)
            &&& fields.reason is Some <==> members.dom().contains("reason"@)
            &&& fields.continue_processing matches Some(v) ==> v == members["continue"@]
            &&& fields.stop_reason matches Some(v) ==> v == members["stopReason"@]
            &&& fields.suppress_output matches Some(v) ==> v == members["suppressOutput"@]
            &&& fields.system_message matches Some(v) ==> v == members["systemMessage"@]
            &&& fields.decision matches Some(v) ==> v == members["decision"@]
            &&& fields.reason matches Some(v) ==> v == members["reason"@]
        }),
{
}

/// Output is valid just if `continue` and `suppressOutput` are flags where they are
/// there, the texts are texts or null where they are there, and a decision is to block.
pub proof fn valid_output_has_the_right_types(
    fields: StopOutputFieldsView,
    event_name: HookEventName,
)
    ensures
        meaning_of(fields, event_name) is Some <==> {
            &&& fields.continue_processing matches Some(v) ==> v is Bool
            &&& fields.suppress_output matches Some(v) ==> v is Bool
            &&& fields.stop_reason matches Some(v) ==> v is Null || v is Text
            &&& fields.system_message matches Some(v) ==> v is Null || v is Text
            &&& fields.reason matches Some(v) ==> v is Null || v is Text
            &&& fields.decision matches Some(v) ==> v is Null || v == JsonFieldView::Text("block"@)
        },
{
}

/// Valid output says what its members say. The agent goes on unless `continue` is
/// false. Texts are handed on as they are, and none where there is none.
pub proof fn valid_output_says_what_its_members_say(
    fields: StopOutputFieldsView,
    event_name: HookEventName,
    t: Seq<char>,
)
    requires
        meaning_of(fields, event_name) is Some,
    ensures
        ({
            let output = meaning_of(fields, event_name)->0;
            &&& output.universal.continue_processing <==> fields.continue_processing != Some(
                JsonFieldView::Bool(false),
            )
            &&& output.universal.suppress_output <==> fields.suppress_output == Some(
                JsonFieldView::Bool(true),
            )
            &&& output.universal.stop_reason == Some(t) <==> fields.stop_reason == Some(
                JsonFieldView::Text(t),
            )
            &&& output.universal.system_message == Some(t) <==> fields.system_message == Some(
                JsonFieldView::Text(t),
            )
            &&& output.reason == Some(t) <==> fields.reason == Some(JsonFieldView::Text(t))
        }),
{
}

/// A decision to block counts just if the reason holds a character that is no white
/// space. If not, the output says that it lacks a reason, in the words for its event.
/// Without such a decision it neither blocks nor complains.
pub proof fn block_decisions_count_with_a_reason(
    fields: StopOutputFieldsView,
    event_name: HookEventName,
)
    requires
        meaning_of(fields, event_name) is Some,
    ensures
        ({
            let output = meaning_of(fields, event_name)->0;
            let decided = fields.decision is Some && fields.decision->0 is Text;
            let reasoned = fields.reason is Some && fields.reason->0 is Text && exists|i: int|
                0 <= i < fields.reason->0->Text_0.len() && !text::is_white_space(
                    #[trigger] fields.reason->0->Text_0[i],
                );
            &&& output.should_block <==> decided && reasoned
            &&& output.invalid_block_reason is Some <==> decided && !reasoned
            &&& decided && !reasoned && event_name == HookEventName::Stop
                ==> output.invalid_block_reason == Some(
                "Stop hook returned decision:block without a non-empty reason"@,
            )
            &&& decided && !reasoned && event_name == HookEventName::SubagentStop
                ==> output.invalid_block_reason == Some(
                "SubagentStop hook returned decision:block without a non-empty reason"@,
            )
        }),
{
    if let Some(JsonFieldView::Text(reason)) = fields.reason {
        text::blank_text_is_all_white_space(reason);
    }
}

/// A reason counts just if it is given and holds a character that is no white space.
pub proof fn reasons_count_if_not_blank(reason: Option<Seq<char>>)
    ensures
        has_reason(reason) <==> reason is Some && exists|i: int|
            0 <= i < reason->0.len() && !text::is_white_space(#[trigger] reason->0[i]),
{
    if let Some(reason) = reason {
        text::blank_text_is_all_white_space(reason);
    }
}

/// Text that is no JSON object is no valid output; of a JSON object the members speak.
pub proof fn output_is_read_from_the_object(stdout: Seq<char>, event_name: HookEventName)
    ensures
        json_object(stdout) is None ==> stop_output(stdout, event_name) is None,
        json_object(stdout) matches Some(members) ==> stop_output(stdout, event_name)
            == meaning_of(output_fields(members), event_name),
{
}

/// What is stated of hook output is stated of its own fields.
pub proof fn output_views_are_faithful(
    flag: bool,
    words: String,
    output: StopHookOutput,
    fields: StopOutputFields,
)
    ensures
        JsonField::Null.deep_view() is Null,
        JsonField::Other.deep_view() is Other,
        JsonField::Bool(flag).deep_view() == JsonFieldView::Bool(flag),
        JsonField::Text(words).deep_view() == JsonFieldView::Text(words@),
        output.deep_view().universal.continue_processing == output.universal.continue_processing,
        output.deep_view().universal.stop_reason == output.universal.stop_reason.deep_view(),
        output.deep_view().universal.suppress_output == output.universal.suppress_output,
        output.deep_view().universal.system_message == output.universal.system_message.deep_view(),
        output.deep_view().should_block == output.should_block,
        output.deep_view().reason == output.reason.deep_view(),
        output.deep_view().invalid_block_reason == output.invalid_block_reason.deep_view(),
        fields.deep_view().continue_processing == fields.continue_processing.deep_view(),
        fields.deep_view().stop_reason == fields.stop_reason.deep_view(),
        fields.deep_view().suppress_output == fields.suppress_output.deep_view(),
        fields.deep_view().system_message == fields.system_message.deep_view(),
        fields.deep_view().decision == fields.decision.deep_view(),
        fields.deep_view().reason == fields.reason.deep_view(),
{
}

} // verus!
