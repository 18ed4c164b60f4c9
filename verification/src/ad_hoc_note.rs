//! Ad-hoc memory notes: what a note may look like.
//!
//! A note is free text, or a memory update:
//!
//! ```text
//! <memory_update version="1">
//!   <operation>update</operation>
//!   <target>the fact to change</target>
//!   <content>the fact as it shall be</content>
//! </memory_update>
//! ```
//!
//! The operation is `add`, `update` or `delete`. A deletion has no content, and the
//! other two have some. White space may stand between the elements.
use vstd::prelude::*;
use vstd::utf8::*;

use crate::text;
use crate::text::decimal_text;

verus! {

/// The most bytes that a note may have.
pub const AD_HOC_NOTE_MAX_BYTES: usize = 16_384;

/// What is wrong with a note.
#[derive(Debug, Clone, Copy, PartialEq, Eq, Structural)]
pub enum NoteError {
    /// The note has more than `AD_HOC_NOTE_MAX_BYTES` bytes.
    TooLong,
    /// The note holds a control character other than a tab or a line break.
    ControlCharacter,
    /// A memory update does not open with the version that is known.
    Opening,
    /// The elements of a memory update are not those that must be there, in order.
    Fields,
    /// The operation is none of those that there are.
    Operation,
    /// An addition or an update has no content.
    ContentMissing,
    /// A deletion has content.
    ContentForbidden,
}

/// The parts of a memory update.
#[verifier::ext_equal]
pub struct UpdateView {
    pub operation: Seq<char>,
    pub target: Seq<char>,
    pub content: Option<Seq<char>>,
}

/// Whether a character is a control character that a note may not hold.
pub open spec fn is_forbidden_control(c: char) -> bool {
    &&& (c as u32) < 0x20 || 0x7f <= (c as u32) <= 0x9f
    &&& c != '\t' && c != '\n' && c != '\r'
}

/// Whether a text holds such a character.
pub open spec fn has_forbidden_control(s: Seq<char>) -> bool {
    exists|i: int| 0 <= i < s.len() && is_forbidden_control(#[trigger] s[i])
}

/// What follows the leading white space.
pub open spec fn after_space(s: Seq<char>) -> Seq<char>
    decreases s.len(),
{
    if s.len() > 0 && text::is_white_space(s[0]) {
        after_space(s.drop_first())
    } else {
        s
    }
}

/// What follows `prefix` in a text that starts with it.
pub open spec fn after_prefix(s: Seq<char>, prefix: Seq<char>) -> Option<Seq<char>> {
    if prefix.len() <= s.len() && s.take(prefix.len() as int) == prefix {
        Some(s.skip(prefix.len() as int))
    } else {
        None
    }
}

/// How many characters stand before the next `<`, or before the end.
pub open spec fn run_length(s: Seq<char>) -> nat
    decreases s.len(),
{
    if s.len() == 0 || s[0] == '<' {
        0
    } else {
        1 + run_length(s.drop_first())
    }
}

/// The text of the element that a text starts with, apart from white space before
/// it, and what follows the element.
pub open spec fn element(
    s: Seq<char>,
    opening: Seq<char>,
    closing: Seq<char>,
) -> Option<(Seq<char>, Seq<char>)> {
    match after_prefix(after_space(s), opening) {
        None => None,
        Some(inner) => {
            let n = run_length(inner) as int;
            match after_prefix(inner.skip(n), closing) {
                None => None,
                Some(rest) => Some((inner.take(n), rest)),
            }
        },
    }
}

/// Whether nothing but the end of a memory update follows.
pub open spec fn ends_update(s: Seq<char>) -> bool {
    match after_prefix(after_space(s), "</memory_update>"@) {
        None => false,
        Some(rest) => after_space(rest).len() == 0,
    }
}

/// The parts of a memory update, from the text behind its opening tag.
pub open spec fn update_parts(s: Seq<char>) -> Option<UpdateView> {
    match element(s, "<operation>"@, "</operation>"@) {
        None => None,
        Some((operation, s)) => match element(s, "<target>"@, "</target>"@) {
            None => None,
            Some((target, s)) => if ends_update(s) {
                Some(UpdateView { operation, target, content: None })
            } else {
                match element(s, "<content>"@, "</content>"@) {
                    None => None,
                    Some((content, s)) => if ends_update(s) {
                        Some(UpdateView { operation, target, content: Some(content) })
                    } else {
                        None
                    },
                }
            },
        },
    }
}

/// Whether a note is a memory update, well-formed or not, rather than free text.
pub open spec fn is_memory_update(s: Seq<char>) -> bool {
    after_prefix(after_space(s), "<memory_update"@) is Some
}

/// What is wrong with the parts of a memory update, if anything.
pub open spec fn update_fault(update: UpdateView) -> Option<NoteError> {
    if update.operation == "delete"@ {
        if update.content is Some {
            Some(NoteError::ContentForbidden)
        } else {
            None
        }
    } else if update.operation == "add"@ || update.operation == "update"@ {
        if update.content is None {
            Some(NoteError::ContentMissing)
        } else {
            None
        }
    } else {
        Some(NoteError::Operation)
    }
}

/// What is wrong with a note, if anything.
pub open spec fn note_fault(note: Seq<char>) -> Option<NoteError> {
    if encode_utf8(note).len() > AD_HOC_NOTE_MAX_BYTES {
        Some(NoteError::TooLong)
    } else if has_forbidden_control(note) {
        Some(NoteError::ControlCharacter)
    } else if !is_memory_update(note) {
        None
    } else {
        match after_prefix(after_space(note), "<memory_update version=\"1\">"@) {
            None => Some(NoteError::Opening),
            Some(rest) => match update_parts(rest) {
                None => Some(NoteError::Fields),
                Some(update) => update_fault(update),
            },
        }
    }
}

/// The characters of a text.
fn chars_of(s: &str) -> (chars: Vec<char>)
    ensures
        chars@ == s@,
{
    let mut chars: Vec<char> = Vec::new();
    for c in iter: s.chars()
        invariant
            chars@ == s@.take(iter.index() as int),
            iter.seq() == s@,
    {
        assert(s@.take(iter.index() + 1) =~= s@.take(iter.index() as int).push(c));
        chars.push(c);
    }
    assert(s@.take(s@.len() as int) =~= s@);
    chars
}

fn forbids(c: char) -> (forbidden: bool)
    ensures
        forbidden == is_forbidden_control(c),
{
    let code: u32 = c as u32;
    (code < 0x20 || (0x7f <= code && code <= 0x9f)) && c != '\t' && c != '\n' && c != '\r'
}

fn find_forbidden_control(chars: &Vec<char>) -> (found: bool)
    ensures
        found == has_forbidden_control(chars@),
{
    let mut i: usize = 0;
    while i < chars.len()
        invariant
            i <= chars@.len(),
            forall|k: int| 0 <= k < i ==> !is_forbidden_control(#[trigger] chars@[k]),
        decreases chars@.len() - i,
    {
        if forbids(chars[i]) {
            return true;
        }
        i += 1;
    }
    false
}

fn is_space(c: char) -> (space: bool)
    ensures
        space == text::is_white_space(c),
{
    let code: u32 = c as u32;
    (0x9 <= code && code <= 0xd) || code == 0x20 || code == 0x85 || code == 0xa0 || code == 0x1680
        || (0x2000 <= code && code <= 0x200a) || code == 0x2028 || code == 0x2029 || code == 0x202f
        || code == 0x205f || code == 0x3000
}

/// Passes over white space.
fn pass_space(chars: &Vec<char>, from: usize) -> (to: usize)
    requires
        from <= chars@.len(),
    ensures
        from <= to <= chars@.len(),
        chars@.skip(to as int) == after_space(chars@.skip(from as int)),
{
    let mut to: usize = from;
    while to < chars.len() && is_space(chars[to])
        invariant
            from <= to <= chars@.len(),
            after_space(chars@.skip(to as int)) == after_space(chars@.skip(from as int)),
        decreases chars@.len() - to,
    {
        assert(chars@.skip(to as int).drop_first() =~= chars@.skip(to + 1));
        to += 1;
    }
    to
}

/// Passes over `prefix`, if it is what comes next.
fn pass_prefix(chars: &Vec<char>, from: usize, prefix: &str) -> (to: Option<usize>)
    requires
        from <= chars@.len(),
    ensures
        match to {
            Some(to) => from <= to <= chars@.len() && after_prefix(
                chars@.skip(from as int),
                prefix@,
            ) == Some(chars@.skip(to as int)),
            None => after_prefix(chars@.skip(from as int), prefix@) is None,
        },
{
    let expected = chars_of(prefix);
    let ghost rest = chars@.skip(from as int);
    if expected.len() > chars.len() - from {
        return None;
    }
    let mut i: usize = 0;
    while i < expected.len()
        invariant
            i <= expected@.len(),
            from <= chars@.len(),
            expected@ == prefix@,
            expected@.len() <= chars@.len() - from,
            rest == chars@.skip(from as int),
            forall|k: int| 0 <= k < i ==> rest[k] == #[trigger] expected@[k],
        decreases expected@.len() - i,
    {
        assert(from + i < chars.len());
        if chars[from + i] != expected[i] {
            assert(rest.take(prefix@.len() as int)[i as int] != prefix@[i as int]);
            return None;
        }
        assert(rest[i as int] == expected@[i as int]);
        i += 1;
    }
    assert(rest.take(prefix@.len() as int) =~= prefix@);
    assert(rest.skip(prefix@.len() as int) =~= chars@.skip(from + i));
    Some(from + i)
}

/// Reads an element, and says where it ends.
fn read_element(chars: &Vec<char>, from: usize, opening: &str, closing: &str) -> (read: Option<
    (Vec<char>, usize),
>)
    requires
        from <= chars@.len(),
    ensures
        match read {
            Some((inner, to)) => from <= to <= chars@.len() && element(
                chars@.skip(from as int),
                opening@,
                closing@,
            ) == Some((inner@, chars@.skip(to as int))),
            None => element(chars@.skip(from as int), opening@, closing@) is None,
        },
{
    let at = pass_space(chars, from);
    let start = match pass_prefix(chars, at, opening) {
        Some(start) => start,
        None => return None,
    };
    let ghost inner = chars@.skip(start as int);
    let mut held: Vec<char> = Vec::new();
    let mut end: usize = start;
    while end < chars.len() && chars[end] != '<'
        invariant
            start <= end <= chars@.len(),
            inner == chars@.skip(start as int),
            held@ == inner.take(end - start),
            run_length(inner) == (end - start) + run_length(chars@.skip(end as int)),
        decreases chars@.len() - end,
    {
        held.push(chars[end]);
        assert(inner.take(end + 1 - start) =~= inner.take(end - start).push(chars@[end as int]));
        assert(chars@.skip(end as int).drop_first() =~= chars@.skip(end + 1));
        end += 1;
    }
    assert(inner.skip(end - start) =~= chars@.skip(end as int));
    match pass_prefix(chars, end, closing) {
        Some(to) => Some((held, to)),
        None => None,
    }
}

fn at_update_end(chars: &Vec<char>, from: usize) -> (ends: bool)
    requires
        from <= chars@.len(),
    ensures
        ends == ends_update(chars@.skip(from as int)),
{
    let at = pass_space(chars, from);
    match pass_prefix(chars, at, "</memory_update>") {
        Some(to) => pass_space(chars, to) == chars.len(),
        None => false,
    }
}

fn holds_text(chars: &Vec<char>, expected: &str) -> (same: bool)
    ensures
        same == (chars@ == expected@),
{
    match pass_prefix(chars, 0, expected) {
        Some(to) => {
            proof {
                assert(chars@.skip(0) =~= chars@);
                assert(chars@.skip(to as int).len() == chars@.len() - to);
                assert(chars@.skip(expected@.len() as int).len() == chars@.len() - expected@.len());
                assert(chars@.take(chars@.len() as int) =~= chars@);
            }
            to == chars.len()
        },
        None => {
            assert(chars@.skip(0) =~= chars@);
            assert(chars@ == expected@ ==> chars@.take(chars@.len() as int) =~= chars@);
            false
        },
    }
}

fn check_update(operation: &Vec<char>, has_content: bool) -> (checked: Result<(), NoteError>)
    ensures
        forall|target: Seq<char>, content: Option<Seq<char>>|
            content is Some == has_content ==> #[trigger] update_fault(
                UpdateView { operation: operation@, target, content },
            ) == fault_in(checked),
{
    if holds_text(operation, "delete") {
        if has_content {
            Err(NoteError::ContentForbidden)
        } else {
            Ok(())
        }
    } else if holds_text(operation, "add") || holds_text(operation, "update") {
        if has_content {
            Ok(())
        } else {
            Err(NoteError::ContentMissing)
        }
    } else {
        Err(NoteError::Operation)
    }
}

/// The fault that the result of a check reports.
pub open spec fn fault_in(checked: Result<(), NoteError>) -> Option<NoteError> {
    match checked {
        Ok(()) => None,
        Err(fault) => Some(fault),
    }
}

/// Checks that a note is one that can be taken.
pub fn validate_note(note: &str) -> (checked: Result<(), NoteError>)
    ensures
        fault_in(checked) == note_fault(note@),
{
    if note.as_bytes().len() > AD_HOC_NOTE_MAX_BYTES {
        return Err(NoteError::TooLong);
    }
    let chars = chars_of(note);
    if find_forbidden_control(&chars) {
        return Err(NoteError::ControlCharacter);
    }
    assert(chars@.skip(0) =~= chars@);
    let start = pass_space(&chars, 0);
    if pass_prefix(&chars, start, "<memory_update").is_none() {
        return Ok(());
    }
    let at = match pass_prefix(&chars, start, "<memory_update version=\"1\">") {
        Some(at) => at,
        None => return Err(NoteError::Opening),
    };
    let (operation, at) = match read_element(&chars, at, "<operation>", "</operation>") {
        Some(read) => read,
        None => return Err(NoteError::Fields),
    };
    let at = match read_element(&chars, at, "<target>", "</target>") {
        Some((_, at)) => at,
        None => return Err(NoteError::Fields),
    };
    if at_update_end(&chars, at) {
        return check_update(&operation, false);
    }
    let at = match read_element(&chars, at, "<content>", "</content>") {
        Some((_, at)) => at,
        None => return Err(NoteError::Fields),
    };
    if at_update_end(&chars, at) {
        check_update(&operation, true)
    } else {
        Err(NoteError::Fields)
    }
}

/// How an error reads.
pub open spec fn message_of(error: NoteError) -> Seq<char> {
    match error {
        NoteError::TooLong => "note must be at most "@ + text::decimal(
            AD_HOC_NOTE_MAX_BYTES as int,
        ) + " bytes"@,
        NoteError::ControlCharacter => "note must not hold control characters"@,
        NoteError::Opening => "memory update must open with <memory_update version=\"1\">"@,
        NoteError::Fields =>
            "memory update fields must appear as operation, target and content, in this order"@,
        NoteError::Operation => "operation must be add, update or delete"@,
        NoteError::ContentMissing => "add and update need content"@,
        NoteError::ContentForbidden => "delete takes no content"@,
    }
}

impl NoteError {
    /// Puts the error into words.
    pub fn message(&self) -> (message: String)
        ensures
            message@ == message_of(*self),
    {
        match self {
            NoteError::TooLong => {
                let mut message = "note must be at most ".to_owned();
                message.append(decimal_text(AD_HOC_NOTE_MAX_BYTES as i64).as_str());
                message.append(" bytes");
                message
            },
            NoteError::ControlCharacter => "note must not hold control characters".to_owned(),
            NoteError::Opening => "memory update must open with <memory_update version=\"1\">".to_owned(),
            NoteError::Fields => "memory update fields must appear as operation, target and content, in this order".to_owned(),
            NoteError::Operation => "operation must be add, update or delete".to_owned(),
            NoteError::ContentMissing => "add and update need content".to_owned(),
            NoteError::ContentForbidden => "delete takes no content".to_owned(),
        }
    }
}

/// An element with this text.
pub open spec fn tagged(opening: Seq<char>, inner: Seq<char>, closing: Seq<char>) -> Seq<char> {
    opening + inner + closing
}

/// A memory update with these parts, without white space between the elements.
pub open spec fn rendered(update: UpdateView) -> Seq<char> {
    "<memory_update version=\"1\">"@ + tagged(
        "<operation>"@,
        update.operation,
        "</operation>"@,
    ) + tagged("<target>"@, update.target, "</target>"@) + (match update.content {
        Some(content) => tagged("<content>"@, content, "</content>"@),
        None => Seq::empty(),
    }) + "</memory_update>"@
}

proof fn run_length_is(inner: Seq<char>, rest: Seq<char>)
    requires
        !inner.contains('<'),
        rest.len() > 0,
        rest[0] == '<',
    ensures
        run_length(inner + rest) == inner.len(),
    decreases inner.len(),
{
    let all = inner + rest;
    if inner.len() == 0 {
        assert(all =~= rest);
    } else {
        let fewer = inner.drop_first();
        assert(inner.contains(inner[0]));
        assert forall|c: char| fewer.contains(c) implies inner.contains(c) by {
            let i = choose|i: int| 0 <= i < fewer.len() && fewer[i] == c;
            assert(inner[i + 1] == c);
        }
        run_length_is(fewer, rest);
        assert(all.drop_first() =~= fewer + rest);
    }
}

proof fn no_space_before_tag(s: Seq<char>)
    requires
        s.len() > 0,
        s[0] == '<',
    ensures
        after_space(s) == s,
{
}

/// An element is read back, and what follows it is left.
proof fn element_is_read_back(
    opening: Seq<char>,
    inner: Seq<char>,
    closing: Seq<char>,
    rest: Seq<char>,
)
    requires
        opening.len() > 0,
        opening[0] == '<',
        closing.len() > 0,
        closing[0] == '<',
        !inner.contains('<'),
    ensures
        element(tagged(opening, inner, closing) + rest, opening, closing) == Some((inner, rest)),
{
    let s = tagged(opening, inner, closing) + rest;
    let tail = closing + rest;
    no_space_before_tag(s);
    assert(s.take(opening.len() as int) =~= opening);
    assert(s.skip(opening.len() as int) =~= inner + tail);
    run_length_is(inner, tail);
    assert((inner + tail).take(inner.len() as int) =~= inner);
    assert((inner + tail).skip(inner.len() as int) =~= tail);
    assert(tail.take(closing.len() as int) =~= closing);
    assert(tail.skip(closing.len() as int) =~= rest);
}

/// The parts of a memory update are read back as they were written, so nothing is
/// wrong with the note but what is wrong with the parts.
pub proof fn written_updates_are_read_back(update: UpdateView)
    requires
        !update.operation.contains('<'),
        !update.target.contains('<'),
        update.content matches Some(content) ==> !content.contains('<'),
        encode_utf8(rendered(update)).len() <= AD_HOC_NOTE_MAX_BYTES,
        !has_forbidden_control(rendered(update)),
    ensures
        after_prefix(
            after_space(rendered(update)),
            "<memory_update version=\"1\">"@,
        ) matches Some(rest) && update_parts(rest) == Some(update),
        note_fault(rendered(update)) == update_fault(update),
{
    let note = rendered(update);
    let head = "<memory_update version=\"1\">"@;
    let end = "</memory_update>"@;
    reveal_strlit("<memory_update version=\"1\">");
    reveal_strlit("<memory_update");
    reveal_strlit("</memory_update>");
    reveal_strlit("<operation>");
    reveal_strlit("</operation>");
    reveal_strlit("<target>");
    reveal_strlit("</target>");
    reveal_strlit("<content>");
    reveal_strlit("</content>");
    let content = match update.content {
        Some(content) => tagged("<content>"@, content, "</content>"@),
        None => Seq::empty(),
    };
    let after_target = content + end;
    let after_operation = tagged("<target>"@, update.target, "</target>"@) + after_target;
    let body = tagged("<operation>"@, update.operation, "</operation>"@) + after_operation;
    assert(note =~= head + body);
    no_space_before_tag(note);
    assert(note.take(head.len() as int) =~= head);
    assert(note.skip(head.len() as int) =~= body);
    assert(note.take("<memory_update"@.len() as int) =~= "<memory_update"@);
    element_is_read_back("<operation>"@, update.operation, "</operation>"@, after_operation);
    element_is_read_back("<target>"@, update.target, "</target>"@, after_target);
    let nothing = Seq::<char>::empty();
    assert(ends_update(end)) by {
        no_space_before_tag(end);
        assert(end.take(end.len() as int) =~= end);
        assert(end.skip(end.len() as int) =~= nothing);
    }
    if let Some(inner) = update.content {
        element_is_read_back("<content>"@, inner, "</content>"@, end);
        assert(!ends_update(after_target)) by {
            no_space_before_tag(after_target);
            assert(after_target[1] == 'c');
            assert(after_target.take(end.len() as int)[1] == 'c');
        }
        assert(update_parts(body) == Some(update));
    } else {
        assert(after_target =~= end);
        assert(update_parts(body) == Some(update));
    }
}

/// A memory update whose target comes before its operation is rejected, whatever
/// follows.
pub proof fn target_before_operation_is_rejected(target: Seq<char>, rest: Seq<char>)
    requires
        ({
            let note = "<memory_update version=\"1\">"@ + tagged(
                "<target>"@,
                target,
                "</target>"@,
            ) + rest;
            &&& encode_utf8(note).len() <= AD_HOC_NOTE_MAX_BYTES
            &&& !has_forbidden_control(note)
        }),
    ensures
        note_fault(
            "<memory_update version=\"1\">"@ + tagged("<target>"@, target, "</target>"@) + rest,
        ) == Some(NoteError::Fields),
{
    let head = "<memory_update version=\"1\">"@;
    let note = head + tagged("<target>"@, target, "</target>"@) + rest;
    reveal_strlit("<memory_update version=\"1\">");
    reveal_strlit("<memory_update");
    reveal_strlit("<operation>");
    reveal_strlit("<target>");
    no_space_before_tag(note);
    assert(note.take(head.len() as int) =~= head);
    let body = note.skip(head.len() as int);
    assert(body =~= tagged("<target>"@, target, "</target>"@) + rest);
    assert(note.take("<memory_update"@.len() as int) =~= "<memory_update"@);
    no_space_before_tag(body);
    assert(body[1] == 't');
    let opening = "<operation>"@;
    assert(after_prefix(body, opening) is None) by {
        if opening.len() <= body.len() {
            assert(body.take(opening.len() as int)[1] == 't');
        }
    }
}

/// Free text is taken as it is, if it is not too long and holds no forbidden control
/// character.
pub proof fn free_text_is_taken(note: Seq<char>)
    requires
        !is_memory_update(note),
    ensures
        note_fault(note) is None <==> encode_utf8(note).len() <= AD_HOC_NOTE_MAX_BYTES
            && !has_forbidden_control(note),
{
}

/// Every note that is taken is bounded and free of forbidden control characters.
pub proof fn taken_notes_are_bounded(note: Seq<char>)
    requires
        note_fault(note) is None,
    ensures
        encode_utf8(note).len() <= AD_HOC_NOTE_MAX_BYTES,
        !has_forbidden_control(note),
{
}

/// White space that may stand around the elements of a memory update.
#[verifier::ext_equal]
pub struct GapsView {
    pub lead: Seq<char>,
    pub before_operation: Seq<char>,
    pub before_target: Seq<char>,
    pub before_content: Seq<char>,
    pub before_end: Seq<char>,
    pub trail: Seq<char>,
}

/// Whether a text is white space alone.
pub open spec fn only_space(s: Seq<char>) -> bool {
    forall|i: int| 0 <= i < s.len() ==> text::is_white_space(#[trigger] s[i])
}

/// Whether all gaps are white space.
pub open spec fn gaps_are_space(gaps: GapsView) -> bool {
    &&& only_space(gaps.lead)
    &&& only_space(gaps.before_operation)
    &&& only_space(gaps.before_target)
    &&& only_space(gaps.before_content)
    &&& only_space(gaps.before_end)
    &&& only_space(gaps.trail)
}

/// Whether no part holds a `<`.
pub open spec fn parts_are_plain(update: UpdateView) -> bool {
    &&& !update.operation.contains('<')
    &&& !update.target.contains('<')
    &&& update.content matches Some(content) ==> !content.contains('<')
}

/// A memory update with these parts, and with these gaps around its elements.
pub open spec fn spaced(gaps: GapsView, update: UpdateView) -> Seq<char> {
    gaps.lead + ("<memory_update version=\"1\">"@ + (gaps.before_operation + (tagged(
        "<operation>"@,
        update.operation,
        "</operation>"@,
    ) + (gaps.before_target + (tagged("<target>"@, update.target, "</target>"@) + after_target(
        gaps,
        update,
    ))))))
}

/// What follows the target of such an update.
pub open spec fn after_target(gaps: GapsView, update: UpdateView) -> Seq<char> {
    match update.content {
        Some(content) => gaps.before_content + (tagged("<content>"@, content, "</content>"@) + (
        gaps.before_end + ("</memory_update>"@ + gaps.trail))),
        None => gaps.before_end + ("</memory_update>"@ + gaps.trail),
    }
}

proof fn space_is_passed(gap: Seq<char>, rest: Seq<char>)
    requires
        only_space(gap),
        rest.len() > 0 ==> !text::is_white_space(rest[0]),
    ensures
        after_space(gap + rest) == rest,
    decreases gap.len(),
{
    let s = gap + rest;
    if gap.len() == 0 {
        assert(s =~= rest);
    } else {
        assert(s[0] == gap[0]);
        let fewer = gap.drop_first();
        assert forall|i: int| 0 <= i < fewer.len() implies text::is_white_space(
            #[trigger] fewer[i],
        ) by {
            assert(fewer[i] == gap[i + 1]);
        }
        assert(s.drop_first() =~= fewer + rest);
        space_is_passed(fewer, rest);
    }
}

proof fn passed_space(s: Seq<char>) -> (gap: Seq<char>)
    ensures
        only_space(gap),
        s == gap + after_space(s),
    decreases s.len(),
{
    if s.len() > 0 && text::is_white_space(s[0]) {
        let fewer = passed_space(s.drop_first());
        let gap = seq![s[0]] + fewer;
        assert forall|i: int| 0 <= i < gap.len() implies text::is_white_space(#[trigger] gap[i]) by {
            if i > 0 {
                assert(gap[i] == fewer[i - 1]);
            }
        }
        assert(s =~= seq![s[0]] + s.drop_first());
        assert(seq![s[0]] + (fewer + after_space(s)) =~= gap + after_space(s));
        gap
    } else {
        assert(s =~= Seq::<char>::empty() + s);
        Seq::empty()
    }
}

proof fn run_has_no_tag(s: Seq<char>)
    ensures
        run_length(s) <= s.len(),
        !s.take(run_length(s) as int).contains('<'),
    decreases s.len(),
{
    let run = s.take(run_length(s) as int);
    if s.len() == 0 || s[0] == '<' {
        assert(run.len() == 0);
    } else {
        let rest = s.drop_first();
        run_has_no_tag(rest);
        let fewer = rest.take(run_length(rest) as int);
        if run.contains('<') {
            let i = choose|i: int| 0 <= i < run.len() && run[i] == '<';
            assert(fewer[i - 1] == run[i]);
        }
    }
}

proof fn prefix_splits(s: Seq<char>, prefix: Seq<char>)
    requires
        after_prefix(s, prefix) is Some,
    ensures
        s == prefix + after_prefix(s, prefix)->0,
{
    assert(s =~= s.take(prefix.len() as int) + s.skip(prefix.len() as int));
}

proof fn element_splits(s: Seq<char>, opening: Seq<char>, closing: Seq<char>) -> (gap: Seq<char>)
    requires
        element(s, opening, closing) is Some,
    ensures
        only_space(gap),
        ({
            let (inner, rest) = element(s, opening, closing)->0;
            !inner.contains('<') && s == gap + (tagged(opening, inner, closing) + rest)
        }),
{
    let gap = passed_space(s);
    let at = after_space(s);
    prefix_splits(at, opening);
    let body = after_prefix(at, opening)->0;
    let n = run_length(body) as int;
    run_has_no_tag(body);
    prefix_splits(body.skip(n), closing);
    let (inner, rest) = element(s, opening, closing)->0;
    assert(body =~= inner + body.skip(n));
    assert(s =~= gap + (tagged(opening, inner, closing) + rest));
    gap
}

proof fn end_splits(s: Seq<char>) -> (gaps: (Seq<char>, Seq<char>))
    requires
        ends_update(s),
    ensures
        only_space(gaps.0),
        only_space(gaps.1),
        s == gaps.0 + ("</memory_update>"@ + gaps.1),
{
    let gap = passed_space(s);
    let at = after_space(s);
    prefix_splits(at, "</memory_update>"@);
    let trail = after_prefix(at, "</memory_update>"@)->0;
    let space = passed_space(trail);
    assert(trail =~= space);
    (gap, trail)
}

proof fn element_behind_gap_is_read_back(
    gap: Seq<char>,
    opening: Seq<char>,
    inner: Seq<char>,
    closing: Seq<char>,
    rest: Seq<char>,
)
    requires
        only_space(gap),
        opening.len() > 0,
        opening[0] == '<',
        closing.len() > 0,
        closing[0] == '<',
        !inner.contains('<'),
    ensures
        element(gap + (tagged(opening, inner, closing) + rest), opening, closing) == Some(
            (inner, rest),
        ),
{
    let s = tagged(opening, inner, closing) + rest;
    assert(s[0] == '<');
    space_is_passed(gap, s);
    no_space_before_tag(s);
    element_is_read_back(opening, inner, closing, rest);
}

proof fn end_behind_gap_is_seen(gap: Seq<char>, trail: Seq<char>)
    requires
        only_space(gap),
        only_space(trail),
    ensures
        ends_update(gap + ("</memory_update>"@ + trail)),
{
    reveal_strlit("</memory_update>");
    let end = "</memory_update>"@;
    let s = end + trail;
    assert(s[0] == '<');
    space_is_passed(gap, s);
    assert(s.take(end.len() as int) =~= end);
    assert(s.skip(end.len() as int) =~= trail);
    let nothing = Seq::<char>::empty();
    space_is_passed(trail, nothing);
    assert(trail + nothing =~= trail);
}

/// A memory update may have white space around its elements, wherever and as much as
/// its author likes: its parts are read all the same. So nothing is wrong with such a
/// note but its length, its control characters, or its parts.
pub proof fn spaced_updates_are_read_back(gaps: GapsView, update: UpdateView)
    requires
        gaps_are_space(gaps),
        parts_are_plain(update),
        encode_utf8(spaced(gaps, update)).len() <= AD_HOC_NOTE_MAX_BYTES,
        !has_forbidden_control(spaced(gaps, update)),
    ensures
        note_fault(spaced(gaps, update)) == update_fault(update),
{
    let note = spaced(gaps, update);
    let head = "<memory_update version=\"1\">"@;
    reveal_strlit("<memory_update version=\"1\">");
    reveal_strlit("<memory_update");
    reveal_strlit("</memory_update>");
    reveal_strlit("<operation>");
    reveal_strlit("</operation>");
    reveal_strlit("<target>");
    reveal_strlit("</target>");
    reveal_strlit("<content>");
    reveal_strlit("</content>");
    let tail = after_target(gaps, update);
    let from_target = gaps.before_target + (tagged("<target>"@, update.target, "</target>"@) + tail);
    let body = gaps.before_operation + (tagged("<operation>"@, update.operation, "</operation>"@)
        + from_target);
    let s = head + body;
    assert(note == gaps.lead + s);
    assert(s[0] == '<');
    space_is_passed(gaps.lead, s);
    assert(s.take(head.len() as int) =~= head);
    assert(s.skip(head.len() as int) =~= body);
    assert(s.take("<memory_update"@.len() as int) =~= "<memory_update"@);
    element_behind_gap_is_read_back(
        gaps.before_operation,
        "<operation>"@,
        update.operation,
        "</operation>"@,
        from_target,
    );
    element_behind_gap_is_read_back(
        gaps.before_target,
        "<target>"@,
        update.target,
        "</target>"@,
        tail,
    );
    end_behind_gap_is_seen(gaps.before_end, gaps.trail);
    if let Some(content) = update.content {
        let end = gaps.before_end + ("</memory_update>"@ + gaps.trail);
        let from_content = tagged("<content>"@, content, "</content>"@) + end;
        element_behind_gap_is_read_back(
            gaps.before_content,
            "<content>"@,
            content,
            "</content>"@,
            end,
        );
        assert(from_content[0] == '<');
        space_is_passed(gaps.before_content, from_content);
        let closing = "</memory_update>"@;
        assert(after_prefix(from_content, closing) is None) by {
            assert(from_content[1] == 'c');
            if closing.len() <= from_content.len() {
                assert(from_content.take(closing.len() as int)[1] == 'c');
            }
        }
    }
    assert(update_parts(body) == Some(update));
}

/// Whether a note starts, apart from white space, as memory updates do.
pub open spec fn opens_as_update(note: Seq<char>, opening: Seq<char>) -> bool {
    exists|lead: Seq<char>, rest: Seq<char>|
        only_space(lead) && note == #[trigger] (lead + (opening + rest))
}

/// A note is a memory update just if it starts with `<memory_update`, apart from white
/// space.
pub proof fn memory_updates_start_with_their_tag(note: Seq<char>)
    ensures
        is_memory_update(note) <==> opens_as_update(note, "<memory_update"@),
{
    reveal_strlit("<memory_update");
    opening_is_seen(note, "<memory_update"@);
}

proof fn opening_is_seen(note: Seq<char>, opening: Seq<char>)
    requires
        opening.len() > 0,
        opening[0] == '<',
    ensures
        after_prefix(after_space(note), opening) is Some <==> opens_as_update(note, opening),
{
    if after_prefix(after_space(note), opening) is Some {
        let lead = passed_space(note);
        prefix_splits(after_space(note), opening);
        let rest = after_prefix(after_space(note), opening)->0;
        assert(note == lead + (opening + rest));
    }
    if opens_as_update(note, opening) {
        let (lead, rest) = choose|lead: Seq<char>, rest: Seq<char>|
            only_space(lead) && note == #[trigger] (lead + (opening + rest));
        let s = opening + rest;
        assert(s[0] == '<');
        space_is_passed(lead, s);
        assert(s.take(opening.len() as int) =~= opening);
    }
}

/// Only memory updates with the elements that must be there, in order, pass beyond the
/// check of their fields: such a note is made of an operation, a target and maybe
/// content, and nothing else but white space around them; and what is said of it is
/// said of these parts.
pub proof fn checked_updates_have_all_fields_in_order(note: Seq<char>)
    requires
        is_memory_update(note),
        note_fault(note) != Some(NoteError::TooLong),
        note_fault(note) != Some(NoteError::ControlCharacter),
        note_fault(note) != Some(NoteError::Opening),
        note_fault(note) != Some(NoteError::Fields),
    ensures
        exists|gaps: GapsView, update: UpdateView|
            gaps_are_space(gaps) && parts_are_plain(update) && note == #[trigger] spaced(
                gaps,
                update,
            ) && note_fault(note) == update_fault(update),
{
    let head = "<memory_update version=\"1\">"@;
    let lead = passed_space(note);
    prefix_splits(after_space(note), head);
    let body = after_prefix(after_space(note), head)->0;
    let update = update_parts(body)->0;
    let before_operation = element_splits(body, "<operation>"@, "</operation>"@);
    let (_, from_target) = element(body, "<operation>"@, "</operation>"@)->0;
    let before_target = element_splits(from_target, "<target>"@, "</target>"@);
    let (_, tail) = element(from_target, "<target>"@, "</target>"@)->0;
    let none = Seq::<char>::empty();
    if ends_update(tail) {
        let (before_end, trail) = end_splits(tail);
        let gaps = GapsView {
            lead,
            before_operation,
            before_target,
            before_content: none,
            before_end,
            trail,
        };
        assert(note == spaced(gaps, update));
    } else {
        let before_content = element_splits(tail, "<content>"@, "</content>"@);
        let (_, end) = element(tail, "<content>"@, "</content>"@)->0;
        let (before_end, trail) = end_splits(end);
        let gaps = GapsView {
            lead,
            before_operation,
            before_target,
            before_content,
            before_end,
            trail,
        };
        assert(note == spaced(gaps, update));
    }
}

/// An addition and an update need content, a deletion takes none, and there is no
/// other operation.
pub proof fn operations_fix_their_content(update: UpdateView)
    ensures
        update.operation == "add"@ || update.operation == "update"@ ==> update_fault(update) == (
        if update.content is Some {
            None
        } else {
            Some(NoteError::ContentMissing)
        }),
        update.operation == "delete"@ ==> update_fault(update) == (if update.content is None {
            None
        } else {
            Some(NoteError::ContentForbidden)
        }),
        update.operation != "add"@ && update.operation != "update"@ && update.operation
            != "delete"@ ==> update_fault(update) == Some(NoteError::Operation),
{
    reveal_strlit("add");
    reveal_strlit("update");
    reveal_strlit("delete");
    assert("add"@.len() != "delete"@.len());
    assert("update"@[0] != "delete"@[0]);
}

/// Notes of more than 16384 bytes are too long, and no others are.
pub proof fn long_notes_are_too_long(note: Seq<char>)
    ensures
        note_fault(note) == Some(NoteError::TooLong) <==> encode_utf8(note).len() > 16384,
{
    if let Some(parts) = update_parts_of(note) {
        operations_fix_their_content(parts);
    }
}

proof fn forbidden_controls_have_low_codes(c: char)
    ensures
        is_forbidden_control(c) <==> {
            let code = c as u32;
            (code <= 0x1f || 0x7f <= code <= 0x9f) && code != 9 && code != 10 && code != 13
        },
{
    assert('\t' as u32 == 9 && '\n' as u32 == 10 && '\r' as u32 == 13);
}

/// A note that is not too long is rejected for a control character just if it holds one
/// other than a tab, a line feed or a carriage return.
pub proof fn control_characters_are_rejected(note: Seq<char>)
    requires
        encode_utf8(note).len() <= 16384,
    ensures
        note_fault(note) == Some(NoteError::ControlCharacter) <==> exists|i: int|
            0 <= i < note.len() && {
                let code = #[trigger] note[i] as u32;
                (code <= 0x1f || 0x7f <= code <= 0x9f) && code != 9 && code != 10 && code != 13
            },
{
    if has_forbidden_control(note) {
        let i = choose|i: int| 0 <= i < note.len() && is_forbidden_control(#[trigger] note[i]);
        forbidden_controls_have_low_codes(note[i]);
    }
    if exists|i: int|
        0 <= i < note.len() && {
            let code = #[trigger] note[i] as u32;
            (code <= 0x1f || 0x7f <= code <= 0x9f) && code != 9 && code != 10 && code != 13
        } {
        let i = choose|i: int|
            0 <= i < note.len() && {
                let code = #[trigger] note[i] as u32;
                (code <= 0x1f || 0x7f <= code <= 0x9f) && code != 9 && code != 10 && code != 13
            };
        forbidden_controls_have_low_codes(note[i]);
    }
    if let Some(parts) = update_parts_of(note) {
        operations_fix_their_content(parts);
    }
}

spec fn update_parts_of(note: Seq<char>) -> Option<UpdateView> {
    match after_prefix(after_space(note), "<memory_update version=\"1\">"@) {
        None => None,
        Some(rest) => update_parts(rest),
    }
}

/// Of notes that are neither too long nor hold a forbidden control character, those
/// that do not start with `<memory_update` pass, and of the others those are rejected
/// for their opening that do not go on with the known version.
pub proof fn openings_are_checked(note: Seq<char>)
    requires
        encode_utf8(note).len() <= 16384,
        !has_forbidden_control(note),
    ensures
        !opens_as_update(note, "<memory_update"@) ==> note_fault(note) is None,
        opens_as_update(note, "<memory_update"@) ==> (note_fault(note) == Some(NoteError::Opening)
            <==> !opens_as_update(note, "<memory_update version=\"1\">"@)),
{
    reveal_strlit("<memory_update");
    reveal_strlit("<memory_update version=\"1\">");
    opening_is_seen(note, "<memory_update"@);
    opening_is_seen(note, "<memory_update version=\"1\">"@);
    if let Some(parts) = update_parts_of(note) {
        operations_fix_their_content(parts);
    }
}

} // verus!
