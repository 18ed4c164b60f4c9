use codex_hooks::ad_hoc::{next_seed_action, SeedAction, SeedEvent, INSTRUCTIONS};
use codex_hooks::ad_hoc_note::{validate_note, NoteError, AD_HOC_NOTE_MAX_BYTES};

#[test]
fn validates_bounded_memory_mutations() {
    validate_note(
        "<memory_update version=\"1\"><operation>delete</operation><target>obsolete fact</target></memory_update>",
    )
    .expect("valid delete mutation");

    let oversized = format!(
        "<memory_update version=\"1\"><operation>add</operation><target>fact</target><content>{}</content></memory_update>",
        "x".repeat(AD_HOC_NOTE_MAX_BYTES)
    );
    let error = validate_note(&oversized).expect_err("oversized note should fail");
    assert!(error.message().contains("must be at most"));

    let control = "<memory_update version=\"1\"><operation>delete</operation><target>bad\0target</target></memory_update>";
    let error = validate_note(control).expect_err("control character should fail");
    assert!(error.message().contains("control characters"));
}

#[test]
fn reports_required_element_order() {
    let target_first = "<memory_update version=\"1\"><target>fact</target><operation>delete</operation></memory_update>";

    let error = validate_note(target_first).expect_err("out-of-order fields should fail");

    assert!(
        error
            .message()
            .contains("fields must appear as operation")
    );
}

fn update(operation: &str, content: &str) -> String {
    format!(
        "<memory_update version=\"1\"><operation>{operation}</operation><target>fact</target>{content}</memory_update>"
    )
}

#[test]
fn content_fits_the_operation() {
    let content = "<content>new</content>";
    assert_eq!(validate_note(&update("add", content)), Ok(()));
    assert_eq!(validate_note(&update("update", content)), Ok(()));
    assert_eq!(validate_note(&update("delete", "")), Ok(()));
    assert_eq!(validate_note(&update("add", "")), Err(NoteError::ContentMissing));
    assert_eq!(validate_note(&update("update", "")), Err(NoteError::ContentMissing));
    assert_eq!(validate_note(&update("delete", content)), Err(NoteError::ContentForbidden));
    assert_eq!(validate_note(&update("Delete", "")), Err(NoteError::Operation));
    assert_eq!(validate_note(&update("", content)), Err(NoteError::Operation));
}

#[test]
fn updates_may_span_lines() {
    let note = "\n<memory_update version=\"1\">\n  <operation>update</operation>\r\n\t<target>a fact\nin two lines</target>\n <content>caf\u{e9}</content>\n</memory_update>\n";
    assert_eq!(validate_note(note), Ok(()));
}

#[test]
fn malformed_updates_are_rejected() {
    assert_eq!(
        validate_note("<memory_update version=\"2\"></memory_update>"),
        Err(NoteError::Opening)
    );
    assert_eq!(validate_note("<memory_update>"), Err(NoteError::Opening));
    assert_eq!(validate_note("<memory_update version=\"1\">"), Err(NoteError::Fields));
    assert_eq!(
        validate_note(&format!("{}x", update("delete", ""))),
        Err(NoteError::Fields)
    );
    assert_eq!(validate_note(&update("delete", "<content>")), Err(NoteError::Fields));
    assert_eq!(
        validate_note(&update("add", "<content>a</content><content>b</content>")),
        Err(NoteError::Fields)
    );
    assert_eq!(
        validate_note("<memory_update version=\"1\"><operation>delete</operation></memory_update>"),
        Err(NoteError::Fields)
    );
}

#[test]
fn free_text_is_bounded() {
    assert_eq!(validate_note("# Note\n\n\tForget the old build steps.\r\n"), Ok(()));
    assert_eq!(validate_note(&"x".repeat(AD_HOC_NOTE_MAX_BYTES)), Ok(()));
    assert_eq!(
        validate_note(&"x".repeat(AD_HOC_NOTE_MAX_BYTES + 1)),
        Err(NoteError::TooLong)
    );
    assert_eq!(
        validate_note(&"\u{e9}".repeat(AD_HOC_NOTE_MAX_BYTES / 2 + 1)),
        Err(NoteError::TooLong)
    );
    assert_eq!(validate_note("bell \u{7}"), Err(NoteError::ControlCharacter));
    assert_eq!(validate_note("next line \u{85}"), Err(NoteError::ControlCharacter));
    assert_eq!(validate_note("delete \u{7f}"), Err(NoteError::ControlCharacter));
}

#[test]
fn errors_read_well() {
    assert_eq!(NoteError::TooLong.message(), "note must be at most 16384 bytes");
    assert_eq!(
        NoteError::ControlCharacter.message(),
        "note must not hold control characters"
    );
    assert_eq!(
        NoteError::Opening.message(),
        "memory update must open with <memory_update version=\"1\">"
    );
    assert_eq!(NoteError::Operation.message(), "operation must be add, update or delete");
    assert_eq!(NoteError::ContentMissing.message(), "add and update need content");
    assert_eq!(NoteError::ContentForbidden.message(), "delete takes no content");
}

#[test]
fn instructions_state_the_policy() {
    assert!(INSTRUCTIONS.contains("<memory_mutation_policy>"));
    assert!(INSTRUCTIONS.contains("Do not retain a"));
    assert!(INSTRUCTIONS.contains("tombstone"));
    assert!(INSTRUCTIONS.ends_with("</memory_mutation_policy>\n"));
}

#[test]
fn custom_instructions_stay() {
    let legacy = "# Retired\n";
    let read = |text: &str| next_seed_action(SeedEvent::Read(text.to_string()), legacy);
    assert_eq!(read(INSTRUCTIONS), SeedAction::Finish);
    assert_eq!(read("custom instructions"), SeedAction::KeepCustom);
    assert_eq!(read("# Retired"), SeedAction::KeepCustom);
    assert_eq!(read(legacy), SeedAction::ReplaceAtomically);
}

#[test]
fn missing_instructions_are_created() {
    assert_eq!(next_seed_action(SeedEvent::ReadMissing, ""), SeedAction::CreateNew);
    assert_eq!(next_seed_action(SeedEvent::Created, ""), SeedAction::WriteAll);
    assert_eq!(next_seed_action(SeedEvent::CreateExists, ""), SeedAction::Finish);
    assert_eq!(next_seed_action(SeedEvent::ReadFailed, ""), SeedAction::Fail);
    assert_eq!(next_seed_action(SeedEvent::CreateFailed, ""), SeedAction::Fail);
}

#[test]
fn seeding_again_writes_nothing() {
    let legacy = "# Retired\n";
    let read = |text: &str| next_seed_action(SeedEvent::Read(text.to_string()), legacy);

    assert_eq!(read(legacy), SeedAction::ReplaceAtomically);
    assert_eq!(read(INSTRUCTIONS), SeedAction::Finish);

    assert_eq!(next_seed_action(SeedEvent::ReadMissing, legacy), SeedAction::CreateNew);
    assert_eq!(next_seed_action(SeedEvent::Created, legacy), SeedAction::WriteAll);
    assert_eq!(read(INSTRUCTIONS), SeedAction::Finish);

    let same = |text: &str| next_seed_action(SeedEvent::Read(text.to_string()), INSTRUCTIONS);
    assert_eq!(same(INSTRUCTIONS), SeedAction::Finish);
}
