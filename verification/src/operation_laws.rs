//! What the operations do, said of their arguments and results.
use vstd::prelude::*;
use vstd::utf8::*;

use crate::ad_hoc::{next_seed_action, SeedAction, SeedEvent, INSTRUCTIONS};
use crate::ad_hoc_note;
use crate::ad_hoc_note::{validate_note, GapsView, NoteError, UpdateView};
use crate::changed_files;
use crate::changed_files::{
    changed_files, extend_nul_delimited_paths, finalize_and_count, finalize_changed_files,
    query_output, report_changed_files, tracked_files_query, untracked_files_query,
    ChangedFilesReport, FinalizedFiles, QueryOutcome,
};
use crate::path_order;
use crate::path_order::{place_path, Placement};
use crate::text;
use crate::text::{copy_text, decimal_text, join_text_chunks, same_text, trimmed_non_empty};

verus! {

/// What is left of a text is what stands between the white space at its ends, and
/// nothing is left of white space alone.
pub proof fn trimming_keeps_the_middle(
    text: &str,
    kept: Option<String>,
    left: Seq<char>,
    middle: Seq<char>,
    right: Seq<char>,
)
    requires
        call_ensures(trimmed_non_empty, (text,), kept),
        text@ == left + middle + right,
        forall|i: int| 0 <= i < left.len() ==> text::is_white_space(#[trigger] left[i]),
        forall|i: int| 0 <= i < right.len() ==> text::is_white_space(#[trigger] right[i]),
        middle.len() > 0 ==> !text::is_white_space(middle.first()) && !text::is_white_space(
            middle.last(),
        ),
    ensures
        kept is Some <==> middle.len() > 0,
        kept matches Some(kept) ==> kept@ == middle,
{
    text::trimming_leaves_what_stands_between(left, middle, right);
}

/// No chunks are joined to nothing and one chunk to itself. If some chunks are joined,
/// and some others, then all of them together are joined to the one text, an empty
/// line and the other.
pub proof fn joined_chunks_all_count(
    first: Vec<String>,
    second: Vec<String>,
    all: Vec<String>,
    one_text: Option<String>,
    other_text: Option<String>,
    whole_text: Option<String>,
)
    requires
        call_ensures(join_text_chunks, (first,), one_text),
        call_ensures(join_text_chunks, (second,), other_text),
        call_ensures(join_text_chunks, (all,), whole_text),
        all.deep_view() == first.deep_view() + second.deep_view(),
    ensures
        first@.len() == 0 <==> one_text is None,
        first@.len() == 1 ==> one_text->0@ == first@[0]@,
        first@.len() > 0 && second@.len() > 0 ==> whole_text is Some && whole_text->0@
            == one_text->0@ + seq!['\n', '\n'] + other_text->0@,
{
    let (x, y) = (first.deep_view(), second.deep_view());
    if x.len() > 0 {
        text::joining_keeps_every_chunk(x, y, x[0]);
        if x.len() == 1 {
            assert(x =~= seq![x[0]]);
        }
    }
}

/// A digit is written as itself, further digits are appended, and a minus sign stands
/// before a negative number.
pub proof fn numbers_are_written_digit_by_digit(
    n: i64,
    digit: i64,
    longer: i64,
    negated: i64,
    n_text: String,
    digit_text: String,
    longer_text: String,
    negated_text: String,
)
    requires
        call_ensures(decimal_text, (n,), n_text),
        call_ensures(decimal_text, (digit,), digit_text),
        call_ensures(decimal_text, (longer,), longer_text),
        call_ensures(decimal_text, (negated,), negated_text),
        0 <= digit < 10,
        n > 0,
        longer == 10 * n + digit,
        negated == -n,
    ensures
        digit_text@.len() == 1,
        digit_text@[0] as u32 == '0' as u32 + digit,
        longer_text@ == n_text@ + digit_text@,
        negated_text@ == seq!['-'] + n_text@,
{
    text::decimal_notation_is_positional(n as nat, digit as nat);
}

/// A copy holds the same text, and two texts are the same just if they hold the same
/// characters.
pub proof fn copies_are_the_same_text(
    text: Option<String>,
    copy: Option<String>,
    a: &str,
    b: &str,
    same: bool,
)
    requires
        call_ensures(copy_text, (&text,), copy),
        call_ensures(same_text, (a, b), same),
    ensures
        text is None <==> copy is None,
        text is Some && copy is Some ==> text->0@ == copy->0@,
        same <==> a@ == b@,
{
}

/// Of two different paths the one whose encoding has the smaller byte where they first
/// differ, or ends there, stands before the other.
pub proof fn paths_are_placed_by_their_first_different_byte(
    a: &str,
    b: &str,
    place: Placement,
    i: nat,
)
    requires
        call_ensures(place_path, (a, b), place),
        i <= encode_utf8(a@).len(),
        i <= encode_utf8(b@).len(),
        encode_utf8(a@).take(i as int) == encode_utf8(b@).take(i as int),
    ensures
        place == Placement::Same <==> a@ == b@,
        i < encode_utf8(a@).len() && i < encode_utf8(b@).len() && encode_utf8(a@)[i as int]
            < encode_utf8(b@)[i as int] ==> place == Placement::Before,
        i < encode_utf8(a@).len() && i < encode_utf8(b@).len() && encode_utf8(a@)[i as int]
            > encode_utf8(b@)[i as int] ==> place == Placement::After,
        i == encode_utf8(a@).len() && i < encode_utf8(b@).len() ==> place == Placement::Before,
        i < encode_utf8(a@).len() && i == encode_utf8(b@).len() ==> place == Placement::After,
{
    let (x, y) = (encode_utf8(a@), encode_utf8(b@));
    path_order::only_equal_paths_share_a_place(a@, b@);
    if i < x.len() && i < y.len() {
        if x[i as int] != y[i as int] {
            path_order::first_different_byte_decides(a@, b@, i);
        }
    } else if i < y.len() {
        assert(x.take(i as int) =~= x);
        path_order::prefixes_sort_first(a@, b@);
    } else if i < x.len() {
        assert(y.take(i as int) =~= y);
        path_order::prefixes_sort_first(b@, a@);
    }
}

/// Git is asked for the tracked files that differ from the last commit, and for those
/// that it neither tracks nor ignores, with NUL bytes between them. An answer counts
/// if git ran to its end in time and succeeded.
pub proof fn git_is_asked_twice(
    tracked_args: Vec<&'static str>,
    untracked_args: Vec<&'static str>,
    outcome: QueryOutcome,
    answer: Option<Vec<u8>>,
)
    requires
        call_ensures(tracked_files_query, (), tracked_args),
        call_ensures(untracked_files_query, (), untracked_args),
        call_ensures(query_output, (outcome,), answer),
    ensures
        tracked_args@.len() == 4,
        tracked_args@[0]@ == "diff"@,
        tracked_args@[1]@ == "--name-only"@,
        tracked_args@[2]@ == "-z"@,
        tracked_args@[3]@ == "HEAD"@,
        untracked_args@.len() == 4,
        untracked_args@[0]@ == "ls-files"@,
        untracked_args@[1]@ == "--others"@,
        untracked_args@[2]@ == "--exclude-standard"@,
        untracked_args@[3]@ == "-z"@,
        answer is Some <==> outcome is Exited && outcome->success,
        answer matches Some(bytes) ==> bytes == outcome->stdout,
{
    assert(tracked_args.deep_view().len() == tracked_args@.len());
    assert(untracked_args.deep_view().len() == untracked_args@.len());
    assert forall|i: int| 0 <= i < tracked_args@.len() implies #[trigger] tracked_args@[i]@
        == tracked_args.deep_view()[i] by {}
    assert forall|i: int| 0 <= i < untracked_args@.len() implies #[trigger] untracked_args@[i]@
        == untracked_args.deep_view()[i] by {}
}

/// Reading output appends: what was there stays, and the paths that the output names
/// follow. An output of two parts with a NUL byte between names what the one part
/// names, then what the other does.
pub proof fn reading_paths_appends(
    files: &mut Vec<String>,
    output: &[u8],
    invalid_paths: usize,
    first: Seq<u8>,
    second: Seq<u8>,
)
    requires
        call_ensures(extend_nul_delimited_paths, (files, output), invalid_paths),
        output@ == first + seq![0u8] + second,
    ensures
        final(files).deep_view() == old(files).deep_view() + changed_files::path_names(first)
            + changed_files::path_names(second),
        invalid_paths == changed_files::invalid_path_count(first)
            + changed_files::invalid_path_count(second),
{
    changed_files::paths_of_parts(first, second);
}

/// Files are listed each once, in order, and a thousand at most. All are counted. The
/// listing is full, and the count of different files larger, just if some are left
/// out.
pub proof fn files_are_listed_in_order(
    files: Vec<String>,
    finalized: FinalizedFiles,
    listing: Option<Vec<String>>,
    i: int,
    j: int,
)
    requires
        call_ensures(finalize_and_count, (files,), finalized),
        call_ensures(finalize_changed_files, (files,), listing),
    ensures
        listing is None <==> files@.len() == 0,
        finalized.files.deep_view() == listing.deep_view(),
        finalized.found == files@.len(),
        finalized.truncated <==> files.deep_view().to_set().len() > 1000,
        ({
            let kept = changed_files::listed(listing.deep_view());
            &&& kept.len() <= 1000
            &&& 0 <= i < j < kept.len() ==> path_order::path_less(kept[i], kept[j])
            &&& 0 <= i < kept.len() ==> files.deep_view().contains(kept[i])
            &&& 0 <= j < files@.len() && !kept.contains(files@[j]@) ==> finalized.truncated
                && kept.len() == 1000 && (0 <= i < 1000 ==> path_order::path_less(
                kept[i],
                files@[j]@,
            ))
        }),
{
    let names = files.deep_view();
    assert(names.len() == files@.len());
    changed_files::report_depends_on_the_set_of_files(
        names,
        names,
        finalized.files.deep_view(),
        listing.deep_view(),
    );
    changed_files::reports_hold_the_first_thousand(names, listing.deep_view(), i, j, j);
    if names.len() > 0 {
        changed_files::truncated_reports_are_full(names, listing.deep_view()->0);
    } else {
        names.lemma_cardinality_of_set();
    }
}

/// Without an answer to both queries nothing is known of the changed files. With both,
/// the files that either names are listed together, and those that are not UTF-8 are
/// counted together.
pub proof fn both_answers_count(
    diff: Option<Vec<u8>>,
    untracked: Option<Vec<u8>>,
    report: ChangedFilesReport,
    listing: Option<Vec<String>>,
)
    requires
        call_ensures(report_changed_files, (diff, untracked), report),
        call_ensures(changed_files, (diff, untracked), listing),
    ensures
        report.files.deep_view() == listing.deep_view(),
        diff is None || untracked is None ==> listing is None && report.found == 0
            && !report.truncated && report.invalid_paths == 0,
        diff is Some && untracked is Some ==> {
            let named = changed_files::path_names(diff->0@) + changed_files::path_names(
                untracked->0@,
            );
            let kept = changed_files::listed(listing.deep_view());
            &&& report.found == named.len()
            &&& report.invalid_paths == changed_files::invalid_path_count(diff->0@)
                + changed_files::invalid_path_count(untracked->0@)
            &&& report.truncated <==> named.to_set().len() > 1000
            &&& listing is None <==> named.len() == 0
            &&& forall|p: Seq<char>| #[trigger] kept.contains(p) ==> named.contains(p)
            &&& !report.truncated ==> forall|p: Seq<char>| #[trigger]
                named.contains(p) ==> kept.contains(p)
        },
{
    if diff is Some && untracked is Some {
        let named = changed_files::path_names(diff->0@) + changed_files::path_names(untracked->0@);
        let kept = changed_files::listed(listing.deep_view());
        changed_files::report_depends_on_the_set_of_files(
            named,
            named,
            report.files.deep_view(),
            listing.deep_view(),
        );
        if named.len() > 0 {
            changed_files::truncated_reports_are_full(named, kept);
        } else {
            named.lemma_cardinality_of_set();
        }
        assert forall|p: Seq<char>| #[trigger] kept.contains(p) implies named.contains(p) by {
            let i = choose|i: int| 0 <= i < kept.len() && kept[i] == p;
            changed_files::reports_hold_the_first_thousand(named, listing.deep_view(), i, i, i);
        }
        if !report.truncated {
            assert forall|p: Seq<char>| #[trigger] named.contains(p) implies kept.contains(p) by {
                let i = choose|i: int| 0 <= i < named.len() && named[i] == p;
                if !kept.contains(named[i]) {
                    assert(changed_files::leaves_out(named, kept));
                }
            }
        }
    }
}

/// Of paths as git writes them, up to a thousand, every one is listed and no other,
/// whichever query named it.
pub proof fn written_changes_are_listed(
    diff: Vec<u8>,
    untracked: Vec<u8>,
    listing: Option<Vec<String>>,
    differing: Seq<Seq<char>>,
    new: Seq<Seq<char>>,
    path: Seq<char>,
)
    requires
        call_ensures(changed_files, (Some(diff), Some(untracked)), listing),
        diff@ == changed_files::nul_terminated(differing),
        untracked@ == changed_files::nul_terminated(new),
        differing.len() + new.len() <= 1000,
        forall|i: int|
            0 <= i < differing.len() ==> #[trigger] differing[i].len() > 0
                && !differing[i].contains('\0'),
        forall|i: int| 0 <= i < new.len() ==> #[trigger] new[i].len() > 0 && !new[i].contains('\0'),
    ensures
        changed_files::listed(listing.deep_view()).contains(path) <==> differing.contains(path)
            || new.contains(path),
{
    changed_files::written_paths_are_read_back(differing);
    changed_files::written_paths_are_read_back(new);
    let named = differing + new;
    let kept = changed_files::listed(listing.deep_view());
    if differing.contains(path) {
        let i = choose|i: int| 0 <= i < differing.len() && differing[i] == path;
        assert(named[i] == path);
    }
    if new.contains(path) {
        let i = choose|i: int| 0 <= i < new.len() && new[i] == path;
        assert(named[differing.len() + i] == path);
    }
    if named.contains(path) {
        let k = choose|k: int| 0 <= k < named.len() && named[k] == path;
        if k < differing.len() {
            assert(differing[k] == path);
        } else {
            assert(new[k - differing.len()] == path);
        }
        changed_files::truncated_reports_are_full(named, kept);
        named.lemma_cardinality_of_set();
        if !kept.contains(named[k]) {
            assert(changed_files::leaves_out(named, kept));
        }
    }
    if kept.contains(path) {
        let i = choose|i: int| 0 <= i < kept.len() && kept[i] == path;
        changed_files::reports_hold_the_first_thousand(named, listing.deep_view(), i, i, i);
    }
}

/// The instructions' file is left alone if it holds the current instructions or
/// anyone's own text; only the retired text is replaced. A missing file is created and
/// filled, unless someone else created it meanwhile.
pub proof fn seeding_goes_by_what_is_found(event: SeedEvent, legacy: &str, action: SeedAction)
    requires
        call_ensures(next_seed_action, (event, legacy), action),
    ensures
        event matches SeedEvent::Read(existing) ==> {
            &&& existing@ == INSTRUCTIONS@ ==> action == SeedAction::Finish
            &&& existing@ != INSTRUCTIONS@ && existing@ == legacy@ ==> action
                == SeedAction::ReplaceAtomically
            &&& existing@ != INSTRUCTIONS@ && existing@ != legacy@ ==> action
                == SeedAction::KeepCustom
        },
        event is ReadMissing ==> action == SeedAction::CreateNew,
        event is Created ==> action == SeedAction::WriteAll,
        event is CreateExists ==> action == SeedAction::Finish,
        event is ReadFailed || event is CreateFailed ==> action == SeedAction::Fail,
{
}

/// A note is refused for its length just if it has more than 16384 bytes, and else for
/// a control character just if it holds one other than a tab or a line break.
pub proof fn notes_are_bounded_text(note: &str, checked: Result<(), NoteError>)
    requires
        call_ensures(validate_note, (note,), checked),
    ensures
        encode_utf8(note@).len() > 16384 <==> checked == Err::<(), NoteError>(NoteError::TooLong),
        encode_utf8(note@).len() <= 16384 ==> (checked == Err::<(), NoteError>(
            NoteError::ControlCharacter,
        ) <==> exists|i: int|
            0 <= i < note@.len() && {
                let code = #[trigger] note@[i] as u32;
                (code <= 0x1f || 0x7f <= code <= 0x9f) && code != 9 && code != 10 && code != 13
            }),
{
    ad_hoc_note::long_notes_are_too_long(note@);
    if encode_utf8(note@).len() <= 16384 {
        ad_hoc_note::control_characters_are_rejected(note@);
    }
}

/// Of notes that are not too long and hold no forbidden control character, every one
/// that does not start as a memory update does is taken, and one that does is refused
/// at once unless it names the known version.
pub proof fn free_text_notes_are_taken(note: &str, checked: Result<(), NoteError>)
    requires
        call_ensures(validate_note, (note,), checked),
        encode_utf8(note@).len() <= 16384,
        !ad_hoc_note::has_forbidden_control(note@),
    ensures
        !ad_hoc_note::opens_as_update(note@, "<memory_update"@) ==> checked is Ok,
        ad_hoc_note::opens_as_update(note@, "<memory_update"@) ==> (checked == Err::<
            (),
            NoteError,
        >(NoteError::Opening) <==> !ad_hoc_note::opens_as_update(
            note@,
            "<memory_update version=\"1\">"@,
        )),
{
    ad_hoc_note::openings_are_checked(note@);
}

/// A memory update, however its elements are spaced, is taken if it adds or updates
/// with content or deletes without. Else it is refused, for what is wrong with it.
pub proof fn updates_are_taken_as_they_ask(
    note: &str,
    checked: Result<(), NoteError>,
    gaps: GapsView,
    update: UpdateView,
)
    requires
        call_ensures(validate_note, (note,), checked),
        note@ == ad_hoc_note::spaced(gaps, update),
        ad_hoc_note::gaps_are_space(gaps),
        ad_hoc_note::parts_are_plain(update),
        encode_utf8(note@).len() <= 16384,
        !ad_hoc_note::has_forbidden_control(note@),
    ensures
        ({
            let writes = update.operation == "add"@ || update.operation == "update"@;
            let deletes = update.operation == "delete"@;
            &&& checked is Ok <==> (writes && update.content is Some) || (deletes
                && update.content is None)
            &&& writes && update.content is None ==> checked == Err::<(), NoteError>(
                NoteError::ContentMissing,
            )
            &&& deletes && update.content is Some ==> checked == Err::<(), NoteError>(
                NoteError::ContentForbidden,
            )
            &&& !writes && !deletes ==> checked == Err::<(), NoteError>(NoteError::Operation)
        }),
{
    ad_hoc_note::spaced_updates_are_read_back(gaps, update);
    ad_hoc_note::operations_fix_their_content(update);
}

/// A note that starts as a memory update does is taken only if it is one: with an
/// operation, a target and the content that the operation calls for, in this order,
/// and nothing else but white space around them.
pub proof fn taken_updates_are_whole(note: &str, checked: Result<(), NoteError>)
    requires
        call_ensures(validate_note, (note,), checked),
        ad_hoc_note::opens_as_update(note@, "<memory_update"@),
        checked is Ok,
    ensures
        exists|gaps: GapsView, update: UpdateView|
            note@ == #[trigger] ad_hoc_note::spaced(gaps, update) && ad_hoc_note::gaps_are_space(
                gaps,
            ) && ad_hoc_note::parts_are_plain(update) && (if update.content is Some {
                update.operation == "add"@ || update.operation == "update"@
            } else {
                update.operation == "delete"@
            }),
{
    ad_hoc_note::memory_updates_start_with_their_tag(note@);
    ad_hoc_note::checked_updates_have_all_fields_in_order(note@);
    let (gaps, update) = choose|gaps: GapsView, update: UpdateView|
        ad_hoc_note::gaps_are_space(gaps) && ad_hoc_note::parts_are_plain(update) && note@
            == #[trigger] ad_hoc_note::spaced(gaps, update) && ad_hoc_note::note_fault(note@)
            == ad_hoc_note::update_fault(update);
    ad_hoc_note::operations_fix_their_content(update);
    assert(note@ == ad_hoc_note::spaced(gaps, update));
}

/// Every error has its own words.
pub proof fn errors_are_put_into_words(error: NoteError, words: String)
    requires
        call_ensures(NoteError::message, (&error,), words),
    ensures
        words@ == (match error {
            NoteError::TooLong => "note must be at most 16384 bytes"@,
            NoteError::ControlCharacter => "note must not hold control characters"@,
            NoteError::Opening => "memory update must open with <memory_update version=\"1\">"@,
            NoteError::Fields =>
                "memory update fields must appear as operation, target and content, in this order"@,
            NoteError::Operation => "operation must be add, update or delete"@,
            NoteError::ContentMissing => "add and update need content"@,
            NoteError::ContentForbidden => "delete takes no content"@,
        }),
{
    reveal_strlit("note must be at most 16384 bytes");
    reveal_strlit("note must be at most ");
    reveal_strlit(" bytes");
    reveal_with_fuel(text::decimal_nat, 5);
    assert(text::decimal(16384) =~= seq!['1', '6', '3', '8', '4']);
    assert("note must be at most 16384 bytes"@ =~= "note must be at most "@ + text::decimal(16384)
        + " bytes"@);
}

} // verus!
