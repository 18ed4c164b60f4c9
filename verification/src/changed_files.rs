//! The files that changed in a working directory, from what git reports.
use vstd::prelude::*;
use vstd::utf8::*;

use crate::path_order;
use crate::path_order::{place_path, Placement};

verus! {

/// The most files that a stop hook is told about.
pub const MAX_CHANGED_FILES: usize = 1_000;

/// How long a git query may take, in seconds.
pub const CHANGED_FILES_GIT_TIMEOUT_SECS: u64 = 5;

/// Every path sorts before all that follow it. So none occurs twice.
pub open spec fn strictly_ascending(paths: Seq<Seq<char>>) -> bool {
    forall|i: int, j: int| 0 <= i < j < paths.len() ==> path_order::path_less(#[trigger] paths[i], #[trigger] paths[j])
}

/// `kept` holds the `limit` smallest of the paths `found`, each once, in order;
/// all of them if there are no more than `limit`.
pub open spec fn smallest_of(found: Seq<Seq<char>>, kept: Seq<Seq<char>>, limit: nat) -> bool {
    &&& strictly_ascending(kept)
    &&& kept.len() <= limit
    &&& forall|i: int| 0 <= i < kept.len() ==> found.contains(#[trigger] kept[i])
    &&& forall|i: int|
        0 <= i < found.len() ==> kept.contains(#[trigger] found[i]) || (kept.len() == limit
            && forall|j: int| 0 <= j < kept.len() ==> path_order::path_less(#[trigger] kept[j], found[i]))
}

/// What is reported of the paths `found`: nothing if there are none, and else the
/// smallest `MAX_CHANGED_FILES` of them.
pub open spec fn reports(found: Seq<Seq<char>>, listing: Option<Seq<Seq<char>>>) -> bool {
    match listing {
        None => found.len() == 0,
        Some(kept) => found.len() > 0 && smallest_of(found, kept, MAX_CHANGED_FILES as nat),
    }
}

/// Whether `kept` leaves out one of the paths `found`.
pub open spec fn leaves_out(found: Seq<Seq<char>>, kept: Seq<Seq<char>>) -> bool {
    exists|i: int| 0 <= i < found.len() && !kept.contains(#[trigger] found[i])
}

/// The paths of a listing, of which there are none in one that is not there.
pub open spec fn listed(listing: Option<Seq<Seq<char>>>) -> Seq<Seq<char>> {
    match listing {
        Some(kept) => kept,
        None => Seq::empty(),
    }
}

/// The files to report, with what was left out of them.
#[derive(Debug, PartialEq, Eq)]
pub struct FinalizedFiles {
    pub files: Option<Vec<String>>,
    /// How many files there were, repetitions included.
    pub found: usize,
    /// Whether some were left out for want of room.
    pub truncated: bool,
}

/// The changed files that two queries name, with what was left out of them.
#[derive(Debug, PartialEq, Eq)]
pub struct ChangedFilesReport {
    pub files: Option<Vec<String>>,
    /// How many paths there were, repetitions included.
    pub found: usize,
    /// Whether some were left out for want of room.
    pub truncated: bool,
    /// How many were left out because they are not UTF-8. Two outputs together can
    /// hold more of them than a `usize` counts.
    pub invalid_paths: u128,
}

/// The place of `file` in the sorted list `kept`.
fn find_place(kept: &Vec<String>, file: &str) -> (place: (usize, bool))
    requires
        strictly_ascending(kept.deep_view()),
    ensures
        place.0 <= kept@.len(),
        forall|i: int| 0 <= i < place.0 ==> path_order::path_less(#[trigger] kept.deep_view()[i], file@),
        forall|i: int|
            place.0 <= i < kept@.len() && !(place.1 && i == place.0) ==> path_order::path_less(
                file@,
                #[trigger] kept.deep_view()[i],
            ),
        place.1 ==> place.0 < kept@.len() && kept.deep_view()[place.0 as int] == file@,
{
    let ghost names = kept.deep_view();
    let mut low: usize = 0;
    let mut high: usize = kept.len();
    while low < high
        invariant
            names == kept.deep_view(),
            strictly_ascending(names),
            low <= high <= kept@.len(),
            forall|i: int| 0 <= i < low ==> path_order::path_less(#[trigger] names[i], file@),
            forall|i: int| high <= i < kept@.len() ==> path_order::path_less(file@, #[trigger] names[i]),
        decreases high - low,
    {
        let mid: usize = low + (high - low) / 2;
        proof {
            path_order::path_order_is_total(names[mid as int], file@, file@);
            assert forall|i: int| 0 <= i < kept@.len() implies {
                &&& i < mid && path_order::path_less(names[mid as int], file@) ==> path_order::path_less(
                    #[trigger] names[i],
                    file@,
                )
                &&& i > mid && path_order::path_less(file@, names[mid as int]) ==> path_order::path_less(file@, names[i])
            } by {
                path_order::path_order_is_total(names[i], names[mid as int], file@);
                path_order::path_order_is_total(file@, names[mid as int], names[i]);
            }
        }
        match place_path(kept[mid].as_str(), file) {
            Placement::Before => {
                low = mid + 1;
            },
            Placement::After => {
                high = mid;
            },
            Placement::Same => {
                return (mid, true);
            },
        }
    }
    (low, false)
}

/// Takes `file` into the sorted list `kept`, which holds at most `limit` paths. Says
/// whether a path had to leave the list for that.
fn insert_bounded(
    kept: &mut Vec<String>,
    file: String,
    limit: usize,
    Ghost(found): Ghost<Seq<Seq<char>>>,
) -> (cut: bool)
    requires
        smallest_of(found, old(kept).deep_view(), limit as nat),
        0 < limit < usize::MAX,
    ensures
        smallest_of(found.push(file@), final(kept).deep_view(), limit as nat),
        leaves_out(found.push(file@), final(kept).deep_view()) <==> cut || leaves_out(
            found,
            old(kept).deep_view(),
        ),
{
    let ghost before = kept.deep_view();
    let (place, present) = find_place(kept, file.as_str());
    let ghost name = file@;
    let ghost wider = found.push(name);
    proof {
        assert forall|i: int| 0 <= i < found.len() implies wider.contains(#[trigger] found[i]) by {
            assert(wider[i] == found[i]);
        }
        assert forall|i: int| 0 <= i < before.len() implies wider.contains(#[trigger] before[i]) by {
            assert(found.contains(before[i]));
        }
        assert(wider.last() == name);
    }
    if present {
        proof {
            assert(before.contains(name));
            if leaves_out(found, before) {
                let i = choose|i: int| 0 <= i < found.len() && !before.contains(#[trigger] found[i]);
                assert(wider[i] == found[i]);
            }
            if leaves_out(wider, before) {
                let i = choose|i: int| 0 <= i < wider.len() && !before.contains(#[trigger] wider[i]);
                assert(wider[i] == found[i]);
            }
        }
        return false;
    }
    kept.insert(place, file);
    let ghost middle = kept.deep_view();
    proof {
        assert(middle =~= before.insert(place as int, name));
        assert forall|i: int| 0 <= i < before.len() implies middle.contains(#[trigger] before[i]) by {
            if i < place {
                assert(middle[i] == before[i]);
            } else {
                assert(middle[i + 1] == before[i]);
            }
        }
        assert(middle[place as int] == name);
    }
    if kept.len() > limit {
        kept.pop();
        proof {
            let after = kept.deep_view();
            assert(after =~= middle.drop_last());
            assert(before.len() == limit);
            assert forall|i: int| 0 <= i < wider.len() implies after.contains(#[trigger] wider[i])
                || (forall|j: int| 0 <= j < after.len() ==> path_order::path_less(#[trigger] after[j], wider[i])) by {
                let w = wider[i];
                if middle.contains(w) {
                    let k = choose|k: int| 0 <= k < middle.len() && middle[k] == w;
                    if k < after.len() {
                        assert(after[k] == w);
                    } else {
                        assert forall|j: int| 0 <= j < after.len() implies path_order::path_less(#[trigger] after[j], w) by {
                            assert(after[j] == middle[j]);
                        }
                    }
                } else {
                    assert(found[i] == w);
                    assert(!before.contains(w));
                    assert forall|j: int| 0 <= j < after.len() implies path_order::path_less(#[trigger] after[j], w) by {
                        assert(after[j] == middle[j]);
                        if j < place {
                            assert(middle[j] == before[j]);
                        } else if j > place {
                            assert(middle[j] == before[j - 1]);
                        } else {
                            assert(path_order::path_less(name, before[place as int]));
                            path_order::path_order_is_total(name, before[place as int], w);
                        }
                    }
                }
            }
            assert forall|i: int| 0 <= i < after.len() implies wider.contains(#[trigger] after[i]) by {
                assert(after[i] == middle[i]);
            }
            let top = middle.last();
            assert(wider.contains(top)) by {
                if place < before.len() {
                    assert(top == before.last());
                }
            }
            let k = choose|k: int| 0 <= k < wider.len() && wider[k] == top;
            assert(!after.contains(wider[k])) by {
                if after.contains(top) {
                    let j = choose|j: int| 0 <= j < after.len() && after[j] == top;
                    assert(after[j] == middle[j]);
                    path_order::path_order_is_total(top, top, top);
                }
            }
        }
        true
    } else {
        proof {
            assert forall|i: int| 0 <= i < wider.len() implies middle.contains(#[trigger] wider[i]) by {
                if i < found.len() {
                    assert(wider[i] == found[i]);
                    assert(before.contains(found[i]));
                }
            }
        }
        false
    }
}

/// Sorts the files, drops repetitions, keeps the first `MAX_CHANGED_FILES`, and says
/// whether that leaves some out. The files are `None` if there are none.
pub fn finalize_and_count(files: Vec<String>) -> (finalized: FinalizedFiles)
    ensures
        reports(files.deep_view(), finalized.files.deep_view()),
        finalized.found == files@.len(),
        finalized.truncated <==> leaves_out(
            files.deep_view(),
            listed(finalized.files.deep_view()),
        ),
{
    let ghost names = files.deep_view();
    let found: usize = files.len();
    let mut kept: Vec<String> = Vec::new();
    let mut truncated = false;
    assert(kept.deep_view() =~= Seq::empty());
    let ghost mut taken: Seq<Seq<char>> = Seq::empty();
    for file in iter: files
        invariant
            taken =~= names.take(iter.index() as int),
            iter.seq().len() == names.len(),
            forall|i: int| 0 <= i < names.len() ==> names[i] == (#[trigger] iter.seq()[i])@,
            smallest_of(taken, kept.deep_view(), MAX_CHANGED_FILES as nat),
            truncated <==> leaves_out(taken, kept.deep_view()),
    {
        let ghost name = file@;
        if insert_bounded(&mut kept, file, MAX_CHANGED_FILES, Ghost(taken)) {
            truncated = true;
        }
        proof {
            taken = taken.push(name);
        }
    }
    assert(taken =~= names);
    if kept.is_empty() {
        assert(names.len() > 0 ==> !kept.deep_view().contains(names[0]));
        FinalizedFiles { files: None, found, truncated }
    } else {
        assert(names.contains(kept.deep_view()[0]));
        FinalizedFiles { files: Some(kept), found, truncated }
    }
}

/// Sorts the files, drops repetitions, and keeps the first `MAX_CHANGED_FILES`.
/// `None` if there are no files.
pub fn finalize_changed_files(files: Vec<String>) -> (listing: Option<Vec<String>>)
    ensures
        reports(files.deep_view(), listing.deep_view()),
{
    finalize_and_count(files).files
}

/// The position of the first NUL byte, or the length if there is none.
pub open spec fn first_nul(bytes: Seq<u8>) -> nat
    decreases bytes.len(),
{
    if bytes.len() == 0 || bytes[0] == 0 {
        0
    } else {
        1 + first_nul(bytes.drop_first())
    }
}

/// The non-empty stretches of bytes between NUL bytes, in order.
pub open spec fn nul_fields(bytes: Seq<u8>) -> Seq<Seq<u8>>
    decreases bytes.len(),
{
    if bytes.len() == 0 {
        Seq::empty()
    } else if bytes[0] == 0 {
        nul_fields(bytes.drop_first())
    } else {
        proof {
            first_nul_bounds(bytes);
        }
        let n = first_nul(bytes) as int;
        seq![bytes.take(n)] + nul_fields(bytes.skip(n))
    }
}

/// The paths among the fields: those that are UTF-8.
pub open spec fn path_names(bytes: Seq<u8>) -> Seq<Seq<char>> {
    nul_fields(bytes).filter(|field: Seq<u8>| valid_utf8(field)).map_values(
        |field: Seq<u8>| decode_utf8(field),
    )
}

/// How many fields are not UTF-8.
pub open spec fn invalid_path_count(bytes: Seq<u8>) -> nat {
    nul_fields(bytes).filter(|field: Seq<u8>| !valid_utf8(field)).len()
}

/// `std::str::from_utf8`: the text that the bytes encode if they are UTF-8, and
/// an error, here `None`, if they are not.
#[verifier::external_body]
fn utf8_text(bytes: &[u8]) -> (text: Option<&str>)
    ensures
        text.deep_view() == (if valid_utf8(bytes@) {
            Some(decode_utf8(bytes@))
        } else {
            None
        }),
{
    std::str::from_utf8(bytes).ok()
}

/// Before the position that `first_nul` gives there is no NUL byte, and there is one
/// at it unless it is the end.
pub proof fn first_nul_bounds(bytes: Seq<u8>)
    ensures
        first_nul(bytes) <= bytes.len(),
        forall|i: int| 0 <= i < first_nul(bytes) ==> #[trigger] bytes[i] != 0,
        first_nul(bytes) < bytes.len() ==> bytes[first_nul(bytes) as int] == 0,
    decreases bytes.len(),
{
    if bytes.len() > 0 && bytes[0] != 0 {
        let rest = bytes.drop_first();
        first_nul_bounds(rest);
        assert forall|i: int| 0 <= i < first_nul(bytes) implies #[trigger] bytes[i] != 0 by {
            if i > 0 {
                assert(rest[i - 1] == bytes[i]);
            }
        }
        if first_nul(bytes) < bytes.len() {
            assert(rest[first_nul(rest) as int] == bytes[first_nul(bytes) as int]);
        }
    }
}

proof fn first_nul_is(bytes: Seq<u8>, n: nat)
    requires
        n <= bytes.len(),
        forall|i: int| 0 <= i < n ==> #[trigger] bytes[i] != 0,
        n < bytes.len() ==> bytes[n as int] == 0,
    ensures
        first_nul(bytes) == n,
{
    first_nul_bounds(bytes);
    let m = first_nul(bytes);
    if m < n {
        assert(bytes[m as int] != 0);
    } else if n < m {
        assert(bytes[n as int] != 0);
    }
}

/// What the paths and the count of all the bytes are, given a first field and
/// what follows it.
proof fn split_first_field(field: Seq<u8>, rest: Seq<u8>)
    requires
        field.len() > 0,
        forall|i: int| 0 <= i < field.len() ==> #[trigger] field[i] != 0,
        rest.len() > 0 ==> rest[0] == 0,
    ensures
        nul_fields(field + rest) == seq![field] + nul_fields(rest),
        path_names(field + rest) == (if valid_utf8(field) {
            seq![decode_utf8(field)] + path_names(rest)
        } else {
            path_names(rest)
        }),
        invalid_path_count(field + rest) == invalid_path_count(rest) + if valid_utf8(field) {
            0nat
        } else {
            1nat
        },
{
    let bytes = field + rest;
    assert forall|i: int| 0 <= i < field.len() implies #[trigger] bytes[i] != 0 by {
        assert(bytes[i] == field[i]);
    }
    first_nul_is(bytes, field.len());
    assert(bytes[0] != 0);
    assert(bytes.take(field.len() as int) =~= field);
    assert(bytes.skip(field.len() as int) =~= rest);
    let good = |f: Seq<u8>| valid_utf8(f);
    let bad = |f: Seq<u8>| !valid_utf8(f);
    let text = |f: Seq<u8>| decode_utf8(f);
    Seq::filter_distributes_over_add(seq![field], nul_fields(rest), good);
    Seq::filter_distributes_over_add(seq![field], nul_fields(rest), bad);
    reveal_with_fuel(Seq::filter, 2);
    assert(seq![field].drop_last() =~= Seq::empty());
    if valid_utf8(field) {
        assert(seq![field].filter(good) =~= seq![field]);
        assert(path_names(bytes) =~= seq![decode_utf8(field)] + path_names(rest));
    } else {
        assert(seq![field].filter(good) =~= Seq::empty());
        assert(path_names(bytes) =~= path_names(rest));
    }
}

/// Appends the paths in `output`, which NUL bytes delimit, to `files`. Says how
/// many were left out because they are not UTF-8.
pub fn extend_nul_delimited_paths(files: &mut Vec<String>, output: &[u8]) -> (invalid_paths: usize)
    ensures
        final(files).deep_view() == old(files).deep_view() + path_names(output@),
        invalid_paths == invalid_path_count(output@),
{
    let ghost before = files.deep_view();
    let mut invalid_paths: usize = 0;
    let mut start: usize = 0;
    assert(output@.skip(0) =~= output@);
    assert(files.deep_view() + path_names(output@) =~= before + path_names(output@));
    while start < output.len()
        invariant
            start <= output@.len(),
            invalid_paths <= start,
            files.deep_view() + path_names(output@.skip(start as int)) == before + path_names(output@),
            invalid_paths + invalid_path_count(output@.skip(start as int)) == invalid_path_count(output@),
        decreases output@.len() - start,
    {
        if output[start] == 0 {
            assert(output@.skip(start as int).drop_first() =~= output@.skip(start + 1));
            start += 1;
        } else {
            let mut end: usize = start;
            while end < output.len() && output[end] != 0
                invariant
                    start <= end <= output@.len(),
                    forall|i: int| start <= i < end ==> #[trigger] output@[i] != 0,
                decreases output@.len() - end,
            {
                end += 1;
            }
            let field = vstd::slice::slice_subrange(output, start, end);
            let ghost held = files.deep_view();
            proof {
                assert(output@.skip(start as int) =~= field@ + output@.skip(end as int));
                split_first_field(field@, output@.skip(end as int));
            }
            match utf8_text(field) {
                Some(path) => {
                    files.push(path.to_owned());
                    proof {
                        let name = seq![decode_utf8(field@)];
                        let later = path_names(output@.skip(end as int));
                        assert(files.deep_view() =~= held + name);
                        assert((held + name) + later =~= held + (name + later));
                    }
                },
                None => {
                    invalid_paths += 1;
                },
            }
            start = end;
        }
    }
    proof {
        let nothing = output@.skip(start as int);
        assert(nul_fields(nothing) =~= Seq::empty());
        reveal(Seq::filter);
        assert(path_names(nothing) =~= Seq::empty());
        assert(files.deep_view() + path_names(nothing) =~= files.deep_view());
    }
    invalid_paths
}

/// What became of a git query.
pub enum QueryOutcome {
    /// Git ran; `success` tells whether its exit status was a success.
    Exited { success: bool, stdout: Vec<u8> },
    /// Git could not be run.
    NotStarted,
    /// Git took longer than `CHANGED_FILES_GIT_TIMEOUT_SECS`.
    TimedOut,
}

/// The arguments of the git query for tracked files that differ from `HEAD`.
pub fn tracked_files_query() -> (args: Vec<&'static str>)
    ensures
        args.deep_view() == seq!["diff"@, "--name-only"@, "-z"@, "HEAD"@],
{
    let args = vec!["diff", "--name-only", "-z", "HEAD"];
    assert(args.deep_view() =~= seq!["diff"@, "--name-only"@, "-z"@, "HEAD"@]);
    args
}

/// The arguments of the git query for untracked files that are not ignored.
pub fn untracked_files_query() -> (args: Vec<&'static str>)
    ensures
        args.deep_view() == seq!["ls-files"@, "--others"@, "--exclude-standard"@, "-z"@],
{
    let args = vec!["ls-files", "--others", "--exclude-standard", "-z"];
    assert(args.deep_view() =~= seq!["ls-files"@, "--others"@, "--exclude-standard"@, "-z"@]);
    args
}

/// The output of a query, where git ran and succeeded.
pub fn query_output(outcome: QueryOutcome) -> (stdout: Option<Vec<u8>>)
    ensures
        match outcome {
            QueryOutcome::Exited { success: true, stdout: bytes } => stdout == Some(bytes),
            _ => stdout is None,
        },
{
    match outcome {
        QueryOutcome::Exited { success, stdout } => {
            if success {
                Some(stdout)
            } else {
                None
            }
        },
        QueryOutcome::NotStarted => None,
        QueryOutcome::TimedOut => None,
    }
}

/// The changed files that the two queries' outputs name, with what was left out of
/// them. The files are `None`, which means that nothing is known, if a query has no
/// output or there are no changes.
pub fn report_changed_files(
    diff: Option<Vec<u8>>,
    untracked: Option<Vec<u8>>,
) -> (report: ChangedFilesReport)
    ensures
        match (diff, untracked) {
            (Some(t), Some(u)) => {
                let found = path_names(t@) + path_names(u@);
                &&& reports(found, report.files.deep_view())
                &&& report.found == found.len()
                &&& report.truncated <==> leaves_out(found, listed(report.files.deep_view()))
                &&& report.invalid_paths == invalid_path_count(t@) + invalid_path_count(u@)
            },
            _ => report == (ChangedFilesReport {
                files: None,
                found: 0,
                truncated: false,
                invalid_paths: 0,
            }),
        },
{
    match (diff, untracked) {
        (Some(diff), Some(untracked)) => {
            let mut files: Vec<String> = Vec::new();
            assert(files.deep_view() =~= Seq::empty());
            let in_diff: usize = extend_nul_delimited_paths(&mut files, diff.as_slice());
            let in_untracked: usize = extend_nul_delimited_paths(&mut files, untracked.as_slice());
            assert(files.deep_view() =~= path_names(diff@) + path_names(untracked@));
            assert(files@.len() == files.deep_view().len());
            let finalized = finalize_and_count(files);
            ChangedFilesReport {
                files: finalized.files,
                found: finalized.found,
                truncated: finalized.truncated,
                invalid_paths: in_diff as u128 + in_untracked as u128,
            }
        },
        _ => ChangedFilesReport { files: None, found: 0, truncated: false, invalid_paths: 0 },
    }
}

/// The changed files that the two queries' outputs name. `None`, which means that
/// nothing is known, if a query has no output or there are no changes.
pub fn changed_files(diff: Option<Vec<u8>>, untracked: Option<Vec<u8>>) -> (listing: Option<
    Vec<String>,
>)
    ensures
        match (diff, untracked) {
            (Some(t), Some(u)) => reports(path_names(t@) + path_names(u@), listing.deep_view()),
            _ => listing is None,
        },
{
    report_changed_files(diff, untracked).files
}

proof fn smallest_agree(
    found: Seq<Seq<char>>,
    other: Seq<Seq<char>>,
    x: Seq<Seq<char>>,
    y: Seq<Seq<char>>,
    limit: nat,
    n: nat,
)
    requires
        forall|p: Seq<char>| found.contains(p) ==> #[trigger] other.contains(p),
        smallest_of(found, x, limit),
        smallest_of(other, y, limit),
        n < x.len(),
        n < y.len() ==> x.take(n as int) == y.take(n as int),
        n >= y.len() ==> x.take(y.len() as int) == y && n == y.len(),
    ensures
        n < y.len(),
        !path_order::path_less(x[n as int], y[n as int]),
{
    let w = x[n as int];
    assert(found.contains(w));
    assert(other.contains(w));
    let k = choose|k: int| 0 <= k < other.len() && other[k] == w;
    if y.contains(other[k]) {
        let m = choose|m: int| 0 <= m < y.len() && y[m] == w;
        if m < n {
            assert(x[m] == y[m]) by {
                if n < y.len() {
                    assert(x.take(n as int)[m] == y.take(n as int)[m]);
                } else {
                    assert(x.take(y.len() as int)[m] == y[m]);
                }
            }
            path_order::path_order_is_total(w, w, w);
        } else {
            path_order::path_order_is_total(y[n as int], w, w);
        }
    } else {
        if n < y.len() {
            path_order::path_order_is_total(y[n as int], w, w);
        }
    }
}

proof fn smallest_prefix_agrees(
    found: Seq<Seq<char>>,
    other: Seq<Seq<char>>,
    x: Seq<Seq<char>>,
    y: Seq<Seq<char>>,
    limit: nat,
    n: nat,
)
    requires
        forall|p: Seq<char>| #[trigger] found.contains(p) <==> other.contains(p),
        smallest_of(found, x, limit),
        smallest_of(other, y, limit),
        n <= x.len(),
        n <= y.len(),
    ensures
        x.take(n as int) == y.take(n as int),
    decreases n,
{
    if n == 0 {
        assert(x.take(0) =~= y.take(0));
    } else {
        let m = (n - 1) as nat;
        smallest_prefix_agrees(found, other, x, y, limit, m);
        smallest_agree(found, other, x, y, limit, m);
        smallest_agree(other, found, y, x, limit, m);
        path_order::path_order_is_total(x[m as int], y[m as int], y[m as int]);
        assert(x.take(n as int) =~= x.take(m as int).push(x[m as int]));
        assert(y.take(n as int) =~= y.take(m as int).push(y[m as int]));
    }
}

/// What is reported depends on which files were found alone: neither their order
/// nor how often one was found makes a difference.
pub proof fn report_depends_on_the_set_of_files(
    found: Seq<Seq<char>>,
    other: Seq<Seq<char>>,
    x: Option<Seq<Seq<char>>>,
    y: Option<Seq<Seq<char>>>,
)
    requires
        forall|p: Seq<char>| #[trigger] found.contains(p) <==> other.contains(p),
        reports(found, x),
        reports(other, y),
    ensures
        x == y,
{
    if found.len() > 0 {
        assert(found.contains(found[0]));
    }
    if other.len() > 0 {
        assert(other.contains(other[0]));
        assert(found.contains(other[0]));
    }
    if found.len() > 0 {
        let (a, b) = (x->0, y->0);
        let limit = MAX_CHANGED_FILES as nat;
        let n = if a.len() < b.len() {
            a.len()
        } else {
            b.len()
        };
        smallest_prefix_agrees(found, other, a, b, limit, n);
        assert(a.take(a.len() as int) =~= a);
        assert(b.take(b.len() as int) =~= b);
        if n < a.len() {
            smallest_agree(found, other, a, b, limit, n);
        } else if n < b.len() {
            smallest_agree(other, found, b, a, limit, n);
        }
    }
}

/// What is reported is sorted, holds no path twice, holds at most
/// `MAX_CHANGED_FILES` paths, and leaves none out unless it is full.
pub proof fn report_is_sorted_deduplicated_and_bounded(
    found: Seq<Seq<char>>,
    kept: Seq<Seq<char>>,
)
    requires
        reports(found, Some(kept)),
    ensures
        strictly_ascending(kept),
        kept.no_duplicates(),
        0 < kept.len() <= MAX_CHANGED_FILES,
        kept.len() < MAX_CHANGED_FILES ==> forall|p: Seq<char>| #[trigger]
            found.contains(p) <==> kept.contains(p),
{
    assert forall|i: int, j: int| 0 <= i < j < kept.len() implies kept[i] != kept[j] by {
        path_order::path_order_is_total(kept[i], kept[j], kept[j]);
    }
    assert(kept.contains(found[0]) || kept.len() == MAX_CHANGED_FILES);
    if kept.len() < MAX_CHANGED_FILES {
        assert forall|p: Seq<char>| #[trigger] found.contains(p) <==> kept.contains(p) by {
            if found.contains(p) {
                let i = choose|i: int| 0 <= i < found.len() && found[i] == p;
                assert(kept.contains(found[i]));
            }
            if kept.contains(p) {
                let i = choose|i: int| 0 <= i < kept.len() && kept[i] == p;
                assert(found.contains(kept[i]));
            }
        }
    }
}

/// Files are left out just if more than `MAX_CHANGED_FILES` different ones were found;
/// then the listing is full, and all that it leaves out sorts behind it.
pub proof fn truncated_reports_are_full(found: Seq<Seq<char>>, kept: Seq<Seq<char>>)
    requires
        reports(found, Some(kept)),
    ensures
        leaves_out(found, kept) <==> found.to_set().len() > MAX_CHANGED_FILES,
        leaves_out(found, kept) ==> kept.len() == MAX_CHANGED_FILES,
        forall|i: int, j: int|
            0 <= i < found.len() && !kept.contains(#[trigger] found[i]) && 0 <= j < kept.len()
                ==> path_order::path_less(#[trigger] kept[j], found[i]),
{
    report_is_sorted_deduplicated_and_bounded(found, kept);
    let (all, some) = (found.to_set(), kept.to_set());
    kept.unique_seq_to_set();
    found.lemma_cardinality_of_set();
    assert forall|p: Seq<char>| some.contains(p) implies all.contains(p) by {
        let i = choose|i: int| 0 <= i < kept.len() && kept[i] == p;
        assert(found.contains(kept[i]));
    }
    if leaves_out(found, kept) {
        let i = choose|i: int| 0 <= i < found.len() && !kept.contains(#[trigger] found[i]);
        let more = some.insert(found[i]);
        assert(!some.contains(found[i]));
        assert(found.contains(found[i]));
        assert(more.subset_of(all));
        vstd::set_lib::lemma_len_subset(more, all);
    } else {
        assert forall|p: Seq<char>| all.contains(p) implies some.contains(p) by {
            let i = choose|i: int| 0 <= i < found.len() && found[i] == p;
            assert(kept.contains(found[i]));
        }
        assert(all =~= some);
    }
}

/// Output that is cut at a NUL byte names the paths of the one part, then those of
/// the other.
pub proof fn paths_of_parts(left: Seq<u8>, right: Seq<u8>)
    ensures
        path_names(left + seq![0u8] + right) == path_names(left) + path_names(right),
        invalid_path_count(left + seq![0u8] + right) == invalid_path_count(left)
            + invalid_path_count(right),
    decreases left.len(),
{
    let all = left + seq![0u8] + right;
    reveal(Seq::filter);
    if left.len() == 0 {
        assert(all.drop_first() =~= right);
        assert(nul_fields(left) =~= Seq::empty());
        assert(path_names(left) =~= Seq::empty());
        assert(path_names(left) + path_names(right) =~= path_names(right));
    } else if left[0] == 0 {
        assert(all[0] == 0);
        assert(all.drop_first() =~= left.drop_first() + seq![0u8] + right);
        paths_of_parts(left.drop_first(), right);
    } else {
        first_nul_bounds(left);
        let n = first_nul(left) as int;
        let (field, rest) = (left.take(n), left.skip(n));
        assert(left =~= field + rest);
        let tail = rest + seq![0u8] + right;
        assert(all =~= field + tail);
        paths_of_parts(rest, right);
        split_first_field(field, rest);
        split_first_field(field, tail);
        assert(path_names(all) =~= path_names(left) + path_names(right));
    }
}

/// The paths as git writes them with `-z`: each one followed by a NUL byte.
pub open spec fn nul_terminated(paths: Seq<Seq<char>>) -> Seq<u8>
    decreases paths.len(),
{
    if paths.len() == 0 {
        Seq::empty()
    } else {
        encode_utf8(paths[0]) + seq![0u8] + nul_terminated(paths.drop_first())
    }
}

proof fn encoding_without_nul(chars: Seq<char>)
    requires
        !chars.contains('\0'),
    ensures
        forall|i: int| 0 <= i < encode_utf8(chars).len() ==> #[trigger] encode_utf8(chars)[i] != 0,
        chars.len() > 0 ==> encode_utf8(chars).len() > 0,
    decreases chars.len(),
{
    if chars.len() > 0 {
        let rest = chars.drop_first();
        assert forall|c: char| rest.contains(c) implies chars.contains(c) by {
            let i = choose|i: int| 0 <= i < rest.len() && rest[i] == c;
            assert(chars[i + 1] == c);
        }
        encoding_without_nul(rest);
        assert(chars.contains(chars[0]));
        let first = chars[0];
        let code = first as u32;
        let head = encode_scalar(code);
        assert(code != 0) by {
            char_u32_cast(first, code);
            assert(0u32 as char == '\0');
        }
        assert(code <= 0x7f ==> (code & 0x7f) as u8 != 0) by (bit_vector)
            requires
                code != 0,
        ;
        assert((0xC0 | ((code >> 6) & 0x1F) as u8) != 0u8) by (bit_vector);
        assert((0xE0 | ((code >> 12) & 0x0F) as u8) != 0u8) by (bit_vector);
        assert((0xF0 | ((code >> 18) & 0x7) as u8) != 0u8) by (bit_vector);
        assert((0x80 | (code & 0x3F) as u8) != 0u8) by (bit_vector);
        assert((0x80 | ((code >> 6) & 0x3F) as u8) != 0u8) by (bit_vector);
        assert((0x80 | ((code >> 12) & 0x3F) as u8) != 0u8) by (bit_vector);
        assert forall|i: int| 0 <= i < head.len() implies #[trigger] head[i] != 0 by {}
        let all = encode_utf8(chars);
        assert(all =~= head + encode_utf8(rest));
        assert forall|i: int| 0 <= i < all.len() implies #[trigger] all[i] != 0 by {
            if i < head.len() {
                assert(all[i] == head[i]);
            } else {
                assert(all[i] == encode_utf8(rest)[i - head.len()]);
            }
        }
    }
}

/// Every list of non-empty paths without NUL characters is read back as it was
/// written, whatever else the paths hold, such as a line break.
pub proof fn written_paths_are_read_back(paths: Seq<Seq<char>>)
    requires
        forall|i: int| 0 <= i < paths.len() ==> #[trigger] paths[i].len() > 0,
        forall|i: int| 0 <= i < paths.len() ==> !(#[trigger] paths[i]).contains('\0'),
    ensures
        path_names(nul_terminated(paths)) == paths,
        invalid_path_count(nul_terminated(paths)) == 0,
    decreases paths.len(),
{
    reveal(Seq::filter);
    if paths.len() == 0 {
        assert(nul_fields(nul_terminated(paths)) =~= Seq::empty());
        assert(path_names(nul_terminated(paths)) =~= paths);
    } else {
        let rest = paths.drop_first();
        assert forall|i: int| 0 <= i < rest.len() implies #[trigger] rest[i].len() > 0
            && !rest[i].contains('\0') by {
            assert(rest[i] == paths[i + 1]);
        }
        written_paths_are_read_back(rest);
        let field = encode_utf8(paths[0]);
        encoding_without_nul(paths[0]);
        encode_utf8_valid_utf8(paths[0]);
        encode_utf8_decode_utf8(paths[0]);
        let none = Seq::<u8>::empty();
        assert(nul_fields(none) =~= Seq::empty());
        assert(path_names(none) =~= Seq::empty());
        split_first_field(field, none);
        assert(field + none =~= field);
        paths_of_parts(field, nul_terminated(rest));
        assert(path_names(nul_terminated(paths)) =~= paths);
    }
}

/// No bytes name no paths. Bytes without a NUL byte are one path, read as the text
/// that they encode, or one invalid path if they encode none. With `paths_of_parts`
/// this says what any output names.
pub proof fn output_without_nul_is_one_path(field: Seq<u8>)
    requires
        !field.contains(0),
    ensures
        field.len() == 0 ==> path_names(field).len() == 0 && invalid_path_count(field) == 0,
        field.len() > 0 && valid_utf8(field) ==> path_names(field) == seq![decode_utf8(field)]
            && invalid_path_count(field) == 0,
        field.len() > 0 && !valid_utf8(field) ==> path_names(field).len() == 0
            && invalid_path_count(field) == 1,
{
    let none = Seq::<u8>::empty();
    reveal(Seq::filter);
    assert(nul_fields(none) =~= Seq::empty());
    assert(path_names(none) =~= Seq::empty());
    if field.len() == 0 {
        assert(field =~= none);
    } else {
        assert forall|i: int| 0 <= i < field.len() implies #[trigger] field[i] != 0 by {
            assert(field.contains(field[i]));
        }
        split_first_field(field, none);
        assert(field + none =~= field);
        assert(seq![decode_utf8(field)] + path_names(none) =~= seq![decode_utf8(field)]);
    }
}

/// The fields of an output are its longest stretches without NUL bytes: a stretch
/// alone is one field, and a NUL byte parts what stands before it from what follows.
pub proof fn nul_bytes_part_the_fields(left: Seq<u8>, right: Seq<u8>)
    ensures
        !left.contains(0) ==> nul_fields(left) == (if left.len() == 0 {
            Seq::empty()
        } else {
            seq![left]
        }),
        nul_fields(left + seq![0u8] + right) == nul_fields(left) + nul_fields(right),
    decreases left.len(),
{
    let all = left + seq![0u8] + right;
    let none = Seq::<u8>::empty();
    assert(nul_fields(none) =~= Seq::empty());
    if left.len() == 0 {
        assert(left =~= none);
        assert(all.drop_first() =~= right);
        assert(nul_fields(left) + nul_fields(right) =~= nul_fields(right));
    } else if left[0] == 0 {
        assert(left.contains(left[0]));
        assert(all.drop_first() =~= left.drop_first() + seq![0u8] + right);
        nul_bytes_part_the_fields(left.drop_first(), right);
    } else {
        first_nul_bounds(left);
        let n = first_nul(left) as int;
        let (field, rest) = (left.take(n), left.skip(n));
        let tail = rest + seq![0u8] + right;
        assert(left =~= field + rest);
        assert(all =~= field + tail);
        nul_bytes_part_the_fields(rest, right);
        split_first_field(field, rest);
        split_first_field(field, tail);
        assert(nul_fields(all) =~= nul_fields(left) + nul_fields(right));
        if !left.contains(0) {
            if n < left.len() {
                assert(left.contains(left[n]));
            }
            assert(rest =~= none);
            assert(field =~= left);
            assert(nul_fields(left) =~= seq![left]);
        }
    }
}

/// A report holds found paths alone, each before the next in the order of their
/// bytes, and at most a thousand. It holds every found path that it has room for: one
/// that it lacks sorts behind all thousand that it holds. Nothing is reported just if
/// nothing was found.
pub proof fn reports_hold_the_first_thousand(
    found: Seq<Seq<char>>,
    listing: Option<Seq<Seq<char>>>,
    i: int,
    j: int,
    k: int,
)
    requires
        reports(found, listing),
    ensures
        listing is None <==> found.len() == 0,
        listed(listing).len() <= 1000,
        listing matches Some(kept) ==> listed(listing) == kept && kept.len() > 0,
        listing is None ==> listed(listing).len() == 0,
        0 <= i < j < listed(listing).len() ==> path_order::path_less(
            listed(listing)[i],
            listed(listing)[j],
        ),
        0 <= i < listed(listing).len() ==> found.contains(listed(listing)[i]),
        0 <= k < found.len() && !listed(listing).contains(found[k]) ==> {
            &&& listed(listing).len() == 1000
            &&& leaves_out(found, listed(listing))
            &&& 0 <= i < 1000 ==> path_order::path_less(listed(listing)[i], found[k])
        },
        leaves_out(found, listed(listing)) ==> exists|m: int|
            0 <= m < found.len() && !listed(listing).contains(#[trigger] found[m]),
{
    if found.len() > 0 {
        report_is_sorted_deduplicated_and_bounded(found, listing->0);
    }
}

/// A git query may take five seconds, and a hook is told of a thousand files at most.
pub proof fn limits_of_changed_files()
    ensures
        CHANGED_FILES_GIT_TIMEOUT_SECS == 5,
        MAX_CHANGED_FILES == 1000,
{
}

} // verus!
