//! The path enumerator: from what a walk of the directory tree came upon to
//! the files that a command works on.
//!
//! The walk itself is done elsewhere and handed in entry by entry. Only
//! regular files are candidates: a directory is never one, and neither is a
//! symbolic link, which the walk does not follow. An entry that the walk
//! could not read becomes a diagnostic, and the enumeration goes on.

use crate::error::ErrorKind;
use crate::search::{Candidate, CandidateModel, ReadFailure};
use vstd::prelude::*;

verus! {

/// What one step of a walk is.
pub enum WalkItemModel {
    Entry { path: Seq<char>, file_name: Seq<char>, is_file: bool },
    Failure { message: Seq<char> },
}

/// One step of a walk through the directory tree.
#[derive(Debug)]
pub enum WalkItem {
    /// Something was found.
    Entry {
        /// Its path.
        path: String,
        /// The last component of its path.
        file_name: String,
        /// Whether it is a regular file.
        is_file: bool,
    },
    /// Something could not be read.
    Failure {
        /// What the walk says of it.
        message: String,
    },
}

impl View for WalkItem {
    type V = WalkItemModel;

    open spec fn view(&self) -> WalkItemModel {
        match self {
            WalkItem::Entry { path, file_name, is_file } => WalkItemModel::Entry {
                path: path@,
                file_name: file_name@,
                is_file: *is_file,
            },
            WalkItem::Failure { message } => WalkItemModel::Failure { message: message@ },
        }
    }
}

impl DeepView for WalkItem {
    type V = WalkItemModel;

    open spec fn deep_view(&self) -> WalkItemModel {
        self@
    }
}

/// The item is a regular file.
pub open spec fn is_regular_file(item: WalkItemModel) -> bool {
    item matches WalkItemModel::Entry { is_file, .. } && is_file
}

/// The item is a failure of the walk.
pub open spec fn is_failure(item: WalkItemModel) -> bool {
    item is Failure
}

/// The candidate that a regular file is.
pub open spec fn candidate_of(item: WalkItemModel) -> CandidateModel {
    match item {
        WalkItemModel::Entry { path, file_name, .. } => CandidateModel {
            file_name,
            file_path: path,
        },
        WalkItemModel::Failure { message } => CandidateModel {
            file_name: Seq::empty(),
            file_path: Seq::empty(),
        },
    }
}

/// What the walk says of a failure.
pub open spec fn message_of(item: WalkItemModel) -> Seq<char> {
    match item {
        WalkItemModel::Entry { .. } => Seq::empty(),
        WalkItemModel::Failure { message } => message,
    }
}

/// The regular files among `items`, in the order of the walk.
pub open spec fn candidates_of(items: Seq<WalkItemModel>) -> Seq<CandidateModel> {
    items.filter(|item: WalkItemModel| is_regular_file(item)).map_values(
        |item: WalkItemModel| candidate_of(item),
    )
}

/// The messages of the failures among `items`, in the order of the walk.
pub open spec fn diagnostics_of(items: Seq<WalkItemModel>) -> Seq<Seq<char>> {
    items.filter(|item: WalkItemModel| is_failure(item)).map_values(
        |item: WalkItemModel| message_of(item),
    )
}

/// What is told of an entry that the walk could not read.
pub open spec fn walk_diagnostic_text(message: Seq<char>) -> Seq<char> {
    "An error occurred "@ + message
}

/// What is told of an entry that the walk could not read, from what the
/// walk says of it.
pub fn walk_diagnostic(message: &str) -> (line: String)
    ensures
        line@ == walk_diagnostic_text(message@),
{
    "An error occurred ".to_owned().concat(message)
}

/// What an enumeration gives: the files to work on, and what to tell of the
/// entries that could not be read.
#[derive(Debug)]
pub struct Enumeration {
    /// The regular files, in the order of the walk.
    pub candidates: Vec<Candidate>,
    /// One message for each entry that could not be read, in the order of
    /// the walk.
    pub diagnostics: Vec<String>,
}

/// A walk step more adds its file to the candidates, or its message to the
/// diagnostics, or nothing.
proof fn lemma_enumerate_step(items: Seq<WalkItemModel>, item: WalkItemModel)
    ensures
        candidates_of(items.push(item)) == if is_regular_file(item) {
            candidates_of(items).push(candidate_of(item))
        } else {
            candidates_of(items)
        },
        diagnostics_of(items.push(item)) == if is_failure(item) {
            diagnostics_of(items).push(message_of(item))
        } else {
            diagnostics_of(items)
        },
{
    reveal(Seq::filter);
    assert(items.push(item).drop_last() =~= items);
    if is_regular_file(item) {
        assert(candidates_of(items.push(item)) =~= candidates_of(items).push(candidate_of(item)));
    }
    if is_failure(item) {
        assert(diagnostics_of(items.push(item)) =~= diagnostics_of(items).push(message_of(item)));
    }
}

/// A walk that came upon no regular file gives no candidate.
pub proof fn lemma_no_files_no_candidates(items: Seq<WalkItemModel>)
    requires
        forall|i: int| 0 <= i < items.len() ==> !is_regular_file(#[trigger] items[i]),
    ensures
        candidates_of(items) == Seq::<CandidateModel>::empty(),
    decreases items.len(),
{
    reveal(Seq::filter);
    if items.len() > 0 {
        lemma_no_files_no_candidates(items.drop_last());
    }
    assert(candidates_of(items) =~= Seq::<CandidateModel>::empty());
}

/// Sorts what a walk came upon into the files to work on and the messages
/// of the entries that could not be read. No entry ends the enumeration.
pub fn get_file_paths(items: Vec<WalkItem>) -> (found: Enumeration)
    ensures
        found.candidates.deep_view() == candidates_of(items.deep_view()),
        found.diagnostics.deep_view() == diagnostics_of(items.deep_view()),
{
    let ghost all = items.deep_view();
    let mut candidates: Vec<Candidate> = Vec::new();
    let mut diagnostics: Vec<String> = Vec::new();
    let ghost mut seen: Seq<WalkItemModel> = Seq::empty();
    proof {
        reveal(Seq::filter);
        assert(candidates.deep_view() =~= candidates_of(seen));
        assert(diagnostics.deep_view() =~= diagnostics_of(seen));
    }
    for item in it: items
        invariant
            it.seq().len() == all.len(),
            forall|i: int| 0 <= i < all.len() ==> (#[trigger] it.seq()[i])@ == all[i],
            seen == all.take(it.index()),
            candidates.deep_view() == candidates_of(seen),
            diagnostics.deep_view() == diagnostics_of(seen),
    {
        proof {
            lemma_enumerate_step(seen, item@);
            assert(all.take(seen.len() as int + 1) =~= seen.push(item@));
            seen = seen.push(item@);
        }
        let ghost before_candidates = candidates.deep_view();
        let ghost before_diagnostics = diagnostics.deep_view();
        match item {
            WalkItem::Entry { path, file_name, is_file } => {
                if is_file {
                    let candidate = Candidate { file_name, file_path: path };
                    candidates.push(candidate);
                    assert(candidates.deep_view() =~= before_candidates.push(candidate@));
                }
            },
            WalkItem::Failure { message } => {
                diagnostics.push(message);
                assert(diagnostics.deep_view() =~= before_diagnostics.push(message@));
            },
        }
    }
    assert(all.take(all.len() as int) =~= all);
    Enumeration { candidates, diagnostics }
}

/// What walking the tree gives for a command. `root` says whether the root
/// of the tree could be read at all: where it could not, the command ends,
/// whatever `items` holds. Below the root no entry ends anything.
pub fn enumerate(root: Result<(), ReadFailure>, items: Vec<WalkItem>) -> (found: Result<
    Enumeration,
    ErrorKind,
>)
    ensures
        root is Err ==> found == Err::<Enumeration, ErrorKind>(ErrorKind::FatalIo),
        root is Ok ==> (found matches Ok(listed) && listed.candidates.deep_view() == candidates_of(
            items.deep_view(),
        ) && listed.diagnostics.deep_view() == diagnostics_of(items.deep_view())),
{
    match root {
        Ok(()) => Ok(get_file_paths(items)),
        Err(failure) => Err(failure.kind_for_single_file()),
    }
}

/// Why no file was picked for a name.
#[derive(Clone, Copy, Debug, PartialEq, Eq, Structural)]
pub enum LookupError {
    /// No file has the name.
    NotFound,
    /// More than one file has the name.
    Ambiguous,
}

impl LookupError {
    /// What the user is told of a lookup of `file_name` that failed.
    pub open spec fn description(self, file_name: Seq<char>) -> Seq<char> {
        match self {
            LookupError::NotFound => "No file found with the name: "@ + file_name,
            LookupError::Ambiguous => "More than one file found with the name: "@ + file_name,
        }
    }

    /// What the user is told of a lookup of `file_name` that failed.
    pub fn describe(self, file_name: &str) -> (message: String)
        ensures
            message@ == self.description(file_name@),
    {
        let start = match self {
            LookupError::NotFound => "No file found with the name: ",
            LookupError::Ambiguous => "More than one file found with the name: ",
        };
        start.to_owned().concat(file_name)
    }

    /// A name that picks no single file counts as a file not found.
    pub fn kind(self) -> (kind: ErrorKind)
        ensures
            kind == ErrorKind::NotFound,
    {
        ErrorKind::NotFound
    }
}

/// The candidate at position `index` is named `file_name`.
pub open spec fn named_at(candidates: Seq<CandidateModel>, file_name: Seq<char>, index: int) -> bool {
    0 <= index < candidates.len() && candidates[index].file_name == file_name
}

/// The position of the first candidate from `from` on that is named
/// `wanted`, or the number of candidates where there is none.
fn next_named(candidates: &Vec<Candidate>, wanted: &String, from: usize) -> (index: usize)
    requires
        from <= candidates.len(),
    ensures
        from <= index <= candidates.len(),
        index < candidates.len() ==> named_at(candidates.deep_view(), wanted@, index as int),
        forall|i: int| from <= i < index ==> !named_at(candidates.deep_view(), wanted@, i),
{
    let mut index: usize = from;
    while index < candidates.len()
        invariant
            from <= index <= candidates.len(),
            forall|i: int| from <= i < index ==> !named_at(candidates.deep_view(), wanted@, i),
        decreases candidates.len() - index,
    {
        if candidates[index].file_name == *wanted {
            return index;
        }
        index += 1;
    }
    index
}

/// `found` is the answer to "which is the one candidate named `file_name`":
/// its position, or that there is none, or that there are several.
pub open spec fn only_named(
    candidates: Seq<CandidateModel>,
    file_name: Seq<char>,
    found: Result<usize, LookupError>,
) -> bool {
    match found {
        Ok(index) => {
            &&& named_at(candidates, file_name, index as int)
            &&& forall|i: int| i != index ==> !named_at(candidates, file_name, i)
        },
        Err(LookupError::NotFound) => forall|i: int| !named_at(candidates, file_name, i),
        Err(LookupError::Ambiguous) => exists|i: int, j: int|
            i < j && named_at(candidates, file_name, i) && named_at(candidates, file_name, j),
    }
}

/// The one candidate named `file_name`, by its position. A name that no
/// file has is not found, and a name that several files share is ambiguous:
/// none of them is picked, so that the order in which the walk came upon
/// them decides nothing.
pub fn get_file(candidates: &Vec<Candidate>, file_name: &str) -> (found: Result<usize, LookupError>)
    ensures
        only_named(candidates.deep_view(), file_name@, found),
{
    let wanted = file_name.to_owned();
    let first = next_named(candidates, &wanted, 0);
    if first >= candidates.len() {
        return Err(LookupError::NotFound);
    }
    let second = next_named(candidates, &wanted, first + 1);
    if second < candidates.len() {
        assert(named_at(candidates.deep_view(), file_name@, first as int) && named_at(
            candidates.deep_view(),
            file_name@,
            second as int,
        ));
        Err(LookupError::Ambiguous)
    } else {
        Ok(first)
    }
}

/// For given candidates and a given name the lookup has one answer only.
pub proof fn lemma_lookup_is_determined(
    candidates: Seq<CandidateModel>,
    file_name: Seq<char>,
    one: Result<usize, LookupError>,
    other: Result<usize, LookupError>,
)
    requires
        only_named(candidates, file_name, one),
        only_named(candidates, file_name, other),
    ensures
        one == other,
{
    if one is Ok {
        assert(named_at(candidates, file_name, one->Ok_0 as int));
    }
    if other is Ok {
        assert(named_at(candidates, file_name, other->Ok_0 as int));
    }
}

/// `shuffled` holds the candidates of `candidates` in another order: the
/// candidate at position `k` of `shuffled` is the one at position `to[k]`
/// of `candidates`, and `back` leads the other way.
pub open spec fn rearranged(
    candidates: Seq<CandidateModel>,
    shuffled: Seq<CandidateModel>,
    to: Seq<int>,
    back: Seq<int>,
) -> bool {
    &&& shuffled.len() == candidates.len()
    &&& to.len() == candidates.len()
    &&& back.len() == candidates.len()
    &&& forall|k: int|
        0 <= k < shuffled.len() ==> 0 <= #[trigger] to[k] < candidates.len() && back[to[k]] == k
            && shuffled[k] == candidates[to[k]]
    &&& forall|i: int|
        0 <= i < candidates.len() ==> 0 <= #[trigger] back[i] < shuffled.len() && to[back[i]] == i
}

/// The lookup does not hang on the order of the candidates: in whatever
/// order the walk came upon the same files, the same file is picked, or the
/// lookup fails in the same way.
pub proof fn lemma_lookup_ignores_order(
    candidates: Seq<CandidateModel>,
    shuffled: Seq<CandidateModel>,
    to: Seq<int>,
    back: Seq<int>,
    file_name: Seq<char>,
    found: Result<usize, LookupError>,
    found_shuffled: Result<usize, LookupError>,
)
    requires
        rearranged(candidates, shuffled, to, back),
        only_named(candidates, file_name, found),
        only_named(shuffled, file_name, found_shuffled),
    ensures
        match (found, found_shuffled) {
            (Ok(index), Ok(other)) => candidates[index as int] == shuffled[other as int],
            (Err(error), Err(other)) => error == other,
            _ => false,
        },
{
    assert forall|k: int| named_at(shuffled, file_name, k) implies named_at(
        candidates,
        file_name,
        to[k],
    ) by {}
    assert forall|i: int| named_at(candidates, file_name, i) implies named_at(
        shuffled,
        file_name,
        back[i],
    ) by {
        assert(shuffled[back[i]] == candidates[to[back[i]]]);
    }
    match found {
        Ok(index) => {
            assert(named_at(shuffled, file_name, back[index as int]));
            match found_shuffled {
                Ok(other) => {
                    assert(named_at(candidates, file_name, to[other as int]));
                },
                Err(LookupError::NotFound) => {},
                Err(LookupError::Ambiguous) => {
                    let (i, j) = choose|i: int, j: int|
                        i < j && named_at(shuffled, file_name, i) && named_at(
                            shuffled,
                            file_name,
                            j,
                        );
                    assert(named_at(candidates, file_name, to[i]));
                    assert(named_at(candidates, file_name, to[j]));
                    assert(back[to[i]] == i && back[to[j]] == j);
                },
            }
        },
        Err(LookupError::NotFound) => {
            match found_shuffled {
                Ok(other) => {
                    assert(named_at(candidates, file_name, to[other as int]));
                },
                Err(LookupError::NotFound) => {},
                Err(LookupError::Ambiguous) => {
                    let (i, j) = choose|i: int, j: int|
                        i < j && named_at(shuffled, file_name, i) && named_at(
                            shuffled,
                            file_name,
                            j,
                        );
                    assert(named_at(candidates, file_name, to[i]));
                },
            }
        },
        Err(LookupError::Ambiguous) => {
            let (i, j) = choose|i: int, j: int|
                i < j && named_at(candidates, file_name, i) && named_at(candidates, file_name, j);
            assert(named_at(shuffled, file_name, back[i]));
            assert(named_at(shuffled, file_name, back[j]));
            assert(to[back[i]] == i && to[back[j]] == j);
            assert(back[i] != back[j]);
        },
    }
}

} // verus!
