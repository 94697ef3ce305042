//! The aggregator: one `SearchResult` for each file that holds the search
//! text, gathered file by file as the scan goes through its candidates.
//!
//! The scan never reads a file itself. It says which file is next, is told
//! what reading it gave, and keeps a result where the text was found. A file
//! that could not be read is counted and left out.
//!
//! The candidates are listed before the scan begins, so the total of the
//! progress counter is known from the first file on.

use crate::error::{ErrorKind, UsageError};
use crate::progress::ScanProgress;
use crate::scanner::{lemma_matching_lines_count, occurrences, scan_lines, windows_of};
use crate::text::{chars_of, split_lines};
use crate::window::{ContextWindow, WindowModel};
use vstd::prelude::*;
use vstd::utf8::{decode_utf8, encode_utf8_decode_utf8, valid_utf8};

verus! {

/// What a candidate is: a name to show and a path to read.
pub struct CandidateModel {
    pub file_name: Seq<char>,
    pub file_path: Seq<char>,
}

/// A file that the scan is to look at.
#[derive(Debug)]
pub struct Candidate {
    /// The name shown for the file.
    pub file_name: String,
    /// The path by which the file is read.
    pub file_path: String,
}

impl View for Candidate {
    type V = CandidateModel;

    open spec fn view(&self) -> CandidateModel {
        CandidateModel { file_name: self.file_name@, file_path: self.file_path@ }
    }
}

impl DeepView for Candidate {
    type V = CandidateModel;

    open spec fn deep_view(&self) -> CandidateModel {
        self@
    }
}

/// Why a file could not be read as text.
#[derive(Clone, Copy, Debug, PartialEq, Eq, Structural)]
pub enum ReadFailure {
    /// The file is gone.
    NotFound,
    /// The file may not be read.
    PermissionDenied,
    /// The file does not hold text.
    InvalidText,
    /// Anything else.
    Other,
}

impl ReadFailure {
    /// The failure in words.
    pub open spec fn description(self) -> Seq<char> {
        match self {
            ReadFailure::NotFound => "the file is gone"@,
            ReadFailure::PermissionDenied => "the file may not be read"@,
            ReadFailure::InvalidText => "the file does not hold text"@,
            ReadFailure::Other => "the file could not be read"@,
        }
    }

    /// The failure in words.
    pub fn describe(self) -> (words: String)
        ensures
            words@ == self.description(),
    {
        match self {
            ReadFailure::NotFound => "the file is gone".to_owned(),
            ReadFailure::PermissionDenied => "the file may not be read".to_owned(),
            ReadFailure::InvalidText => "the file does not hold text".to_owned(),
            ReadFailure::Other => "the file could not be read".to_owned(),
        }
    }

    /// In a scan a file that cannot be read is skipped.
    pub fn kind_in_scan(self) -> (kind: ErrorKind)
        ensures
            kind == ErrorKind::SkippableIo,
            !kind.is_fatal(),
    {
        ErrorKind::SkippableIo
    }

    /// For a command on one file, a file that cannot be read ends the
    /// command.
    pub fn kind_for_single_file(self) -> (kind: ErrorKind)
        ensures
            kind == ErrorKind::FatalIo,
            kind.is_fatal(),
    {
        ErrorKind::FatalIo
    }
}

/// What is told of a file that a scan skipped.
pub open spec fn skip_diagnostic_text(file_path: Seq<char>, failure: ReadFailure) -> Seq<char> {
    "Skipped "@ + file_path + ": "@ + failure.description()
}

/// What is told of a file that a scan skipped.
pub fn skip_diagnostic(file_path: &str, failure: ReadFailure) -> (line: String)
    ensures
        line@ == skip_diagnostic_text(file_path@, failure),
{
    let mut line = "Skipped ".to_owned();
    line.append(file_path);
    line.append(": ");
    let words = failure.describe();
    line.append(words.as_str());
    assert(line@ =~= skip_diagnostic_text(file_path@, failure));
    line
}

/// What reading a file gave.
#[derive(Debug)]
pub enum ReadOutcome {
    /// The whole file, as text.
    Text(String),
    /// No text, and why.
    Failed(ReadFailure),
}

impl ReadOutcome {
    /// What the bytes of a file give when they are read as text: the text
    /// that they encode, or a failure where they are not valid UTF-8. This is
    /// how a binary file comes to be skipped.
    pub fn from_bytes(bytes: Vec<u8>) -> (outcome: ReadOutcome)
        ensures
            valid_utf8(bytes@) ==> outcome.text() == Some(decode_utf8(bytes@)),
            !valid_utf8(bytes@) ==> outcome == ReadOutcome::Failed(ReadFailure::InvalidText),
    {
        match String::from_utf8(bytes) {
            Ok(text) => {
                proof {
                    encode_utf8_decode_utf8(text@);
                }
                ReadOutcome::Text(text)
            },
            Err(_) => ReadOutcome::Failed(ReadFailure::InvalidText),
        }
    }

    /// The text that was read, if any was.
    pub open spec fn text(&self) -> Option<Seq<char>> {
        match self {
            ReadOutcome::Text(text) => Some(text@),
            ReadOutcome::Failed(_) => None,
        }
    }
}

/// A candidate together with what reading it gave: `None` where it could not
/// be read.
pub struct FileModel {
    pub file_name: Seq<char>,
    pub file_path: Seq<char>,
    pub contents: Option<Seq<char>>,
}

/// What a search result is.
pub struct ResultModel {
    pub file_name: Seq<char>,
    pub file_path: Seq<char>,
    pub number_of_occurrences: nat,
    pub context_windows: Seq<WindowModel>,
}

/// What the search found in one file that holds the search text.
#[derive(Debug)]
pub struct SearchResult {
    /// The name shown for the file.
    pub file_name: String,
    /// The path of the file.
    pub file_path: String,
    /// How many lines of the file hold the search text.
    pub number_of_occurrences: usize,
    /// One window for each of those lines, in the order of the file.
    pub context_windows: Vec<ContextWindow>,
}

impl View for SearchResult {
    type V = ResultModel;

    open spec fn view(&self) -> ResultModel {
        ResultModel {
            file_name: self.file_name@,
            file_path: self.file_path@,
            number_of_occurrences: self.number_of_occurrences as nat,
            context_windows: self.context_windows.deep_view(),
        }
    }
}

impl DeepView for SearchResult {
    type V = ResultModel;

    open spec fn deep_view(&self) -> ResultModel {
        self@
    }
}

/// The result for one file: none where it could not be read or holds the
/// target on no line.
pub open spec fn result_for(file: FileModel, target: Seq<char>, context: int) -> Option<
    ResultModel,
> {
    match file.contents {
        Some(text) => if occurrences(text, target) > 0 {
            Some(
                ResultModel {
                    file_name: file.file_name,
                    file_path: file.file_path,
                    number_of_occurrences: occurrences(text, target),
                    context_windows: windows_of(text, target, context),
                },
            )
        } else {
            None
        },
        None => None,
    }
}

/// The results for a run of files, in the order of the files.
pub open spec fn results_for(files: Seq<FileModel>, target: Seq<char>, context: int) -> Seq<
    ResultModel,
>
    decreases files.len(),
{
    if files.len() == 0 {
        Seq::empty()
    } else {
        let before = results_for(files.drop_last(), target, context);
        match result_for(files.last(), target, context) {
            Some(result) => before.push(result),
            None => before,
        }
    }
}

/// The file was read and holds `target` on at least one line.
pub open spec fn holds_target(file: FileModel, target: Seq<char>) -> bool {
    file.contents matches Some(text) && occurrences(text, target) > 0
}

/// The file was read.
pub open spec fn readable(file: FileModel) -> bool {
    file.contents is Some
}

/// There are exactly as many results as there are files that hold the
/// target: a file without a match never gives a result.
pub proof fn lemma_one_result_per_matching_file(
    files: Seq<FileModel>,
    target: Seq<char>,
    context: int,
)
    ensures
        results_for(files, target, context).len() == files.filter(
            |file: FileModel| holds_target(file, target),
        ).len(),
    decreases files.len(),
{
    reveal(Seq::filter);
    if files.len() > 0 {
        lemma_one_result_per_matching_file(files.drop_last(), target, context);
    }
}

/// Files that could not be read change nothing: the results are those of
/// the files that were read, as if the others had not been there.
pub proof fn lemma_unreadable_files_are_skipped(
    files: Seq<FileModel>,
    target: Seq<char>,
    context: int,
)
    ensures
        results_for(files, target, context) == results_for(
            files.filter(|file: FileModel| readable(file)),
            target,
            context,
        ),
    decreases files.len(),
{
    reveal(Seq::filter);
    if files.len() > 0 {
        let shorter = files.drop_last();
        let kept = shorter.filter(|file: FileModel| readable(file));
        lemma_unreadable_files_are_skipped(shorter, target, context);
        if readable(files.last()) {
            assert(kept.push(files.last()).drop_last() =~= kept);
        }
    }
}

/// The results of a run of files are the results of its first part followed
/// by those of the rest: results come in the order of the files.
pub proof fn lemma_results_in_file_order(
    first: Seq<FileModel>,
    rest: Seq<FileModel>,
    target: Seq<char>,
    context: int,
)
    ensures
        results_for(first + rest, target, context) == results_for(first, target, context)
            + results_for(rest, target, context),
    decreases rest.len(),
{
    if rest.len() == 0 {
        assert(first + rest =~= first);
    } else {
        lemma_results_in_file_order(first, rest.drop_last(), target, context);
        assert((first + rest).drop_last() =~= first + rest.drop_last());
        assert((first + rest).last() == rest.last());
    }
}

/// Every result stands for a file that holds the target, with the name and
/// path of that file, the number of its matching lines, and one window for
/// each of them.
pub proof fn lemma_results_sound(files: Seq<FileModel>, target: Seq<char>, context: int)
    ensures
        forall|k: int|
            0 <= k < results_for(files, target, context).len() ==> exists|i: int|
                0 <= i < files.len() && result_for(files[i], target, context) == Some(
                    #[trigger] results_for(files, target, context)[k],
                ),
    decreases files.len(),
{
    if files.len() > 0 {
        let shorter = files.drop_last();
        let before = results_for(shorter, target, context);
        let all = results_for(files, target, context);
        lemma_results_sound(shorter, target, context);
        assert forall|k: int| 0 <= k < all.len() implies exists|i: int|
            0 <= i < files.len() && result_for(files[i], target, context) == Some(
                #[trigger] all[k],
            ) by {
            if k < before.len() {
                let i = choose|i: int|
                    0 <= i < shorter.len() && result_for(shorter[i], target, context) == Some(
                        before[k],
                    );
                assert(files[i] == shorter[i]);
            } else {
                assert(result_for(files[files.len() - 1], target, context) == Some(all[k]));
            }
        }
    }
}

impl SearchResult {
    /// There is at least one occurrence, and one window for each.
    pub open spec fn wf(&self) -> bool {
        &&& self.number_of_occurrences > 0
        &&& self.number_of_occurrences == self.context_windows.len()
        &&& forall|k: int|
            0 <= k < self.context_windows.len() ==> #[trigger] self.context_windows[k].wf()
    }

    /// The result for a file named `file_name` at `file_path` whose text is
    /// `text`, searched for `target`.
    ///
    /// An empty `target` is refused. A text without the target gives no
    /// result.
    pub fn for_file(
        file_name: &str,
        file_path: &str,
        text: &str,
        target: &str,
        context_size: u8,
    ) -> (found: Result<Option<SearchResult>, UsageError>)
        ensures
            found is Err <==> target@.len() == 0,
            found matches Ok(result) ==> {
                &&& result.deep_view() == result_for(
                    FileModel {
                        file_name: file_name@,
                        file_path: file_path@,
                        contents: Some(text@),
                    },
                    target@,
                    context_size as int,
                )
                &&& result is Some <==> occurrences(text@, target@) > 0
                &&& result matches Some(r) ==> r.wf() && r.number_of_occurrences == occurrences(
                    text@,
                    target@,
                )
            },
    {
        let needle = chars_of(target);
        if needle.len() == 0 {
            return Err(UsageError::EmptySearchText);
        }
        Ok(result_in_text(file_name, file_path, text, needle.as_slice(), context_size))
    }
}

/// The result for one file that was read, searched for `needle`.
fn result_in_text(
    file_name: &str,
    file_path: &str,
    text: &str,
    needle: &[char],
    context_size: u8,
) -> (found: Option<SearchResult>)
    ensures
        found.deep_view() == result_for(
            FileModel { file_name: file_name@, file_path: file_path@, contents: Some(text@) },
            needle@,
            context_size as int,
        ),
        found matches Some(r) ==> r.wf(),
{
    let all = split_lines(text);
    let context_windows = scan_lines(&all, needle, context_size);
    proof {
        lemma_matching_lines_count(text@, needle@);
        assert(context_windows.deep_view().len() == context_windows.len());
    }
    if context_windows.len() == 0 {
        return None;
    }
    Some(
        SearchResult {
            file_name: file_name.to_owned(),
            file_path: file_path.to_owned(),
            number_of_occurrences: context_windows.len(),
            context_windows,
        },
    )
}

/// What became of the file that was handed to the scan.
#[derive(Clone, Copy, Debug, PartialEq, Eq, Structural)]
pub enum Step {
    /// The file holds the search text: a result was kept.
    Reported,
    /// The file was read and does not hold the search text.
    NoMatch,
    /// The file could not be read and was left out.
    Skipped(ReadFailure),
    /// Every candidate had been examined already: nothing changed.
    Ignored,
}

/// What `Step` the scan reports for a file that reading gave `outcome`.
pub open spec fn step_for(outcome: ReadOutcome, target: Seq<char>) -> Step {
    match outcome {
        ReadOutcome::Failed(failure) => Step::Skipped(failure),
        ReadOutcome::Text(text) => if occurrences(text@, target) > 0 {
            Step::Reported
        } else {
            Step::NoMatch
        },
    }
}

/// A scan in progress: its candidates, how far it has come, and the results
/// so far.
pub struct Scan {
    needle: Vec<char>,
    context_size: u8,
    candidates: Vec<Candidate>,
    progress: ScanProgress,
    results: Vec<SearchResult>,
    examined: Ghost<Seq<FileModel>>,
}

impl Scan {
    /// The scan is consistent: the search text is not empty, the files
    /// examined are the first candidates, in order, and the results are the
    /// results for exactly those files.
    pub closed spec fn wf(&self) -> bool {
        &&& self.needle@.len() > 0
        &&& self.progress.total == self.candidates.len()
        &&& self.progress.current == self.examined@.len()
        &&& self.progress.current <= self.progress.total
        &&& forall|i: int|
            0 <= i < self.examined@.len() ==> {
                &&& (#[trigger] self.examined@[i]).file_name == self.candidates[i].file_name@
                &&& self.examined@[i].file_path == self.candidates[i].file_path@
            }
        &&& self.results.deep_view() == results_for(
            self.examined@,
            self.needle@,
            self.context_size as int,
        )
        &&& forall|k: int| 0 <= k < self.results.len() ==> #[trigger] self.results[k].wf()
    }

    /// The text searched for.
    pub closed spec fn target(&self) -> Seq<char> {
        self.needle@
    }

    /// The number of lines shown on each side of a match.
    pub closed spec fn context(&self) -> int {
        self.context_size as int
    }

    /// The files to examine, in order.
    pub closed spec fn candidates(&self) -> Seq<CandidateModel> {
        self.candidates.deep_view()
    }

    /// The files examined so far, each with what reading it gave.
    pub closed spec fn examined(&self) -> Seq<FileModel> {
        self.examined@
    }

    /// The results kept so far.
    pub closed spec fn reported(&self) -> Seq<ResultModel> {
        self.results.deep_view()
    }

    /// Begins a scan of `candidates` for `target`.
    ///
    /// An empty `target` is refused, so that no scan for it ever exists and
    /// no file is read for it.
    pub fn new(target: &str, context_size: u8, candidates: Vec<Candidate>) -> (begun: Result<
        Scan,
        UsageError,
    >)
        ensures
            begun is Err <==> target@.len() == 0,
            begun matches Ok(scan) ==> {
                &&& scan.wf()
                &&& scan.target() == target@
                &&& scan.context() == context_size
                &&& scan.candidates() == candidates.deep_view()
                &&& scan.examined() == Seq::<FileModel>::empty()
                &&& scan.reported() == Seq::<ResultModel>::empty()
            },
    {
        let needle = chars_of(target);
        if needle.len() == 0 {
            return Err(UsageError::EmptySearchText);
        }
        let progress = ScanProgress::new(candidates.len());
        let scan = Scan {
            needle,
            context_size,
            candidates,
            progress,
            results: Vec::new(),
            examined: Ghost(Seq::empty()),
        };
        assert(scan.results.deep_view() =~= Seq::<ResultModel>::empty());
        Ok(scan)
    }

    /// How far the scan has come.
    pub fn progress(&self) -> (progress: ScanProgress)
        requires
            self.wf(),
        ensures
            progress.current == self.examined().len(),
            progress.total == self.candidates().len(),
            progress.wf(),
    {
        self.progress
    }

    /// The file to read next, or none when every candidate was examined.
    pub fn next_candidate(&self) -> (candidate: Option<&Candidate>)
        requires
            self.wf(),
        ensures
            candidate is Some <==> self.examined().len() < self.candidates().len(),
            candidate matches Some(c) ==> c@ == self.candidates()[self.examined().len() as int],
    {
        if self.progress.current < self.candidates.len() {
            Some(&self.candidates[self.progress.current])
        } else {
            None
        }
    }

    /// Takes what reading the next candidate gave.
    ///
    /// The file counts as examined whatever `outcome` is. A result is kept
    /// for it exactly where it was read and holds the search text. Once
    /// every candidate was examined the scan ignores what it is handed.
    pub fn record(&mut self, outcome: ReadOutcome) -> (step: Step)
        requires
            old(self).wf(),
        ensures
            final(self).wf(),
            final(self).target() == old(self).target(),
            final(self).context() == old(self).context(),
            final(self).candidates() == old(self).candidates(),
            final(self).reported() == results_for(
                final(self).examined(),
                final(self).target(),
                final(self).context(),
            ),
            old(self).examined().len() >= old(self).candidates().len() ==> {
                &&& step == Step::Ignored
                &&& final(self).examined() == old(self).examined()
            },
            old(self).examined().len() < old(self).candidates().len() ==> {
                &&& step == step_for(outcome, old(self).target())
                &&& final(self).examined() == old(self).examined().push(
                    FileModel {
                        file_name: old(self).candidates()[old(self).examined().len() as int].file_name,
                        file_path: old(self).candidates()[old(self).examined().len() as int].file_path,
                        contents: outcome.text(),
                    },
                )
            },
    {
        let index = self.progress.current;
        if index >= self.candidates.len() {
            return Step::Ignored;
        }
        let ghost file = FileModel {
            file_name: self.candidates[index as int].file_name@,
            file_path: self.candidates[index as int].file_path@,
            contents: outcome.text(),
        };
        let ghost grown = self.examined@.push(file);
        assert(grown.drop_last() =~= self.examined@);
        let ghost before = self.results.deep_view();
        let step = match outcome {
            ReadOutcome::Failed(failure) => Step::Skipped(failure),
            ReadOutcome::Text(text) => {
                let candidate = &self.candidates[index];
                let found = result_in_text(
                    candidate.file_name.as_str(),
                    candidate.file_path.as_str(),
                    text.as_str(),
                    self.needle.as_slice(),
                    self.context_size,
                );
                match found {
                    Some(result) => {
                        self.results.push(result);
                        assert(self.results.deep_view() == before.push(result@));
                        Step::Reported
                    },
                    None => Step::NoMatch,
                }
            },
        };
        self.progress.advance();
        self.examined = Ghost(grown);
        step
    }

    /// The results kept so far, in the order of the candidates.
    pub fn results(&self) -> (results: &Vec<SearchResult>)
        requires
            self.wf(),
        ensures
            results.deep_view() == self.reported(),
            results.deep_view() == results_for(self.examined(), self.target(), self.context()),
            forall|k: int| 0 <= k < results.len() ==> #[trigger] results[k].wf(),
    {
        &self.results
    }

    /// Ends the scan and hands out its results, in the order of the
    /// candidates.
    pub fn finish(self) -> (results: Vec<SearchResult>)
        requires
            self.wf(),
        ensures
            results.deep_view() == self.reported(),
            results.deep_view() == results_for(self.examined(), self.target(), self.context()),
            forall|k: int| 0 <= k < results.len() ==> #[trigger] results[k].wf(),
    {
        self.results
    }
}

} // verus!
