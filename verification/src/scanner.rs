//! The match scanner: which lines of a text hold the search text, and the
//! context window around each of them.

use crate::error::UsageError;
use crate::text::{chars_of, contains_chars, has_substring, lines, split_lines};
use crate::window::{window_of, ContextWindow, WindowModel};
use vstd::prelude::*;

verus! {

/// The zero-based indices of the lines that hold `target`, in rising order.
pub open spec fn matching_lines(all: Seq<Seq<char>>, target: Seq<char>) -> Seq<int>
    decreases all.len(),
{
    if all.len() == 0 {
        Seq::empty()
    } else {
        let before = matching_lines(all.drop_last(), target);
        if has_substring(all.last(), target) {
            before.push(all.len() - 1)
        } else {
            before
        }
    }
}

/// How many lines of `text` hold `target`. A line that holds it twice counts
/// once.
pub open spec fn occurrences(text: Seq<char>, target: Seq<char>) -> nat {
    lines(text).filter(|line: Seq<char>| has_substring(line, target)).len()
}

/// One window for each matching line of `all`, in the order of the lines.
/// Windows that overlap are not merged.
pub open spec fn windows_over(all: Seq<Seq<char>>, target: Seq<char>, context: int) -> Seq<
    WindowModel,
> {
    let hits = matching_lines(all, target);
    Seq::new(hits.len(), |k: int| window_of(all, hits[k], context))
}

/// One window for each matching line of `text`.
pub open spec fn windows_of(text: Seq<char>, target: Seq<char>, context: int) -> Seq<WindowModel> {
    windows_over(lines(text), target, context)
}

/// The matching lines are lines of the text that hold the target, each
/// listed once, in rising order, and no line that holds the target is left
/// out.
pub proof fn lemma_matching_lines(all: Seq<Seq<char>>, target: Seq<char>)
    ensures
        matching_lines(all, target).len() <= all.len(),
        forall|k: int|
            0 <= k < matching_lines(all, target).len() ==> 0 <= #[trigger] matching_lines(
                all,
                target,
            )[k] < all.len() && has_substring(all[matching_lines(all, target)[k]], target),
        forall|j: int, k: int|
            0 <= j < k < matching_lines(all, target).len() ==> #[trigger] matching_lines(
                all,
                target,
            )[j] < #[trigger] matching_lines(all, target)[k],
        forall|i: int|
            0 <= i < all.len() && has_substring(#[trigger] all[i], target) ==> matching_lines(
                all,
                target,
            ).contains(i),
    decreases all.len(),
{
    if all.len() > 0 {
        let shorter = all.drop_last();
        let before = matching_lines(shorter, target);
        let hits = matching_lines(all, target);
        lemma_matching_lines(shorter, target);
        assert forall|i: int| 0 <= i < all.len() && has_substring(#[trigger] all[i], target) implies hits.contains(i) by {
            if i < all.len() - 1 {
                assert(shorter[i] == all[i]);
                let k = choose|k: int| 0 <= k < before.len() && before[k] == i;
                assert(hits[k] == i);
            } else {
                assert(hits[hits.len() - 1] == i);
            }
        }
        assert forall|k: int| 0 <= k < hits.len() implies 0 <= #[trigger] hits[k] < all.len()
            && has_substring(all[hits[k]], target) by {
            if k < before.len() {
                assert(shorter[before[k]] == all[before[k]]);
            }
        }
    }
}

/// There are as many matching lines as there are lines that hold the target.
pub proof fn lemma_matching_lines_count(text: Seq<char>, target: Seq<char>)
    ensures
        matching_lines(lines(text), target).len() == occurrences(text, target),
{
    lemma_matching_count(lines(text), target);
}

proof fn lemma_matching_count(all: Seq<Seq<char>>, target: Seq<char>)
    ensures
        matching_lines(all, target).len() == all.filter(
            |line: Seq<char>| has_substring(line, target),
        ).len(),
    decreases all.len(),
{
    reveal(Seq::filter);
    if all.len() > 0 {
        lemma_matching_count(all.drop_last(), target);
    }
}

/// The windows around the lines of `all` that hold `needle`.
pub fn scan_lines(all: &Vec<String>, needle: &[char], context_size: u8) -> (windows: Vec<
    ContextWindow,
>)
    ensures
        windows.deep_view() == windows_over(all.deep_view(), needle@, context_size as int),
        forall|k: int| 0 <= k < windows.len() ==> #[trigger] windows[k].wf(),
{
    let mut windows: Vec<ContextWindow> = Vec::new();
    let ghost model = all.deep_view();
    let mut index: usize = 0;
    while index < all.len()
        invariant
            index <= all.len(),
            model == all.deep_view(),
            windows.len() == matching_lines(model.take(index as int), needle@).len(),
            forall|k: int|
                0 <= k < windows.len() ==> #[trigger] windows[k]@ == window_of(
                    model,
                    matching_lines(model.take(index as int), needle@)[k],
                    context_size as int,
                ),
            forall|k: int| 0 <= k < windows.len() ==> #[trigger] windows[k].wf(),
        decreases all.len() - index,
    {
        let ghost seen = model.take(index as int);
        let ghost grown = model.take(index + 1);
        assert(grown.drop_last() == seen);
        assert(grown.last() == all[index as int]@);
        let line = chars_of(all[index].as_str());
        if contains_chars(line.as_slice(), needle) {
            match ContextWindow::around(all, index, context_size) {
                Some(window) => {
                    windows.push(window);
                },
                None => {},
            }
        }
        index += 1;
    }
    assert(model.take(all.len() as int) == model);
    assert(windows.deep_view() =~= windows_over(model, needle@, context_size as int));
    windows
}

/// Scans `text` for the lines that hold `target` and cuts one window of
/// `context_size` lines each way around each of them.
///
/// An empty `target` is refused: it would match every line.
pub fn scan_text(text: &str, target: &str, context_size: u8) -> (found: Result<
    Vec<ContextWindow>,
    UsageError,
>)
    ensures
        found is Err <==> target@.len() == 0,
        found matches Ok(windows) ==> {
            &&& windows.deep_view() == windows_of(text@, target@, context_size as int)
            &&& windows.len() == occurrences(text@, target@)
            &&& forall|k: int| 0 <= k < windows.len() ==> #[trigger] windows[k].wf()
        },
{
    let needle = chars_of(target);
    if needle.len() == 0 {
        return Err(UsageError::EmptySearchText);
    }
    let all = split_lines(text);
    let windows = scan_lines(&all, needle.as_slice(), context_size);
    proof {
        lemma_matching_lines_count(text@, target@);
        assert(windows.deep_view().len() == windows.len());
    }
    Ok(windows)
}

} // verus!
