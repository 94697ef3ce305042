//! Context windows: the run of lines shown around one matching line.

use vstd::prelude::*;

verus! {

/// First line of the window around line `index`: `context` lines above it,
/// or the first line of the file where there are fewer.
pub open spec fn window_start(index: int, context: int) -> int {
    vstd::math::max(0, index - context)
}

/// One past the last line of the window around line `index` of a file of
/// `line_count` lines: `context` lines below it, or the end of the file
/// where there are fewer.
pub open spec fn window_end(index: int, context: int, line_count: int) -> int {
    vstd::math::min(line_count, index + context + 1)
}

/// What a context window is: its lines, and where among them the matching
/// line stands.
pub struct WindowModel {
    pub lines: Seq<Seq<char>>,
    pub match_offset: int,
}

/// The window around line `index` of `lines`, with `context` lines on each
/// side as far as the file reaches. Nothing is padded.
pub open spec fn window_of(lines: Seq<Seq<char>>, index: int, context: int) -> WindowModel {
    WindowModel {
        lines: lines.subrange(
            window_start(index, context),
            window_end(index, context, lines.len() as int),
        ),
        match_offset: index - window_start(index, context),
    }
}

/// The window around a line of the file lies inside the file, holds the
/// line itself, and has at most `2 * context + 1` lines: exactly that many
/// where the file reaches `context` lines both ways.
pub proof fn lemma_window_bounds(index: int, context: int, line_count: int)
    requires
        0 <= index < line_count,
        0 <= context,
    ensures
        0 <= window_start(index, context) <= index,
        index < window_end(index, context, line_count) <= line_count,
        window_end(index, context, line_count) - window_start(index, context) <= 2 * context + 1,
        context <= index && index + context < line_count ==> window_end(index, context, line_count)
            - window_start(index, context) == 2 * context + 1,
{
}

/// The lines of the window are the file's own lines, in the file's order,
/// and the line at `match_offset` is the line that the window was cut for.
pub proof fn lemma_window_lines(lines: Seq<Seq<char>>, index: int, context: int)
    requires
        0 <= index < lines.len(),
        0 <= context,
    ensures
        window_of(lines, index, context).lines.len() == window_end(
            index,
            context,
            lines.len() as int,
        ) - window_start(index, context),
        forall|k: int|
            0 <= k < window_of(lines, index, context).lines.len() ==> #[trigger] window_of(
                lines,
                index,
                context,
            ).lines[k] == lines[window_start(index, context) + k],
        0 <= window_of(lines, index, context).match_offset < window_of(
            lines,
            index,
            context,
        ).lines.len(),
        window_of(lines, index, context).lines[window_of(lines, index, context).match_offset]
            == lines[index],
{
}

/// The lines around one match, in the order of the file.
#[derive(Debug)]
pub struct ContextWindow {
    /// The lines of the window, the matching line among them.
    pub window_contents: Vec<String>,
    /// Where in `window_contents` the matching line stands.
    pub match_offset: usize,
}

impl View for ContextWindow {
    type V = WindowModel;

    open spec fn view(&self) -> WindowModel {
        WindowModel {
            lines: self.window_contents.deep_view(),
            match_offset: self.match_offset as int,
        }
    }
}

impl DeepView for ContextWindow {
    type V = WindowModel;

    open spec fn deep_view(&self) -> WindowModel {
        self@
    }
}

impl ContextWindow {
    /// The matching line lies inside the window.
    pub open spec fn wf(&self) -> bool {
        self.match_offset < self.window_contents.len()
    }

    /// Cuts the window around line `index` out of `lines`. There is none
    /// where the file has no such line.
    pub fn around(lines: &Vec<String>, index: usize, context_size: u8) -> (cut: Option<
        ContextWindow,
    >)
        ensures
            cut is Some <==> index < lines.len(),
            cut matches Some(window) ==> {
                &&& window@ == window_of(lines.deep_view(), index as int, context_size as int)
                &&& window.window_contents.len() == window_end(
                    index as int,
                    context_size as int,
                    lines.len() as int,
                ) - window_start(index as int, context_size as int)
                &&& window.wf()
            },
    {
        if index >= lines.len() {
            return None;
        }
        let context: usize = context_size as usize;
        let start: usize = if index > context {
            index - context
        } else {
            0
        };
        let end: usize = if lines.len() - index > context + 1 {
            index + context + 1
        } else {
            lines.len()
        };
        let mut window_contents: Vec<String> = Vec::new();
        let mut at: usize = start;
        while at < end
            invariant
                start <= at <= end <= lines.len(),
                window_contents.deep_view() == lines.deep_view().subrange(start as int, at as int),
            decreases end - at,
        {
            let ghost before = window_contents.deep_view();
            let line = lines[at].clone();
            window_contents.push(line);
            assert(window_contents.deep_view() == before.push(lines.deep_view()[at as int]));
            at += 1;
        }
        Some(ContextWindow { window_contents, match_offset: index - start })
    }

    /// The line that the window was cut for, where `match_offset` lies
    /// inside the window.
    pub fn matching_line(&self) -> (line: Option<&String>)
        ensures
            line is Some <==> self.wf(),
            line matches Some(found) ==> found@ == self@.lines[self@.match_offset],
    {
        if self.match_offset < self.window_contents.len() {
            Some(&self.window_contents[self.match_offset])
        } else {
            None
        }
    }
}

} // verus!
