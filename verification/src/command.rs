//! The commands, and what each of them decides before and after the disk is
//! touched.

use crate::error::UsageError;
use vstd::prelude::*;

verus! {

/// The number of lines shown on each side of a match where none is asked
/// for.
pub const DEFAULT_CONTEXT_SIZE: u8 = 3;

/// What the program can be asked to do.
#[derive(Debug)]
pub enum Commands {
    /// Show what a file holds.
    OutputFileContents { file_name: String },
    /// Add text to the end of a file.
    AppendToFile { file_name: String, text: String },
    /// Find the files that hold a text, with the lines around each match.
    FindText { text: String, context_size: u8, no_highlight: bool },
    /// Replace a text by another. The command is accepted and changes
    /// nothing.
    FindAndReplace { find: String, replace: String },
}

impl Commands {
    /// The command can be carried out as it stands. The one that cannot is
    /// a search for the empty text.
    pub open spec fn usable(&self) -> bool {
        match self {
            Commands::FindText { text, .. } => text@.len() > 0,
            _ => true,
        }
    }

    /// Checks the command before anything is read. A search for the empty
    /// text is refused here, so that no file is read for it.
    pub fn validate(&self) -> (checked: Result<(), UsageError>)
        ensures
            checked is Ok <==> self.usable(),
    {
        match self {
            Commands::FindText { text, .. } => {
                if text.as_str().is_empty() {
                    Err(UsageError::EmptySearchText)
                } else {
                    Ok(())
                }
            },
            _ => Ok(()),
        }
    }
}

/// What is printed for a file that holds `file_contents`: a line break, then
/// the contents as they are.
pub fn print_output(file_contents: &str) -> (out: String)
    ensures
        out@ == "\n"@ + file_contents@,
{
    let mut out = String::new();
    out.append("\n");
    out.append(file_contents);
    assert(out@ =~= "\n"@ + file_contents@);
    out
}

/// What a file that held `previous_text` holds after `text` was appended:
/// the one directly after the other, with nothing between them.
pub fn append_text(previous_text: String, text: &str) -> (new_text: String)
    ensures
        new_text@ == previous_text@ + text@,
{
    previous_text.concat(text)
}

} // verus!
