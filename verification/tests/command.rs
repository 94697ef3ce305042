use fs_helper::command::{append_text, print_output, Commands, DEFAULT_CONTEXT_SIZE};
use fs_helper::error::{
    exit_status, ErrorKind, UsageError, EXIT_IO, EXIT_NOT_FOUND, EXIT_SUCCESS, EXIT_USAGE,
};

fn find(text: &str) -> Commands {
    Commands::FindText { text: text.to_string(), context_size: DEFAULT_CONTEXT_SIZE, no_highlight: false }
}

#[test]
fn append_puts_the_text_directly_after_the_contents() {
    assert_eq!(append_text("world".to_string(), "hello"), "worldhello");
}

#[test]
fn append_adds_no_line_break() {
    assert_eq!(append_text("a\n".to_string(), "b"), "a\nb");
    assert_eq!(append_text(String::new(), "b"), "b");
    assert_eq!(append_text("a".to_string(), ""), "a");
}

#[test]
fn print_puts_one_line_break_before_the_contents() {
    assert_eq!(print_output("content"), "\ncontent");
    assert_eq!(print_output(""), "\n");
    assert_eq!(print_output("a\nb\n"), "\na\nb\n");
}

#[test]
fn default_context_is_three_lines() {
    assert_eq!(DEFAULT_CONTEXT_SIZE, 3);
}

#[test]
fn search_for_empty_text_is_a_usage_error() {
    assert_eq!(find("").validate(), Err(UsageError::EmptySearchText));
    assert_eq!(UsageError::EmptySearchText.kind(), ErrorKind::Usage);
    assert_eq!(
        UsageError::EmptySearchText.describe(),
        "The text to search for must not be empty."
    );
}

#[test]
fn other_commands_are_usable() {
    assert_eq!(find("x").validate(), Ok(()));
    assert_eq!(Commands::OutputFileContents { file_name: String::new() }.validate(), Ok(()));
    assert_eq!(
        Commands::AppendToFile { file_name: "a".to_string(), text: String::new() }.validate(),
        Ok(())
    );
    assert_eq!(
        Commands::FindAndReplace { find: String::new(), replace: String::new() }.validate(),
        Ok(())
    );
}

#[test]
fn exit_status_follows_the_kind_of_failure() {
    assert_eq!(exit_status(Ok(())), 0);
    assert_eq!(exit_status(Err(ErrorKind::NotFound)), 1);
    assert_eq!(exit_status(Err(ErrorKind::FatalIo)), 2);
    assert_eq!(exit_status(Err(ErrorKind::Usage)), 64);
    assert_eq!(exit_status(Err(ErrorKind::SkippableIo)), 0);
    assert_eq!((EXIT_SUCCESS, EXIT_NOT_FOUND, EXIT_IO, EXIT_USAGE), (0, 1, 2, 64));
}

#[test]
fn only_a_skipped_file_is_not_fatal() {
    assert!(ErrorKind::Usage.fatal());
    assert!(ErrorKind::NotFound.fatal());
    assert!(ErrorKind::FatalIo.fatal());
    assert!(!ErrorKind::SkippableIo.fatal());
    assert_eq!(ErrorKind::SkippableIo.code(), None);
    assert_eq!(ErrorKind::Usage.code(), Some(64));
    assert_eq!(ErrorKind::NotFound.code(), Some(1));
    assert_eq!(ErrorKind::FatalIo.code(), Some(2));
}
