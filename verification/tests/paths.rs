use fs_helper::error::ErrorKind;
use fs_helper::paths::{
    enumerate, get_file, get_file_paths, walk_diagnostic, LookupError, WalkItem,
};
use fs_helper::search::{Candidate, ReadFailure, Scan};

fn file(path: &str, name: &str) -> WalkItem {
    WalkItem::Entry { path: path.to_string(), file_name: name.to_string(), is_file: true }
}

fn directory(path: &str, name: &str) -> WalkItem {
    WalkItem::Entry { path: path.to_string(), file_name: name.to_string(), is_file: false }
}

fn failure(message: &str) -> WalkItem {
    WalkItem::Failure { message: message.to_string() }
}

fn at(path: &str, name: &str) -> Candidate {
    Candidate { file_name: name.to_string(), file_path: path.to_string() }
}

fn named(names: &[&str]) -> Vec<Candidate> {
    names
        .iter()
        .enumerate()
        .map(|(i, name)| Candidate { file_name: name.to_string(), file_path: format!("/{}/{}", i, name) })
        .collect()
}

#[test]
fn empty_tree_gives_no_candidates_and_no_results() {
    let found = get_file_paths(vec![directory("/tree", "tree")]);
    assert!(found.candidates.is_empty());
    assert!(found.diagnostics.is_empty());
    let scan = Scan::new("needle", 3, found.candidates).unwrap();
    assert!(scan.next_candidate().is_none());
    assert!(scan.finish().is_empty());
}

#[test]
fn nothing_walked_gives_nothing() {
    let found = get_file_paths(Vec::new());
    assert!(found.candidates.is_empty());
    assert!(found.diagnostics.is_empty());
}

#[test]
fn only_regular_files_are_candidates() {
    let found = get_file_paths(vec![
        directory("/t", "t"),
        file("/t/a.txt", "a.txt"),
        directory("/t/sub", "sub"),
        file("/t/sub/b.txt", "b.txt"),
    ]);
    assert_eq!(found.candidates.len(), 2);
    assert_eq!(found.candidates[0].file_name, "a.txt");
    assert_eq!(found.candidates[0].file_path, "/t/a.txt");
    assert_eq!(found.candidates[1].file_name, "b.txt");
    assert_eq!(found.candidates[1].file_path, "/t/sub/b.txt");
}

#[test]
fn walk_failures_become_diagnostics_and_end_nothing() {
    let found = get_file_paths(vec![
        failure("first"),
        file("/t/a.txt", "a.txt"),
        failure("second"),
        file("/t/b.txt", "b.txt"),
    ]);
    assert_eq!(found.diagnostics, vec!["first", "second"]);
    assert_eq!(found.candidates.len(), 2);
    assert_eq!(found.candidates[1].file_name, "b.txt");
}

#[test]
fn walk_diagnostic_text_is_exact() {
    assert_eq!(walk_diagnostic("permission denied"), "An error occurred permission denied");
}

#[test]
fn get_file_picks_the_only_file_of_the_name() {
    let candidates = named(&["a", "b", "c"]);
    assert_eq!(get_file(&candidates, "a"), Ok(0));
    assert_eq!(get_file(&candidates, "b"), Ok(1));
    assert_eq!(get_file(&candidates, "c"), Ok(2));
}

#[test]
fn get_file_refuses_a_shared_name() {
    let candidates = named(&["a", "b", "a"]);
    assert_eq!(get_file(&candidates, "a"), Err(LookupError::Ambiguous));
    assert_eq!(get_file(&candidates, "b"), Ok(1));
    assert_eq!(get_file(&named(&["x", "x"]), "x"), Err(LookupError::Ambiguous));
    assert_eq!(get_file(&named(&["x", "x", "x"]), "x"), Err(LookupError::Ambiguous));
}

#[test]
fn get_file_finds_nothing_for_an_unknown_name() {
    let candidates = named(&["a", "b"]);
    assert_eq!(get_file(&candidates, "z"), Err(LookupError::NotFound));
    assert_eq!(get_file(&Vec::new(), "a"), Err(LookupError::NotFound));
}

#[test]
fn names_are_compared_exactly() {
    let candidates = named(&["notes.txt"]);
    assert_eq!(get_file(&candidates, "notes"), Err(LookupError::NotFound));
    assert_eq!(get_file(&candidates, "Notes.txt"), Err(LookupError::NotFound));
    assert_eq!(get_file(&candidates, "notes.txt"), Ok(0));
}

#[test]
fn the_pick_does_not_hang_on_the_order_of_the_walk() {
    let one = vec![at("/r/a/x.txt", "x.txt"), at("/r/b/y.txt", "y.txt"), at("/r/b/x.txt", "x.txt")];
    let other = vec![at("/r/b/x.txt", "x.txt"), at("/r/a/x.txt", "x.txt"), at("/r/b/y.txt", "y.txt")];
    assert_eq!(get_file(&one, "x.txt"), Err(LookupError::Ambiguous));
    assert_eq!(get_file(&other, "x.txt"), Err(LookupError::Ambiguous));
    let picked = get_file(&one, "y.txt").unwrap();
    let picked_other = get_file(&other, "y.txt").unwrap();
    assert_eq!(one[picked].file_path, "/r/b/y.txt");
    assert_eq!(other[picked_other].file_path, "/r/b/y.txt");
    assert_eq!(get_file(&one, "z.txt"), get_file(&other, "z.txt"));
}

#[test]
fn an_unreadable_root_ends_the_command() {
    let found = enumerate(Err(ReadFailure::PermissionDenied), Vec::new());
    assert!(matches!(found, Err(ErrorKind::FatalIo)));
    let found = enumerate(Err(ReadFailure::NotFound), vec![file("/t/a.txt", "a.txt")]);
    assert!(matches!(found, Err(ErrorKind::FatalIo)));
}

#[test]
fn a_readable_root_gives_the_files_below_it() {
    let found = enumerate(
        Ok(()),
        vec![directory("/t", "t"), failure("no entry"), file("/t/a.txt", "a.txt")],
    )
    .unwrap();
    assert_eq!(found.candidates.len(), 1);
    assert_eq!(found.candidates[0].file_path, "/t/a.txt");
    assert_eq!(found.diagnostics, vec!["no entry"]);
}

#[test]
fn lookup_errors_are_put_in_words() {
    assert_eq!(LookupError::NotFound.describe("n.txt"), "No file found with the name: n.txt");
    assert_eq!(
        LookupError::Ambiguous.describe("n.txt"),
        "More than one file found with the name: n.txt"
    );
    assert_eq!(LookupError::NotFound.kind(), ErrorKind::NotFound);
    assert_eq!(LookupError::Ambiguous.kind(), ErrorKind::NotFound);
}
