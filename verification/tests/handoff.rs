use launch_handoff::commands::get_launch_file;
use launch_handoff::commands::greet;
use launch_handoff::path_ext::eq_ignore_ascii_case;
use launch_handoff::path_ext::extension_of;
use launch_handoff::path_ext::has_markdown_extension;
use launch_handoff::scan::find_launch_file;
use launch_handoff::scan::process_file_path;
use launch_handoff::scan::scan_launch_args;
use launch_handoff::state::LaunchState;

fn strings(xs: &[&str]) -> Vec<String> {
    xs.iter().map(|x| x.to_string()).collect()
}

#[test]
fn greet_formats_name() {
    assert_eq!(greet("World"), "Hello, World! You've been greeted from Rust!");
    assert_eq!(greet(""), "Hello, ! You've been greeted from Rust!");
}

#[test]
fn take_on_fresh_state_is_empty() {
    let mut state = LaunchState::new();
    assert_eq!(state.take(), None);
}

#[test]
fn take_twice_second_is_empty() {
    let mut state = LaunchState::new();
    state.set("notes.md".to_string());
    assert_eq!(state.take(), Some("notes.md".to_string()));
    assert_eq!(state.take(), None);
}

#[test]
fn set_twice_take_returns_latest() {
    let mut state = LaunchState::new();
    state.set("a.md".to_string());
    state.set("b.md".to_string());
    assert_eq!(state.take(), Some("b.md".to_string()));
    assert_eq!(state.take(), None);
}

#[test]
fn get_launch_file_clears_the_slot() {
    let mut state = LaunchState::new();
    state.set("doc.md".to_string());
    assert_eq!(get_launch_file(&mut state), Some("doc.md".to_string()));
    assert_eq!(get_launch_file(&mut state), None);
}

#[test]
fn extension_matching_is_case_insensitive() {
    assert!(has_markdown_extension("FILE.MD"));
    assert!(has_markdown_extension("file.Markdown"));
    assert!(has_markdown_extension("file.md"));
    assert!(has_markdown_extension("file.mD"));
    assert!(has_markdown_extension("file.MARKDOWN"));
    assert!(!has_markdown_extension("file.txt"));
    assert!(!has_markdown_extension("file"));
}

#[test]
fn extension_requires_a_real_file_name_dot() {
    // A leading dot marks a hidden file, not an extension.
    assert!(!has_markdown_extension(".md"));
    assert!(!has_markdown_extension("dir/.md"));
    // A dot in a directory name is not an extension either.
    assert!(!has_markdown_extension("notes.md/file"));
    // A trailing dot gives an empty extension.
    assert!(!has_markdown_extension("file."));
    // The file name is what comes after the last separator.
    assert!(has_markdown_extension("a/b/notes.markdown"));
    assert!(has_markdown_extension("a\\b\\notes.md"));
}

#[test]
fn extension_of_reports_the_suffix() {
    assert_eq!(extension_of("notes.md"), Some("md"));
    assert_eq!(extension_of("archive.tar.gz"), Some("gz"));
    assert_eq!(extension_of("notes"), None);
    assert_eq!(extension_of(".gitignore"), None);
    assert_eq!(extension_of("file."), Some(""));
    assert_eq!(extension_of(""), None);
}

#[test]
fn eq_ignore_ascii_case_compares_letters() {
    assert!(eq_ignore_ascii_case("MarkDown", "markdown"));
    assert!(eq_ignore_ascii_case("", ""));
    assert!(!eq_ignore_ascii_case("md", "mdd"));
    assert!(!eq_ignore_ascii_case("md", "mx"));
}

#[test]
fn scan_stores_the_single_matching_argument() {
    let args = strings(&["app.exe", "notes.md"]);
    let is_file = vec![false, true];
    let mut state = LaunchState::new();
    let emitted = scan_launch_args(&args, &is_file, &mut state);
    assert_eq!(emitted, Some("notes.md".to_string()));
    assert_eq!(get_launch_file(&mut state), Some("notes.md".to_string()));
    assert_eq!(get_launch_file(&mut state), None);
}

#[test]
fn scan_skips_non_matching_arguments() {
    let args = strings(&["app.exe", "readme.txt", "doc.md"]);
    let is_file = vec![false, true, true];
    let mut state = LaunchState::new();
    let emitted = scan_launch_args(&args, &is_file, &mut state);
    assert_eq!(emitted, Some("doc.md".to_string()));
    assert_eq!(state.take(), Some("doc.md".to_string()));
}

#[test]
fn scan_takes_the_first_match_in_list_order() {
    let args = strings(&["app.exe", "first.md", "second.md"]);
    let is_file = vec![false, true, true];
    let mut state = LaunchState::new();
    let emitted = scan_launch_args(&args, &is_file, &mut state);
    assert_eq!(emitted, Some("first.md".to_string()));
    assert_eq!(state.take(), Some("first.md".to_string()));
}

#[test]
fn scan_without_match_leaves_the_slot_empty() {
    let args = strings(&["app.exe", "readme.txt", "image.png"]);
    let is_file = vec![false, true, true];
    let mut state = LaunchState::new();
    let emitted = scan_launch_args(&args, &is_file, &mut state);
    assert_eq!(emitted, None);
    assert_eq!(state.take(), None);
}

#[test]
fn scan_ignores_paths_that_are_not_files() {
    let args = strings(&["app.exe", "missing.md", "present.md"]);
    let is_file = vec![false, false, true];
    let mut state = LaunchState::new();
    let emitted = scan_launch_args(&args, &is_file, &mut state);
    assert_eq!(emitted, Some("present.md".to_string()));
}

#[test]
fn scan_skips_the_executable_entry() {
    let args = strings(&["self-named.md"]);
    let is_file = vec![true];
    let mut state = LaunchState::new();
    let emitted = scan_launch_args(&args, &is_file, &mut state);
    assert_eq!(emitted, None);
    assert_eq!(state.take(), None);
}

#[test]
fn find_launch_file_returns_the_index() {
    let args = strings(&["app.exe", "readme.txt", "doc.md", "late.md"]);
    let is_file = vec![false, true, true, true];
    assert_eq!(find_launch_file(&args, &is_file), Some(2));
    let none = strings(&["app.exe", "readme.txt"]);
    assert_eq!(find_launch_file(&none, &vec![false, true]), None);
}

#[test]
fn process_file_path_stores_and_returns_markdown() {
    let mut state = LaunchState::new();
    let emitted = process_file_path(&mut state, "doc.markdown".to_string());
    assert_eq!(emitted, Some("doc.markdown".to_string()));
    assert_eq!(state.take(), Some("doc.markdown".to_string()));
}

#[test]
fn process_file_path_ignores_other_files() {
    let mut state = LaunchState::new();
    state.set("kept.md".to_string());
    let emitted = process_file_path(&mut state, "doc.txt".to_string());
    assert_eq!(emitted, None);
    assert_eq!(state.take(), Some("kept.md".to_string()));
}

#[test]
fn process_file_path_overwrites_an_unclaimed_path() {
    // Whichever trigger fires last wins the slot.
    let mut state = LaunchState::new();
    process_file_path(&mut state, "from-scan.md".to_string());
    process_file_path(&mut state, "from-os-event.md".to_string());
    assert_eq!(state.take(), Some("from-os-event.md".to_string()));
}
