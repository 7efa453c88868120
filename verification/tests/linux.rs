use rfd::backend::xdg_desktop_portal::{
    multiple_outcome, open_file_request, save_file_request, single_outcome, str_to_cstring,
    uses_message_dialog, zenity_answer, zenity_multiple, zenity_single, PortalFilter, PortalOutcome,
};
use rfd::backend::linux::zenity::{
    message_args, message_result, pick_file_args, pick_file_result, pick_files_args,
    pick_files_result, pick_folder_args, question_args, question_result, run_outcome,
    save_file_args, ZenityError,
};
use rfd::file_dialog::{FileDialog, Filter};
use rfd::message_dialog::{MessageButtons, MessageDialogResult, MessageLevel};
use std::path::PathBuf;

fn filter(name: &str, exts: &[&str]) -> Filter {
    Filter::new(name.to_string(), exts.iter().map(|e| e.to_string()).collect())
}

fn options() -> FileDialog {
    let mut d = FileDialog::new();
    d.filters = vec![filter("Text", &["txt", "md"]), filter("Empty", &[])];
    d.file_name = Some("notes.txt".to_string());
    d
}

#[test]
fn zenity_file_selection_args() {
    assert_eq!(
        pick_file_args(&options()),
        vec![
            "--file-selection",
            "--file-filter",
            "Text | *.txt *.md",
            "--file-filter",
            "Empty | ",
            "--filename",
            "notes.txt"
        ]
    );
    assert_eq!(pick_files_args(&FileDialog::new()), vec!["--file-selection", "--multiple"]);
    assert_eq!(pick_folder_args(&FileDialog::new()), vec!["--file-selection", "--directory"]);
    assert_eq!(
        save_file_args(&FileDialog::new()),
        vec!["--file-selection", "--save", "--confirm-overwrite"]
    );
}

#[test]
fn zenity_message_args() {
    assert_eq!(
        message_args(&MessageLevel::Warning, &MessageButtons::OkCustom("Got it".to_string()), "hi", "me"),
        vec!["--warning", "--title", "hi", "--text", "me", "--ok-label", "Got it"]
    );
    assert_eq!(
        message_args(&MessageLevel::Info, &MessageButtons::Okay, "hi", "me"),
        vec!["--info", "--title", "hi", "--text", "me"]
    );
}

#[test]
fn zenity_question_args() {
    assert_eq!(
        question_args(&MessageButtons::YesNoCancel, "hi", "me"),
        vec!["--question", "--title", "hi", "--text", "me", "--extra-button", "No", "--cancel-label", "Cancel"]
    );
    assert_eq!(
        question_args(
            &MessageButtons::YesNoCancelCustom("Y".to_string(), "N".to_string(), "C".to_string()),
            "t",
            "d"
        ),
        vec![
            "--question", "--title", "t", "--text", "d", "--ok-label", "Y", "--cancel-label", "C",
            "--extra-button", "N"
        ]
    );
    assert_eq!(question_args(&MessageButtons::YesNo, "t", "d").len(), 5);
}

#[test]
fn zenity_run_outcome() {
    assert_eq!(run_outcome(true, String::new()), Some(String::new()));
    assert_eq!(run_outcome(false, "No\n".to_string()), Some("No\n".to_string()));
    assert_eq!(run_outcome(false, String::new()), None);
}

#[test]
fn zenity_paths_from_output() {
    assert_eq!(pick_file_result(Some("  /home/a.txt\n".to_string())), Some(PathBuf::from("/home/a.txt")));
    assert_eq!(pick_file_result(None), None);
    assert_eq!(
        pick_files_result(Some("/a|/b c|\n".to_string())),
        vec![PathBuf::from("/a"), PathBuf::from("/b c"), PathBuf::from("")]
    );
    assert_eq!(pick_files_result(None), Vec::<PathBuf>::new());
}

#[test]
fn zenity_answers() {
    assert_eq!(message_result(Some(String::new())), MessageDialogResult::Okay);
    assert_eq!(message_result(None), MessageDialogResult::Cancel);
    assert_eq!(question_result(&MessageButtons::YesNo, None), MessageDialogResult::No);
    assert_eq!(question_result(&MessageButtons::YesNoCancel, Some(String::new())), MessageDialogResult::Yes);
    assert_eq!(question_result(&MessageButtons::YesNoCancel, Some("No\n".to_string())), MessageDialogResult::No);
    assert_eq!(question_result(&MessageButtons::YesNoCancel, None), MessageDialogResult::Cancel);
    assert_eq!(
        question_result(&MessageButtons::OkCancelCustom("A".to_string(), "B".to_string()), None),
        MessageDialogResult::Custom("B".to_string())
    );
    assert_eq!(question_result(&MessageButtons::Okay, Some(String::new())), MessageDialogResult::Cancel);
}

#[test]
fn zenity_error_messages() {
    assert_eq!(ZenityError::StdOutNotFound.describe(), "Stdout not found");
    let e: ZenityError = std::io::Error::new(std::io::ErrorKind::NotFound, "no zenity").into();
    assert_eq!(e.describe(), "no zenity");
}

#[test]
fn portal_filters_and_requests() {
    let f = PortalFilter::from(&filter("Any", &["*", "", "png"]));
    assert_eq!(f.name, "Any");
    assert_eq!(f.globs, vec!["*", "*", "*.png"]);
    let mut d = options();
    d.title = Some("Bad\0title".to_string());
    let r = open_file_request(&d, true, false);
    assert_eq!(r.title, "");
    assert!(r.multiple && !r.directory);
    assert_eq!(r.filters.len(), 2);
    assert_eq!(r.filters[0].globs, vec!["*.txt", "*.md"]);
    let s = save_file_request(&d);
    assert_eq!(s.current_name.as_deref(), Some("notes.txt"));
    assert_eq!(str_to_cstring(Some("a\0b")), None);
    assert_eq!(str_to_cstring(Some("ab")), Some("ab".to_string()));
    assert_eq!(str_to_cstring(None), None);
}

#[test]
fn portal_outcomes() {
    assert!(matches!(single_outcome(None), PortalOutcome::UseZenity));
    assert!(matches!(single_outcome(Some(vec![])), PortalOutcome::Answered(None)));
    match single_outcome(Some(vec![PathBuf::from("/1"), PathBuf::from("/2")])) {
        PortalOutcome::Answered(p) => assert_eq!(p, Some(PathBuf::from("/1"))),
        PortalOutcome::UseZenity => panic!("portal answered"),
    }
    assert!(matches!(multiple_outcome(None), PortalOutcome::UseZenity));
    assert_eq!(zenity_single(Err(ZenityError::StdOutNotFound)), None);
    assert_eq!(zenity_single(Ok(Some(PathBuf::from("/z")))), Some(PathBuf::from("/z")));
    assert_eq!(zenity_multiple(Ok(vec![])), Some(vec![]));
    assert_eq!(zenity_multiple(Err(ZenityError::StdOutNotFound)), None);
}

#[test]
fn portal_message_dispatch() {
    assert!(uses_message_dialog(&MessageButtons::Okay));
    assert!(uses_message_dialog(&MessageButtons::OkCustom("x".to_string())));
    assert!(!uses_message_dialog(&MessageButtons::YesNo));
    assert_eq!(zenity_answer(Err(ZenityError::StdOutNotFound)), MessageDialogResult::Cancel);
    assert_eq!(zenity_answer(Ok(MessageDialogResult::Yes)), MessageDialogResult::Yes);
}
