use rfd::backend::gtk3::{
    async_message_result, chosen_file, chosen_files, has_no_nul, Gtk3FileName, GtkFileChooserAction,
    GtkFileDialog, GtkMessageDialog, GTK_BUTTONS_NONE, GTK_BUTTONS_OK_CANCEL, GTK_MESSAGE_ERROR,
    GTK_RESPONSE_ACCEPT, GTK_RESPONSE_CANCEL, GTK_RESPONSE_NO, GTK_RESPONSE_OK, GTK_RESPONSE_YES,
};
use rfd::backend::gtk4::{
    add_filters, alert_dialog_plan, all_paths, build_alert, build_pick_file, build_pick_folders,
    build_save_file, chosen_response, first_path, message_result, path_to_file, run_message_dialog,
    run_pick_file, run_pick_files, set_directory, set_file_name, set_save_name, GioFile,
    Gtk4FileDialog,
};
use rfd::file_dialog::{FileDialog, Filter};
use rfd::message_dialog::{MessageButtons, MessageDialog, MessageDialogResult, MessageLevel};
use std::path::PathBuf;

fn filter(name: &str, exts: &[&str]) -> Filter {
    Filter::new(name.to_string(), exts.iter().map(|e| e.to_string()).collect())
}

fn custom3() -> MessageButtons {
    MessageButtons::YesNoCancelCustom("Y".to_string(), "N".to_string(), "C".to_string())
}

#[test]
fn gtk4_message_result_by_index() {
    assert_eq!(message_result(&MessageButtons::Okay, 0), MessageDialogResult::Okay);
    assert_eq!(message_result(&MessageButtons::Okay, 1), MessageDialogResult::Cancel);
    assert_eq!(message_result(&MessageButtons::OkCancel, 1), MessageDialogResult::Okay);
    assert_eq!(message_result(&MessageButtons::YesNo, 0), MessageDialogResult::No);
    assert_eq!(message_result(&MessageButtons::YesNoCancel, 2), MessageDialogResult::No);
    assert_eq!(message_result(&custom3(), 0), MessageDialogResult::Custom("C".to_string()));
    assert_eq!(message_result(&custom3(), 1), MessageDialogResult::Custom("Y".to_string()));
    assert_eq!(message_result(&custom3(), 7), MessageDialogResult::Cancel);
}

#[test]
fn gtk4_alert_buttons_and_labels_agree() {
    let plan = alert_dialog_plan(&MessageButtons::YesNoCancel);
    assert_eq!(plan.labels, vec!["Cancel", "Yes", "No"]);
    assert_eq!((plan.default_button, plan.cancel_button), (1, 0));
    for (i, label) in plan.labels.iter().enumerate() {
        let r = message_result(&MessageButtons::YesNoCancel, chosen_response(&MessageButtons::YesNoCancel, Some(i as i32)));
        let expected = match label.as_str() {
            "Cancel" => MessageDialogResult::Cancel,
            "Yes" => MessageDialogResult::Yes,
            _ => MessageDialogResult::No,
        };
        assert_eq!(r, expected);
    }
    let single = alert_dialog_plan(&MessageButtons::OkCustom("Fine".to_string()));
    assert_eq!(single.labels, vec!["Fine"]);
    assert_eq!((single.default_button, single.cancel_button), (0, 1));
}

#[test]
fn gtk4_dismissing_cancels() {
    assert_eq!(run_message_dialog(&dialog(MessageButtons::OkCancel), None), MessageDialogResult::Cancel);
    assert_eq!(run_message_dialog(&dialog(MessageButtons::Okay), None), MessageDialogResult::Cancel);
    assert_eq!(run_message_dialog(&dialog(MessageButtons::Okay), Some(5)), MessageDialogResult::Okay);
    assert_eq!(
        run_message_dialog(&dialog(MessageButtons::OkCancelCustom("A".to_string(), "B".to_string())), None),
        MessageDialogResult::Custom("B".to_string())
    );
}

fn dialog(buttons: MessageButtons) -> MessageDialog {
    let mut d = MessageDialog::new();
    d.title = "T".to_string();
    d.description = "D".to_string();
    d.buttons = buttons;
    d
}

#[test]
fn gtk4_build_alert() {
    let a = build_alert(&dialog(MessageButtons::YesNo));
    assert!(a.modal);
    assert_eq!((a.message.as_str(), a.detail.as_str()), ("T", "D"));
    assert_eq!(a.plan.labels, vec!["No", "Yes"]);
}

#[test]
fn gtk4_filters_and_names() {
    let mut d = Gtk4FileDialog::new();
    add_filters(&mut d, &[]);
    assert!(d.filters.is_none());
    add_filters(&mut d, &[filter("Any", &["*", ""]), filter("Text", &["txt", "md"])]);
    let fs = d.filters.as_ref().unwrap();
    assert_eq!(fs[0].name, "Any");
    assert_eq!(fs[0].patterns, vec!["*", "*"]);
    assert_eq!(fs[1].patterns, vec!["*.txt", "*.md"]);
    assert_eq!(d.default_filter, Some(0));

    set_directory(&mut d, Some(&PathBuf::from("/home")));
    assert_eq!(d.initial_folder.as_ref().unwrap().path, Some(PathBuf::from("/home")));
    set_file_name(&mut d, None, Some("n.txt"));
    assert_eq!(d.initial_name.as_deref(), Some("n.txt"));
    set_file_name(&mut d, Some(&PathBuf::from("/home")), Some("m.txt"));
    let f = d.initial_file.as_ref().unwrap();
    assert_eq!((f.folder.clone(), f.name.as_str()), (PathBuf::from("/home"), "m.txt"));

    let mut s = Gtk4FileDialog::new();
    set_save_name(&mut s, Some(&PathBuf::from("/home")), Some("new.txt"), false);
    assert!(s.initial_file.is_none());
    assert_eq!(s.initial_name.as_deref(), Some("new.txt"));
}

#[test]
fn gtk4_builders() {
    let mut o = FileDialog::new();
    o.file_name = Some("a.txt".to_string());
    let d = build_pick_file(&o);
    assert_eq!(d.title, "Open File");
    assert!(d.modal);
    assert_eq!(d.initial_name.as_deref(), Some("a.txt"));
    o.title = Some("Choose".to_string());
    assert_eq!(build_pick_folders(&o).title, "Choose");
    o.starting_directory = Some(PathBuf::from("/docs"));
    let s = build_save_file(&o, true);
    assert_eq!(s.initial_file.as_ref().unwrap().name, "a.txt");
    assert!(s.initial_name.is_none());
}

#[test]
fn gtk4_results() {
    let f = path_to_file(&PathBuf::from("/x"));
    assert_eq!(first_path(f), Some(PathBuf::from("/x")));
    let files = vec![
        GioFile { path: Some(PathBuf::from("/a")) },
        GioFile { path: None },
        GioFile { path: Some(PathBuf::from("/b")) },
    ];
    assert_eq!(all_paths(files), vec![PathBuf::from("/a"), PathBuf::from("/b")]);
    assert_eq!(run_pick_file(None), None);
    assert_eq!(run_pick_file(Some(GioFile { path: None })), None);
    assert_eq!(run_pick_files(Some(vec![])), Some(vec![]));
}

#[test]
fn gtk3_message_dialog_setup() {
    let mut d = dialog(custom3());
    d.level = MessageLevel::Error;
    let g = GtkMessageDialog::new(d);
    assert_eq!(g.message_type, GTK_MESSAGE_ERROR);
    assert_eq!(g.buttons_type, GTK_BUTTONS_NONE);
    assert_eq!(
        g.added_buttons,
        vec![
            ("Y".to_string(), GTK_RESPONSE_YES),
            ("N".to_string(), GTK_RESPONSE_NO),
            ("C".to_string(), GTK_RESPONSE_CANCEL)
        ]
    );
    for (label, id) in g.added_buttons.clone() {
        assert_eq!(g.run(id), MessageDialogResult::Custom(label));
    }
    assert_eq!(g.run(-4), MessageDialogResult::Cancel);
}

#[test]
fn gtk3_standard_responses() {
    let g = GtkMessageDialog::new(dialog(MessageButtons::OkCancel));
    assert_eq!(g.buttons_type, GTK_BUTTONS_OK_CANCEL);
    assert!(g.added_buttons.is_empty());
    assert_eq!(g.run(GTK_RESPONSE_OK), MessageDialogResult::Okay);
    assert_eq!(g.run(GTK_RESPONSE_CANCEL), MessageDialogResult::Cancel);
    assert_eq!(async_message_result(GTK_RESPONSE_YES), MessageDialogResult::Yes);
    assert_eq!(async_message_result(GTK_RESPONSE_NO), MessageDialogResult::No);
}

#[test]
fn gtk3_file_chooser_setup() {
    let mut o = FileDialog::new();
    o.filters = vec![filter("Text", &["txt", "a\0b"]), filter("Bad\0", &["x"])];
    o.file_name = Some("n.txt".to_string());
    let d = GtkFileDialog::build_pick_files(&o);
    assert_eq!(d.title, "Open File");
    assert_eq!(d.action, GtkFileChooserAction::Open);
    assert_eq!(d.action.code(), 0);
    assert_eq!((d.cancel_label.as_str(), d.accept_label.as_str()), ("Cancel", "Open"));
    assert_eq!(d.filters.len(), 1);
    assert_eq!(d.filters[0].patterns, vec!["*.txt"]);
    assert!(d.select_multiple);
    assert!(matches!(&d.file_name, Some(Gtk3FileName::Plain(n)) if n == "n.txt"));

    let f = GtkFileDialog::build_pick_folder(&o);
    assert_eq!(f.action.code(), 2);
    assert!(f.filters.is_empty());

    let s = GtkFileDialog::build_save_file(&o, false);
    assert!(s.confirm_overwrite);
    assert_eq!(s.action, GtkFileChooserAction::Save);
    assert_eq!(s.current_name.as_deref(), Some("n.txt"));
}

#[test]
fn gtk3_results() {
    assert!(has_no_nul("abc"));
    assert!(!has_no_nul("a\0c"));
    assert_eq!(chosen_file(GTK_RESPONSE_ACCEPT, b"/tmp/x"), Some(PathBuf::from("/tmp/x")));
    assert_eq!(chosen_file(GTK_RESPONSE_ACCEPT, b"/tmp/\xff"), None);
    assert_eq!(chosen_file(GTK_RESPONSE_CANCEL, b"/tmp/x"), None);
    assert_eq!(
        chosen_files(GTK_RESPONSE_ACCEPT, vec![b"/a".to_vec(), b"\xfe".to_vec(), b"/b".to_vec()]),
        Some(vec![PathBuf::from("/a"), PathBuf::from("/b")])
    );
}

#[test]
fn gtk3_texts_with_nul_are_skipped() {
    let mut o = FileDialog::new();
    o.file_name = Some("bad\0name".to_string());
    o.starting_directory = Some(PathBuf::from("/home/u"));
    let d = GtkFileDialog::build_save_file(&o, false);
    assert_eq!(d.folder.as_deref(), Some("/home/u"));
    assert_eq!(d.current_name, None);
    let mut p = FileDialog::new();
    p.file_name = Some("bad\0name".to_string());
    assert!(GtkFileDialog::build_pick_file(&p).file_name.is_none());
}

#[test]
fn gtk4_folder_and_save_results() {
    assert_eq!(
        rfd::backend::gtk4::run_pick_folder(Some(GioFile { path: Some(PathBuf::from("/d")) })),
        Some(PathBuf::from("/d"))
    );
    assert_eq!(
        rfd::backend::gtk4::run_pick_folders(Some(vec![GioFile { path: None }, GioFile { path: Some(PathBuf::from("/e")) }])),
        Some(vec![PathBuf::from("/e")])
    );
    assert_eq!(rfd::backend::gtk4::run_pick_folders(None), None);
    assert_eq!(rfd::backend::gtk4::run_save_file(Some(GioFile { path: Some(PathBuf::from("/s.txt")) })), Some(PathBuf::from("/s.txt")));
}

#[test]
fn file_handle_keeps_its_path() {
    let h = rfd::file_dialog::FileHandle::wrap(PathBuf::from("/f"));
    assert_eq!(h.path_buf(), &PathBuf::from("/f"));
}
