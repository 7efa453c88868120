use rfd::backend::macos::{callback_answer, main_thread_route, modal_route, modal_window, MainRoute, ModalRoute};
use rfd::backend::wasm::{pick_route, save_route, PickRoute};
use rfd::backend::macos::{
    dialog_result, received_answer, Alert, Panel, PanelDirectory, UserAlert,
    CF_USER_NOTIFICATION_ALTERNATE_RESPONSE, CF_USER_NOTIFICATION_CANCEL_RESPONSE,
    CF_USER_NOTIFICATION_CAUTION_ALERT_LEVEL, CF_USER_NOTIFICATION_DEFAULT_RESPONSE,
    CF_USER_NOTIFICATION_OTHER_RESPONSE, NS_ALERT_FIRST_BUTTON_RETURN,
    NS_ALERT_SECOND_BUTTON_RETURN, NS_ALERT_STYLE_CRITICAL, NS_ALERT_THIRD_BUTTON_RETURN,
};
use rfd::backend::wasm::{
    get_result, get_results, message_text, show_result, uses_alert, CardChild, FileKind, IoElement, WasmDialog,
};
use rfd::backend::win_cid::{
    wrap_err, IDialog, WinMessageDialog, FOS_ALLOWMULTISELECT, FOS_PICKFOLDERS, IDCANCEL, IDNO,
    IDOK, IDYES, ID_CUSTOM_CANCEL, ID_CUSTOM_NO, ID_CUSTOM_OK, ID_CUSTOM_YES, MB_ICONERROR,
    MB_ICONINFORMATION, MB_ICONWARNING, MB_OK, MB_OKCANCEL, MB_YESNO, MB_YESNOCANCEL,
    TDCBF_CANCEL_BUTTON, TDCBF_NO_BUTTON, TDCBF_YES_BUTTON,
};
use rfd::file_dialog::{FileDialog, Filter};
use rfd::message_dialog::{MessageButtons, MessageDialog, MessageDialogResult, MessageLevel, ParentWindow};
use rfd::backend::macos::{message_route, MessageRoute};
use std::path::PathBuf;

fn filter(name: &str, exts: &[&str]) -> Filter {
    Filter::new(name.to_string(), exts.iter().map(|e| e.to_string()).collect())
}

fn dialog(level: MessageLevel, buttons: MessageButtons) -> MessageDialog {
    let mut d = MessageDialog::new();
    d.title = "Title".to_string();
    d.description = "Text".to_string();
    d.level = level;
    d.buttons = buttons;
    d
}

fn custom3() -> MessageButtons {
    MessageButtons::YesNoCancelCustom("Y".to_string(), "N".to_string(), "C".to_string())
}

#[test]
fn windows_message_box_flags() {
    let d = WinMessageDialog::new(dialog(MessageLevel::Warning, MessageButtons::YesNoCancel));
    assert_eq!(d.flags, MB_ICONWARNING | MB_YESNOCANCEL);
    assert_eq!(d.flags, 0x33);
    assert_eq!((d.text.as_str(), d.caption.as_str()), ("Text", "Title"));
    let d = WinMessageDialog::new(dialog(MessageLevel::Error, MessageButtons::OkCustom("x".to_string())));
    assert_eq!(d.flags, MB_ICONERROR | MB_OK);
    let d = WinMessageDialog::new(dialog(MessageLevel::Info, MessageButtons::OkCancelCustom("a".to_string(), "b".to_string())));
    assert_eq!(d.flags, MB_ICONINFORMATION | MB_OKCANCEL);
    let d = WinMessageDialog::new(dialog(MessageLevel::Info, MessageButtons::YesNo));
    assert_eq!(d.flags, 0x44);
    assert_eq!(d.flags, MB_ICONINFORMATION | MB_YESNO);
}

#[test]
fn windows_message_box_results() {
    let d = WinMessageDialog::new(dialog(MessageLevel::Info, MessageButtons::YesNo));
    assert_eq!(d.message_box_result(IDOK), MessageDialogResult::Okay);
    assert_eq!(d.message_box_result(IDYES), MessageDialogResult::Yes);
    assert_eq!(d.message_box_result(IDNO), MessageDialogResult::No);
    assert_eq!(d.message_box_result(IDCANCEL), MessageDialogResult::Cancel);
    assert_eq!(d.message_box_result(0), MessageDialogResult::Cancel);
}

#[test]
fn windows_task_dialog() {
    let d = WinMessageDialog::new(dialog(MessageLevel::Info, custom3()));
    let (common, custom) = d.task_dialog_buttons();
    assert_eq!(common, 0);
    assert_eq!(
        custom,
        vec![(ID_CUSTOM_YES, "Y".to_string()), (ID_CUSTOM_NO, "N".to_string()), (ID_CUSTOM_CANCEL, "C".to_string())]
    );
    for (id, label) in custom {
        assert_eq!(d.task_dialog_result(0, id), MessageDialogResult::Custom(label));
    }
    assert_eq!(d.task_dialog_result(-1, ID_CUSTOM_YES), MessageDialogResult::Cancel);
    assert_eq!(d.task_dialog_result(0, ID_CUSTOM_OK), MessageDialogResult::Cancel);
    assert_eq!(d.task_dialog_result(0, IDNO), MessageDialogResult::No);
    let s = WinMessageDialog::new(dialog(MessageLevel::Info, MessageButtons::YesNoCancel));
    assert_eq!(s.task_dialog_buttons().0, TDCBF_YES_BUTTON | TDCBF_NO_BUTTON | TDCBF_CANCEL_BUTTON);
    assert_eq!(s.task_dialog_buttons().0, 14);
}

#[test]
fn windows_file_dialog_setup() {
    let mut o = FileDialog::new();
    o.filters = vec![filter("Images", &["png", "jpg"]), filter("None", &[])];
    o.starting_directory = Some(PathBuf::from(r"\\?\C:\Users"));
    o.title = Some("Pick".to_string());
    o.file_name = Some("a.png".to_string());
    let d = IDialog::build_pick_files(&o);
    assert!(!d.save);
    assert_eq!(d.default_extension.as_deref(), Some("png"));
    assert_eq!(
        d.file_types,
        Some(vec![("Images".to_string(), "*.png;*.jpg".to_string()), ("None".to_string(), "".to_string())])
    );
    assert_eq!(d.folder.as_deref(), Some(r"C:\Users"));
    assert_eq!(d.file_name.as_deref(), Some("a.png"));
    assert_eq!(d.title.as_deref(), Some("Pick"));
    assert_eq!(d.options, Some(FOS_ALLOWMULTISELECT));

    let f = IDialog::build_pick_folders(&o);
    assert!(f.file_types.is_none() && f.file_name.is_none());
    assert_eq!(f.options, Some(FOS_PICKFOLDERS | FOS_ALLOWMULTISELECT));
    assert_eq!(f.options, Some(0x220));

    let s = IDialog::build_save_file(&FileDialog::new());
    assert!(s.save && s.file_types.is_none() && s.default_extension.is_none());
    assert_eq!(wrap_err(0), Ok(()));
    assert_eq!(wrap_err(-5), Err(-5));
}

#[test]
fn macos_alert_setup_and_answers() {
    let a = Alert::new(dialog(MessageLevel::Error, MessageButtons::YesNoCancel));
    assert_eq!(a.style, NS_ALERT_STYLE_CRITICAL);
    assert_eq!(a.button_labels, vec!["Yes", "No", "Cancel"]);
    assert_eq!((a.message_text.as_str(), a.informative_text.as_str()), ("Title", "Text"));
    assert_eq!(dialog_result(&a.buttons, NS_ALERT_FIRST_BUTTON_RETURN), MessageDialogResult::Yes);
    assert_eq!(dialog_result(&a.buttons, NS_ALERT_SECOND_BUTTON_RETURN), MessageDialogResult::No);
    assert_eq!(dialog_result(&a.buttons, NS_ALERT_THIRD_BUTTON_RETURN), MessageDialogResult::Cancel);
    assert_eq!(dialog_result(&custom3(), NS_ALERT_THIRD_BUTTON_RETURN), MessageDialogResult::Custom("C".to_string()));
    assert_eq!(dialog_result(&MessageButtons::OkCancel, 1003), MessageDialogResult::Cancel);
}

#[test]
fn macos_user_alert() {
    let u = UserAlert::new(dialog(MessageLevel::Warning, MessageButtons::OkCancel));
    assert_eq!(u.flags, CF_USER_NOTIFICATION_CAUTION_ALERT_LEVEL);
    assert_eq!(u.default_button_title, None);
    assert_eq!(u.alternate_button_title.as_deref(), Some("Cancel"));
    assert_eq!(u.run(0, CF_USER_NOTIFICATION_DEFAULT_RESPONSE), MessageDialogResult::Okay);
    assert_eq!(u.run(0, CF_USER_NOTIFICATION_ALTERNATE_RESPONSE), MessageDialogResult::Cancel);
    assert_eq!(u.run(1, CF_USER_NOTIFICATION_DEFAULT_RESPONSE), MessageDialogResult::Cancel);
    let c = UserAlert::new(dialog(MessageLevel::Info, custom3()));
    assert_eq!(c.run(0, CF_USER_NOTIFICATION_OTHER_RESPONSE), MessageDialogResult::Custom("C".to_string()));
    assert_eq!(c.run(0, CF_USER_NOTIFICATION_CANCEL_RESPONSE), MessageDialogResult::Cancel);
    assert_eq!(received_answer(None), MessageDialogResult::Cancel);
}

#[test]
fn macos_panels() {
    let mut o = FileDialog::new();
    o.filters = vec![filter("A", &["a", "b"]), filter("C", &["c"])];
    o.starting_directory = Some(PathBuf::from("/docs"));
    o.file_name = Some("x.a".to_string());
    let p = Panel::build_pick_file(&o, true);
    assert_eq!(p.allowed_extensions, Some(vec!["a".to_string(), "b".to_string(), "c".to_string()]));
    assert!(matches!(&p.directory, Some(PanelDirectory::InFolder(f)) if f.name == "x.a"));
    assert_eq!(p.name_field.as_deref(), Some("x.a"));
    assert_eq!((p.can_choose_files, p.can_choose_directories), (Some(true), Some(false)));

    let f = Panel::build_pick_folder(&o, false);
    assert!(matches!(&f.directory, Some(PanelDirectory::Path(p)) if *p == PathBuf::from("/docs")));
    assert_eq!(f.can_create_directories, Some(true));
    assert!(f.allowed_extensions.is_none());

    let s = Panel::build_save_file(&o, true);
    let chooser = s.format_chooser.as_ref().unwrap();
    assert_eq!(chooser.label, "Format:");
    assert_eq!(chooser.names, vec!["A", "C"]);
    assert_eq!(s.allowed_extensions, Some(vec!["a".to_string(), "b".to_string()]));
    o.filters.pop();
    let one = Panel::build_save_file(&o, true);
    assert!(one.format_chooser.is_none());
    assert_eq!(one.allowed_extensions, Some(vec!["a".to_string(), "b".to_string()]));
}

#[test]
fn wasm_overlay() {
    let mut o = FileDialog::new();
    o.filters = vec![filter("A", &["png", "jpg"]), filter("B", &["txt"])];
    o.title = Some("Upload".to_string());
    let d = WasmDialog::new(&FileKind::In(o));
    assert_eq!((d.overlay_id.as_str(), d.card_id.as_str()), ("rfd-overlay", "rfd-card"));
    let t = d.title.as_ref().unwrap();
    assert_eq!((t.id.as_str(), t.inner_html.as_str()), ("rfd-title", "Upload"));
    assert!(matches!(&d.io, IoElement::Input { id, input_type, accept }
        if id == "rfd-input" && input_type == "file" && accept == ".png,.jpg,.txt"));
    assert_eq!((d.ok_label.as_str(), d.cancel_label.as_str()), ("Ok", "Cancel"));
    assert_eq!(d.button_class, "rfd-button");
    assert_eq!(d.children, vec![CardChild::Title, CardChild::Io, CardChild::OkButton, CardChild::CancelButton]);
    let out = WasmDialog::new(&FileKind::OutLate(FileDialog::new(), vec![1, 2]));
    assert!(out.title.is_none());
    assert_eq!(out.children, vec![CardChild::Io, CardChild::OkButton, CardChild::CancelButton]);
    assert!(matches!(&out.io, IoElement::Output { id, text, name, data } if id == "rfd-output" && text == "click here to download your file" && name.is_empty() && *data == vec![1, 2]));
}

#[test]
fn wasm_results_and_messages() {
    assert_eq!(get_results::<u8>(Some(vec![])), None);
    assert_eq!(get_results(Some(vec![1, 2])), Some(vec![1, 2]));
    assert_eq!(get_result(Some(vec![1, 2])), Some(2));
    assert_eq!(get_result::<u8>(None), None);
    assert_eq!(message_text("T", "D"), "T\nD");
    assert!(uses_alert(&MessageButtons::Okay));
    assert_eq!(show_result(&MessageButtons::Okay, false), MessageDialogResult::Okay);
    assert_eq!(show_result(&MessageButtons::YesNo, false), MessageDialogResult::Cancel);
    assert_eq!(show_result(&MessageButtons::YesNo, true), MessageDialogResult::Okay);
}

#[test]
fn windows_namespace_prefix() {
    assert_eq!(rfd::backend::win_cid::strip_namespace(r"\\?\D:\data"), r"D:\data");
    assert_eq!(rfd::backend::win_cid::strip_namespace(r"D:\data"), r"D:\data");
    assert_eq!(rfd::backend::win_cid::strip_namespace(r"\\server\share"), r"\\server\share");
}

#[test]
fn macos_routes() {
    assert_eq!(modal_window(None, Some(2), Some(3)), Some(2));
    assert_eq!(modal_window(Some(1), Some(2), Some(3)), Some(1));
    assert_eq!(modal_window::<u8>(None, None, None), None);
    assert_eq!(modal_route(true, true, false), ModalRoute::Sheet);
    assert_eq!(modal_route(true, false, true), ModalRoute::RunModal);
    assert_eq!(callback_answer(None, 7), 7);
    assert_eq!(callback_answer(Some(3), 7), 3);
    assert_eq!(main_thread_route(true, false), MainRoute::Here);
    assert_eq!(main_thread_route(false, true), MainRoute::Dispatch);
}

#[test]
fn wasm_routes() {
    assert_eq!(pick_route(true, true), PickRoute::NativePicker);
    assert_eq!(pick_route(true, false), PickRoute::Overlay);
    assert_eq!(pick_route(false, true), PickRoute::Overlay);
    assert_eq!(save_route(true, true), PickRoute::NativePicker);
    assert_eq!(save_route(true, false), PickRoute::Overlay);
}

#[test]
fn windows_style_decodes() {
    for level in [MessageLevel::Info, MessageLevel::Warning, MessageLevel::Error] {
        let d = WinMessageDialog::new(dialog(level, MessageButtons::YesNoCancel));
        assert_eq!(d.flags & 0xF, MB_YESNOCANCEL);
    }
    let d = WinMessageDialog::new(dialog(MessageLevel::Error, MessageButtons::OkCancel));
    assert_eq!(d.flags & 0xF0, MB_ICONERROR);
}

#[test]
fn macos_file_or_folder_panels() {
    let mut o = FileDialog::new();
    o.filters = vec![filter("A", &["a"])];
    o.can_create_directories = Some(false);
    let p = Panel::build_pick_file_or_folder(&o, false);
    assert_eq!((p.can_choose_files, p.can_choose_directories, p.allows_multiple_selection), (Some(true), Some(true), Some(false)));
    assert_eq!(p.can_create_directories, Some(false));
    assert_eq!(p.allowed_extensions, Some(vec!["a".to_string()]));
    let q = Panel::build_pick_files_or_folders(&FileDialog::new(), false);
    assert_eq!(q.allows_multiple_selection, Some(true));
    assert_eq!(q.can_create_directories, Some(true));
    assert!(q.allowed_extensions.is_none());
}

#[test]
fn windows_wide_strings() {
    let units: Vec<u16> = "AB\u{e9}".encode_utf16().chain([0u16, 67]).collect();
    assert_eq!(rfd::backend::win_cid::read_to_string(&units), Some("AB\u{e9}".to_string()));
    assert_eq!(rfd::backend::win_cid::read_to_string(&[0xD800, 0]), None);
    assert_eq!(rfd::backend::win_cid::read_to_string(&[]), Some(String::new()));
    assert_eq!(rfd::backend::win_cid::read_to_string(&[72, 105]), Some("Hi".to_string()));
}

#[test]
fn windows_parents() {
    let mut d = dialog(MessageLevel::Info, MessageButtons::Okay);
    assert_eq!(WinMessageDialog::new(dialog(MessageLevel::Info, MessageButtons::Okay)).parent, None);
    d.parent = Some(ParentWindow::Win32(42));
    assert_eq!(WinMessageDialog::new(d).parent, Some(42));
    let mut o = FileDialog::new();
    o.parent = Some(ParentWindow::Win32(7));
    assert_eq!(IDialog::build_save_file(&o).parent, Some(7));
    assert_eq!(IDialog::new_open_dialog(&o).parent, Some(7));
    assert!(!IDialog::new_open_dialog(&o).save);
}

#[test]
fn macos_parents_and_routes() {
    let mut d = dialog(MessageLevel::Info, MessageButtons::Okay);
    assert_eq!(message_route(&d), MessageRoute::Notification);
    d.parent = Some(ParentWindow::AppKit(0x1000));
    assert_eq!(message_route(&d), MessageRoute::Alert);
    assert_eq!(Alert::new(d).parent_view, Some(0x1000));
    let mut o = FileDialog::new();
    o.parent = Some(ParentWindow::AppKit(5));
    assert_eq!(Panel::build_pick_folder(&o, false).parent_view, Some(5));
}
