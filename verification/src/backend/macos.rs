//! macOS backend: how alerts and panels are set up, and how their answers are read.
use crate::backend::gtk4::InitialFile;
use crate::file_dialog::{copy_strings, strings_view};
use crate::backend::web_fallback::or_default;
use crate::file_dialog::{filters_view, FileDialog, Filter, FilterView};
use crate::message_dialog::{
    ParentWindow, copy_buttons, ButtonsView, MessageButtons, MessageDialog, MessageDialogResult, MessageLevel,
    ResultView,
};
use std::path::PathBuf;
use vstd::prelude::*;

verus! {

/// What `runModal` returns for the alert's first button.
pub const NS_ALERT_FIRST_BUTTON_RETURN: isize = 1000;

/// What `runModal` returns for the alert's second button.
pub const NS_ALERT_SECOND_BUTTON_RETURN: isize = 1001;

/// What `runModal` returns for the alert's third button.
pub const NS_ALERT_THIRD_BUTTON_RETURN: isize = 1002;

/// The alert style of a warning.
pub const NS_ALERT_STYLE_WARNING: usize = 0;

/// The alert style of information.
pub const NS_ALERT_STYLE_INFORMATIONAL: usize = 1;

/// The alert style of an error.
pub const NS_ALERT_STYLE_CRITICAL: usize = 2;

/// The user notification's level of an error.
pub const CF_USER_NOTIFICATION_STOP_ALERT_LEVEL: usize = 0;

/// The user notification's level of information.
pub const CF_USER_NOTIFICATION_NOTE_ALERT_LEVEL: usize = 1;

/// The user notification's level of a warning.
pub const CF_USER_NOTIFICATION_CAUTION_ALERT_LEVEL: usize = 2;

/// The user notification's answer for its default button.
pub const CF_USER_NOTIFICATION_DEFAULT_RESPONSE: usize = 0;

/// The user notification's answer for its alternate button.
pub const CF_USER_NOTIFICATION_ALTERNATE_RESPONSE: usize = 1;

/// The user notification's answer for its other button.
pub const CF_USER_NOTIFICATION_OTHER_RESPONSE: usize = 2;

/// The user notification's answer when it was cancelled.
pub const CF_USER_NOTIFICATION_CANCEL_RESPONSE: usize = 3;

// ----------------------------------------------------------------------------
// Alerts
// ----------------------------------------------------------------------------

/// The alert style for a level.
pub open spec fn alert_style(level: MessageLevel) -> usize {
    match level {
        MessageLevel::Info => NS_ALERT_STYLE_INFORMATIONAL,
        MessageLevel::Warning => NS_ALERT_STYLE_WARNING,
        MessageLevel::Error => NS_ALERT_STYLE_CRITICAL,
    }
}

/// The labels of the alert's buttons, first button first.
pub open spec fn alert_button_labels(b: ButtonsView) -> Seq<Seq<char>> {
    match b {
        ButtonsView::Okay => seq!["OK"@],
        ButtonsView::OkCancel => seq!["OK"@, "Cancel"@],
        ButtonsView::YesNo => seq!["Yes"@, "No"@],
        ButtonsView::YesNoCancel => seq!["Yes"@, "No"@, "Cancel"@],
        ButtonsView::OkCustom(ok) => seq![ok],
        ButtonsView::OkCancelCustom(ok, cancel) => seq![ok, cancel],
        ButtonsView::YesNoCancelCustom(yes, no, cancel) => seq![yes, no, cancel],
    }
}

/// An alert as set up: its style, its buttons' labels, its message and its informative
/// text.
pub struct Alert {
    /// The address of the parent's view, when the alert is a sheet of a window.
    pub parent_view: Option<usize>,
    pub buttons: MessageButtons,
    pub style: usize,
    pub button_labels: Vec<String>,
    pub message_text: String,
    pub informative_text: String,
}

/// The answer of an alert for what `runModal` returned.
pub open spec fn alert_answer(b: ButtonsView, ret: isize) -> ResultView {
    let first = ret == NS_ALERT_FIRST_BUTTON_RETURN;
    let second = ret == NS_ALERT_SECOND_BUTTON_RETURN;
    let third = ret == NS_ALERT_THIRD_BUTTON_RETURN;
    match b {
        ButtonsView::Okay => if first {
            ResultView::Okay
        } else {
            ResultView::Cancel
        },
        ButtonsView::OkCancel => if first {
            ResultView::Okay
        } else {
            ResultView::Cancel
        },
        ButtonsView::YesNo => if first {
            ResultView::Yes
        } else if second {
            ResultView::No
        } else {
            ResultView::Cancel
        },
        ButtonsView::YesNoCancel => if first {
            ResultView::Yes
        } else if second {
            ResultView::No
        } else {
            ResultView::Cancel
        },
        ButtonsView::OkCustom(ok) => if first {
            ResultView::Custom(ok)
        } else {
            ResultView::Cancel
        },
        ButtonsView::OkCancelCustom(ok, cancel) => if first {
            ResultView::Custom(ok)
        } else if second {
            ResultView::Custom(cancel)
        } else {
            ResultView::Cancel
        },
        ButtonsView::YesNoCancelCustom(yes, no, cancel) => if first {
            ResultView::Custom(yes)
        } else if second {
            ResultView::Custom(no)
        } else if third {
            ResultView::Custom(cancel)
        } else {
            ResultView::Cancel
        },
    }
}

/// The parent is an AppKit view or there is none; dialogs cannot be attached to any
/// other kind of window.
pub open spec fn appkit_parent_ok(p: Option<ParentWindow>) -> bool {
    match p {
        Some(ParentWindow::AppKit(_)) => true,
        Some(_) => false,
        None => true,
    }
}

/// The view address of an AppKit parent.
pub open spec fn appkit_view(p: Option<ParentWindow>) -> Option<usize> {
    match p {
        Some(ParentWindow::AppKit(v)) => Some(v),
        _ => None,
    }
}

fn view_of(p: &Option<ParentWindow>) -> (r: Option<usize>)
    requires
        appkit_parent_ok(*p),
    ensures
        r == appkit_view(*p),
{
    match p {
        Some(ParentWindow::AppKit(v)) => Some(*v),
        _ => None,
    }
}

/// How a message dialog is shown on macOS: as a user notification when it has no parent,
/// else as an alert on its parent window.
#[derive(Clone, Copy, Debug, PartialEq, Eq)]
pub enum MessageRoute {
    Notification,
    Alert,
}

/// How a message dialog is shown: a notification without a parent, an alert with one.
pub fn message_route(dialog: &MessageDialog) -> (r: MessageRoute)
    ensures
        r == if dialog.parent is None {
            MessageRoute::Notification
        } else {
            MessageRoute::Alert
        },
{
    match dialog.parent {
        None => MessageRoute::Notification,
        Some(_) => MessageRoute::Alert,
    }
}

impl Alert {
    /// Sets the alert up for the options; a parent must be an AppKit view.
    pub fn new(opt: MessageDialog) -> (a: Alert)
        requires
            appkit_parent_ok(opt.parent),
        ensures
            a.parent_view == appkit_view(opt.parent),
            a.buttons@ == opt.buttons@,
            a.style == alert_style(opt.level),
            strings_view(a.button_labels@) == alert_button_labels(opt.buttons@),
            a.message_text@ == opt.title@,
            a.informative_text@ == opt.description@,
    {
        let style = match opt.level {
            MessageLevel::Info => NS_ALERT_STYLE_INFORMATIONAL,
            MessageLevel::Warning => NS_ALERT_STYLE_WARNING,
            MessageLevel::Error => NS_ALERT_STYLE_CRITICAL,
        };
        let mut labels: Vec<String> = Vec::new();
        match &opt.buttons {
            MessageButtons::Okay => {
                labels.push("OK".to_string());
            },
            MessageButtons::OkCancel => {
                labels.push("OK".to_string());
                labels.push("Cancel".to_string());
            },
            MessageButtons::YesNo => {
                labels.push("Yes".to_string());
                labels.push("No".to_string());
            },
            MessageButtons::YesNoCancel => {
                labels.push("Yes".to_string());
                labels.push("No".to_string());
                labels.push("Cancel".to_string());
            },
            MessageButtons::OkCustom(ok) => {
                labels.push(ok.clone());
            },
            MessageButtons::OkCancelCustom(ok, cancel) => {
                labels.push(ok.clone());
                labels.push(cancel.clone());
            },
            MessageButtons::YesNoCancelCustom(yes, no, cancel) => {
                labels.push(yes.clone());
                labels.push(no.clone());
                labels.push(cancel.clone());
            },
        }
        proof {
            assert(strings_view(labels@) =~= alert_button_labels(opt.buttons@));
        }
        Alert {
            parent_view: view_of(&opt.parent),
            buttons: copy_buttons(&opt.buttons),
            style,
            button_labels: labels,
            message_text: opt.title,
            informative_text: opt.description,
        }
    }
}

/// The answer of an alert for what `runModal` returned.
pub fn dialog_result(buttons: &MessageButtons, ret: isize) -> (r: MessageDialogResult)
    ensures
        r@ == alert_answer(buttons@, ret),
{
    let first = ret == NS_ALERT_FIRST_BUTTON_RETURN;
    let second = ret == NS_ALERT_SECOND_BUTTON_RETURN;
    let third = ret == NS_ALERT_THIRD_BUTTON_RETURN;
    match buttons {
        MessageButtons::Okay | MessageButtons::OkCancel => if first {
            MessageDialogResult::Okay
        } else {
            MessageDialogResult::Cancel
        },
        MessageButtons::YesNo | MessageButtons::YesNoCancel => if first {
            MessageDialogResult::Yes
        } else if second {
            MessageDialogResult::No
        } else {
            MessageDialogResult::Cancel
        },
        MessageButtons::OkCustom(ok) => if first {
            MessageDialogResult::Custom(ok.clone())
        } else {
            MessageDialogResult::Cancel
        },
        MessageButtons::OkCancelCustom(ok, cancel) => if first {
            MessageDialogResult::Custom(ok.clone())
        } else if second {
            MessageDialogResult::Custom(cancel.clone())
        } else {
            MessageDialogResult::Cancel
        },
        MessageButtons::YesNoCancelCustom(yes, no, cancel) => if first {
            MessageDialogResult::Custom(yes.clone())
        } else if second {
            MessageDialogResult::Custom(no.clone())
        } else if third {
            MessageDialogResult::Custom(cancel.clone())
        } else {
            MessageDialogResult::Cancel
        },
    }
}

/// The meaning of a button's label among the buttons: the label itself for custom
/// buttons, the standard answer for standard ones.
pub open spec fn meaning_of_label(b: ButtonsView, label: Seq<char>) -> ResultView {
    match b {
        ButtonsView::OkCustom(_) | ButtonsView::OkCancelCustom(_, _) | ButtonsView::YesNoCancelCustom(
            _,
            _,
            _,
        ) => ResultView::Custom(label),
        _ => if label == "OK"@ {
            ResultView::Okay
        } else if label == "Cancel"@ {
            ResultView::Cancel
        } else if label == "Yes"@ {
            ResultView::Yes
        } else {
            ResultView::No
        },
    }
}

/// Pressing the alert's button at index `i` answers what that button's label stands
/// for.
pub proof fn law_alert_button_answers_its_label(b: ButtonsView, i: int)
    requires
        0 <= i < alert_button_labels(b).len(),
    ensures
        alert_answer(b, (NS_ALERT_FIRST_BUTTON_RETURN + i) as isize) == meaning_of_label(
            b,
            alert_button_labels(b)[i],
        ),
{
    reveal_strlit("OK");
    reveal_strlit("Cancel");
    reveal_strlit("Yes");
    reveal_strlit("No");
    assert("OK"@.len() == 2 && "OK"@[0] == 'O');
    assert("Cancel"@.len() == 6);
    assert("Yes"@.len() == 3);
    assert("No"@.len() == 2 && "No"@[0] == 'N');
}

// ----------------------------------------------------------------------------
// User notification alerts (shown without a parent window)
// ----------------------------------------------------------------------------

/// The user notification's level for a message level.
pub open spec fn notification_level(level: MessageLevel) -> usize {
    match level {
        MessageLevel::Info => CF_USER_NOTIFICATION_NOTE_ALERT_LEVEL,
        MessageLevel::Warning => CF_USER_NOTIFICATION_CAUTION_ALERT_LEVEL,
        MessageLevel::Error => CF_USER_NOTIFICATION_STOP_ALERT_LEVEL,
    }
}

/// The titles of the notification's default, alternate and other buttons; a missing
/// default title shows the system's OK.
pub open spec fn notification_titles(b: ButtonsView) -> (Option<Seq<char>>, Option<Seq<char>>, Option<Seq<char>>) {
    match b {
        ButtonsView::Okay => (None, None, None),
        ButtonsView::OkCancel => (None, Some("Cancel"@), None),
        ButtonsView::YesNo => (Some("Yes"@), Some("No"@), None),
        ButtonsView::YesNoCancel => (Some("Yes"@), Some("No"@), Some("Cancel"@)),
        ButtonsView::OkCustom(ok) => (Some(ok), None, None),
        ButtonsView::OkCancelCustom(ok, cancel) => (Some(ok), Some(cancel), None),
        ButtonsView::YesNoCancelCustom(yes, no, cancel) => (Some(yes), Some(no), Some(cancel)),
    }
}

/// An optional title's view.
pub open spec fn title_view(t: Option<String>) -> Option<Seq<char>> {
    match t {
        Some(s) => Some(s@),
        None => None,
    }
}

/// A user notification alert as set up.
pub struct UserAlert {
    pub flags: usize,
    pub alert_header: String,
    pub alert_message: String,
    pub default_button_title: Option<String>,
    pub alternate_button_title: Option<String>,
    pub other_button_title: Option<String>,
    pub buttons: MessageButtons,
}

/// The answer of a user notification: `Cancel` when showing it failed (`is_cancel` not
/// zero) or it was cancelled; else the answer of the button it reports.
pub open spec fn notification_answer(b: ButtonsView, is_cancel: i32, response: usize) -> ResultView {
    let default = response == CF_USER_NOTIFICATION_DEFAULT_RESPONSE;
    let alternate = response == CF_USER_NOTIFICATION_ALTERNATE_RESPONSE;
    let other = response == CF_USER_NOTIFICATION_OTHER_RESPONSE;
    if is_cancel != 0 || response == CF_USER_NOTIFICATION_CANCEL_RESPONSE {
        ResultView::Cancel
    } else {
        match b {
            ButtonsView::Okay | ButtonsView::OkCancel => if default {
                ResultView::Okay
            } else {
                ResultView::Cancel
            },
            ButtonsView::YesNo | ButtonsView::YesNoCancel => if default {
                ResultView::Yes
            } else if alternate {
                ResultView::No
            } else {
                ResultView::Cancel
            },
            ButtonsView::OkCustom(ok) => if default {
                ResultView::Custom(ok)
            } else {
                ResultView::Cancel
            },
            ButtonsView::OkCancelCustom(ok, cancel) => if default {
                ResultView::Custom(ok)
            } else if alternate {
                ResultView::Custom(cancel)
            } else {
                ResultView::Cancel
            },
            ButtonsView::YesNoCancelCustom(yes, no, cancel) => if default {
                ResultView::Custom(yes)
            } else if alternate {
                ResultView::Custom(no)
            } else if other {
                ResultView::Custom(cancel)
            } else {
                ResultView::Cancel
            },
        }
    }
}

fn some_text(s: &str) -> (r: Option<String>)
    ensures
        title_view(r) == Some(s@),
{
    Some(s.to_string())
}

impl UserAlert {
    /// Sets the notification up for the options.
    pub fn new(opt: MessageDialog) -> (a: UserAlert)
        ensures
            a.flags == notification_level(opt.level),
            a.alert_header@ == opt.title@,
            a.alert_message@ == opt.description@,
            (title_view(a.default_button_title), title_view(a.alternate_button_title), title_view(
                a.other_button_title,
            )) == notification_titles(opt.buttons@),
            a.buttons@ == opt.buttons@,
    {
        let (d, al, o) = match &opt.buttons {
            MessageButtons::Okay => (None, None, None),
            MessageButtons::OkCancel => (None, some_text("Cancel"), None),
            MessageButtons::YesNo => (some_text("Yes"), some_text("No"), None),
            MessageButtons::YesNoCancel => (some_text("Yes"), some_text("No"), some_text("Cancel")),
            MessageButtons::OkCustom(ok) => (Some(ok.clone()), None, None),
            MessageButtons::OkCancelCustom(ok, cancel) => (Some(ok.clone()), Some(cancel.clone()), None),
            MessageButtons::YesNoCancelCustom(yes, no, cancel) => (
                Some(yes.clone()),
                Some(no.clone()),
                Some(cancel.clone()),
            ),
        };
        let flags = match opt.level {
            MessageLevel::Info => CF_USER_NOTIFICATION_NOTE_ALERT_LEVEL,
            MessageLevel::Warning => CF_USER_NOTIFICATION_CAUTION_ALERT_LEVEL,
            MessageLevel::Error => CF_USER_NOTIFICATION_STOP_ALERT_LEVEL,
        };
        UserAlert {
            flags,
            alert_header: opt.title,
            alert_message: opt.description,
            default_button_title: d,
            alternate_button_title: al,
            other_button_title: o,
            buttons: opt.buttons,
        }
    }

    /// The answer, from what showing the notification returned and the response it
    /// reported.
    pub fn run(&self, is_cancel: i32, response: usize) -> (r: MessageDialogResult)
        ensures
            r@ == notification_answer(self.buttons@, is_cancel, response),
    {
        if is_cancel != 0 || response == CF_USER_NOTIFICATION_CANCEL_RESPONSE {
            return MessageDialogResult::Cancel;
        }
        let default = response == CF_USER_NOTIFICATION_DEFAULT_RESPONSE;
        let alternate = response == CF_USER_NOTIFICATION_ALTERNATE_RESPONSE;
        let other = response == CF_USER_NOTIFICATION_OTHER_RESPONSE;
        match &self.buttons {
            MessageButtons::Okay | MessageButtons::OkCancel => if default {
                MessageDialogResult::Okay
            } else {
                MessageDialogResult::Cancel
            },
            MessageButtons::YesNo | MessageButtons::YesNoCancel => if default {
                MessageDialogResult::Yes
            } else if alternate {
                MessageDialogResult::No
            } else {
                MessageDialogResult::Cancel
            },
            MessageButtons::OkCustom(ok) => if default {
                MessageDialogResult::Custom(ok.clone())
            } else {
                MessageDialogResult::Cancel
            },
            MessageButtons::OkCancelCustom(ok, cancel) => if default {
                MessageDialogResult::Custom(ok.clone())
            } else if alternate {
                MessageDialogResult::Custom(cancel.clone())
            } else {
                MessageDialogResult::Cancel
            },
            MessageButtons::YesNoCancelCustom(yes, no, cancel) => if default {
                MessageDialogResult::Custom(yes.clone())
            } else if alternate {
                MessageDialogResult::Custom(no.clone())
            } else if other {
                MessageDialogResult::Custom(cancel.clone())
            } else {
                MessageDialogResult::Cancel
            },
        }
    }
}

/// The answer of a notification shown on another thread: its answer, or `Cancel` when
/// the answer was lost.
pub fn received_answer(res: Option<MessageDialogResult>) -> (r: MessageDialogResult)
    ensures
        match res {
            Some(a) => r == a,
            None => r@ == ResultView::Cancel,
        },
{
    match res {
        Some(a) => a,
        None => MessageDialogResult::Cancel,
    }
}

// ----------------------------------------------------------------------------
// Panels
// ----------------------------------------------------------------------------

/// The directory a panel shows at first: a path, or the entry `name` inside a folder
/// (when a file name was given and the path is a folder).
pub enum PanelDirectory {
    Path(PathBuf),
    InFolder(InitialFile),
}

/// The format chooser a save panel shows for several filters: its label, the filters'
/// names and each filter's extensions.
pub struct FormatChooser {
    pub label: String,
    pub names: Vec<String>,
    pub extensions: Vec<Vec<String>>,
}

/// An open or save panel as set up.
pub struct Panel {
    pub save: bool,
    /// The address of the parent's view, when the panel is a sheet of a window.
    pub parent_view: Option<usize>,
    /// The extensions whose types the panel allows, once restricted.
    pub allowed_extensions: Option<Vec<String>>,
    pub format_chooser: Option<FormatChooser>,
    pub directory: Option<PanelDirectory>,
    pub name_field: Option<String>,
    pub message: Option<String>,
    pub can_create_directories: Option<bool>,
    pub shows_hidden_files: Option<bool>,
    pub can_choose_directories: Option<bool>,
    pub can_choose_files: Option<bool>,
    pub allows_multiple_selection: Option<bool>,
}

/// All the extensions of the filters, filter after filter.
pub open spec fn all_extensions(fs: Seq<FilterView>) -> Seq<Seq<char>>
    decreases fs.len(),
{
    if fs.len() == 0 {
        Seq::empty()
    } else {
        all_extensions(fs.drop_last()) + fs.last().extensions
    }
}

/// The directory shown for a starting directory and file name: the named entry inside
/// it when it is a folder (`is_dir`), else the directory itself.
pub open spec fn directory_for(dir: Option<PathBuf>, name: Option<String>, is_dir: bool) -> Option<PanelDirectory> {
    match dir {
        Some(p) => Some(if name is Some && is_dir {
            PanelDirectory::InFolder(InitialFile { folder: p, name: name->0 })
        } else {
            PanelDirectory::Path(p)
        }),
        None => None,
    }
}

fn extensions_of(filters: &[Filter]) -> (r: Vec<String>)
    ensures
        strings_view(r@) == all_extensions(filters_view(filters@)),
{
    let mut r: Vec<String> = Vec::new();
    let mut i: usize = 0;
    while i < filters.len()
        invariant
            0 <= i <= filters@.len(),
            strings_view(r@) == all_extensions(filters_view(filters@).take(i as int)),
        decreases filters@.len() - i,
    {
        let ghost before = r@;
        let mut j: usize = 0;
        while j < filters[i].extensions.len()
            invariant
                0 <= i < filters@.len(),
                0 <= j <= filters@[i as int].extensions@.len(),
                r@.len() == before.len() + j,
                strings_view(r@) == strings_view(before) + strings_view(filters@[i as int].extensions@.take(j as int)),
            decreases filters@[i as int].extensions@.len() - j,
        {
            let ghost prev = r@;
            r.push(filters[i].extensions[j].clone());
            proof {
                assert(strings_view(r@) =~= strings_view(prev).push(filters@[i as int].extensions@[j as int]@));
                assert(strings_view(r@) =~= strings_view(before) + strings_view(filters@[i as int].extensions@.take(j + 1)));
            }
            j = j + 1;
        }
        proof {
            assert(filters@[i as int].extensions@.take(j as int) =~= filters@[i as int].extensions@);
            assert(filters_view(filters@)[i as int] == filters@[i as int]@);
            assert(filters_view(filters@).take(i + 1).drop_last() =~= filters_view(filters@).take(i as int));
            assert(strings_view(r@) =~= all_extensions(filters_view(filters@).take(i + 1)));
        }
        i = i + 1;
    }
    proof {
        assert(filters_view(filters@).take(i as int) =~= filters_view(filters@));
    }
    r
}

fn copy_text(o: &Option<String>) -> (r: Option<String>)
    ensures
        title_view(r) == title_view(*o),
{
    match o {
        Some(s) => Some(s.clone()),
        None => None,
    }
}

/// What every panel built for the options shows: the directory, the options' file name
/// in the name field (`named`), their title as the message, and whether hidden files are
/// shown.
pub open spec fn shows_panel_options(p: Panel, opt: FileDialog, is_dir: bool, named: bool) -> bool {
    &&& p.directory == directory_for(opt.starting_directory, opt.file_name, is_dir)
    &&& title_view(p.name_field) == if named {
        title_view(opt.file_name)
    } else {
        None
    }
    &&& title_view(p.message) == title_view(opt.title)
    &&& p.shows_hidden_files == opt.show_hidden_files
    &&& p.parent_view == appkit_view(opt.parent)
}

fn panel_for(opt: &FileDialog, save: bool, is_dir: bool, named: bool) -> (p: Panel)
    requires
        appkit_parent_ok(opt.parent),
    ensures
        p.save == save,
        shows_panel_options(p, *opt, is_dir, named),
        p.allowed_extensions is None,
        p.format_chooser is None,
        p.can_create_directories == opt.can_create_directories,
        p.can_choose_directories is None,
        p.can_choose_files is None,
        p.allows_multiple_selection is None,
{
    let directory = match &opt.starting_directory {
        Some(d) => Some(match &opt.file_name {
            Some(n) => if is_dir {
                PanelDirectory::InFolder(InitialFile { folder: d.clone(), name: n.clone() })
            } else {
                PanelDirectory::Path(d.clone())
            },
            None => PanelDirectory::Path(d.clone()),
        }),
        None => None,
    };
    Panel {
        save,
        parent_view: view_of(&opt.parent),
        allowed_extensions: None,
        format_chooser: None,
        directory,
        name_field: if named {
            copy_text(&opt.file_name)
        } else {
            None
        },
        message: copy_text(&opt.title),
        can_create_directories: opt.can_create_directories,
        shows_hidden_files: opt.show_hidden_files,
        can_choose_directories: None,
        can_choose_files: None,
        allows_multiple_selection: None,
    }
}

/// The extensions an open panel allows: all the filters' extensions, once there are
/// filters.
pub open spec fn allows_filters(p: Panel, opt: FileDialog) -> bool {
    if opt.filters@.len() > 0 {
        p.allowed_extensions matches Some(v) && strings_view(v@) == all_extensions(filters_view(opt.filters@))
    } else {
        p.allowed_extensions is None
    }
}

fn open_panel(
    opt: &FileDialog,
    filtered: bool,
    is_dir: bool,
    files: bool,
    directories: bool,
    multiple: Option<bool>,
    create_default: bool,
) -> (p: Panel)
    requires
        appkit_parent_ok(opt.parent),
    ensures
        !p.save,
        shows_panel_options(p, *opt, is_dir, !directories && files),
        filtered ==> allows_filters(p, *opt),
        !filtered ==> p.allowed_extensions is None,
        p.format_chooser is None,
        p.can_create_directories == if create_default {
            Some(match opt.can_create_directories {
                Some(c) => c,
                None => true,
            })
        } else {
            opt.can_create_directories
        },
        p.can_choose_directories == Some(directories),
        p.can_choose_files == Some(files),
        p.allows_multiple_selection == multiple,
{
    let mut p = panel_for(opt, false, is_dir, !directories && files);
    if filtered && opt.filters.len() > 0 {
        p.allowed_extensions = Some(extensions_of(opt.filters.as_slice()));
    }
    if create_default {
        p.can_create_directories = Some(match opt.can_create_directories {
            Some(c) => c,
            None => true,
        });
    }
    p.can_choose_directories = Some(directories);
    p.can_choose_files = Some(files);
    p.allows_multiple_selection = multiple;
    p
}

impl Panel {
    /// The panel that picks one file; `is_dir` tells whether the starting directory is a
    /// folder.
    pub fn build_pick_file(opt: &FileDialog, is_dir: bool) -> (p: Panel)
        requires
            appkit_parent_ok(opt.parent),
        ensures
            !p.save,
            shows_panel_options(p, *opt, is_dir, true),
            allows_filters(p, *opt),
            p.can_create_directories == opt.can_create_directories,
            p.can_choose_directories == Some(false),
            p.can_choose_files == Some(true),
            p.allows_multiple_selection is None,
    {
        open_panel(opt, true, is_dir, true, false, None, false)
    }

    /// The panel that picks several files.
    pub fn build_pick_files(opt: &FileDialog, is_dir: bool) -> (p: Panel)
        requires
            appkit_parent_ok(opt.parent),
        ensures
            !p.save,
            shows_panel_options(p, *opt, is_dir, false),
            allows_filters(p, *opt),
            p.can_create_directories == opt.can_create_directories,
            p.can_choose_directories == Some(false),
            p.can_choose_files == Some(true),
            p.allows_multiple_selection == Some(true),
    {
        let mut p = open_panel(opt, true, is_dir, true, false, Some(true), false);
        p.name_field = None;
        p
    }

    /// The panel that picks one folder; it may create folders unless the options say
    /// otherwise.
    pub fn build_pick_folder(opt: &FileDialog, is_dir: bool) -> (p: Panel)
        requires
            appkit_parent_ok(opt.parent),
        ensures
            !p.save,
            shows_panel_options(p, *opt, is_dir, false),
            p.allowed_extensions is None,
            p.can_create_directories == Some(match opt.can_create_directories {
                Some(c) => c,
                None => true,
            }),
            p.can_choose_directories == Some(true),
            p.can_choose_files == Some(false),
            p.allows_multiple_selection is None,
    {
        open_panel(opt, false, is_dir, false, true, None, true)
    }

    /// The panel that picks several folders.
    pub fn build_pick_folders(opt: &FileDialog, is_dir: bool) -> (p: Panel)
        requires
            appkit_parent_ok(opt.parent),
        ensures
            !p.save,
            shows_panel_options(p, *opt, is_dir, false),
            p.allowed_extensions is None,
            p.can_create_directories == Some(match opt.can_create_directories {
                Some(c) => c,
                None => true,
            }),
            p.can_choose_directories == Some(true),
            p.can_choose_files == Some(false),
            p.allows_multiple_selection == Some(true),
    {
        open_panel(opt, false, is_dir, false, true, Some(true), true)
    }

    /// The panel that picks one file or folder.
    pub fn build_pick_file_or_folder(opt: &FileDialog, is_dir: bool) -> (p: Panel)
        requires
            appkit_parent_ok(opt.parent),
        ensures
            !p.save,
            shows_panel_options(p, *opt, is_dir, false),
            allows_filters(p, *opt),
            p.can_create_directories == Some(match opt.can_create_directories {
                Some(c) => c,
                None => true,
            }),
            p.can_choose_directories == Some(true),
            p.can_choose_files == Some(true),
            p.allows_multiple_selection == Some(false),
    {
        open_panel(opt, true, is_dir, true, true, Some(false), true)
    }

    /// The panel that picks several files or folders.
    pub fn build_pick_files_or_folders(opt: &FileDialog, is_dir: bool) -> (p: Panel)
        requires
            appkit_parent_ok(opt.parent),
        ensures
            !p.save,
            shows_panel_options(p, *opt, is_dir, false),
            allows_filters(p, *opt),
            p.can_create_directories == Some(match opt.can_create_directories {
                Some(c) => c,
                None => true,
            }),
            p.can_choose_directories == Some(true),
            p.can_choose_files == Some(true),
            p.allows_multiple_selection == Some(true),
    {
        open_panel(opt, true, is_dir, true, true, Some(true), true)
    }

    /// The save panel. One filter restricts the types to its extensions; several add a
    /// format chooser (labelled by the options' label, or `Format:`) listing the filters,
    /// starting on the first.
    pub fn build_save_file(opt: &FileDialog, is_dir: bool) -> (p: Panel)
        requires
            appkit_parent_ok(opt.parent),
        ensures
            p.save,
            shows_panel_options(p, *opt, is_dir, true),
            p.can_create_directories == opt.can_create_directories,
            p.can_choose_directories is None,
            p.can_choose_files is None,
            p.allows_multiple_selection is None,
            opt.filters@.len() == 0 ==> p.allowed_extensions is None && p.format_chooser is None,
            opt.filters@.len() == 1 ==> p.format_chooser is None && (p.allowed_extensions matches Some(v)
                && strings_view(v@) == opt.filters@[0]@.extensions),
            opt.filters@.len() > 1 ==> {
                &&& p.allowed_extensions matches Some(v) && strings_view(v@) == opt.filters@[0]@.extensions
                &&& p.format_chooser matches Some(c) && c.label@ == or_default(opt.format_label, "Format:"@)
                    && c.names@.len() == opt.filters@.len() && c.extensions@.len() == opt.filters@.len()
                    && (forall|i: int| 0 <= i < opt.filters@.len() ==> (#[trigger] c.names@[i])@ == opt.filters@[i].name@
                        && strings_view(c.extensions@[i]@) == opt.filters@[i]@.extensions)
            },
    {
        let mut p = panel_for(opt, true, is_dir, true);
        let n = opt.filters.len();
        if n == 1 {
            p.allowed_extensions = Some(copy_strings(&opt.filters[0].extensions));
        } else if n > 1 {
            let label = match &opt.format_label {
                Some(l) => l.clone(),
                None => "Format:".to_string(),
            };
            let mut names: Vec<String> = Vec::new();
            let mut exts: Vec<Vec<String>> = Vec::new();
            let mut i: usize = 0;
            while i < n
                invariant
                    n == opt.filters@.len(),
                    0 <= i <= n,
                    names@.len() == i,
                    exts@.len() == i,
                    forall|k: int| 0 <= k < i ==> (#[trigger] names@[k])@ == opt.filters@[k].name@
                        && strings_view(exts@[k]@) == opt.filters@[k]@.extensions,
                decreases n - i,
            {
                let ghost (names0, exts0) = (names@, exts@);
                names.push(opt.filters[i].name.clone());
                exts.push(copy_strings(&opt.filters[i].extensions));
                proof {
                    assert forall|k: int| 0 <= k < i + 1 implies (#[trigger] names@[k])@ == opt.filters@[k].name@
                        && strings_view(exts@[k]@) == opt.filters@[k]@.extensions by {
                        if k < i {
                            assert(names@[k] == names0[k]);
                            assert(exts@[k] == exts0[k]);
                        }
                    }
                }
                i = i + 1;
            }
            p.allowed_extensions = Some(copy_strings(&opt.filters[0].extensions));
            p.format_chooser = Some(FormatChooser { label, names, extensions: exts });
        }
        p
    }
}

/// Each button of a user notification that has a title answers what that title stands
/// for, by the button's position: default, alternate, other.
pub proof fn law_notification_button_answers_its_title(b: ButtonsView)
    ensures
        notification_titles(b).0 matches Some(t) ==> notification_answer(
            b,
            0,
            CF_USER_NOTIFICATION_DEFAULT_RESPONSE,
        ) == meaning_of_label(b, t),
        notification_titles(b).1 matches Some(t) ==> notification_answer(
            b,
            0,
            CF_USER_NOTIFICATION_ALTERNATE_RESPONSE,
        ) == meaning_of_label(b, t),
        notification_titles(b).2 matches Some(t) ==> notification_answer(
            b,
            0,
            CF_USER_NOTIFICATION_OTHER_RESPONSE,
        ) == meaning_of_label(b, t),
{
    reveal_strlit("OK");
    reveal_strlit("Cancel");
    reveal_strlit("Yes");
    reveal_strlit("No");
    assert("OK"@.len() == 2 && "OK"@[0] == 'O');
    assert("Cancel"@.len() == 6);
    assert("Yes"@.len() == 3);
    assert("No"@.len() == 2 && "No"@[0] == 'N');
}

// ----------------------------------------------------------------------------
// Where dialogs run
// ----------------------------------------------------------------------------

/// How a dialog that does not block is shown: as a sheet on a window, or by running it
/// modally at once.
#[derive(Clone, Copy, Debug, PartialEq, Eq)]
pub enum ModalRoute {
    Sheet,
    RunModal,
}

/// The window a sheet is shown on: the parent given, else the application's main window,
/// else its first window.
pub fn modal_window<W>(given: Option<W>, main_window: Option<W>, first_window: Option<W>) -> (r: Option<W>)
    ensures
        r == match given {
            Some(w) => Some(w),
            None => match main_window {
                Some(w) => Some(w),
                None => first_window,
            },
        },
{
    match given {
        Some(w) => Some(w),
        None => match main_window {
            Some(w) => Some(w),
            None => first_window,
        },
    }
}

/// How a dialog that does not block is shown: as a sheet when the application runs and
/// has a window, else modally, which needs the main thread (elsewhere no dialog can be
/// shown at all).
pub fn modal_route(app_running: bool, has_window: bool, on_main_thread: bool) -> (r: ModalRoute)
    requires
        (app_running && has_window) || on_main_thread,
    ensures
        r == if app_running && has_window {
            ModalRoute::Sheet
        } else {
            ModalRoute::RunModal
        },
{
    if app_running && has_window {
        ModalRoute::Sheet
    } else {
        ModalRoute::RunModal
    }
}

/// The answer a dialog future resolves to when its callback comes: the callback's answer
/// for the dialog, or the default answer when the dialog is already gone.
pub fn callback_answer<R>(answered: Option<R>, default: R) -> (r: R)
    ensures
        r == match answered {
            Some(a) => a,
            None => default,
        },
{
    match answered {
        Some(a) => a,
        None => default,
    }
}

/// Where work for the main thread runs: here when already on it, else dispatched to it
/// while the application runs (a dialog cannot be shown from another thread otherwise).
#[derive(Clone, Copy, Debug, PartialEq, Eq)]
pub enum MainRoute {
    Here,
    Dispatch,
}

/// Where work for the main thread runs.
pub fn main_thread_route(on_main_thread: bool, app_running: bool) -> (r: MainRoute)
    requires
        on_main_thread || app_running,
    ensures
        r == if on_main_thread {
            MainRoute::Here
        } else {
            MainRoute::Dispatch
        },
{
    if on_main_thread {
        MainRoute::Here
    } else {
        MainRoute::Dispatch
    }
}

} // verus!
