//! GTK 3 backend: how its dialogs are set up and how their responses are read.
use crate::file_dialog::strings_view;
use crate::backend::gtk4::{label_meaning, GtkFileFilter, GtkFilterView, InitialFile};
use crate::backend::web_fallback::or_default;
use crate::file_dialog::{filters_view, path_from, path_of, path_text, path_to_str, FileDialog, Filter, FilterView};
use crate::message_dialog::{
    copy_buttons, ButtonsView, MessageButtons, MessageDialog, MessageDialogResult, MessageLevel,
    ResultView,
};
use crate::text::{push_str, utf8_text};
use std::path::PathBuf;
use vstd::prelude::*;
use vstd::utf8::{decode_utf8, valid_utf8};

verus! {

/// GTK's response id for the accept button of a file chooser.
pub const GTK_RESPONSE_ACCEPT: i32 = -3;

/// GTK's response id for an OK button.
pub const GTK_RESPONSE_OK: i32 = -5;

/// GTK's response id for a Cancel button.
pub const GTK_RESPONSE_CANCEL: i32 = -6;

/// GTK's response id for a Yes button.
pub const GTK_RESPONSE_YES: i32 = -8;

/// GTK's response id for a No button.
pub const GTK_RESPONSE_NO: i32 = -9;

/// GTK's button set with no buttons.
pub const GTK_BUTTONS_NONE: i32 = 0;

/// GTK's button set with one OK button.
pub const GTK_BUTTONS_OK: i32 = 1;

/// GTK's button set with Yes and No.
pub const GTK_BUTTONS_YES_NO: i32 = 4;

/// GTK's button set with OK and Cancel.
pub const GTK_BUTTONS_OK_CANCEL: i32 = 5;

/// GTK's message type for information.
pub const GTK_MESSAGE_INFO: i32 = 0;

/// GTK's message type for a warning.
pub const GTK_MESSAGE_WARNING: i32 = 1;

/// GTK's message type for an error.
pub const GTK_MESSAGE_ERROR: i32 = 3;

/// What a GTK file chooser is for.
#[derive(Clone, Copy, Debug, PartialEq, Eq)]
pub enum GtkFileChooserAction {
    Open,
    Save,
    SelectFolder,
}

/// GTK's number for a file chooser action.
pub open spec fn action_code(a: GtkFileChooserAction) -> i32 {
    match a {
        GtkFileChooserAction::Open => 0,
        GtkFileChooserAction::Save => 1,
        GtkFileChooserAction::SelectFolder => 2,
    }
}

impl GtkFileChooserAction {
    /// GTK's number for the action.
    pub fn code(&self) -> (c: i32)
        ensures
            c == action_code(*self),
    {
        match self {
            GtkFileChooserAction::Open => 0,
            GtkFileChooserAction::Save => 1,
            GtkFileChooserAction::SelectFolder => 2,
        }
    }
}

/// The text holds no NUL character, so it can be handed to C.
pub open spec fn no_nul(s: Seq<char>) -> bool {
    forall|i: int| 0 <= i < s.len() ==> s[i] != '\0'
}

/// Whether a text can be handed to C.
pub fn has_no_nul(s: &str) -> (b: bool)
    ensures
        b == no_nul(s@),
{
    let v = crate::text::chars_of(s);
    let mut i: usize = 0;
    while i < v.len()
        invariant
            0 <= i <= v@.len(),
            v@ == s@,
            forall|k: int| 0 <= k < i ==> v@[k] != '\0',
        decreases v@.len() - i,
    {
        if v[i] == '\0' {
            return false;
        }
        i = i + 1;
    }
    true
}

// ----------------------------------------------------------------------------
// Message dialog
// ----------------------------------------------------------------------------

/// GTK's message type for a level.
pub open spec fn gtk3_message_type(l: MessageLevel) -> i32 {
    match l {
        MessageLevel::Info => GTK_MESSAGE_INFO,
        MessageLevel::Warning => GTK_MESSAGE_WARNING,
        MessageLevel::Error => GTK_MESSAGE_ERROR,
    }
}

/// GTK's built-in button set for the buttons; none where the dialog adds its own.
pub open spec fn gtk3_buttons_type(b: ButtonsView) -> i32 {
    match b {
        ButtonsView::Okay => GTK_BUTTONS_OK,
        ButtonsView::OkCancel => GTK_BUTTONS_OK_CANCEL,
        ButtonsView::YesNo => GTK_BUTTONS_YES_NO,
        _ => GTK_BUTTONS_NONE,
    }
}

/// The buttons the dialog adds itself, in order: each label with its response id.
pub open spec fn gtk3_added_buttons(b: ButtonsView) -> Seq<(Seq<char>, i32)> {
    match b {
        ButtonsView::YesNoCancel => seq![
            ("Yes"@, GTK_RESPONSE_YES),
            ("No"@, GTK_RESPONSE_NO),
            ("Cancel"@, GTK_RESPONSE_CANCEL),
        ],
        ButtonsView::OkCustom(ok) => seq![(ok, GTK_RESPONSE_OK)],
        ButtonsView::OkCancelCustom(ok, cancel) => seq![
            (ok, GTK_RESPONSE_OK),
            (cancel, GTK_RESPONSE_CANCEL),
        ],
        ButtonsView::YesNoCancelCustom(yes, no, cancel) => seq![
            (yes, GTK_RESPONSE_YES),
            (no, GTK_RESPONSE_NO),
            (cancel, GTK_RESPONSE_CANCEL),
        ],
        _ => seq![],
    }
}

/// Every custom label can be handed to C.
pub open spec fn labels_without_nul(b: ButtonsView) -> bool {
    match b {
        ButtonsView::OkCustom(ok) => no_nul(ok),
        ButtonsView::OkCancelCustom(ok, cancel) => no_nul(ok) && no_nul(cancel),
        ButtonsView::YesNoCancelCustom(yes, no, cancel) => no_nul(yes) && no_nul(no) && no_nul(
            cancel,
        ),
        _ => true,
    }
}

/// The views of a list of labelled buttons.
pub open spec fn buttons_added_view(v: Seq<(String, i32)>) -> Seq<(Seq<char>, i32)> {
    v.map_values(|b: (String, i32)| (b.0@, b.1))
}

/// A GTK 3 message dialog as set up: its type, built-in buttons, added buttons, the
/// title (shown as the primary text and as the window title) and the secondary text.
pub struct GtkMessageDialog {
    pub buttons: MessageButtons,
    pub message_type: i32,
    pub buttons_type: i32,
    pub added_buttons: Vec<(String, i32)>,
    pub title: String,
    pub secondary_text: String,
}

/// The answer a blocking GTK 3 message dialog gives for a response id.
pub open spec fn gtk3_result(b: ButtonsView, res: i32) -> ResultView {
    match b {
        ButtonsView::Okay | ButtonsView::OkCancel => if res == GTK_RESPONSE_OK {
            ResultView::Okay
        } else {
            ResultView::Cancel
        },
        ButtonsView::YesNo | ButtonsView::YesNoCancel => if res == GTK_RESPONSE_YES {
            ResultView::Yes
        } else if res == GTK_RESPONSE_NO {
            ResultView::No
        } else {
            ResultView::Cancel
        },
        ButtonsView::OkCustom(ok) => if res == GTK_RESPONSE_OK {
            ResultView::Custom(ok)
        } else {
            ResultView::Cancel
        },
        ButtonsView::OkCancelCustom(ok, cancel) => if res == GTK_RESPONSE_OK {
            ResultView::Custom(ok)
        } else if res == GTK_RESPONSE_CANCEL {
            ResultView::Custom(cancel)
        } else {
            ResultView::Cancel
        },
        ButtonsView::YesNoCancelCustom(yes, no, cancel) => if res == GTK_RESPONSE_YES {
            ResultView::Custom(yes)
        } else if res == GTK_RESPONSE_NO {
            ResultView::Custom(no)
        } else if res == GTK_RESPONSE_CANCEL {
            ResultView::Custom(cancel)
        } else {
            ResultView::Cancel
        },
    }
}

fn labelled(label: &str, id: i32) -> (b: (String, i32))
    ensures
        b.0@ == label@,
        b.1 == id,
{
    (label.to_string(), id)
}

impl GtkMessageDialog {
    /// Sets the dialog up for the options. Every text must be free of NUL characters.
    pub fn new(opt: MessageDialog) -> (d: GtkMessageDialog)
        requires
            no_nul(opt.title@),
            no_nul(opt.description@),
            labels_without_nul(opt.buttons@),
        ensures
            d.buttons@ == opt.buttons@,
            d.message_type == gtk3_message_type(opt.level),
            d.buttons_type == gtk3_buttons_type(opt.buttons@),
            buttons_added_view(d.added_buttons@) == gtk3_added_buttons(opt.buttons@),
            d.title@ == opt.title@,
            d.secondary_text@ == opt.description@,
    {
        let message_type = match opt.level {
            MessageLevel::Info => GTK_MESSAGE_INFO,
            MessageLevel::Warning => GTK_MESSAGE_WARNING,
            MessageLevel::Error => GTK_MESSAGE_ERROR,
        };
        let buttons_type = match &opt.buttons {
            MessageButtons::Okay => GTK_BUTTONS_OK,
            MessageButtons::OkCancel => GTK_BUTTONS_OK_CANCEL,
            MessageButtons::YesNo => GTK_BUTTONS_YES_NO,
            _ => GTK_BUTTONS_NONE,
        };
        let mut added: Vec<(String, i32)> = Vec::new();
        match &opt.buttons {
            MessageButtons::YesNoCancel => {
                added.push(labelled("Yes", GTK_RESPONSE_YES));
                added.push(labelled("No", GTK_RESPONSE_NO));
                added.push(labelled("Cancel", GTK_RESPONSE_CANCEL));
            },
            MessageButtons::OkCustom(ok) => {
                added.push(labelled(ok.as_str(), GTK_RESPONSE_OK));
            },
            MessageButtons::OkCancelCustom(ok, cancel) => {
                added.push(labelled(ok.as_str(), GTK_RESPONSE_OK));
                added.push(labelled(cancel.as_str(), GTK_RESPONSE_CANCEL));
            },
            MessageButtons::YesNoCancelCustom(yes, no, cancel) => {
                added.push(labelled(yes.as_str(), GTK_RESPONSE_YES));
                added.push(labelled(no.as_str(), GTK_RESPONSE_NO));
                added.push(labelled(cancel.as_str(), GTK_RESPONSE_CANCEL));
            },
            _ => {},
        }
        proof {
            assert(buttons_added_view(added@) =~= gtk3_added_buttons(opt.buttons@));
        }
        GtkMessageDialog {
            buttons: copy_buttons(&opt.buttons),
            message_type,
            buttons_type,
            added_buttons: added,
            title: opt.title,
            secondary_text: opt.description,
        }
    }

    /// The answer for the response id the dialog's run returned.
    pub fn run(&self, res: i32) -> (r: MessageDialogResult)
        ensures
            r@ == gtk3_result(self.buttons@, res),
    {
        match &self.buttons {
            MessageButtons::Okay | MessageButtons::OkCancel => if res == GTK_RESPONSE_OK {
                MessageDialogResult::Okay
            } else {
                MessageDialogResult::Cancel
            },
            MessageButtons::YesNo | MessageButtons::YesNoCancel => if res == GTK_RESPONSE_YES {
                MessageDialogResult::Yes
            } else if res == GTK_RESPONSE_NO {
                MessageDialogResult::No
            } else {
                MessageDialogResult::Cancel
            },
            MessageButtons::OkCustom(ok) => if res == GTK_RESPONSE_OK {
                MessageDialogResult::Custom(ok.clone())
            } else {
                MessageDialogResult::Cancel
            },
            MessageButtons::OkCancelCustom(ok, cancel) => if res == GTK_RESPONSE_OK {
                MessageDialogResult::Custom(ok.clone())
            } else if res == GTK_RESPONSE_CANCEL {
                MessageDialogResult::Custom(cancel.clone())
            } else {
                MessageDialogResult::Cancel
            },
            MessageButtons::YesNoCancelCustom(yes, no, cancel) => if res == GTK_RESPONSE_YES {
                MessageDialogResult::Custom(yes.clone())
            } else if res == GTK_RESPONSE_NO {
                MessageDialogResult::Custom(no.clone())
            } else if res == GTK_RESPONSE_CANCEL {
                MessageDialogResult::Custom(cancel.clone())
            } else {
                MessageDialogResult::Cancel
            },
        }
    }
}

/// The response ids a non-blocking message dialog can answer with.
pub open spec fn is_message_response(res: i32) -> bool {
    res == GTK_RESPONSE_OK || res == GTK_RESPONSE_CANCEL || res == GTK_RESPONSE_YES || res
        == GTK_RESPONSE_NO
}

/// The answer a non-blocking message dialog gives: the standard answer of the response
/// id, whatever the buttons' labels.
pub fn async_message_result(res: i32) -> (r: MessageDialogResult)
    requires
        is_message_response(res),
    ensures
        res == GTK_RESPONSE_OK ==> r@ == ResultView::Okay,
        res == GTK_RESPONSE_CANCEL ==> r@ == ResultView::Cancel,
        res == GTK_RESPONSE_YES ==> r@ == ResultView::Yes,
        res == GTK_RESPONSE_NO ==> r@ == ResultView::No,
{
    if res == GTK_RESPONSE_OK {
        MessageDialogResult::Okay
    } else if res == GTK_RESPONSE_CANCEL {
        MessageDialogResult::Cancel
    } else if res == GTK_RESPONSE_YES {
        MessageDialogResult::Yes
    } else {
        MessageDialogResult::No
    }
}

// ----------------------------------------------------------------------------
// File dialogs
// ----------------------------------------------------------------------------

/// The file a GTK 3 chooser selects at first.
pub enum Gtk3FileName {
    /// The file `name` inside `folder`; the joined path is handed to GTK only when its
    /// text is valid Unicode without NUL characters.
    InFolder(InitialFile),
    /// The name as given.
    Plain(String),
}

/// A GTK 3 native file chooser as set up.
pub struct GtkFileDialog {
    pub title: String,
    pub action: GtkFileChooserAction,
    pub accept_label: String,
    pub cancel_label: String,
    pub filters: Vec<GtkFileFilter>,
    /// The text of the folder shown at first.
    pub folder: Option<String>,
    pub file_name: Option<Gtk3FileName>,
    /// The name proposed for a new file.
    pub current_name: Option<String>,
    pub select_multiple: bool,
    pub confirm_overwrite: bool,
}

/// The patterns of a filter's extensions that can be handed to C, in order.
pub open spec fn gtk3_patterns(exts: Seq<Seq<char>>) -> Seq<Seq<char>>
    decreases exts.len(),
{
    if exts.len() == 0 {
        Seq::empty()
    } else {
        let rest = gtk3_patterns(exts.drop_last());
        let p = "*."@ + exts.last();
        if no_nul(p) {
            rest.push(p)
        } else {
            rest
        }
    }
}

/// The GTK 3 filters for the dialog's filters: one per filter whose name can be handed
/// to C, in order.
pub open spec fn gtk3_filters(fs: Seq<FilterView>) -> Seq<GtkFilterView>
    decreases fs.len(),
{
    if fs.len() == 0 {
        Seq::empty()
    } else {
        let rest = gtk3_filters(fs.drop_last());
        let f = fs.last();
        if no_nul(f.name) {
            rest.push(GtkFilterView { name: f.name, patterns: gtk3_patterns(f.extensions) })
        } else {
            rest
        }
    }
}

/// The views of a list of GTK filters.
pub open spec fn filter_list_view(v: Seq<GtkFileFilter>) -> Seq<GtkFilterView> {
    v.map_values(|f: GtkFileFilter| f@)
}

fn gtk3_filter_for(f: &Filter) -> (g: GtkFileFilter)
    ensures
        g.name@ == f.name@,
        strings_view(g.patterns@) == gtk3_patterns(f@.extensions),
{
    let mut patterns: Vec<String> = Vec::new();
    let mut i: usize = 0;
    while i < f.extensions.len()
        invariant
            0 <= i <= f.extensions@.len(),
            strings_view(patterns@) == gtk3_patterns(f@.extensions.take(i as int)),
        decreases f.extensions@.len() - i,
    {
        let mut p = "*.".to_string();
        push_str(&mut p, f.extensions[i].as_str());
        proof {
            assert(f@.extensions[i as int] == f.extensions@[i as int]@);
            assert(f@.extensions.take(i + 1).drop_last() =~= f@.extensions.take(i as int));
        }
        if has_no_nul(p.as_str()) {
            patterns.push(p);
            proof {
                assert(strings_view(patterns@) =~= gtk3_patterns(f@.extensions.take(i + 1)));
            }
        }
        i = i + 1;
    }
    proof {
        assert(f@.extensions.take(i as int) =~= f@.extensions);
    }
    GtkFileFilter { name: f.name.clone(), patterns }
}

impl GtkFileDialog {
    /// A chooser titled `title` for `action`, with a cancel button labelled `btn1` and an
    /// accept button labelled `btn2`. The texts must be free of NUL characters.
    pub fn new(title: &str, action: GtkFileChooserAction, btn1: &str, btn2: &str) -> (d: GtkFileDialog)
        requires
            no_nul(title@),
            no_nul(btn1@),
            no_nul(btn2@),
        ensures
            d.title@ == title@,
            d.action == action,
            d.cancel_label@ == btn1@,
            d.accept_label@ == btn2@,
            d.filters@.len() == 0,
            d.folder is None,
            d.file_name is None,
            d.current_name is None,
            !d.select_multiple,
            !d.confirm_overwrite,
    {
        GtkFileDialog {
            title: title.to_string(),
            action,
            accept_label: btn2.to_string(),
            cancel_label: btn1.to_string(),
            filters: Vec::new(),
            folder: None,
            file_name: None,
            current_name: None,
            select_multiple: false,
            confirm_overwrite: false,
        }
    }

    /// Adds one filter per filter whose name can be handed to C, with the patterns
    /// `*.ext` of its extensions that can.
    pub fn add_filters(&mut self, filters: &[Filter])
        ensures
            filter_list_view(final(self).filters@) == filter_list_view(old(self).filters@) + gtk3_filters(
                filters_view(filters@),
            ),
            final(self).title == old(self).title,
            final(self).action == old(self).action,
            final(self).accept_label == old(self).accept_label,
            final(self).cancel_label == old(self).cancel_label,
            final(self).folder == old(self).folder,
            final(self).file_name == old(self).file_name,
            final(self).current_name == old(self).current_name,
            final(self).select_multiple == old(self).select_multiple,
            final(self).confirm_overwrite == old(self).confirm_overwrite,
    {
        let ghost start = filter_list_view(self.filters@);
        let mut i: usize = 0;
        while i < filters.len()
            invariant
                0 <= i <= filters@.len(),
                filter_list_view(self.filters@) == start + gtk3_filters(filters_view(filters@).take(i as int)),
                self.title == old(self).title,
                self.action == old(self).action,
                self.accept_label == old(self).accept_label,
                self.cancel_label == old(self).cancel_label,
                self.folder == old(self).folder,
                self.file_name == old(self).file_name,
                self.current_name == old(self).current_name,
                self.select_multiple == old(self).select_multiple,
                self.confirm_overwrite == old(self).confirm_overwrite,
            decreases filters@.len() - i,
        {
            proof {
                assert(filters_view(filters@)[i as int] == filters@[i as int]@);
                assert(filters_view(filters@).take(i + 1).drop_last() =~= filters_view(filters@).take(i as int));
            }
            if has_no_nul(filters[i].name.as_str()) {
                let ghost before = self.filters@;
                let g = gtk3_filter_for(&filters[i]);
                self.filters.push(g);
                proof {
                    assert(filter_list_view(self.filters@) =~= filter_list_view(before).push(g@));
                }
            }
            proof {
                assert(filter_list_view(self.filters@) =~= start + gtk3_filters(filters_view(filters@).take(i + 1)));
            }
            i = i + 1;
        }
        proof {
            assert(filters_view(filters@).take(i as int) =~= filters_view(filters@));
        }
    }
}

impl GtkFileDialog {
    /// Shows the folder at first, when its text can be handed to C.
    pub fn set_path(&mut self, path: Option<&PathBuf>)
        ensures
            c_folder(match path {
                Some(p) => Some(*p),
                None => None,
            }) matches Some(t) ==> text_of(final(self).folder) == Some(t),
            c_folder(match path {
                Some(p) => Some(*p),
                None => None,
            }) is None ==> final(self).folder == old(self).folder,
            final(self).title == old(self).title,
            final(self).action == old(self).action,
            final(self).accept_label == old(self).accept_label,
            final(self).cancel_label == old(self).cancel_label,
            final(self).filters == old(self).filters,
            final(self).file_name == old(self).file_name,
            final(self).current_name == old(self).current_name,
            final(self).select_multiple == old(self).select_multiple,
            final(self).confirm_overwrite == old(self).confirm_overwrite,
    {
        if let Some(p) = path {
            if let Some(t) = path_to_str(p) {
                if has_no_nul(t) {
                    self.folder = Some(t.to_string());
                }
            }
        }
    }

    /// Selects the named file at first, when the name can be handed to C.
    pub fn set_file_name(&mut self, name: Option<&str>)
        ensures
            (name matches Some(n) && no_nul(n@)) ==> (final(self).file_name matches Some(Gtk3FileName::Plain(m)) && m@ == name->0@),
            !(name matches Some(n) && no_nul(n@)) ==> final(self).file_name == old(self).file_name,
            final(self).title == old(self).title,
            final(self).action == old(self).action,
            final(self).accept_label == old(self).accept_label,
            final(self).cancel_label == old(self).cancel_label,
            final(self).filters == old(self).filters,
            final(self).folder == old(self).folder,
            final(self).current_name == old(self).current_name,
            final(self).select_multiple == old(self).select_multiple,
            final(self).confirm_overwrite == old(self).confirm_overwrite,
    {
        if let Some(n) = name {
            if has_no_nul(n) {
                self.file_name = Some(Gtk3FileName::Plain(n.to_string()));
            }
        }
    }

    /// Proposes a name for a new file, when it can be handed to C.
    pub fn set_current_name(&mut self, name: Option<&str>)
        ensures
            (name matches Some(n) && no_nul(n@)) ==> text_of(final(self).current_name) == Some(name->0@),
            !(name matches Some(n) && no_nul(n@)) ==> final(self).current_name == old(self).current_name,
            final(self).title == old(self).title,
            final(self).action == old(self).action,
            final(self).accept_label == old(self).accept_label,
            final(self).cancel_label == old(self).cancel_label,
            final(self).filters == old(self).filters,
            final(self).folder == old(self).folder,
            final(self).file_name == old(self).file_name,
            final(self).select_multiple == old(self).select_multiple,
            final(self).confirm_overwrite == old(self).confirm_overwrite,
    {
        if let Some(n) = name {
            if has_no_nul(n) {
                self.current_name = Some(n.to_string());
            }
        }
    }
}

/// The text of a dialog title or label given to C.
pub open spec fn title_ok(options: FileDialog) -> bool {
    match options.title {
        Some(t) => no_nul(t@),
        None => true,
    }
}

/// The file a GTK 3 open or folder chooser selects for the options: the file of that
/// name in the starting directory, or the name alone when it can be handed to C.
pub open spec fn gtk3_selection(d: GtkFileDialog, options: FileDialog) -> bool {
    match options.file_name {
        Some(n) => match options.starting_directory {
            Some(dir) => d.file_name matches Some(Gtk3FileName::InFolder(f)) && f.folder == dir && f.name@ == n@,
            None => if no_nul(n@) {
                d.file_name matches Some(Gtk3FileName::Plain(m)) && m@ == n@
            } else {
                d.file_name is None
            },
        },
        None => d.file_name is None,
    }
}

/// The folder text a chooser gets for a starting directory: its text, when it has one
/// that can be handed to C.
pub open spec fn c_folder(dir: Option<PathBuf>) -> Option<Seq<char>> {
    match dir {
        Some(p) => match path_text(p) {
            Some(t) => if no_nul(t) {
                Some(t)
            } else {
                None
            },
            None => None,
        },
        None => None,
    }
}

/// An optional text's view.
pub open spec fn text_of(o: Option<String>) -> Option<Seq<char>> {
    match o {
        Some(s) => Some(s@),
        None => None,
    }
}

/// What every GTK 3 chooser built for options is: titled (`default_title` unless the
/// options give one), for `action`, with the labels `Cancel` and `accept`, showing the
/// starting directory.
pub open spec fn gtk3_chooser(
    d: GtkFileDialog,
    options: FileDialog,
    default_title: Seq<char>,
    action: GtkFileChooserAction,
    accept: Seq<char>,
) -> bool {
    &&& d.title@ == or_default(options.title, default_title)
    &&& d.action == action
    &&& d.cancel_label@ == "Cancel"@
    &&& d.accept_label@ == accept
    &&& text_of(d.folder) == c_folder(options.starting_directory)
}

fn chooser_for(
    options: &FileDialog,
    default_title: &str,
    action: GtkFileChooserAction,
    accept: &str,
) -> (d: GtkFileDialog)
    requires
        title_ok(*options),
        no_nul(default_title@),
        no_nul(accept@),
        no_nul("Cancel"@),
    ensures
        gtk3_chooser(d, *options, default_title@, action, accept@),
        d.filters@.len() == 0,
        d.file_name is None,
        d.current_name is None,
        !d.select_multiple,
        !d.confirm_overwrite,
{
    let mut d = match &options.title {
        Some(t) => GtkFileDialog::new(t.as_str(), action, "Cancel", accept),
        None => GtkFileDialog::new(default_title, action, "Cancel", accept),
    };
    d.set_path(options.starting_directory.as_ref());
    d
}

fn select_name(d: &mut GtkFileDialog, options: &FileDialog)
    ensures
        gtk3_selection(*final(d), *options),
        final(d).title == old(d).title,
        final(d).action == old(d).action,
        final(d).accept_label == old(d).accept_label,
        final(d).cancel_label == old(d).cancel_label,
        final(d).filters == old(d).filters,
        final(d).folder == old(d).folder,
        final(d).current_name == old(d).current_name,
        final(d).select_multiple == old(d).select_multiple,
        final(d).confirm_overwrite == old(d).confirm_overwrite,
{
    match (&options.starting_directory, &options.file_name) {
        (Some(dir), Some(n)) => {
            d.file_name = Some(Gtk3FileName::InFolder(InitialFile { folder: dir.clone(), name: n.clone() }));
        },
        (None, Some(n)) => {
            d.file_name = None;
            d.set_file_name(Some(n.as_str()));
        },
        _ => {
            d.file_name = None;
        },
    }
}

proof fn lemma_fixed_labels()
    ensures
        no_nul("Cancel"@),
        no_nul("Open"@),
        no_nul("Save"@),
        no_nul("Select"@),
        no_nul("Open File"@),
        no_nul("Save File"@),
        no_nul("Select Folder"@),
{
    reveal_strlit("Cancel");
    reveal_strlit("Open");
    reveal_strlit("Save");
    reveal_strlit("Select");
    reveal_strlit("Open File");
    reveal_strlit("Save File");
    reveal_strlit("Select Folder");
}

impl GtkFileDialog {
    /// The chooser that picks one file.
    pub fn build_pick_file(opt: &FileDialog) -> (d: GtkFileDialog)
        requires
            title_ok(*opt),
        ensures
            gtk3_chooser(d, *opt, "Open File"@, GtkFileChooserAction::Open, "Open"@),
            filter_list_view(d.filters@) == gtk3_filters(filters_view(opt.filters@)),
            gtk3_selection(d, *opt),
            d.current_name is None,
            !d.select_multiple,
            !d.confirm_overwrite,
    {
        proof {
            lemma_fixed_labels();
        }
        let mut d = chooser_for(opt, "Open File", GtkFileChooserAction::Open, "Open");
        d.add_filters(opt.filters.as_slice());
        select_name(&mut d, opt);
        proof {
            assert(filter_list_view(Seq::<GtkFileFilter>::empty()) + gtk3_filters(filters_view(opt.filters@)) =~= gtk3_filters(filters_view(opt.filters@)));
        }
        d
    }

    /// The chooser that picks several files.
    pub fn build_pick_files(opt: &FileDialog) -> (d: GtkFileDialog)
        requires
            title_ok(*opt),
        ensures
            gtk3_chooser(d, *opt, "Open File"@, GtkFileChooserAction::Open, "Open"@),
            filter_list_view(d.filters@) == gtk3_filters(filters_view(opt.filters@)),
            gtk3_selection(d, *opt),
            d.current_name is None,
            d.select_multiple,
            !d.confirm_overwrite,
    {
        let mut d = GtkFileDialog::build_pick_file(opt);
        d.select_multiple = true;
        d
    }

    /// The chooser that picks one folder; folders are not filtered.
    pub fn build_pick_folder(opt: &FileDialog) -> (d: GtkFileDialog)
        requires
            title_ok(*opt),
        ensures
            gtk3_chooser(d, *opt, "Select Folder"@, GtkFileChooserAction::SelectFolder, "Select"@),
            d.filters@.len() == 0,
            gtk3_selection(d, *opt),
            d.current_name is None,
            !d.select_multiple,
            !d.confirm_overwrite,
    {
        proof {
            lemma_fixed_labels();
        }
        let mut d = chooser_for(opt, "Select Folder", GtkFileChooserAction::SelectFolder, "Select");
        select_name(&mut d, opt);
        d
    }

    /// The chooser that picks several folders.
    pub fn build_pick_folders(opt: &FileDialog) -> (d: GtkFileDialog)
        requires
            title_ok(*opt),
        ensures
            gtk3_chooser(d, *opt, "Select Folder"@, GtkFileChooserAction::SelectFolder, "Select"@),
            d.filters@.len() == 0,
            gtk3_selection(d, *opt),
            d.current_name is None,
            d.select_multiple,
            !d.confirm_overwrite,
    {
        let mut d = GtkFileDialog::build_pick_folder(opt);
        d.select_multiple = true;
        d
    }

    /// The chooser that saves a file, asking before overwriting. It selects the options'
    /// file in their starting directory when that file exists (`joined_exists`), and
    /// otherwise proposes the name for a new file.
    pub fn build_save_file(opt: &FileDialog, joined_exists: bool) -> (d: GtkFileDialog)
        requires
            title_ok(*opt),
        ensures
            gtk3_chooser(d, *opt, "Save File"@, GtkFileChooserAction::Save, "Save"@),
            filter_list_view(d.filters@) == gtk3_filters(filters_view(opt.filters@)),
            d.confirm_overwrite,
            !d.select_multiple,
            match opt.file_name {
                Some(n) => if opt.starting_directory is Some && joined_exists {
                    &&& d.file_name matches Some(Gtk3FileName::InFolder(f))
                        && f.folder == opt.starting_directory->0 && f.name@ == n@
                    &&& d.current_name is None
                } else {
                    &&& text_of(d.current_name) == if no_nul(n@) {
                        Some(n@)
                    } else {
                        None
                    }
                    &&& d.file_name is None
                },
                None => d.file_name is None && d.current_name is None,
            },
    {
        proof {
            lemma_fixed_labels();
        }
        let mut d = chooser_for(opt, "Save File", GtkFileChooserAction::Save, "Save");
        d.confirm_overwrite = true;
        d.add_filters(opt.filters.as_slice());
        match (&opt.starting_directory, &opt.file_name) {
            (Some(dir), Some(n)) => {
                if joined_exists {
                    d.file_name = Some(Gtk3FileName::InFolder(InitialFile { folder: dir.clone(), name: n.clone() }));
                } else {
                    d.set_current_name(Some(n.as_str()));
                }
            },
            (None, Some(n)) => {
                d.set_current_name(Some(n.as_str()));
            },
            _ => {},
        }
        proof {
            assert(filter_list_view(Seq::<GtkFileFilter>::empty()) + gtk3_filters(filters_view(opt.filters@)) =~= gtk3_filters(filters_view(opt.filters@)));
        }
        d
    }
}

/// The path a chooser reports for a file name's bytes: none unless they are valid UTF-8.
pub open spec fn reported_path(name: Seq<u8>) -> Option<PathBuf> {
    if valid_utf8(name) {
        Some(path_of(decode_utf8(name)))
    } else {
        None
    }
}

/// The paths reported for several file names, in order, skipping names that are not
/// valid UTF-8.
pub open spec fn reported_paths(names: Seq<Seq<u8>>) -> Seq<PathBuf>
    decreases names.len(),
{
    if names.len() == 0 {
        Seq::empty()
    } else {
        let rest = reported_paths(names.drop_last());
        match reported_path(names.last()) {
            Some(p) => rest.push(p),
            None => rest,
        }
    }
}

/// The views of a list of byte strings.
pub open spec fn bytes_view(v: Seq<Vec<u8>>) -> Seq<Seq<u8>> {
    v.map_values(|b: Vec<u8>| b@)
}

impl GtkFileDialog {
    /// The path of the file chosen, from the bytes of its name.
    pub fn get_result(chosen: &[u8]) -> (r: Option<PathBuf>)
        ensures
            r == reported_path(chosen@),
    {
        match utf8_text(chosen) {
            Some(s) => Some(path_from(s.to_string())),
            None => None,
        }
    }

    /// The paths of the files chosen, from the bytes of their names.
    pub fn get_results(chosen: Vec<Vec<u8>>) -> (r: Vec<PathBuf>)
        ensures
            r@ == reported_paths(bytes_view(chosen@)),
    {
        let mut paths: Vec<PathBuf> = Vec::new();
        let mut i: usize = 0;
        while i < chosen.len()
            invariant
                0 <= i <= chosen@.len(),
                paths@ == reported_paths(bytes_view(chosen@).take(i as int)),
            decreases chosen@.len() - i,
        {
            proof {
                assert(bytes_view(chosen@).take(i + 1).drop_last() =~= bytes_view(chosen@).take(i as int));
                assert(bytes_view(chosen@)[i as int] == chosen@[i as int]@);
            }
            match GtkFileDialog::get_result(chosen[i].as_slice()) {
                Some(p) => paths.push(p),
                None => {},
            }
            i = i + 1;
        }
        proof {
            assert(bytes_view(chosen@).take(i as int) =~= bytes_view(chosen@));
        }
        paths
    }
}

/// The file a chooser yields: the one chosen when it was accepted, nothing otherwise.
pub fn chosen_file(res: i32, chosen: &[u8]) -> (r: Option<PathBuf>)
    ensures
        res == GTK_RESPONSE_ACCEPT ==> r == reported_path(chosen@),
        res != GTK_RESPONSE_ACCEPT ==> r is None,
{
    if res == GTK_RESPONSE_ACCEPT {
        GtkFileDialog::get_result(chosen)
    } else {
        None
    }
}

/// The files a chooser yields: those chosen when it was accepted, nothing otherwise.
pub fn chosen_files(res: i32, chosen: Vec<Vec<u8>>) -> (r: Option<Vec<PathBuf>>)
    ensures
        res == GTK_RESPONSE_ACCEPT ==> (r matches Some(v) && v@ == reported_paths(bytes_view(chosen@))),
        res != GTK_RESPONSE_ACCEPT ==> r is None,
{
    if res == GTK_RESPONSE_ACCEPT {
        Some(GtkFileDialog::get_results(chosen))
    } else {
        None
    }
}

/// Each button the GTK 3 message dialog adds answers what its label stands for: the
/// label itself for custom buttons, the standard answer for standard ones.
pub proof fn law_gtk3_button_answers_its_label(b: ButtonsView, k: int)
    requires
        0 <= k < gtk3_added_buttons(b).len(),
    ensures
        gtk3_result(b, gtk3_added_buttons(b)[k].1) == label_meaning(b, gtk3_added_buttons(b)[k].0),
{
    reveal_strlit("OK");
    reveal_strlit("Cancel");
    reveal_strlit("Yes");
    reveal_strlit("No");
    assert("OK"@.len() == 2 && "OK"@[0] == 'O');
    assert("Cancel"@.len() == 6);
    assert("Yes"@.len() == 3);
    assert("No"@.len() == 2 && "No"@[0] == 'N');
}

} // verus!
