//! Windows backend: how the Common Item Dialog and the message boxes are set up, and how
//! their answers are read.
use crate::backend::web_fallback::join;
use crate::backend::linux::zenity::star_patterns;
use crate::file_dialog::{filters_view, path_text, path_to_str, FileDialog, Filter, FilterView};
use crate::message_dialog::{
    ParentWindow, ButtonsView, MessageButtons, MessageDialog, MessageDialogResult, MessageLevel,
    ResultView,
};
use crate::text::{chars_of, find, lemma_find, lemma_find_is, occurs_at, push_str, starts_with_at, string_of};
use vstd::prelude::*;

verus! {

/// `MessageBoxW`'s style with one OK button.
pub const MB_OK: u32 = 0x0;

/// `MessageBoxW`'s style with OK and Cancel.
pub const MB_OKCANCEL: u32 = 0x1;

/// `MessageBoxW`'s style with Yes, No and Cancel.
pub const MB_YESNOCANCEL: u32 = 0x3;

/// `MessageBoxW`'s style with Yes and No.
pub const MB_YESNO: u32 = 0x4;

/// `MessageBoxW`'s error icon.
pub const MB_ICONERROR: u32 = 0x10;

/// `MessageBoxW`'s warning icon.
pub const MB_ICONWARNING: u32 = 0x30;

/// `MessageBoxW`'s information icon.
pub const MB_ICONINFORMATION: u32 = 0x40;

/// The id of an OK answer.
pub const IDOK: i32 = 1;

/// The id of a Cancel answer.
pub const IDCANCEL: i32 = 2;

/// The id of a Yes answer.
pub const IDYES: i32 = 6;

/// The id of a No answer.
pub const IDNO: i32 = 7;

/// The task dialog's common OK button.
pub const TDCBF_OK_BUTTON: i32 = 0x1;

/// The task dialog's common Yes button.
pub const TDCBF_YES_BUTTON: i32 = 0x2;

/// The task dialog's common No button.
pub const TDCBF_NO_BUTTON: i32 = 0x4;

/// The task dialog's common Cancel button.
pub const TDCBF_CANCEL_BUTTON: i32 = 0x8;

/// The id of a custom OK button.
pub const ID_CUSTOM_OK: i32 = 1000;

/// The id of a custom Cancel button.
pub const ID_CUSTOM_CANCEL: i32 = 1001;

/// The id of a custom Yes button.
pub const ID_CUSTOM_YES: i32 = 1004;

/// The id of a custom No button.
pub const ID_CUSTOM_NO: i32 = 1008;

/// The file dialog option that picks folders.
pub const FOS_PICKFOLDERS: u32 = 0x20;

/// The file dialog option that allows choosing several items.
pub const FOS_ALLOWMULTISELECT: u32 = 0x200;

// ----------------------------------------------------------------------------
// Message dialogs
// ----------------------------------------------------------------------------

/// The icon of a message box for a level.
pub open spec fn icon_flag(level: MessageLevel) -> u32 {
    match level {
        MessageLevel::Info => MB_ICONINFORMATION,
        MessageLevel::Warning => MB_ICONWARNING,
        MessageLevel::Error => MB_ICONERROR,
    }
}

/// The buttons of a message box; custom labels cannot be shown, so custom buttons get
/// the standard buttons of their kind.
pub open spec fn buttons_flag(b: ButtonsView) -> u32 {
    match b {
        ButtonsView::Okay | ButtonsView::OkCustom(_) => MB_OK,
        ButtonsView::OkCancel | ButtonsView::OkCancelCustom(_, _) => MB_OKCANCEL,
        ButtonsView::YesNo => MB_YESNO,
        ButtonsView::YesNoCancel | ButtonsView::YesNoCancelCustom(_, _, _) => MB_YESNOCANCEL,
    }
}

/// A Windows message dialog as set up: its text, its caption, the message box's style,
/// and the options (which the task dialog reads).
pub struct WinMessageDialog {
    /// The parent window's `HWND`, if any.
    pub parent: Option<isize>,
    pub text: String,
    pub caption: String,
    pub flags: u32,
    pub opt: MessageDialog,
}

/// The answer of a message box for the id it returned.
pub open spec fn message_box_answer(ret: i32) -> ResultView {
    if ret == IDOK {
        ResultView::Okay
    } else if ret == IDYES {
        ResultView::Yes
    } else if ret == IDCANCEL {
        ResultView::Cancel
    } else if ret == IDNO {
        ResultView::No
    } else {
        ResultView::Cancel
    }
}

/// The common buttons and custom buttons (id and label) of the task dialog.
pub open spec fn task_buttons(b: ButtonsView) -> (i32, Seq<(i32, Seq<char>)>) {
    match b {
        ButtonsView::Okay => (TDCBF_OK_BUTTON, seq![]),
        ButtonsView::OkCancel => (TDCBF_OK_BUTTON | TDCBF_CANCEL_BUTTON, seq![]),
        ButtonsView::YesNo => (TDCBF_YES_BUTTON | TDCBF_NO_BUTTON, seq![]),
        ButtonsView::YesNoCancel => (TDCBF_YES_BUTTON | TDCBF_NO_BUTTON | TDCBF_CANCEL_BUTTON, seq![]),
        ButtonsView::OkCustom(ok) => (0, seq![(ID_CUSTOM_OK, ok)]),
        ButtonsView::OkCancelCustom(ok, cancel) => (0, seq![(ID_CUSTOM_OK, ok), (ID_CUSTOM_CANCEL, cancel)]),
        ButtonsView::YesNoCancelCustom(yes, no, cancel) => (
            0,
            seq![(ID_CUSTOM_YES, yes), (ID_CUSTOM_NO, no), (ID_CUSTOM_CANCEL, cancel)],
        ),
    }
}

/// The answer of the task dialog: `Cancel` when it failed (`hresult` not zero); else
/// the standard answer of a standard id, and the label of a custom button's id.
pub open spec fn task_answer(b: ButtonsView, hresult: i32, button: i32) -> ResultView {
    if hresult != 0 {
        ResultView::Cancel
    } else if button == IDOK {
        ResultView::Okay
    } else if button == IDYES {
        ResultView::Yes
    } else if button == IDCANCEL {
        ResultView::Cancel
    } else if button == IDNO {
        ResultView::No
    } else {
        match b {
            ButtonsView::OkCustom(ok) => if button == ID_CUSTOM_OK {
                ResultView::Custom(ok)
            } else {
                ResultView::Cancel
            },
            ButtonsView::OkCancelCustom(ok, cancel) => if button == ID_CUSTOM_OK {
                ResultView::Custom(ok)
            } else if button == ID_CUSTOM_CANCEL {
                ResultView::Custom(cancel)
            } else {
                ResultView::Cancel
            },
            ButtonsView::YesNoCancelCustom(yes, no, cancel) => if button == ID_CUSTOM_YES {
                ResultView::Custom(yes)
            } else if button == ID_CUSTOM_NO {
                ResultView::Custom(no)
            } else if button == ID_CUSTOM_CANCEL {
                ResultView::Custom(cancel)
            } else {
                ResultView::Cancel
            },
            _ => ResultView::Cancel,
        }
    }
}

/// The parent is a Win32 window or there is none; the dialogs cannot be attached to any
/// other kind of window.
pub open spec fn win32_parent_ok(p: Option<ParentWindow>) -> bool {
    match p {
        Some(ParentWindow::Win32(_)) => true,
        Some(_) => false,
        None => true,
    }
}

/// The `HWND` of a Win32 parent.
pub open spec fn win32_handle(p: Option<ParentWindow>) -> Option<isize> {
    match p {
        Some(ParentWindow::Win32(h)) => Some(h),
        _ => None,
    }
}

fn hwnd_of(p: &Option<ParentWindow>) -> (r: Option<isize>)
    requires
        win32_parent_ok(*p),
    ensures
        r == win32_handle(*p),
{
    match p {
        Some(ParentWindow::Win32(h)) => Some(*h),
        _ => None,
    }
}

/// The views of custom task dialog buttons.
pub open spec fn custom_buttons_view(v: Seq<(i32, String)>) -> Seq<(i32, Seq<char>)> {
    v.map_values(|b: (i32, String)| (b.0, b.1@))
}

fn custom(id: i32, label: &String) -> (b: (i32, String))
    ensures
        b.0 == id,
        b.1@ == label@,
{
    (id, label.clone())
}

impl WinMessageDialog {
    /// Sets the dialog up for the options; a parent must be a Win32 window.
    pub fn new(opt: MessageDialog) -> (d: WinMessageDialog)
        requires
            win32_parent_ok(opt.parent),
        ensures
            d.parent == win32_handle(opt.parent),
            d.text@ == opt.description@,
            d.caption@ == opt.title@,
            d.flags == icon_flag(opt.level) | buttons_flag(opt.buttons@),
            d.opt.title@ == opt.title@,
            d.opt.description@ == opt.description@,
            d.opt.level == opt.level,
            d.opt.buttons@ == opt.buttons@,
    {
        let level = match opt.level {
            MessageLevel::Info => MB_ICONINFORMATION,
            MessageLevel::Warning => MB_ICONWARNING,
            MessageLevel::Error => MB_ICONERROR,
        };
        let buttons = match &opt.buttons {
            MessageButtons::Okay | MessageButtons::OkCustom(_) => MB_OK,
            MessageButtons::OkCancel | MessageButtons::OkCancelCustom(_, _) => MB_OKCANCEL,
            MessageButtons::YesNo => MB_YESNO,
            MessageButtons::YesNoCancel | MessageButtons::YesNoCancelCustom(_, _, _) => MB_YESNOCANCEL,
        };
        WinMessageDialog {
            parent: hwnd_of(&opt.parent),
            text: opt.description.clone(),
            caption: opt.title.clone(),
            flags: level | buttons,
            opt,
        }
    }

    /// The answer for the id the message box returned.
    pub fn message_box_result(&self, ret: i32) -> (r: MessageDialogResult)
        ensures
            r@ == message_box_answer(ret),
    {
        if ret == IDOK {
            MessageDialogResult::Okay
        } else if ret == IDYES {
            MessageDialogResult::Yes
        } else if ret == IDCANCEL {
            MessageDialogResult::Cancel
        } else if ret == IDNO {
            MessageDialogResult::No
        } else {
            MessageDialogResult::Cancel
        }
    }

    /// The task dialog's common buttons and custom buttons.
    pub fn task_dialog_buttons(&self) -> (r: (i32, Vec<(i32, String)>))
        ensures
            r.0 == task_buttons(self.opt.buttons@).0,
            custom_buttons_view(r.1@) == task_buttons(self.opt.buttons@).1,
    {
        let mut v: Vec<(i32, String)> = Vec::new();
        let common = match &self.opt.buttons {
            MessageButtons::Okay => TDCBF_OK_BUTTON,
            MessageButtons::OkCancel => TDCBF_OK_BUTTON | TDCBF_CANCEL_BUTTON,
            MessageButtons::YesNo => TDCBF_YES_BUTTON | TDCBF_NO_BUTTON,
            MessageButtons::YesNoCancel => TDCBF_YES_BUTTON | TDCBF_NO_BUTTON | TDCBF_CANCEL_BUTTON,
            MessageButtons::OkCustom(ok) => {
                v.push(custom(ID_CUSTOM_OK, ok));
                0
            },
            MessageButtons::OkCancelCustom(ok, cancel) => {
                v.push(custom(ID_CUSTOM_OK, ok));
                v.push(custom(ID_CUSTOM_CANCEL, cancel));
                0
            },
            MessageButtons::YesNoCancelCustom(yes, no, cancel) => {
                v.push(custom(ID_CUSTOM_YES, yes));
                v.push(custom(ID_CUSTOM_NO, no));
                v.push(custom(ID_CUSTOM_CANCEL, cancel));
                0
            },
        };
        proof {
            assert(custom_buttons_view(v@) =~= task_buttons(self.opt.buttons@).1);
        }
        (common, v)
    }

    /// The answer of the task dialog, from the code it returned and the id of the
    /// button pressed.
    pub fn task_dialog_result(&self, hresult: i32, button: i32) -> (r: MessageDialogResult)
        ensures
            r@ == task_answer(self.opt.buttons@, hresult, button),
    {
        if hresult != 0 {
            return MessageDialogResult::Cancel;
        }
        if button == IDOK {
            MessageDialogResult::Okay
        } else if button == IDYES {
            MessageDialogResult::Yes
        } else if button == IDCANCEL {
            MessageDialogResult::Cancel
        } else if button == IDNO {
            MessageDialogResult::No
        } else {
            match &self.opt.buttons {
                MessageButtons::OkCustom(ok) => if button == ID_CUSTOM_OK {
                    MessageDialogResult::Custom(ok.clone())
                } else {
                    MessageDialogResult::Cancel
                },
                MessageButtons::OkCancelCustom(ok, cancel) => if button == ID_CUSTOM_OK {
                    MessageDialogResult::Custom(ok.clone())
                } else if button == ID_CUSTOM_CANCEL {
                    MessageDialogResult::Custom(cancel.clone())
                } else {
                    MessageDialogResult::Cancel
                },
                MessageButtons::YesNoCancelCustom(yes, no, cancel) => if button == ID_CUSTOM_YES {
                    MessageDialogResult::Custom(yes.clone())
                } else if button == ID_CUSTOM_NO {
                    MessageDialogResult::Custom(no.clone())
                } else if button == ID_CUSTOM_CANCEL {
                    MessageDialogResult::Custom(cancel.clone())
                } else {
                    MessageDialogResult::Cancel
                },
                _ => MessageDialogResult::Cancel,
            }
        }
    }
}

// ----------------------------------------------------------------------------
// File dialogs
// ----------------------------------------------------------------------------

/// A Common Item Dialog as set up: open or save, the default extension, the file types
/// (name and pattern list), the folder shown at first, the file name, the title and the
/// options.
pub struct IDialog {
    pub save: bool,
    /// The parent window's `HWND`, if any.
    pub parent: Option<isize>,
    pub default_extension: Option<String>,
    pub file_types: Option<Vec<(String, String)>>,
    pub folder: Option<String>,
    pub file_name: Option<String>,
    pub title: Option<String>,
    pub options: Option<u32>,
}

/// The pattern list of a filter: `*.a;*.b`.
pub open spec fn filter_spec(f: FilterView) -> Seq<char> {
    join(star_patterns(f.extensions), ";"@)
}

/// The file types for a list of filters: each name with its pattern list.
pub open spec fn file_types_of(fs: Seq<FilterView>) -> Seq<(Seq<char>, Seq<char>)> {
    fs.map_values(|f: FilterView| (f.name, filter_spec(f)))
}

/// The views of a list of file types.
pub open spec fn file_types_view(v: Seq<(String, String)>) -> Seq<(Seq<char>, Seq<char>)> {
    v.map_values(|t: (String, String)| (t.0@, t.1@))
}

fn spec_string(f: &Filter) -> (r: String)
    ensures
        r@ == filter_spec(f@),
{
    let mut r = String::new();
    let ghost pats = star_patterns(f@.extensions);
    let mut i: usize = 0;
    while i < f.extensions.len()
        invariant
            0 <= i <= f.extensions@.len(),
            pats == star_patterns(f@.extensions),
            r@ == join(pats.take(i as int), ";"@),
        decreases f.extensions@.len() - i,
    {
        if i > 0 {
            push_str(&mut r, ";");
        }
        push_str(&mut r, "*.");
        push_str(&mut r, f.extensions[i].as_str());
        proof {
            assert(f@.extensions[i as int] == f.extensions@[i as int]@);
            assert(pats.take(i + 1).drop_last() =~= pats.take(i as int));
            if i == 0 {
                assert(join(pats.take(1), ";"@) == pats[0]);
            }
            assert(r@ =~= join(pats.take(i + 1), ";"@));
        }
        i = i + 1;
    }
    proof {
        assert(pats.take(i as int) =~= pats);
    }
    r
}

/// A path's text without the Win32 namespace prefix `\\?\`.
pub open spec fn without_namespace(t: Seq<char>) -> Seq<char> {
    if "\\\\?\\"@.is_prefix_of(t) {
        t.skip(4)
    } else {
        t
    }
}

/// Only a leading `\\?\` is taken off: a path written behind it comes back as it was,
/// and a text that does not begin with it is left whole.
pub proof fn law_namespace_prefix_comes_off(r: Seq<char>, t: Seq<char>)
    ensures
        without_namespace(seq!['\\', '\\', '?', '\\'] + r) == r,
        !(t.len() >= 4 && t.take(4) == seq!['\\', '\\', '?', '\\']) ==> without_namespace(t) == t,
{
    reveal_strlit("\\\\?\\");
    let p = seq!['\\', '\\', '?', '\\'];
    assert("\\\\?\\"@ =~= p);
    let w = p + r;
    assert(w.subrange(0, 4) =~= p);
    assert(w.skip(4) =~= r);
    if "\\\\?\\"@.is_prefix_of(t) {
        assert(t.take(4) =~= t.subrange(0, 4));
    }
}

/// A path's text without the Win32 namespace prefix `\\?\`, if it has one.
pub fn strip_namespace(t: &str) -> (r: String)
    ensures
        r@ == without_namespace(t@),
{
    let v = chars_of(t);
    let prefix = chars_of("\\\\?\\");
    proof {
        reveal_strlit("\\\\?\\");
        assert(v@.subrange(0, v@.len() as int) =~= v@);
    }
    if starts_with_at(&v, 0, v.len(), &prefix) {
        proof {
            assert(v@.subrange(4, v@.len() as int) =~= v@.skip(4));
        }
        string_of(&v, 4, v.len())
    } else {
        t.to_string()
    }
}

/// The folder text for a starting directory: its text without the namespace prefix,
/// when it has a Unicode text.
pub open spec fn folder_text(dir: Option<std::path::PathBuf>) -> Option<Seq<char>> {
    match dir {
        Some(p) => match path_text(p) {
            Some(t) => Some(without_namespace(t)),
            None => None,
        },
        None => None,
    }
}

/// An optional text's view.
pub open spec fn text_opt(o: Option<String>) -> Option<Seq<char>> {
    match o {
        Some(s) => Some(s@),
        None => None,
    }
}

/// The default extension for a list of filters: the first extension of the first
/// filter, if both exist.
pub open spec fn default_extension_of(fs: Seq<FilterView>) -> Option<Seq<char>> {
    if fs.len() > 0 && fs[0].extensions.len() > 0 {
        Some(fs[0].extensions[0])
    } else {
        None
    }
}

impl IDialog {
    fn fresh(save: bool, parent: Option<isize>) -> (d: IDialog)
        ensures
            d.save == save,
            d.parent == parent,
            d.default_extension is None,
            d.file_types is None,
            d.folder is None,
            d.file_name is None,
            d.title is None,
            d.options is None,
    {
        IDialog {
            save,
            parent,
            default_extension: None,
            file_types: None,
            folder: None,
            file_name: None,
            title: None,
            options: None,
        }
    }

    /// Sets the default extension and the file types from the filters; nothing for no
    /// filters.
    pub fn add_filters(&mut self, filters: &[Filter])
        ensures
            filters@.len() == 0 ==> final(self).file_types == old(self).file_types,
            filters@.len() > 0 ==> (final(self).file_types matches Some(v) && file_types_view(v@)
                == file_types_of(filters_view(filters@))),
            default_extension_of(filters_view(filters@)) matches Some(e) ==> (
            final(self).default_extension matches Some(d) && d@ == e),
            default_extension_of(filters_view(filters@)) is None ==> final(self).default_extension
                == old(self).default_extension,
            final(self).save == old(self).save,
            final(self).parent == old(self).parent,
            final(self).folder == old(self).folder,
            final(self).file_name == old(self).file_name,
            final(self).title == old(self).title,
            final(self).options == old(self).options,
    {
        if filters.len() == 0 {
            return;
        }
        proof {
            assert(filters_view(filters@)[0] == filters@[0]@);
        }
        if filters[0].extensions.len() > 0 {
            self.default_extension = Some(filters[0].extensions[0].clone());
        }
        let mut list: Vec<(String, String)> = Vec::new();
        let mut i: usize = 0;
        while i < filters.len()
            invariant
                0 <= i <= filters@.len(),
                list@.len() == i,
                file_types_view(list@) == file_types_of(filters_view(filters@).take(i as int)),
            decreases filters@.len() - i,
        {
            let ghost before = list@;
            let spec = spec_string(&filters[i]);
            list.push((filters[i].name.clone(), spec));
            proof {
                assert(filters_view(filters@)[i as int] == filters@[i as int]@);
                assert forall|k: int| 0 <= k < i implies file_types_view(list@)[k] == file_types_of(
                    filters_view(filters@).take(i + 1),
                )[k] by {
                    assert(file_types_view(before)[k] == file_types_of(filters_view(filters@).take(i as int))[k]);
                }
                assert(file_types_view(list@) =~= file_types_of(filters_view(filters@).take(i + 1)));
            }
            i = i + 1;
        }
        proof {
            assert(filters_view(filters@).take(i as int) =~= filters_view(filters@));
        }
        self.file_types = Some(list);
    }

    /// Shows the starting directory at first, when it has a Unicode text.
    pub fn set_path(&mut self, path: &Option<std::path::PathBuf>)
        ensures
            folder_text(*path) matches Some(t) ==> (final(self).folder matches Some(f) && f@ == t),
            folder_text(*path) is None ==> final(self).folder == old(self).folder,
            final(self).save == old(self).save,
            final(self).parent == old(self).parent,
            final(self).default_extension == old(self).default_extension,
            final(self).file_types == old(self).file_types,
            final(self).file_name == old(self).file_name,
            final(self).title == old(self).title,
            final(self).options == old(self).options,
    {
        let p = match path {
            Some(p) => p,
            None => {
                return;
            },
        };
        let t = match path_to_str(p) {
            Some(t) => t,
            None => {
                return;
            },
        };
        self.folder = Some(strip_namespace(t));
    }

    /// Proposes the file name, if any.
    pub fn set_file_name(&mut self, file_name: &Option<String>)
        ensures
            text_opt(*file_name) is Some ==> text_opt(final(self).file_name) == text_opt(*file_name),
            text_opt(*file_name) is None ==> final(self).file_name == old(self).file_name,
            final(self).save == old(self).save,
            final(self).parent == old(self).parent,
            final(self).default_extension == old(self).default_extension,
            final(self).file_types == old(self).file_types,
            final(self).folder == old(self).folder,
            final(self).title == old(self).title,
            final(self).options == old(self).options,
    {
        match file_name {
            Some(n) => {
                self.file_name = Some(n.clone());
            },
            None => {},
        }
    }

    /// Sets the title, if any.
    pub fn set_title(&mut self, title: &Option<String>)
        ensures
            text_opt(*title) is Some ==> text_opt(final(self).title) == text_opt(*title),
            text_opt(*title) is None ==> final(self).title == old(self).title,
            final(self).save == old(self).save,
            final(self).parent == old(self).parent,
            final(self).default_extension == old(self).default_extension,
            final(self).file_types == old(self).file_types,
            final(self).folder == old(self).folder,
            final(self).file_name == old(self).file_name,
            final(self).options == old(self).options,
    {
        match title {
            Some(t) => {
                self.title = Some(t.clone());
            },
            None => {},
        }
    }
}

impl IDialog {
    /// An open dialog with nothing set, attached to the options' parent, which must be a
    /// Win32 window.
    pub fn new_open_dialog(opt: &FileDialog) -> (d: IDialog)
        requires
            win32_parent_ok(opt.parent),
        ensures
            !d.save,
            d.parent == win32_handle(opt.parent),
            d.default_extension is None,
            d.file_types is None,
            d.folder is None,
            d.file_name is None,
            d.title is None,
            d.options is None,
    {
        IDialog::fresh(false, hwnd_of(&opt.parent))
    }

    /// A save dialog with nothing set, attached to the options' parent, which must be a
    /// Win32 window.
    pub fn new_save_dialog(opt: &FileDialog) -> (d: IDialog)
        requires
            win32_parent_ok(opt.parent),
        ensures
            d.save,
            d.parent == win32_handle(opt.parent),
            d.default_extension is None,
            d.file_types is None,
            d.folder is None,
            d.file_name is None,
            d.title is None,
            d.options is None,
    {
        IDialog::fresh(true, hwnd_of(&opt.parent))
    }
}

/// What a dialog built for options shows: the options' filters (when `filtered`), their
/// starting directory, their file name (when `named`) and their title.
pub open spec fn shows_options(d: IDialog, opt: FileDialog, filtered: bool, named: bool) -> bool {
    &&& filtered && opt.filters@.len() > 0 ==> (d.file_types matches Some(v) && file_types_view(v@)
        == file_types_of(filters_view(opt.filters@)))
    &&& !(filtered && opt.filters@.len() > 0) ==> d.file_types is None
    &&& text_opt(d.default_extension) == if filtered {
        default_extension_of(filters_view(opt.filters@))
    } else {
        None
    }
    &&& text_opt(d.folder) == folder_text(opt.starting_directory)
    &&& text_opt(d.file_name) == if named {
        text_opt(opt.file_name)
    } else {
        None
    }
    &&& text_opt(d.title) == text_opt(opt.title)
}

fn configured(opt: &FileDialog, save: bool, filtered: bool, named: bool) -> (d: IDialog)
    requires
        win32_parent_ok(opt.parent),
    ensures
        d.save == save,
        d.parent == win32_handle(opt.parent),
        shows_options(d, *opt, filtered, named),
        d.options is None,
{
    let mut d = if save {
        IDialog::new_save_dialog(opt)
    } else {
        IDialog::new_open_dialog(opt)
    };
    if filtered {
        d.add_filters(opt.filters.as_slice());
    }
    d.set_path(&opt.starting_directory);
    if named {
        d.set_file_name(&opt.file_name);
    }
    d.set_title(&opt.title);
    d
}

impl IDialog {
    /// The open dialog that picks one file.
    pub fn build_pick_file(opt: &FileDialog) -> (d: IDialog)
        requires
            win32_parent_ok(opt.parent),
        ensures
            d.parent == win32_handle(opt.parent),
            !d.save,
            shows_options(d, *opt, true, true),
            d.options is None,
    {
        configured(opt, false, true, true)
    }

    /// The save dialog.
    pub fn build_save_file(opt: &FileDialog) -> (d: IDialog)
        requires
            win32_parent_ok(opt.parent),
        ensures
            d.parent == win32_handle(opt.parent),
            d.save,
            shows_options(d, *opt, true, true),
            d.options is None,
    {
        configured(opt, true, true, true)
    }

    /// The open dialog that picks one folder.
    pub fn build_pick_folder(opt: &FileDialog) -> (d: IDialog)
        requires
            win32_parent_ok(opt.parent),
        ensures
            d.parent == win32_handle(opt.parent),
            !d.save,
            shows_options(d, *opt, false, false),
            d.options == Some(FOS_PICKFOLDERS),
    {
        let mut d = configured(opt, false, false, false);
        d.options = Some(FOS_PICKFOLDERS);
        d
    }

    /// The open dialog that picks several folders.
    pub fn build_pick_folders(opt: &FileDialog) -> (d: IDialog)
        requires
            win32_parent_ok(opt.parent),
        ensures
            d.parent == win32_handle(opt.parent),
            !d.save,
            shows_options(d, *opt, false, false),
            d.options == Some(FOS_PICKFOLDERS | FOS_ALLOWMULTISELECT),
    {
        let mut d = configured(opt, false, false, false);
        d.options = Some(FOS_PICKFOLDERS | FOS_ALLOWMULTISELECT);
        d
    }

    /// The open dialog that picks several files.
    pub fn build_pick_files(opt: &FileDialog) -> (d: IDialog)
        requires
            win32_parent_ok(opt.parent),
        ensures
            d.parent == win32_handle(opt.parent),
            !d.save,
            shows_options(d, *opt, true, true),
            d.options == Some(FOS_ALLOWMULTISELECT),
    {
        let mut d = configured(opt, false, true, true);
        d.options = Some(FOS_ALLOWMULTISELECT);
        d
    }
}

/// UTF-16 decoding: a unit outside `0xD800..=0xDFFF` is the character of that code; a
/// high surrogate (`0xD800..=0xDBFF`) followed by a low one (`0xDC00..=0xDFFF`) is the
/// character `0x10000 + (high - 0xD800) * 0x400 + (low - 0xDC00)`; any other surrogate
/// makes the units invalid (`None`).
pub open spec fn utf16_decoded(u: Seq<u16>) -> Option<Seq<char>>
    decreases u.len(),
{
    if u.len() == 0 {
        Some(Seq::empty())
    } else if u[0] < 0xD800 || u[0] > 0xDFFF {
        match utf16_decoded(u.skip(1)) {
            Some(rest) => Some(seq![u[0] as char] + rest),
            None => None,
        }
    } else if u[0] <= 0xDBFF && u.len() >= 2 && 0xDC00 <= u[1] <= 0xDFFF {
        let code = 0x10000 + (u[0] - 0xD800) * 0x400 + (u[1] - 0xDC00);
        match utf16_decoded(u.skip(2)) {
            Some(rest) => Some(seq![code as char] + rest),
            None => None,
        }
    } else {
        None
    }
}

/// UTF-16 encoding: a character below `0x10000` is one unit of its code; any other is
/// a high surrogate `0xD800 + (code - 0x10000) / 0x400` followed by a low surrogate
/// `0xDC00 + (code - 0x10000) % 0x400`.
pub open spec fn utf16_encoded(s: Seq<char>) -> Seq<u16>
    decreases s.len(),
{
    if s.len() == 0 {
        Seq::empty()
    } else {
        let v = s[0] as u32 as int;
        let first = if v < 0x10000 {
            seq![v as u16]
        } else {
            seq![(0xD800 + (v - 0x10000) / 0x400) as u16, (0xDC00 + (v - 0x10000) % 0x400) as u16]
        };
        first + utf16_encoded(s.skip(1))
    }
}

/// Decoding undoes encoding: every text comes back from its UTF-16 units.
pub proof fn law_utf16_decoding_undoes_encoding(s: Seq<char>)
    ensures
        utf16_decoded(utf16_encoded(s)) == Some(s),
    decreases s.len(),
{
    if s.len() == 0 {
        assert(utf16_encoded(s) =~= Seq::<u16>::empty());
    } else {
        let c = s[0];
        let u = c as u32;
        let v = u as int;
        vstd::utf8::char_is_scalar(c);
        vstd::utf8::char_u32_cast(c, u);
        let e = utf16_encoded(s);
        let tail = utf16_encoded(s.skip(1));
        law_utf16_decoding_undoes_encoding(s.skip(1));
        if v < 0x10000 {
            assert(e =~= seq![v as u16] + tail);
            assert(e[0] as int == v);
            assert(e[0] < 0xD800 || e[0] > 0xDFFF);
            assert(e.skip(1) =~= tail);
            assert((e[0] as char) == (u as char));
            assert(seq![c] + s.skip(1) =~= s);
        } else {
            let w = v - 0x10000;
            assert(0 <= w < 0x100000);
            let hi = 0xD800 + w / 0x400;
            let lo = 0xDC00 + w % 0x400;
            assert(0 <= w / 0x400 < 0x400 && 0 <= w % 0x400 < 0x400 && w / 0x400 * 0x400 + w % 0x400
                == w) by (nonlinear_arith)
                requires
                    0 <= w < 0x100000,
            ;
            assert(e =~= seq![hi as u16, lo as u16] + tail);
            assert(e[0] as int == hi && e[1] as int == lo);
            assert(e.skip(2) =~= tail);
            let code = 0x10000 + (e[0] - 0xD800) * 0x400 + (e[1] - 0xDC00);
            assert(code == v);
            assert((code as char) == (u as char));
            assert(seq![c] + s.skip(1) =~= s);
        }
    }
}

/// `String::from_utf16`: the text of UTF-16 code units, or nothing when they are not
/// valid UTF-16, as std documents it.
#[verifier::external_body]
fn from_utf16(units: &[u16]) -> (r: Option<String>)
    ensures
        match r {
            Some(t) => utf16_decoded(units@) == Some(t@),
            None => utf16_decoded(units@) is None,
        },
{
    String::from_utf16(units).ok()
}

/// The code units of a wide string before its terminating NUL (all of them when there is
/// none).
pub open spec fn before_nul(units: Seq<u16>) -> Seq<u16> {
    match find(units, seq![0u16]) {
        Some(i) => units.take(i),
        None => units,
    }
}

/// The text of a NUL-terminated wide string, or nothing when the units before the NUL
/// are not valid UTF-16.
pub fn read_to_string(units: &[u16]) -> (r: Option<String>)
    ensures
        match r {
            Some(t) => utf16_decoded(before_nul(units@)) == Some(t@),
            None => utf16_decoded(before_nul(units@)) is None,
        },
{
    let n = units.len();
    let mut end: usize = 0;
    while end < n && units[end] != 0
        invariant
            0 <= end <= n,
            n == units@.len(),
            forall|j: int| 0 <= j < end ==> units@[j] != 0u16,
        decreases n - end,
    {
        end = end + 1;
    }
    proof {
        if end < n {
            assert(units@.subrange(end as int, end + 1) =~= seq![0u16]);
            assert forall|j: int| 0 <= j < end implies !occurs_at(units@, seq![0u16], j) by {
                assert(units@.subrange(j, j + 1)[0] == units@[j]);
            }
            lemma_find_is(units@, seq![0u16], end as int);
        } else {
            lemma_find(units@, seq![0u16]);
            if find(units@, seq![0u16]) is Some {
                let i = find(units@, seq![0u16])->0;
                assert(units@.subrange(i, i + 1)[0] == units@[i]);
            }
            assert(units@.take(end as int) =~= units@);
        }
    }
    let head = &units[0..end];
    proof {
        assert(head@ =~= before_nul(units@));
    }
    from_utf16(head)
}

/// What a COM call's code means: success for codes from zero up.
pub fn wrap_err(hresult: i32) -> (r: Result<(), i32>)
    ensures
        hresult >= 0 ==> r is Ok,
        hresult < 0 ==> r == Err::<(), i32>(hresult),
{
    if hresult >= 0 {
        Ok(())
    } else {
        Err(hresult)
    }
}

/// Each custom button of the task dialog answers its own label; a failed task dialog
/// answers `Cancel` whatever button id it reports.
pub proof fn law_task_button_answers_its_label(b: ButtonsView, k: int, button: i32, hresult: i32)
    requires
        0 <= k < task_buttons(b).1.len(),
    ensures
        task_answer(b, 0, task_buttons(b).1[k].0) == ResultView::Custom(task_buttons(b).1[k].1),
        hresult != 0 ==> task_answer(b, hresult, button) == ResultView::Cancel,
{
}

/// A message box's style holds its icon and its buttons apart: the low four bits give
/// back the buttons, the next four the icon.
pub proof fn law_message_box_style_decodes(level: MessageLevel, b: ButtonsView)
    ensures
        (icon_flag(level) | buttons_flag(b)) & 0xF == buttons_flag(b),
        (icon_flag(level) | buttons_flag(b)) & 0xF0 == icon_flag(level),
{
    let i = icon_flag(level);
    let k = buttons_flag(b);
    assert(i & 0xF == 0 && i < 0x100) by {
        let x = i;
        assert(x == 0x10 || x == 0x30 || x == 0x40);
        assert((x == 0x10u32 || x == 0x30u32 || x == 0x40u32) ==> x & 0xF == 0) by (bit_vector);
    }
    assert(k < 0x10);
    assert((i & 0xF == 0 && i < 0x100 && k < 0x10) ==> ((i | k) & 0xF == k && (i | k) & 0xF0 == i)) by (bit_vector);
}

} // verus!
