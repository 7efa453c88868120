//! GTK 4 backend: the dialogs it configures and how it reads the user's answer.
use crate::file_dialog::{filters_view, strings_view, FileDialog, Filter, FilterView};
use crate::message_dialog::{ButtonsView, MessageButtons, MessageDialog, MessageDialogResult, ResultView};
use crate::backend::web_fallback::{opt_view, or_default};
use crate::text::{push_str, str_is};
use std::path::PathBuf;
use vstd::prelude::*;

verus! {

/// The result of the GTK 4 alert for the index of the button the user chose.
pub open spec fn gtk4_result(b: ButtonsView, response: int) -> ResultView {
    match b {
        ButtonsView::Okay => if response == 0 {
            ResultView::Okay
        } else {
            ResultView::Cancel
        },
        ButtonsView::OkCancel => if response == 1 {
            ResultView::Okay
        } else {
            ResultView::Cancel
        },
        ButtonsView::YesNo => if response == 0 {
            ResultView::No
        } else if response == 1 {
            ResultView::Yes
        } else {
            ResultView::Cancel
        },
        ButtonsView::YesNoCancel => if response == 1 {
            ResultView::Yes
        } else if response == 2 {
            ResultView::No
        } else {
            ResultView::Cancel
        },
        ButtonsView::OkCustom(ok) => if response == 0 {
            ResultView::Custom(ok)
        } else {
            ResultView::Cancel
        },
        ButtonsView::OkCancelCustom(ok, cancel) => if response == 0 {
            ResultView::Custom(cancel)
        } else if response == 1 {
            ResultView::Custom(ok)
        } else {
            ResultView::Cancel
        },
        ButtonsView::YesNoCancelCustom(yes, no, cancel) => if response == 0 {
            ResultView::Custom(cancel)
        } else if response == 1 {
            ResultView::Custom(yes)
        } else if response == 2 {
            ResultView::Custom(no)
        } else {
            ResultView::Cancel
        },
    }
}

/// The result for the index of the button chosen.
pub fn message_result(buttons: &MessageButtons, response: i32) -> (r: MessageDialogResult)
    ensures
        r@ == gtk4_result(buttons@, response as int),
{
    match buttons {
        MessageButtons::Okay => if response == 0 {
            MessageDialogResult::Okay
        } else {
            MessageDialogResult::Cancel
        },
        MessageButtons::OkCancel => if response == 1 {
            MessageDialogResult::Okay
        } else {
            MessageDialogResult::Cancel
        },
        MessageButtons::YesNo => if response == 0 {
            MessageDialogResult::No
        } else if response == 1 {
            MessageDialogResult::Yes
        } else {
            MessageDialogResult::Cancel
        },
        MessageButtons::YesNoCancel => if response == 1 {
            MessageDialogResult::Yes
        } else if response == 2 {
            MessageDialogResult::No
        } else {
            MessageDialogResult::Cancel
        },
        MessageButtons::OkCustom(ok) => if response == 0 {
            MessageDialogResult::Custom(ok.clone())
        } else {
            MessageDialogResult::Cancel
        },
        MessageButtons::OkCancelCustom(ok, cancel) => if response == 0 {
            MessageDialogResult::Custom(cancel.clone())
        } else if response == 1 {
            MessageDialogResult::Custom(ok.clone())
        } else {
            MessageDialogResult::Cancel
        },
        MessageButtons::YesNoCancelCustom(yes, no, cancel) => if response == 0 {
            MessageDialogResult::Custom(cancel.clone())
        } else if response == 1 {
            MessageDialogResult::Custom(yes.clone())
        } else if response == 2 {
            MessageDialogResult::Custom(no.clone())
        } else {
            MessageDialogResult::Cancel
        },
    }
}

/// The dialog offers a single button.
pub open spec fn is_single_button(b: ButtonsView) -> bool {
    b is Okay || b is OkCustom
}

/// The labels of the alert's buttons, in order.
pub open spec fn alert_labels(b: ButtonsView) -> Seq<Seq<char>> {
    match b {
        ButtonsView::Okay => seq!["OK"@],
        ButtonsView::OkCancel => seq!["Cancel"@, "OK"@],
        ButtonsView::YesNo => seq!["No"@, "Yes"@],
        ButtonsView::YesNoCancel => seq!["Cancel"@, "Yes"@, "No"@],
        ButtonsView::OkCustom(ok) => seq![ok],
        ButtonsView::OkCancelCustom(ok, cancel) => seq![cancel, ok],
        ButtonsView::YesNoCancelCustom(yes, no, cancel) => seq![cancel, yes, no],
    }
}

/// How the GTK 4 alert is set up: its buttons' labels, the button Enter activates and
/// the button Escape activates (for one button, an index past the last one).
pub struct AlertPlan {
    pub labels: Vec<String>,
    pub default_button: i32,
    pub cancel_button: i32,
}


fn owned(s: &str) -> (r: String)
    ensures
        r@ == s@,
{
    s.to_owned()
}

/// The alert's buttons for a message dialog.
pub fn alert_dialog_plan(buttons: &MessageButtons) -> (p: AlertPlan)
    ensures
        strings_view(p.labels@) == alert_labels(buttons@),
        p.cancel_button == cancel_index(buttons@),
        p.default_button == 1 - cancel_index(buttons@),
{
    let mut labels: Vec<String> = Vec::new();
    let (d, c) = match buttons {
        MessageButtons::Okay => {
            labels.push(owned("OK"));
            (0, 1)
        },
        MessageButtons::OkCancel => {
            labels.push(owned("Cancel"));
            labels.push(owned("OK"));
            (1, 0)
        },
        MessageButtons::YesNo => {
            labels.push(owned("No"));
            labels.push(owned("Yes"));
            (1, 0)
        },
        MessageButtons::YesNoCancel => {
            labels.push(owned("Cancel"));
            labels.push(owned("Yes"));
            labels.push(owned("No"));
            (1, 0)
        },
        MessageButtons::OkCustom(ok) => {
            labels.push(ok.clone());
            (0, 1)
        },
        MessageButtons::OkCancelCustom(ok, cancel) => {
            labels.push(cancel.clone());
            labels.push(ok.clone());
            (1, 0)
        },
        MessageButtons::YesNoCancelCustom(yes, no, cancel) => {
            labels.push(cancel.clone());
            labels.push(yes.clone());
            labels.push(no.clone());
            (1, 0)
        },
    };
    proof {
        assert(strings_view(labels@) =~= alert_labels(buttons@));
    }
    AlertPlan { labels, default_button: d, cancel_button: c }
}

/// The index the answer is read as: a single-button dialog counts any choice as its
/// button; a dialog closed without a choice counts as index 1 for a single button
/// (past the button) and 0 otherwise.
pub open spec fn chosen_index(b: ButtonsView, outcome: Option<i32>) -> int {
    match outcome {
        Some(r) => if is_single_button(b) {
            0
        } else {
            r as int
        },
        None => if is_single_button(b) {
            1
        } else {
            0
        },
    }
}

/// The index of the chosen button, from what the alert reported.
pub fn chosen_response(buttons: &MessageButtons, outcome: Option<i32>) -> (r: i32)
    ensures
        r == chosen_index(buttons@, outcome),
{
    let single = match buttons {
        MessageButtons::Okay | MessageButtons::OkCustom(_) => true,
        _ => false,
    };
    match outcome {
        Some(r) => if single {
            0
        } else {
            r
        },
        None => if single {
            1
        } else {
            0
        },
    }
}


/// A GTK 4 alert dialog as set up: modal, with the title as its message, the
/// description as its detail, and its buttons.
pub struct Gtk4Alert {
    pub modal: bool,
    pub message: String,
    pub detail: String,
    pub plan: AlertPlan,
}

/// The alert dialog for a message dialog's options.
pub fn build_alert(options: &MessageDialog) -> (a: Gtk4Alert)
    ensures
        a.modal,
        a.message@ == options.title@,
        a.detail@ == options.description@,
        strings_view(a.plan.labels@) == alert_labels(options.buttons@),
        a.plan.cancel_button == cancel_index(options.buttons@),
        a.plan.default_button == 1 - cancel_index(options.buttons@),
{
    Gtk4Alert {
        modal: true,
        message: options.title.clone(),
        detail: options.description.clone(),
        plan: alert_dialog_plan(&options.buttons),
    }
}

/// The answer of a message dialog from what its alert reported: the index of the button
/// chosen, or `None` when it was closed without a choice.
pub fn run_message_dialog(options: &MessageDialog, outcome: Option<i32>) -> (r: MessageDialogResult)
    ensures
        r@ == gtk4_result(options.buttons@, chosen_index(options.buttons@, outcome)),
{
    let response = chosen_response(&options.buttons, outcome);
    message_result(&options.buttons, response)
}

/// What a button labelled `label` stands for: the standard answers for the standard
/// buttons, the label itself for custom ones.
pub open spec fn label_meaning(b: ButtonsView, label: Seq<char>) -> ResultView {
    match b {
        ButtonsView::OkCustom(_) | ButtonsView::OkCancelCustom(_, _) | ButtonsView::YesNoCancelCustom(
            _,
            _,
            _,
        ) => ResultView::Custom(label),
        _ => if label == "OK"@ {
            ResultView::Okay
        } else if label == "Cancel"@ {
            ResultView::Cancel
        } else if label == "Yes"@ {
            ResultView::Yes
        } else {
            ResultView::No
        },
    }
}

/// The index of the button Escape activates.
pub open spec fn cancel_index(b: ButtonsView) -> int {
    if is_single_button(b) {
        1
    } else {
        0
    }
}

/// Choosing the button at an index gives the answer that button's label stands for.
pub proof fn law_button_gives_its_label(b: ButtonsView, i: i32)
    requires
        0 <= i < alert_labels(b).len(),
    ensures
        gtk4_result(b, chosen_index(b, Some(i))) == label_meaning(b, alert_labels(b)[i as int]),
{
    reveal_strlit("OK");
    reveal_strlit("Cancel");
    reveal_strlit("Yes");
    reveal_strlit("No");
    assert("OK"@.len() == 2 && "OK"@[0] == 'O');
    assert("Cancel"@.len() == 6);
    assert("Yes"@.len() == 3);
    assert("No"@.len() == 2 && "No"@[0] == 'N');
}

/// Closing the alert without choosing gives the answer of its cancel button; for a
/// single button, which has no cancel button, it gives `Cancel`.
pub proof fn law_dismiss_is_cancel(b: ButtonsView)
    ensures
        !is_single_button(b) ==> gtk4_result(b, chosen_index(b, None)) == gtk4_result(
            b,
            chosen_index(b, Some(cancel_index(b) as i32)),
        ),
        is_single_button(b) ==> gtk4_result(b, chosen_index(b, None)) == ResultView::Cancel,
{
}


// ----------------------------------------------------------------------------
// File dialogs
// ----------------------------------------------------------------------------

/// A GIO file as the dialogs use it: the local path it has, if it has one.
pub struct GioFile {
    pub path: Option<PathBuf>,
}

/// A GTK 4 file filter: its name and its glob patterns.
pub struct GtkFileFilter {
    pub name: String,
    pub patterns: Vec<String>,
}

/// `GtkFileFilter` as character sequences.
pub struct GtkFilterView {
    pub name: Seq<char>,
    pub patterns: Seq<Seq<char>>,
}

impl View for GtkFileFilter {
    type V = GtkFilterView;

    open spec fn view(&self) -> GtkFilterView {
        GtkFilterView { name: self.name@, patterns: strings_view(self.patterns@) }
    }
}

/// A file to select at first, given as a folder and a name inside it.
pub struct InitialFile {
    pub folder: PathBuf,
    pub name: String,
}

/// The settings a GTK 4 file dialog has been given.
pub struct Gtk4FileDialog {
    pub title: String,
    /// The filters offered, once some are set.
    pub filters: Option<Vec<GtkFileFilter>>,
    /// The index, among `filters`, of the filter selected at first.
    pub default_filter: Option<usize>,
    pub initial_folder: Option<GioFile>,
    pub initial_file: Option<InitialFile>,
    pub initial_name: Option<String>,
    pub modal: bool,
}

impl Gtk4FileDialog {
    /// A dialog with nothing set.
    pub fn new() -> (d: Gtk4FileDialog)
        ensures
            d.title@ == Seq::<char>::empty(),
            d.filters is None,
            d.default_filter is None,
            d.initial_folder is None,
            d.initial_file is None,
            d.initial_name is None,
            !d.modal,
    {
        Gtk4FileDialog {
            title: String::new(),
            filters: None,
            default_filter: None,
            initial_folder: None,
            initial_file: None,
            initial_name: None,
            modal: false,
        }
    }
}

/// The GIO file for a local path.
pub fn path_to_file(path: &PathBuf) -> (f: GioFile)
    ensures
        f.path == Some(*path),
{
    GioFile { path: Some(path.clone()) }
}

/// The local path of a file, if it has one.
pub fn first_path(file: GioFile) -> (p: Option<PathBuf>)
    ensures
        p == file.path,
{
    file.path
}

/// The local paths of a list of files, in order, skipping files without one.
pub open spec fn local_paths(files: Seq<GioFile>) -> Seq<PathBuf>
    decreases files.len(),
{
    if files.len() == 0 {
        Seq::empty()
    } else {
        let rest = local_paths(files.drop_last());
        match files.last().path {
            Some(p) => rest.push(p),
            None => rest,
        }
    }
}

/// The local paths of the files chosen, in order; files without one are skipped.
pub fn all_paths(files: Vec<GioFile>) -> (paths: Vec<PathBuf>)
    ensures
        paths@ == local_paths(files@),
{
    let mut paths: Vec<PathBuf> = Vec::new();
    let mut i: usize = 0;
    while i < files.len()
        invariant
            0 <= i <= files@.len(),
            paths@ == local_paths(files@.take(i as int)),
        decreases files@.len() - i,
    {
        match &files[i].path {
            Some(p) => paths.push(p.clone()),
            None => {},
        }
        proof {
            assert(files@.take(i + 1).drop_last() =~= files@.take(i as int));
        }
        i = i + 1;
    }
    proof {
        assert(files@.take(files@.len() as int) =~= files@);
    }
    paths
}

/// The glob pattern for an extension: every file for `*` or an empty extension.
pub open spec fn gtk4_pattern(ext: Seq<char>) -> Seq<char> {
    if ext == "*"@ || ext.len() == 0 {
        "*"@
    } else {
        "*."@ + ext
    }
}

/// The GTK 4 filter for a filter of the dialog's options.
pub open spec fn gtk4_filter(f: FilterView) -> GtkFilterView {
    GtkFilterView { name: f.name, patterns: gtk4_patterns(f.extensions) }
}

/// The glob patterns for a list of extensions, in order.
pub open spec fn gtk4_patterns(exts: Seq<Seq<char>>) -> Seq<Seq<char>> {
    exts.map_values(|e: Seq<char>| gtk4_pattern(e))
}

/// The GTK 4 filters for the dialog's filters, in order.
pub open spec fn gtk4_filters(fs: Seq<FilterView>) -> Seq<GtkFilterView> {
    fs.map_values(|f: FilterView| gtk4_filter(f))
}

/// The views of a list of GTK 4 filters.
pub open spec fn gtk_filters_view(v: Seq<GtkFileFilter>) -> Seq<GtkFilterView> {
    v.map_values(|f: GtkFileFilter| f@)
}

fn pattern_for(ext: &String) -> (r: String)
    ensures
        r@ == gtk4_pattern(ext@),
{
    proof {
        reveal_strlit("*");
    }
    if str_is(ext.as_str(), "*") || ext.as_str().is_empty() {
        owned("*")
    } else {
        let mut r = owned("*.");
        push_str(&mut r, ext.as_str());
        proof {
            reveal_strlit("*.");
        }
        r
    }
}

fn gtk_filter_for(f: &Filter) -> (g: GtkFileFilter)
    ensures
        g@ == gtk4_filter(f@),
{
    let mut patterns: Vec<String> = Vec::new();
    let mut i: usize = 0;
    while i < f.extensions.len()
        invariant
            0 <= i <= f.extensions@.len(),
            patterns@.len() == i,
            strings_view(patterns@) == gtk4_patterns(f@.extensions.take(i as int)),
        decreases f.extensions@.len() - i,
    {
        let ghost before = patterns@;
        let p = pattern_for(&f.extensions[i]);
        patterns.push(p);
        proof {
            assert(f@.extensions[i as int] == f.extensions@[i as int]@);
            assert forall|k: int| 0 <= k < i implies strings_view(patterns@)[k] == gtk4_patterns(
                f@.extensions.take(i + 1),
            )[k] by {
                assert(strings_view(before)[k] == gtk4_patterns(f@.extensions.take(i as int))[k]);
            }
            assert(strings_view(patterns@) =~= gtk4_patterns(f@.extensions.take(i + 1)));
        }
        i = i + 1;
    }
    proof {
        assert(f@.extensions.take(i as int) =~= f@.extensions);
    }
    GtkFileFilter { name: f.name.clone(), patterns }
}

/// The filters and the default filter after `filters` were added to a dialog that had
/// `before_filters` and `before_default`: nothing changes for no filters; otherwise the
/// dialog offers one GTK filter per filter and selects the first.
pub open spec fn filters_after(
    d: Gtk4FileDialog,
    before_filters: Option<Vec<GtkFileFilter>>,
    before_default: Option<usize>,
    filters: Seq<FilterView>,
) -> bool {
    if filters.len() == 0 {
        d.filters == before_filters && d.default_filter == before_default
    } else {
        &&& d.filters matches Some(v) && gtk_filters_view(v@) == gtk4_filters(filters)
        &&& d.default_filter == Some(0usize)
    }
}

/// Offers the dialog's filters; the first one is selected at first.
pub fn add_filters(dialog: &mut Gtk4FileDialog, filters: &[Filter])
    ensures
        filters_after(*final(dialog), old(dialog).filters, old(dialog).default_filter, filters_view(filters@)),
        final(dialog).title == old(dialog).title,
        final(dialog).initial_folder == old(dialog).initial_folder,
        final(dialog).initial_file == old(dialog).initial_file,
        final(dialog).initial_name == old(dialog).initial_name,
        final(dialog).modal == old(dialog).modal,
{
    if filters.len() == 0 {
        return;
    }
    let mut list: Vec<GtkFileFilter> = Vec::new();
    let mut i: usize = 0;
    while i < filters.len()
        invariant
            0 <= i <= filters@.len(),
            list@.len() == i,
            gtk_filters_view(list@) == gtk4_filters(filters_view(filters@).take(i as int)),
        decreases filters@.len() - i,
    {
        let ghost before = list@;
        let g = gtk_filter_for(&filters[i]);
        list.push(g);
        proof {
            assert(filters_view(filters@)[i as int] == filters@[i as int]@);
            assert forall|k: int| 0 <= k < i implies gtk_filters_view(list@)[k] == gtk4_filters(
                filters_view(filters@).take(i + 1),
            )[k] by {
                assert(gtk_filters_view(before)[k] == gtk4_filters(filters_view(filters@).take(i as int))[k]);
            }
            assert(gtk_filters_view(list@) =~= gtk4_filters(filters_view(filters@).take(i + 1)));
        }
        i = i + 1;
    }
    proof {
        assert(filters_view(filters@).take(i as int) =~= filters_view(filters@));
    }
    dialog.filters = Some(list);
    dialog.default_filter = Some(0);
}

/// The folder shown at first after `directory` was set on a dialog showing `before`.
pub open spec fn folder_after(d: Gtk4FileDialog, before: Option<GioFile>, directory: Option<PathBuf>) -> bool {
    match directory {
        Some(p) => d.initial_folder == Some(GioFile { path: Some(p) }),
        None => d.initial_folder == before,
    }
}

/// Shows `directory` at first, if given.
pub fn set_directory(dialog: &mut Gtk4FileDialog, directory: Option<&PathBuf>)
    ensures
        folder_after(*final(dialog), old(dialog).initial_folder, match directory {
            Some(p) => Some(*p),
            None => None,
        }),
        final(dialog).title == old(dialog).title,
        final(dialog).filters == old(dialog).filters,
        final(dialog).default_filter == old(dialog).default_filter,
        final(dialog).initial_file == old(dialog).initial_file,
        final(dialog).initial_name == old(dialog).initial_name,
        final(dialog).modal == old(dialog).modal,
{
    match directory {
        Some(d) => {
            dialog.initial_folder = Some(path_to_file(d));
        },
        None => {},
    }
}

/// The file and name selected at first after a file name was set on a dialog that had
/// `before_file` and `before_name`: with a directory, the file of that name in it; else
/// the name alone.
pub open spec fn name_after(
    d: Gtk4FileDialog,
    before_file: Option<InitialFile>,
    before_name: Option<String>,
    directory: Option<PathBuf>,
    file_name: Option<Seq<char>>,
) -> bool {
    match file_name {
        Some(n) => match directory {
            Some(dir) => {
                &&& d.initial_file matches Some(f) && f.folder == dir && f.name@ == n
                &&& d.initial_name == before_name
            },
            None => {
                &&& d.initial_name matches Some(m) && m@ == n
                &&& d.initial_file == before_file
            },
        },
        None => d.initial_file == before_file && d.initial_name == before_name,
    }
}

/// A directory given by reference, as a value.
pub open spec fn dir_of(directory: Option<&PathBuf>) -> Option<PathBuf> {
    match directory {
        Some(p) => Some(*p),
        None => None,
    }
}

/// A name given by reference, as characters.
pub open spec fn name_of(file_name: Option<&str>) -> Option<Seq<char>> {
    match file_name {
        Some(n) => Some(n@),
        None => None,
    }
}

/// Selects the file `file_name` in `directory`, or just proposes the name.
pub fn set_file_name(dialog: &mut Gtk4FileDialog, directory: Option<&PathBuf>, file_name: Option<&str>)
    ensures
        name_after(*final(dialog), old(dialog).initial_file, old(dialog).initial_name, dir_of(directory), name_of(file_name)),
        final(dialog).title == old(dialog).title,
        final(dialog).filters == old(dialog).filters,
        final(dialog).default_filter == old(dialog).default_filter,
        final(dialog).initial_folder == old(dialog).initial_folder,
        final(dialog).modal == old(dialog).modal,
{
    match (directory, file_name) {
        (Some(d), Some(n)) => {
            dialog.initial_file = Some(InitialFile { folder: d.clone(), name: owned(n) });
        },
        (None, Some(n)) => {
            dialog.initial_name = Some(owned(n));
        },
        _ => {},
    }
}

/// The file and name selected at first in a save dialog: the existing file of that
/// name in the directory, or else the name alone.
pub open spec fn save_name_after(
    d: Gtk4FileDialog,
    before_file: Option<InitialFile>,
    before_name: Option<String>,
    directory: Option<PathBuf>,
    file_name: Option<Seq<char>>,
    joined_exists: bool,
) -> bool {
    match file_name {
        Some(n) => if directory is Some && joined_exists {
            &&& d.initial_file matches Some(f) && f.folder == directory->0 && f.name@ == n
            &&& d.initial_name == before_name
        } else {
            &&& d.initial_name matches Some(m) && m@ == n
            &&& d.initial_file == before_file
        },
        None => d.initial_file == before_file && d.initial_name == before_name,
    }
}

/// Selects the file `file_name` in `directory` if it exists (`joined_exists`), else
/// proposes the name.
pub fn set_save_name(
    dialog: &mut Gtk4FileDialog,
    directory: Option<&PathBuf>,
    file_name: Option<&str>,
    joined_exists: bool,
)
    ensures
        save_name_after(*final(dialog), old(dialog).initial_file, old(dialog).initial_name, dir_of(directory), name_of(file_name), joined_exists),
        final(dialog).title == old(dialog).title,
        final(dialog).filters == old(dialog).filters,
        final(dialog).default_filter == old(dialog).default_filter,
        final(dialog).initial_folder == old(dialog).initial_folder,
        final(dialog).modal == old(dialog).modal,
{
    match (directory, file_name) {
        (Some(d), Some(n)) => {
            if joined_exists {
                dialog.initial_file = Some(InitialFile { folder: d.clone(), name: owned(n) });
            } else {
                dialog.initial_name = Some(owned(n));
            }
        },
        (None, Some(n)) => {
            dialog.initial_name = Some(owned(n));
        },
        _ => {},
    }
}

/// Offers the options' filters, shows their starting directory and makes the dialog
/// modal.
pub fn configure_dialog(dialog: &mut Gtk4FileDialog, options: &FileDialog)
    ensures
        filters_after(*final(dialog), old(dialog).filters, old(dialog).default_filter, filters_view(options.filters@)),
        folder_after(*final(dialog), old(dialog).initial_folder, options.starting_directory),
        final(dialog).modal,
        final(dialog).title == old(dialog).title,
        final(dialog).initial_file == old(dialog).initial_file,
        final(dialog).initial_name == old(dialog).initial_name,
{
    add_filters(dialog, options.filters.as_slice());
    set_directory(dialog, options.starting_directory.as_ref());
    dialog.modal = true;
}

/// A dialog titled with the options' title, or `title`, and configured by the options.
pub fn build_file_dialog(options: &FileDialog, title: &str) -> (d: Gtk4FileDialog)
    ensures
        d.title@ == or_default(options.title, title@),
        filters_after(d, None, None, filters_view(options.filters@)),
        folder_after(d, None, options.starting_directory),
        d.modal,
        d.initial_file is None,
        d.initial_name is None,
{
    let mut dialog = Gtk4FileDialog::new();
    dialog.title = match &options.title {
        Some(t) => t.clone(),
        None => owned(title),
    };
    configure_dialog(&mut dialog, options);
    dialog
}

/// What every open or folder dialog is: titled (`default_title` unless the options give
/// one), configured by the options, selecting the options' file name.
pub open spec fn is_open_dialog(d: Gtk4FileDialog, options: FileDialog, default_title: Seq<char>) -> bool {
    &&& d.title@ == or_default(options.title, default_title)
    &&& filters_after(d, None, None, filters_view(options.filters@))
    &&& folder_after(d, None, options.starting_directory)
    &&& d.modal
    &&& name_after(d, None, None, options.starting_directory, opt_view(options.file_name))
}

fn open_dialog(options: &FileDialog, title: &str) -> (d: Gtk4FileDialog)
    ensures
        is_open_dialog(d, *options, title@),
{
    let mut dialog = build_file_dialog(options, title);
    let name = match &options.file_name {
        Some(n) => Some(n.as_str()),
        None => None,
    };
    set_file_name(&mut dialog, options.starting_directory.as_ref(), name);
    dialog
}

/// The dialog that picks one file.
pub fn build_pick_file(options: &FileDialog) -> (d: Gtk4FileDialog)
    ensures
        is_open_dialog(d, *options, "Open File"@),
{
    open_dialog(options, "Open File")
}

/// The dialog that picks several files.
pub fn build_pick_files(options: &FileDialog) -> (d: Gtk4FileDialog)
    ensures
        is_open_dialog(d, *options, "Open File"@),
{
    open_dialog(options, "Open File")
}

/// The dialog that picks one folder.
pub fn build_pick_folder(options: &FileDialog) -> (d: Gtk4FileDialog)
    ensures
        is_open_dialog(d, *options, "Select Folder"@),
{
    open_dialog(options, "Select Folder")
}

/// The dialog that picks several folders.
pub fn build_pick_folders(options: &FileDialog) -> (d: Gtk4FileDialog)
    ensures
        is_open_dialog(d, *options, "Select Folder"@),
{
    open_dialog(options, "Select Folder")
}

/// The dialog that saves a file; `joined_exists` tells whether the options' file name
/// names an existing file in their starting directory.
pub fn build_save_file(options: &FileDialog, joined_exists: bool) -> (d: Gtk4FileDialog)
    ensures
        d.title@ == or_default(options.title, "Save File"@),
        filters_after(d, None, None, filters_view(options.filters@)),
        folder_after(d, None, options.starting_directory),
        d.modal,
        save_name_after(d, None, None, options.starting_directory, opt_view(options.file_name), joined_exists),
{
    let mut dialog = build_file_dialog(options, "Save File");
    let name = match &options.file_name {
        Some(n) => Some(n.as_str()),
        None => None,
    };
    set_save_name(&mut dialog, options.starting_directory.as_ref(), name, joined_exists);
    dialog
}

/// The file picked, from what the open dialog returned (`None` when it failed or was
/// dismissed).
pub fn run_pick_file(outcome: Option<GioFile>) -> (r: Option<PathBuf>)
    ensures
        r == match outcome {
            Some(f) => f.path,
            None => None,
        },
{
    match outcome {
        Some(f) => first_path(f),
        None => None,
    }
}

/// The files picked, from what the dialog returned.
pub fn run_pick_files(outcome: Option<Vec<GioFile>>) -> (r: Option<Vec<PathBuf>>)
    ensures
        match outcome {
            Some(v) => r matches Some(p) && p@ == local_paths(v@),
            None => r is None,
        },
{
    match outcome {
        Some(v) => Some(all_paths(v)),
        None => None,
    }
}

/// The folder picked, from what the dialog returned.
pub fn run_pick_folder(outcome: Option<GioFile>) -> (r: Option<PathBuf>)
    ensures
        r == match outcome {
            Some(f) => f.path,
            None => None,
        },
{
    run_pick_file(outcome)
}

/// The folders picked, from what the dialog returned.
pub fn run_pick_folders(outcome: Option<Vec<GioFile>>) -> (r: Option<Vec<PathBuf>>)
    ensures
        match outcome {
            Some(v) => r matches Some(p) && p@ == local_paths(v@),
            None => r is None,
        },
{
    run_pick_files(outcome)
}

/// The file to save to, from what the dialog returned.
pub fn run_save_file(outcome: Option<GioFile>) -> (r: Option<PathBuf>)
    ensures
        r == match outcome {
            Some(f) => f.path,
            None => None,
        },
{
    run_pick_file(outcome)
}

} // verus!
