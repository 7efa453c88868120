//! Zenity backend: the command lines it runs and how it reads zenity's answer.
//!
//! Each dialog is one run of the `zenity` program; the functions here build its
//! arguments and turn its exit status and output into the dialog's result.
use crate::file_dialog::strings_view;
use crate::backend::web_fallback::{join, opt_view};
use crate::file_dialog::{filters_view, path_from, path_of, FileDialog, Filter, FilterView};
use crate::message_dialog::{MessageButtons, MessageDialogResult, MessageLevel, ResultView, ButtonsView};
use crate::text::{chars_of, push_str, split_on, split_ranges, string_of, trim, trim_range};
use std::path::PathBuf;
use vstd::prelude::*;

verus! {

/// `std::io::Error`, carried through unread.
#[verifier::external_type_specification]
#[verifier::external_body]
pub struct ExIoError(std::io::Error);

/// Why running zenity failed.
pub enum ZenityError {
    /// Starting it or reading its output failed.
    Io(std::io::Error),
    /// Its output could not be captured.
    StdOutNotFound,
}

/// The message of an I/O error, as `Display` writes it.
#[verifier::external_body]
fn io_error_text(e: &std::io::Error) -> String {
    format!("{e}")
}

impl ZenityError {
    /// The error's message: the I/O error's own, or `Stdout not found`.
    pub fn describe(&self) -> (s: String)
        ensures
            self is StdOutNotFound ==> s@ == "Stdout not found"@,
    {
        match self {
            ZenityError::Io(e) => io_error_text(e),
            ZenityError::StdOutNotFound => "Stdout not found".to_string(),
        }
    }
}

impl From<std::io::Error> for ZenityError {
    fn from(value: std::io::Error) -> (r: ZenityError) {
        ZenityError::Io(value)
    }
}

impl vstd::std_specs::convert::FromSpecImpl<std::io::Error> for ZenityError {
    open spec fn obeys_from_spec() -> bool {
        true
    }

    open spec fn from_spec(v: std::io::Error) -> ZenityError {
        ZenityError::Io(v)
    }
}

// ----------------------------------------------------------------------------
// Command lines
// ----------------------------------------------------------------------------

/// The glob patterns of a filter's extensions.
pub open spec fn star_patterns(exts: Seq<Seq<char>>) -> Seq<Seq<char>> {
    exts.map_values(|e: Seq<char>| "*."@ + e)
}

/// The argument describing a filter: `name | *.a *.b`.
pub open spec fn filter_arg(f: FilterView) -> Seq<char> {
    f.name + " | "@ + join(star_patterns(f.extensions), " "@)
}

/// The arguments for the filters: `--file-filter` and its description, per filter.
pub open spec fn filter_args(fs: Seq<FilterView>) -> Seq<Seq<char>>
    decreases fs.len(),
{
    if fs.len() == 0 {
        Seq::empty()
    } else {
        filter_args(fs.drop_last()) + seq!["--file-filter"@, filter_arg(fs.last())]
    }
}

/// The arguments for the file name: `--filename` and the name, if there is one.
pub open spec fn filename_args(name: Option<Seq<char>>) -> Seq<Seq<char>> {
    match name {
        Some(n) => seq!["--filename"@, n],
        None => Seq::empty(),
    }
}

fn filter_description(f: &Filter) -> (r: String)
    ensures
        r@ == filter_arg(f@),
{
    let mut r = f.name.clone();
    push_str(&mut r, " | ");
    let ghost pats = star_patterns(f@.extensions);
    let mut i: usize = 0;
    while i < f.extensions.len()
        invariant
            0 <= i <= f.extensions@.len(),
            pats == star_patterns(f@.extensions),
            r@ == f.name@ + " | "@ + join(pats.take(i as int), " "@),
        decreases f.extensions@.len() - i,
    {
        let ghost before = r@;
        if i > 0 {
            push_str(&mut r, " ");
        }
        push_str(&mut r, "*.");
        push_str(&mut r, f.extensions[i].as_str());
        proof {
            assert(f@.extensions[i as int] == f.extensions@[i as int]@);
            assert(pats.take(i + 1).drop_last() =~= pats.take(i as int));
            if i == 0 {
                assert(join(pats.take(1), " "@) == pats[0]);
            }
            assert(r@ =~= f.name@ + " | "@ + join(pats.take(i + 1), " "@));
        }
        i = i + 1;
    }
    proof {
        assert(pats.take(i as int) =~= pats);
    }
    r
}

/// Adds the arguments for the filters.
pub fn add_filters(args: &mut Vec<String>, filters: &[Filter])
    ensures
        strings_view(final(args)@) == strings_view(old(args)@) + filter_args(filters_view(filters@)),
{
    let ghost start = strings_view(args@);
    let mut i: usize = 0;
    while i < filters.len()
        invariant
            0 <= i <= filters@.len(),
            strings_view(args@) == start + filter_args(filters_view(filters@).take(i as int)),
        decreases filters@.len() - i,
    {
        let ghost before = args@;
        args.push("--file-filter".to_string());
        let d = filter_description(&filters[i]);
        args.push(d);
        proof {
            assert(filters_view(filters@)[i as int] == filters@[i as int]@);
            assert(filters_view(filters@).take(i + 1).drop_last() =~= filters_view(filters@).take(i as int));
            assert(strings_view(args@) =~= strings_view(before) + seq!["--file-filter"@, filter_arg(filters@[i as int]@)]);
            assert(strings_view(args@) =~= start + filter_args(filters_view(filters@).take(i + 1)));
        }
        i = i + 1;
    }
    proof {
        assert(filters_view(filters@).take(i as int) =~= filters_view(filters@));
    }
}

/// Adds the arguments for the file name, if there is one.
pub fn add_filename(args: &mut Vec<String>, file_name: &Option<String>)
    ensures
        strings_view(final(args)@) == strings_view(old(args)@) + filename_args(opt_view(*file_name)),
{
    match file_name {
        Some(n) => {
            let ghost before = args@;
            args.push("--filename".to_string());
            args.push(n.clone());
            proof {
                assert(strings_view(args@) =~= strings_view(before) + filename_args(opt_view(*file_name)));
            }
        },
        None => {
            proof {
                assert(strings_view(args@) =~= strings_view(args@) + filename_args(opt_view(*file_name)));
            }
        },
    }
}

/// The arguments of a file selection: `--file-selection`, the mode's flags, the filters
/// and the file name.
pub open spec fn selection_args(mode: Seq<Seq<char>>, d: FileDialog) -> Seq<Seq<char>> {
    seq!["--file-selection"@] + mode + filter_args(filters_view(d.filters@)) + filename_args(
        opt_view(d.file_name),
    )
}

fn selection(mode: Vec<String>, dialog: &FileDialog) -> (args: Vec<String>)
    ensures
        strings_view(args@) == selection_args(strings_view(mode@), *dialog),
{
    let mut args: Vec<String> = Vec::new();
    args.push("--file-selection".to_string());
    let ghost given = mode@;
    let mut mode = mode;
    args.append(&mut mode);
    proof {
        assert(strings_view(args@) =~= seq!["--file-selection"@] + strings_view(given));
    }
    add_filters(&mut args, dialog.filters.as_slice());
    add_filename(&mut args, &dialog.file_name);
    args
}

/// The arguments of the dialog that picks one file.
pub fn pick_file_args(dialog: &FileDialog) -> (args: Vec<String>)
    ensures
        strings_view(args@) == selection_args(seq![], *dialog),
{
    let r = selection(Vec::new(), dialog);
    proof {
        assert(strings_view(Seq::<String>::empty()) =~= Seq::<Seq<char>>::empty());
    }
    r
}

/// The arguments of the dialog that picks several files.
pub fn pick_files_args(dialog: &FileDialog) -> (args: Vec<String>)
    ensures
        strings_view(args@) == selection_args(seq!["--multiple"@], *dialog),
{
    let mode = vec!["--multiple".to_string()];
    let ghost m = mode@;
    let r = selection(mode, dialog);
    proof {
        assert(strings_view(m) =~= seq!["--multiple"@]);
    }
    r
}

/// The arguments of the dialog that picks a folder.
pub fn pick_folder_args(dialog: &FileDialog) -> (args: Vec<String>)
    ensures
        strings_view(args@) == selection_args(seq!["--directory"@], *dialog),
{
    let mode = vec!["--directory".to_string()];
    let ghost m = mode@;
    let r = selection(mode, dialog);
    proof {
        assert(strings_view(m) =~= seq!["--directory"@]);
    }
    r
}

/// The arguments of the dialog that saves a file.
pub fn save_file_args(dialog: &FileDialog) -> (args: Vec<String>)
    ensures
        strings_view(args@) == selection_args(seq!["--save"@, "--confirm-overwrite"@], *dialog),
{
    let mode = vec!["--save".to_string(), "--confirm-overwrite".to_string()];
    let ghost m = mode@;
    let r = selection(mode, dialog);
    proof {
        assert(strings_view(m) =~= seq!["--save"@, "--confirm-overwrite"@]);
    }
    r
}

/// The option that picks zenity's dialog for a level.
pub open spec fn level_flag(level: MessageLevel) -> Seq<char> {
    match level {
        MessageLevel::Info => "--info"@,
        MessageLevel::Warning => "--warning"@,
        MessageLevel::Error => "--error"@,
    }
}

/// The arguments of a message: the level's dialog, title and text, and the label of a
/// custom OK button.
pub open spec fn message_args_of(level: MessageLevel, btns: ButtonsView, title: Seq<char>, text: Seq<char>) -> Seq<Seq<char>> {
    seq![level_flag(level), "--title"@, title, "--text"@, text] + match btns {
        ButtonsView::OkCustom(ok) => seq!["--ok-label"@, ok],
        _ => Seq::empty(),
    }
}

/// The arguments of a message dialog.
pub fn message_args(level: &MessageLevel, btns: &MessageButtons, title: &str, description: &str) -> (args: Vec<String>)
    ensures
        strings_view(args@) == message_args_of(*level, btns@, title@, description@),
{
    let flag = match level {
        MessageLevel::Info => "--info",
        MessageLevel::Warning => "--warning",
        MessageLevel::Error => "--error",
    };
    let mut args: Vec<String> = Vec::new();
    args.push(flag.to_string());
    args.push("--title".to_string());
    args.push(title.to_string());
    args.push("--text".to_string());
    args.push(description.to_string());
    match btns {
        MessageButtons::OkCustom(ok) => {
            args.push("--ok-label".to_string());
            args.push(ok.clone());
        },
        _ => {},
    }
    proof {
        assert(strings_view(args@) =~= message_args_of(*level, btns@, title@, description@));
    }
    args
}

/// The arguments of a question: title and text, then the buttons' labels.
pub open spec fn question_args_of(btns: ButtonsView, title: Seq<char>, text: Seq<char>) -> Seq<Seq<char>> {
    seq!["--question"@, "--title"@, title, "--text"@, text] + match btns {
        ButtonsView::OkCancel => seq!["--ok-label"@, "Ok"@, "--cancel-label"@, "Cancel"@],
        ButtonsView::OkCancelCustom(ok, cancel) => seq!["--ok-label"@, ok, "--cancel-label"@, cancel],
        ButtonsView::YesNoCancel => seq!["--extra-button"@, "No"@, "--cancel-label"@, "Cancel"@],
        ButtonsView::YesNoCancelCustom(yes, no, cancel) => seq![
            "--ok-label"@,
            yes,
            "--cancel-label"@,
            cancel,
            "--extra-button"@,
            no,
        ],
        _ => Seq::empty(),
    }
}

/// The arguments of a question dialog.
pub fn question_args(btns: &MessageButtons, title: &str, description: &str) -> (args: Vec<String>)
    ensures
        strings_view(args@) == question_args_of(btns@, title@, description@),
{
    let mut args: Vec<String> = Vec::new();
    args.push("--question".to_string());
    args.push("--title".to_string());
    args.push(title.to_string());
    args.push("--text".to_string());
    args.push(description.to_string());
    match btns {
        MessageButtons::OkCancel => {
            args.push("--ok-label".to_string());
            args.push("Ok".to_string());
            args.push("--cancel-label".to_string());
            args.push("Cancel".to_string());
        },
        MessageButtons::OkCancelCustom(ok, cancel) => {
            args.push("--ok-label".to_string());
            args.push(ok.clone());
            args.push("--cancel-label".to_string());
            args.push(cancel.clone());
        },
        MessageButtons::YesNoCancel => {
            args.push("--extra-button".to_string());
            args.push("No".to_string());
            args.push("--cancel-label".to_string());
            args.push("Cancel".to_string());
        },
        MessageButtons::YesNoCancelCustom(yes, no, cancel) => {
            args.push("--ok-label".to_string());
            args.push(yes.clone());
            args.push("--cancel-label".to_string());
            args.push(cancel.clone());
            args.push("--extra-button".to_string());
            args.push(no.clone());
        },
        _ => {},
    }
    proof {
        assert(strings_view(args@) =~= question_args_of(btns@, title@, description@));
    }
    args
}

// ----------------------------------------------------------------------------
// Reading the answer
// ----------------------------------------------------------------------------

/// What a run of zenity answers: its output when it succeeded or printed something,
/// otherwise nothing (the dialog was dismissed).
pub fn run_outcome(success: bool, output: String) -> (r: Option<String>)
    ensures
        (success || output@.len() > 0) ==> r == Some(output),
        !(success || output@.len() > 0) ==> r is None,
{
    if success || !output.as_str().is_empty() {
        Some(output)
    } else {
        None
    }
}

/// The path of a single chosen file or folder: the output with surrounding white space
/// removed.
pub fn pick_file_result(res: Option<String>) -> (r: Option<PathBuf>)
    ensures
        match res {
            Some(out) => r == Some(path_of(trim(out@))),
            None => r is None,
        },
{
    match res {
        Some(out) => {
            let v = chars_of(out.as_str());
            let (a, b) = trim_range(&v, 0, v.len());
            proof {
                assert(v@.subrange(0, v@.len() as int) =~= out@);
            }
            Some(path_from(string_of(&v, a, b)))
        },
        None => None,
    }
}

/// The paths of several chosen files: the trimmed output split at `|`.
pub open spec fn listed_paths(out: Seq<char>) -> Seq<PathBuf> {
    split_on(trim(out), '|').map_values(|p: Seq<char>| path_of(p))
}

/// The paths of the files chosen, or none when the dialog was dismissed.
#[verifier::loop_isolation(false)]
pub fn pick_files_result(res: Option<String>) -> (r: Vec<PathBuf>)
    ensures
        match res {
            Some(out) => r@ == listed_paths(out@),
            None => r@.len() == 0,
        },
{
    match res {
        Some(out) => {
            let v = chars_of(out.as_str());
            let (a, b) = trim_range(&v, 0, v.len());
            proof {
                assert(v@.subrange(0, v@.len() as int) =~= out@);
            }
            let ranges = split_ranges(&v, a, b, '|');
            let ghost parts = split_on(v@.subrange(a as int, b as int), '|');
            let mut paths: Vec<PathBuf> = Vec::new();
            let mut i: usize = 0;
            while i < ranges.len()
                invariant
                    0 <= i <= ranges@.len(),
                    ranges@.len() == parts.len(),
                    paths@ == parts.take(i as int).map_values(|p: Seq<char>| path_of(p)),
                decreases ranges@.len() - i,
            {
                let (x, y) = ranges[i];
                let s = string_of(&v, x, y);
                paths.push(path_from(s));
                proof {
                    assert(parts[i as int] == v@.subrange(x as int, y as int));
                    assert(paths@ =~= parts.take(i + 1).map_values(|p: Seq<char>| path_of(p)));
                }
                i = i + 1;
            }
            proof {
                assert(parts.take(i as int) =~= parts);
            }
            paths
        },
        None => Vec::new(),
    }
}

/// The answer of a message dialog: `Okay` when zenity answered, `Cancel` when dismissed.
pub fn message_result(res: Option<String>) -> (r: MessageDialogResult)
    ensures
        res is Some ==> r@ == ResultView::Okay,
        res is None ==> r@ == ResultView::Cancel,
{
    match res {
        Some(_) => MessageDialogResult::Okay,
        None => MessageDialogResult::Cancel,
    }
}

/// The answer of a question for zenity's answer: its OK button answers `Some` with no
/// output, its extra button `Some` with the button's label as output, dismissing it
/// `None`.
pub open spec fn question_result_of(btns: ButtonsView, res: Option<Seq<char>>) -> ResultView {
    match btns {
        ButtonsView::OkCancel => if res is Some {
            ResultView::Okay
        } else {
            ResultView::Cancel
        },
        ButtonsView::YesNo => if res is Some {
            ResultView::Yes
        } else {
            ResultView::No
        },
        ButtonsView::OkCancelCustom(ok, cancel) => if res is Some {
            ResultView::Custom(ok)
        } else {
            ResultView::Custom(cancel)
        },
        ButtonsView::YesNoCancel => match res {
            Some(out) => if out.len() == 0 {
                ResultView::Yes
            } else {
                ResultView::No
            },
            None => ResultView::Cancel,
        },
        ButtonsView::YesNoCancelCustom(yes, no, cancel) => match res {
            Some(out) => if out.len() == 0 {
                ResultView::Custom(yes)
            } else {
                ResultView::Custom(no)
            },
            None => ResultView::Custom(cancel),
        },
        _ => ResultView::Cancel,
    }
}

/// The answer of a question dialog.
pub fn question_result(btns: &MessageButtons, res: Option<String>) -> (r: MessageDialogResult)
    ensures
        r@ == question_result_of(btns@, opt_view(res)),
{
    match btns {
        MessageButtons::OkCancel => match res {
            Some(_) => MessageDialogResult::Okay,
            None => MessageDialogResult::Cancel,
        },
        MessageButtons::YesNo => match res {
            Some(_) => MessageDialogResult::Yes,
            None => MessageDialogResult::No,
        },
        MessageButtons::OkCancelCustom(ok, cancel) => match res {
            Some(_) => MessageDialogResult::Custom(ok.clone()),
            None => MessageDialogResult::Custom(cancel.clone()),
        },
        MessageButtons::YesNoCancel => match res {
            Some(out) => if out.as_str().is_empty() {
                MessageDialogResult::Yes
            } else {
                MessageDialogResult::No
            },
            None => MessageDialogResult::Cancel,
        },
        MessageButtons::YesNoCancelCustom(yes, no, cancel) => match res {
            Some(out) => if out.as_str().is_empty() {
                MessageDialogResult::Custom(yes.clone())
            } else {
                MessageDialogResult::Custom(no.clone())
            },
            None => MessageDialogResult::Custom(cancel.clone()),
        },
        _ => MessageDialogResult::Cancel,
    }
}

// ============================================================================
// Laws
// ============================================================================

/// The value given for `flag` among button arguments written as flag and value pairs.
pub open spec fn flag_arg(args: Seq<Seq<char>>, flag: Seq<char>) -> Option<Seq<char>>
    decreases args.len(),
{
    if args.len() < 2 {
        None
    } else if args[0] == flag {
        Some(args[1])
    } else {
        flag_arg(args.skip(2), flag)
    }
}

/// The label a question's button shows: the one given for its flag, or zenity's own.
pub open spec fn shown_label(args: Seq<Seq<char>>, flag: Seq<char>, zenity_label: Seq<char>) -> Seq<char> {
    match flag_arg(args, flag) {
        Some(l) => l,
        None => zenity_label,
    }
}

/// The answer a button labelled `label` stands for: for the standard buttons the
/// answer that the label names, for custom buttons the label itself.
pub open spec fn answer_named(btns: ButtonsView, label: Seq<char>) -> ResultView {
    if btns is OkCancelCustom || btns is YesNoCancelCustom || btns is OkCustom {
        ResultView::Custom(label)
    } else if label == "Ok"@ {
        ResultView::Okay
    } else if label == "Cancel"@ {
        ResultView::Cancel
    } else if label == "Yes"@ {
        ResultView::Yes
    } else if label == "No"@ {
        ResultView::No
    } else {
        ResultView::Custom(label)
    }
}

/// The answer of a question is the one its pressed button is labelled with. Of the
/// arguments a question is asked with (after the title and the text), `--ok-label`
/// labels the button that makes zenity answer with no output (`Yes` where none is
/// given), `--cancel-label` the one that dismisses it (`No` where none is given), and
/// `--extra-button` the button whose label zenity prints.
pub proof fn law_question_answers_follow_labels(
    btns: ButtonsView,
    title: Seq<char>,
    text: Seq<char>,
    out: Seq<char>,
)
    requires
        !(btns is Okay),
        !(btns is OkCustom),
    ensures
        ({
            let args = question_args_of(btns, title, text).skip(5);
            &&& question_result_of(btns, Some(Seq::empty())) == answer_named(
                btns,
                shown_label(args, "--ok-label"@, "Yes"@),
            )
            &&& question_result_of(btns, None) == answer_named(
                btns,
                shown_label(args, "--cancel-label"@, "No"@),
            )
            &&& (flag_arg(args, "--extra-button"@) == Some(out) && out.len() > 0)
                ==> question_result_of(btns, Some(out)) == answer_named(btns, out)
        }),
{
    reveal_strlit("--ok-label");
    reveal_strlit("--cancel-label");
    reveal_strlit("--extra-button");
    reveal_strlit("Ok");
    reveal_strlit("Cancel");
    reveal_strlit("Yes");
    reveal_strlit("No");
    assert("--ok-label"@.len() == 10 && "--cancel-label"@.len() == 14 && "--extra-button"@.len() == 14);
    assert("--cancel-label"@[2] == 'c' && "--extra-button"@[2] == 'e');
    assert("Ok"@.len() == 2 && "No"@.len() == 2 && "Ok"@[0] == 'O' && "No"@[0] == 'N');
    assert("Cancel"@.len() == 6 && "Yes"@.len() == 3);
    let args = question_args_of(btns, title, text).skip(5);
    reveal_with_fuel(flag_arg, 4);
    match btns {
        ButtonsView::OkCancel => {
            assert(args =~= seq!["--ok-label"@, "Ok"@, "--cancel-label"@, "Cancel"@]);
            assert(args.skip(2) =~= seq!["--cancel-label"@, "Cancel"@]);
            assert(args.skip(2).skip(2) =~= Seq::<Seq<char>>::empty());
        },
        ButtonsView::OkCancelCustom(ok, cancel) => {
            assert(args =~= seq!["--ok-label"@, ok, "--cancel-label"@, cancel]);
            assert(args.skip(2) =~= seq!["--cancel-label"@, cancel]);
            assert(args.skip(2).skip(2) =~= Seq::<Seq<char>>::empty());
        },
        ButtonsView::YesNoCancel => {
            assert(args =~= seq!["--extra-button"@, "No"@, "--cancel-label"@, "Cancel"@]);
            assert(args.skip(2) =~= seq!["--cancel-label"@, "Cancel"@]);
            assert(args.skip(2).skip(2) =~= Seq::<Seq<char>>::empty());
        },
        ButtonsView::YesNoCancelCustom(yes, no, cancel) => {
            assert(args =~= seq!["--ok-label"@, yes, "--cancel-label"@, cancel, "--extra-button"@, no]);
            assert(args.skip(2) =~= seq!["--cancel-label"@, cancel, "--extra-button"@, no]);
            assert(args.skip(2).skip(2) =~= seq!["--extra-button"@, no]);
            assert(args.skip(2).skip(2).skip(2) =~= Seq::<Seq<char>>::empty());
        },
        _ => {
            assert(args =~= Seq::<Seq<char>>::empty());
        },
    }
}

} // verus!
