//! The file dialog's options.
use crate::message_dialog::ParentWindow;
use std::path::PathBuf;
use vstd::prelude::*;

verus! {

/// `std::path::PathBuf`, carried through unread.
#[verifier::external_type_specification]
#[verifier::external_body]
pub struct ExPathBuf(PathBuf);

/// `PathBuf::clone`: std documents a clone as a copy of the path, so the result is the
/// same value.
pub assume_specification[ <PathBuf as Clone>::clone ](p: &PathBuf) -> (r: PathBuf)
    ensures
        r == *p,
;

/// The text of a path, when it is valid Unicode.
pub uninterp spec fn path_text(p: PathBuf) -> Option<Seq<char>>;

/// The path `PathBuf::from` makes of a text.
pub uninterp spec fn path_of(s: Seq<char>) -> PathBuf;

/// `PathBuf::from(String)`: the path spelled by the text; the same text always gives
/// the same path. Std documents the conversion as taking over the string's bytes, so the
/// path's text (`Path::to_str`) is the text it was made of; nothing more of the path is
/// stated here.
#[verifier::external_body]
pub(crate) fn path_from(s: String) -> (p: PathBuf)
    ensures
        p == path_of(s@),
        path_text(p) == Some(s@),
{
    PathBuf::from(s)
}

/// `Path::to_str`: the path's text when it is valid Unicode. The same path always gives
/// the same answer; what it is is not stated here.
#[verifier::external_body]
pub(crate) fn path_to_str(p: &PathBuf) -> (r: Option<&str>)
    ensures
        match r {
            Some(t) => path_text(*p) == Some(t@),
            None => path_text(*p) is None,
        },
{
    p.to_str()
}

/// A named group of file extensions, such as `("Text", ["txt", "md"])`.
#[derive(Clone, Debug)]
pub struct Filter {
    pub name: String,
    pub extensions: Vec<String>,
}

/// `Filter` as character sequences.
pub struct FilterView {
    pub name: Seq<char>,
    pub extensions: Seq<Seq<char>>,
}

impl View for Filter {
    type V = FilterView;

    open spec fn view(&self) -> FilterView {
        FilterView { name: self.name@, extensions: strings_view(self.extensions@) }
    }
}

/// The views of a list of strings.
pub open spec fn strings_view(v: Seq<String>) -> Seq<Seq<char>> {
    v.map_values(|s: String| s@)
}

/// A copy of a list of strings.
pub fn copy_strings(v: &Vec<String>) -> (r: Vec<String>)
    ensures
        strings_view(r@) == strings_view(v@),
{
    let mut r: Vec<String> = Vec::new();
    let mut i: usize = 0;
    while i < v.len()
        invariant
            0 <= i <= v@.len(),
            r@.len() == i,
            forall|k: int| 0 <= k < i ==> (#[trigger] r@[k])@ == v@[k]@,
        decreases v@.len() - i,
    {
        r.push(v[i].clone());
        i = i + 1;
    }
    proof {
        assert(strings_view(r@) =~= strings_view(v@));
    }
    r
}

/// The views of a list of filters.
pub open spec fn filters_view(fs: Seq<Filter>) -> Seq<FilterView> {
    fs.map_values(|f: Filter| f@)
}

impl Filter {
    /// A filter named `name` over `extensions`.
    pub fn new(name: String, extensions: Vec<String>) -> (f: Filter)
        ensures
            f.name == name,
            f.extensions == extensions,
    {
        Filter { name, extensions }
    }
}

/// The options a file dialog is opened with.
pub struct FileDialog {
    pub filters: Vec<Filter>,
    pub starting_directory: Option<PathBuf>,
    pub file_name: Option<String>,
    pub title: Option<String>,
    pub can_create_directories: Option<bool>,
    pub show_hidden_files: Option<bool>,
    /// The label of the format chooser that a save panel shows for several filters.
    pub format_label: Option<String>,
    /// The window the dialog belongs to.
    pub parent: Option<ParentWindow>,
}

impl FileDialog {
    /// A dialog with no filters, no starting directory, no file name and no title.
    pub fn new() -> (d: FileDialog)
        ensures
            d.filters@.len() == 0,
            d.starting_directory is None,
            d.file_name is None,
            d.title is None,
            d.can_create_directories is None,
            d.show_hidden_files is None,
            d.format_label is None,
            d.parent is None,
    {
        FileDialog {
            filters: Vec::new(),
            starting_directory: None,
            file_name: None,
            title: None,
            can_create_directories: None,
            show_hidden_files: None,
            format_label: None,
            parent: None,
        }
    }
}

/// A chosen file or folder.
pub struct FileHandle {
    path: PathBuf,
}

impl FileHandle {
    /// Wraps a path.
    pub fn wrap(path: PathBuf) -> (h: FileHandle)
        ensures
            h.path() == path,
    {
        FileHandle { path }
    }

    pub closed spec fn path(&self) -> PathBuf {
        self.path
    }

    /// The wrapped path.
    pub fn path_buf(&self) -> (p: &PathBuf)
        ensures
            *p == self.path(),
    {
        &self.path
    }
}

} // verus!
