//! XDG desktop portal backend: the requests it makes of the portal, and when it falls
//! back to zenity.
use crate::backend::gtk3::{has_no_nul, no_nul};
use crate::file_dialog::strings_view;
use crate::backend::linux::zenity::ZenityError;
use crate::file_dialog::{filters_view, FileDialog, Filter, FilterView};
use crate::message_dialog::{ButtonsView, MessageButtons, MessageDialogResult, ResultView};
use crate::text::{push_str, str_is};
use std::path::PathBuf;
use vstd::prelude::*;

verus! {

/// The glob the portal gets for an extension: every file for `*` or an empty extension.
pub open spec fn portal_glob(ext: Seq<char>) -> Seq<char> {
    if ext == "*"@ || ext.len() == 0 {
        "*"@
    } else {
        "*."@ + ext
    }
}

/// The globs of a list of extensions, in order.
pub open spec fn portal_globs(exts: Seq<Seq<char>>) -> Seq<Seq<char>> {
    exts.map_values(|e: Seq<char>| portal_glob(e))
}

/// The filter's name and globs can be handed to C.
pub open spec fn filter_without_nul(f: FilterView) -> bool {
    &&& no_nul(f.name)
    &&& forall|i: int| 0 <= i < f.extensions.len() ==> no_nul(#[trigger] portal_glob(f.extensions[i]))
}

/// A filter as the portal takes it: its name and its globs.
pub struct PortalFilter {
    pub name: String,
    pub globs: Vec<String>,
}

fn glob_for(ext: &String) -> (r: String)
    ensures
        r@ == portal_glob(ext@),
{
    if str_is(ext.as_str(), "*") || ext.as_str().is_empty() {
        "*".to_string()
    } else {
        let mut r = "*.".to_string();
        push_str(&mut r, ext.as_str());
        r
    }
}

impl PortalFilter {
    /// The portal filter for a filter; its name and globs must be free of NUL.
    pub fn from(filter: &Filter) -> (r: PortalFilter)
        requires
            filter_without_nul(filter@),
        ensures
            r.name@ == filter.name@,
            strings_view(r.globs@) == portal_globs(filter@.extensions),
    {
        let mut globs: Vec<String> = Vec::new();
        let mut i: usize = 0;
        while i < filter.extensions.len()
            invariant
                0 <= i <= filter.extensions@.len(),
                globs@.len() == i,
                strings_view(globs@) == portal_globs(filter@.extensions.take(i as int)),
            decreases filter.extensions@.len() - i,
        {
            let ghost before = globs@;
            let g = glob_for(&filter.extensions[i]);
            globs.push(g);
            proof {
                assert(filter@.extensions[i as int] == filter.extensions@[i as int]@);
                assert forall|k: int| 0 <= k < i implies strings_view(globs@)[k] == portal_globs(
                    filter@.extensions.take(i + 1),
                )[k] by {
                    assert(strings_view(before)[k] == portal_globs(filter@.extensions.take(i as int))[k]);
                }
                assert(strings_view(globs@) =~= portal_globs(filter@.extensions.take(i + 1)));
            }
            i = i + 1;
        }
        proof {
            assert(filter@.extensions.take(i as int) =~= filter@.extensions);
        }
        PortalFilter { name: filter.name.clone(), globs }
    }
}

/// A text for C, or nothing when there is none or it holds a NUL character.
pub open spec fn c_text(value: Option<Seq<char>>) -> Option<Seq<char>> {
    match value {
        Some(t) => if no_nul(t) {
            Some(t)
        } else {
            None
        },
        None => None,
    }
}

/// A view of an optional text.
pub open spec fn text_view(value: Option<&str>) -> Option<Seq<char>> {
    match value {
        Some(t) => Some(t@),
        None => None,
    }
}

/// The text, when there is one that can be handed to C.
pub fn str_to_cstring(value: Option<&str>) -> (r: Option<String>)
    ensures
        match r {
            Some(s) => c_text(text_view(value)) == Some(s@),
            None => c_text(text_view(value)) is None,
        },
{
    match value {
        Some(t) => if has_no_nul(t) {
            Some(t.to_string())
        } else {
            None
        },
        None => None,
    }
}

/// What the portal is asked to open: title (empty when the options have none usable),
/// whether several items may be chosen, whether folders are chosen, the filters, the
/// folder shown at first and, for saving, the name proposed.
pub struct PortalRequest {
    pub title: String,
    pub multiple: bool,
    pub directory: bool,
    pub filters: Vec<PortalFilter>,
    pub current_folder: Option<PathBuf>,
    pub current_name: Option<String>,
}

/// Every filter of the options can be handed to C.
pub open spec fn filters_without_nul(fs: Seq<FilterView>) -> bool {
    forall|i: int| 0 <= i < fs.len() ==> filter_without_nul(#[trigger] fs[i])
}

/// The title of a request: the options' title if it can be handed to C, else empty.
pub open spec fn request_title(title: Option<String>) -> Seq<char> {
    match title {
        Some(t) => if no_nul(t@) {
            t@
        } else {
            Seq::empty()
        },
        None => Seq::empty(),
    }
}

/// A portal filter as its name and globs.
pub open spec fn portal_filter_view(p: PortalFilter) -> (Seq<char>, Seq<Seq<char>>) {
    (p.name@, strings_view(p.globs@))
}

/// The views of a list of portal filters.
pub open spec fn portal_filters_view(v: Seq<PortalFilter>) -> Seq<(Seq<char>, Seq<Seq<char>>)> {
    v.map_values(|p: PortalFilter| portal_filter_view(p))
}

/// The portal filters for a list of filters: each name with its globs.
pub open spec fn expected_filters(fs: Seq<FilterView>) -> Seq<(Seq<char>, Seq<Seq<char>>)> {
    fs.map_values(|f: FilterView| (f.name, portal_globs(f.extensions)))
}

fn portal_filters(filters: &[Filter]) -> (r: Vec<PortalFilter>)
    requires
        filters_without_nul(filters_view(filters@)),
    ensures
        portal_filters_view(r@) == expected_filters(filters_view(filters@)),
{
    let mut r: Vec<PortalFilter> = Vec::new();
    let mut i: usize = 0;
    while i < filters.len()
        invariant
            0 <= i <= filters@.len(),
            filters_without_nul(filters_view(filters@)),
            r@.len() == i,
            portal_filters_view(r@) == expected_filters(filters_view(filters@).take(i as int)),
        decreases filters@.len() - i,
    {
        proof {
            assert(filters_view(filters@)[i as int] == filters@[i as int]@);
        }
        let ghost before = r@;
        let f = PortalFilter::from(&filters[i]);
        r.push(f);
        proof {
            assert forall|k: int| 0 <= k < i implies portal_filters_view(r@)[k] == expected_filters(
                filters_view(filters@).take(i + 1),
            )[k] by {
                assert(portal_filters_view(before)[k] == expected_filters(filters_view(filters@).take(i as int))[k]);
            }
            assert(portal_filters_view(r@) =~= expected_filters(filters_view(filters@).take(i + 1)));
        }
        i = i + 1;
    }
    proof {
        assert(filters_view(filters@).take(i as int) =~= filters_view(filters@));
    }
    r
}

/// The request that opens files or folders.
pub fn open_file_request(dialog: &FileDialog, multiple: bool, directory: bool) -> (r: PortalRequest)
    requires
        filters_without_nul(filters_view(dialog.filters@)),
    ensures
        r.title@ == request_title(dialog.title),
        r.multiple == multiple,
        r.directory == directory,
        portal_filters_view(r.filters@) == expected_filters(filters_view(dialog.filters@)),
        r.current_folder == dialog.starting_directory,
        r.current_name is None,
{
    let title = match &dialog.title {
        Some(t) => match str_to_cstring(Some(t.as_str())) {
            Some(s) => s,
            None => String::new(),
        },
        None => String::new(),
    };
    PortalRequest {
        title,
        multiple,
        directory,
        filters: portal_filters(dialog.filters.as_slice()),
        current_folder: match &dialog.starting_directory {
            Some(p) => Some(p.clone()),
            None => None,
        },
        current_name: None,
    }
}

/// The request that saves a file: it proposes the options' file name when it can be
/// handed to C.
pub fn save_file_request(dialog: &FileDialog) -> (r: PortalRequest)
    requires
        filters_without_nul(filters_view(dialog.filters@)),
    ensures
        r.title@ == request_title(dialog.title),
        !r.multiple,
        !r.directory,
        portal_filters_view(r.filters@) == expected_filters(filters_view(dialog.filters@)),
        r.current_folder == dialog.starting_directory,
        match r.current_name {
            Some(n) => c_text(match dialog.file_name {
                Some(f) => Some(f@),
                None => None,
            }) == Some(n@),
            None => c_text(match dialog.file_name {
                Some(f) => Some(f@),
                None => None,
            }) is None,
        },
{
    let mut r = open_file_request(dialog, false, false);
    r.current_name = match &dialog.file_name {
        Some(n) => str_to_cstring(Some(n.as_str())),
        None => None,
    };
    r
}

/// What comes of asking the portal: its answer, or the need to ask zenity instead (the
/// portal could not be used).
pub enum PortalOutcome<T> {
    Answered(T),
    UseZenity,
}

/// For a single file or folder: the first of the paths the portal returned, none when it
/// returned none; zenity when the portal failed.
pub fn single_outcome(res: Option<Vec<PathBuf>>) -> (r: PortalOutcome<Option<PathBuf>>)
    ensures
        match res {
            Some(v) => r matches PortalOutcome::Answered(a) && (if v@.len() == 0 {
                a is None
            } else {
                a == Some(v@[0])
            }),
            None => r is UseZenity,
        },
{
    match res {
        Some(mut v) => if v.len() == 0 {
            PortalOutcome::Answered(None)
        } else {
            PortalOutcome::Answered(Some(v.remove(0)))
        },
        None => PortalOutcome::UseZenity,
    }
}

/// For several files or folders: all the paths the portal returned; zenity when the
/// portal failed.
pub fn multiple_outcome(res: Option<Vec<PathBuf>>) -> (r: PortalOutcome<Option<Vec<PathBuf>>>)
    ensures
        match res {
            Some(v) => r == PortalOutcome::Answered(Some(v)),
            None => r is UseZenity,
        },
{
    match res {
        Some(v) => PortalOutcome::Answered(Some(v)),
        None => PortalOutcome::UseZenity,
    }
}

/// What a zenity fallback for one path yields: its answer, or nothing when it failed.
pub fn zenity_single(res: Result<Option<PathBuf>, ZenityError>) -> (r: Option<PathBuf>)
    ensures
        match res {
            Ok(p) => r == p,
            Err(_) => r is None,
        },
{
    match res {
        Ok(p) => p,
        Err(_) => None,
    }
}

/// What a zenity fallback for several paths yields: its answer, or nothing when it
/// failed.
pub fn zenity_multiple(res: Result<Vec<PathBuf>, ZenityError>) -> (r: Option<Vec<PathBuf>>)
    ensures
        match res {
            Ok(v) => r == Some(v),
            Err(_) => r is None,
        },
{
    match res {
        Ok(v) => Some(v),
        Err(_) => None,
    }
}

/// The buttons are shown by zenity's message dialog; the others by its question dialog.
pub open spec fn shown_as_message(b: ButtonsView) -> bool {
    b is Okay || b is OkCustom
}

/// Whether the buttons are shown by zenity's message dialog rather than its question.
pub fn uses_message_dialog(buttons: &MessageButtons) -> (b: bool)
    ensures
        b == shown_as_message(buttons@),
{
    match buttons {
        MessageButtons::Okay | MessageButtons::OkCustom(_) => true,
        _ => false,
    }
}

/// The answer of a message dialog shown by zenity: zenity's answer, or `Cancel` when
/// zenity failed.
pub fn zenity_answer(res: Result<MessageDialogResult, ZenityError>) -> (r: MessageDialogResult)
    ensures
        match res {
            Ok(a) => r == a,
            Err(_) => r@ == ResultView::Cancel,
        },
{
    match res {
        Ok(a) => a,
        Err(_) => MessageDialogResult::Cancel,
    }
}

} // verus!
