//! The interface each platform backend provides, and the decisions of each backend.
use crate::file_dialog::FileHandle;
use crate::message_dialog::MessageDialogResult;
use std::future::Future;
use std::path::PathBuf;
use vstd::prelude::*;

pub mod gtk3;
pub mod gtk4;
pub mod linux;
pub mod macos;
pub mod wasm;
pub mod web_fallback;
pub mod win_cid;
pub mod xdg_desktop_portal;

verus! {

/// Dialog used to pick file/files.
pub trait FilePickerDialogImpl {
    fn pick_file(self) -> Option<PathBuf>;

    fn pick_files(self) -> Option<Vec<PathBuf>>;
}

/// Dialog used to save a file.
pub trait FileSaveDialogImpl {
    fn save_file(self) -> Option<PathBuf>;
}

/// Dialog used to pick folder/folders.
pub trait FolderPickerDialogImpl {
    fn pick_folder(self) -> Option<PathBuf>;

    fn pick_folders(self) -> Option<Vec<PathBuf>>;
}

/// Dialog that shows a message and reports the button chosen.
pub trait MessageDialogImpl {
    fn show(self) -> MessageDialogResult;
}

/// Dialog used to pick file/files without blocking; the futures resolve to the choice.
pub trait AsyncFilePickerDialogImpl {
    type FileFuture: Future<Output = Option<FileHandle>> + Send;

    type FilesFuture: Future<Output = Option<Vec<FileHandle>>> + Send;

    fn pick_file_async(self) -> Self::FileFuture;

    fn pick_files_async(self) -> Self::FilesFuture;
}

/// Dialog used to pick folder/folders without blocking.
pub trait AsyncFolderPickerDialogImpl {
    type FolderFuture: Future<Output = Option<FileHandle>> + Send;

    type FoldersFuture: Future<Output = Option<Vec<FileHandle>>> + Send;

    fn pick_folder_async(self) -> Self::FolderFuture;

    fn pick_folders_async(self) -> Self::FoldersFuture;
}

/// Dialog used to save a file without blocking.
pub trait AsyncFileSaveDialogImpl {
    type SaveFuture: Future<Output = Option<FileHandle>> + Send;

    fn save_file_async(self) -> Self::SaveFuture;
}

/// Message dialog that does not block.
pub trait AsyncMessageDialogImpl {
    type ShowFuture: Future<Output = MessageDialogResult> + Send;

    fn show_async(self) -> Self::ShowFuture;
}

/// Every backend turns a file extension into the same pattern: `*.` followed by the
/// extension (the web pages list it as `.` followed by the extension). Only GTK 4 and
/// the portal read an empty extension or `*` as "any file", and GTK 3 leaves out a
/// pattern that C cannot take. Stated for a filter `f` of one extension `ext`.
pub proof fn law_backends_agree_on_patterns(f: crate::file_dialog::FilterView, ext: Seq<char>)
    requires
        f.extensions == seq![ext],
    ensures
        linux::zenity::star_patterns(seq![ext]) == seq![seq!['*', '.'] + ext],
        win_cid::filter_spec(f) == seq!['*', '.'] + ext,
        gtk3::gtk3_patterns(seq![ext]) == if gtk3::no_nul(seq!['*', '.'] + ext) {
            seq![seq!['*', '.'] + ext]
        } else {
            Seq::<Seq<char>>::empty()
        },
        ext.len() > 0 && ext != seq!['*'] ==> gtk4::gtk4_pattern(ext) == seq!['*', '.'] + ext
            && xdg_desktop_portal::portal_glob(ext) == seq!['*', '.'] + ext,
        ext.len() == 0 || ext == seq!['*'] ==> gtk4::gtk4_pattern(ext) == seq!['*']
            && xdg_desktop_portal::portal_glob(ext) == seq!['*'],
        ext.len() > 0 ==> web_fallback::dotted_extensions(seq![ext]) == seq![seq!['.'] + ext],
        wasm::dotted_all(seq![f]) == seq![seq!['.'] + ext],
{
    reveal_strlit("*.");
    reveal_strlit("*");
    assert("*."@ =~= seq!['*', '.']);
    assert("*"@ =~= seq!['*']);
    let e = seq![ext];
    assert(e.drop_last() =~= Seq::<Seq<char>>::empty());
    assert(e.last() == ext);
    assert(linux::zenity::star_patterns(e) =~= seq![seq!['*', '.'] + ext]);
    assert(gtk3::gtk3_patterns(e.drop_last()) =~= Seq::<Seq<char>>::empty());
    assert(Seq::<Seq<char>>::empty().push(seq!['*', '.'] + ext) =~= seq![seq!['*', '.'] + ext]);
    assert(web_fallback::dotted_extensions(e.drop_last()) =~= Seq::<Seq<char>>::empty());
    let fs = seq![f];
    assert(fs.drop_last() =~= Seq::<crate::file_dialog::FilterView>::empty());
    assert(fs.last() == f);
    assert(wasm::dotted_all(fs.drop_last()) =~= Seq::<Seq<char>>::empty());
    assert(f.extensions.map_values(|x: Seq<char>| seq!['.'] + x) =~= seq![seq!['.'] + ext]);
    assert(Seq::<Seq<char>>::empty() + seq![seq!['.'] + ext] =~= seq![seq!['.'] + ext]);
}

} // verus!
