//! Browser backend: the overlay it shows for file dialogs, and how it reads answers.
use crate::backend::web_fallback::join;
use crate::file_dialog::{filters_view, FileDialog, Filter, FilterView};
use crate::message_dialog::{ButtonsView, MessageButtons, MessageDialogResult, ResultView};
use crate::text::{push_char, push_str};
use vstd::prelude::*;

verus! {

/// What a browser file dialog is for.
pub enum FileKind {
    /// Picking files.
    In(FileDialog),
    /// Downloading `data` as the dialog's file name.
    OutLate(FileDialog, Vec<u8>),
    /// Choosing where to save, before the data exists.
    OutEarly(FileDialog),
}

/// The dialog's options, whatever it is for.
pub open spec fn kind_dialog(k: FileKind) -> FileDialog {
    match k {
        FileKind::In(d) => d,
        FileKind::OutLate(d, _) => d,
        FileKind::OutEarly(d) => d,
    }
}

/// The element of the overlay that does the dialog's work.
pub enum IoElement {
    /// A file input (`id`, input `input_type`) accepting the listed types.
    Input { id: String, input_type: String, accept: String },
    /// A download link (`id`, shown `text`) for `data` under `name`.
    Output { id: String, text: String, name: String, data: Vec<u8> },
    /// A link (`id`, shown `text`) that asks where to save.
    Mutable { id: String, text: String },
}

/// The title element of the card: its id and its HTML.
pub struct TitleElement {
    pub id: String,
    pub inner_html: String,
}

/// The kinds of element the card holds, in the order they are added.
#[derive(Clone, Copy, Debug, PartialEq, Eq)]
pub enum CardChild {
    Title,
    Io,
    OkButton,
    CancelButton,
}

/// The overlay of a browser file dialog: the overlay's and the card's ids, the title
/// element if any, the working element, the two buttons' labels and class, and the
/// card's children in order.
pub struct WasmDialog {
    pub overlay_id: String,
    pub card_id: String,
    pub title: Option<TitleElement>,
    pub io: IoElement,
    pub ok_label: String,
    pub cancel_label: String,
    pub button_class: String,
    pub children: Vec<CardChild>,
}

/// The card's children: the title when there is one, then the working element, the Ok
/// button and the Cancel button.
pub open spec fn card_children(has_title: bool) -> Seq<CardChild> {
    (if has_title {
        seq![CardChild::Title]
    } else {
        Seq::empty()
    }) + seq![CardChild::Io, CardChild::OkButton, CardChild::CancelButton]
}

/// The title element's HTML, if there is one.
pub open spec fn title_html(t: Option<TitleElement>) -> Option<Seq<char>> {
    match t {
        Some(e) => Some(e.inner_html@),
        None => None,
    }
}

/// Every extension of the filters, filter after filter, each behind a dot.
pub open spec fn dotted_all(fs: Seq<FilterView>) -> Seq<Seq<char>>
    decreases fs.len(),
{
    if fs.len() == 0 {
        Seq::empty()
    } else {
        dotted_all(fs.drop_last()) + fs.last().extensions.map_values(|e: Seq<char>| seq!['.'] + e)
    }
}

/// The `accept` list of a file input: the dotted extensions joined by commas.
pub open spec fn input_accept(fs: Seq<FilterView>) -> Seq<char> {
    join(dotted_all(fs), ","@)
}

fn accept_list(filters: &[Filter]) -> (r: String)
    ensures
        r@ == input_accept(filters_view(filters@)),
{
    let mut r = String::new();
    let mut any = false;
    let mut i: usize = 0;
    while i < filters.len()
        invariant
            0 <= i <= filters@.len(),
            any == (dotted_all(filters_view(filters@).take(i as int)).len() > 0),
            r@ == join(dotted_all(filters_view(filters@).take(i as int)), ","@),
        decreases filters@.len() - i,
    {
        let ghost base = dotted_all(filters_view(filters@).take(i as int));
        let ghost ev = filters@[i as int]@.extensions;
        let mut j: usize = 0;
        while j < filters[i].extensions.len()
            invariant
                0 <= i < filters@.len(),
                0 <= j <= filters@[i as int].extensions@.len(),
                ev == filters@[i as int]@.extensions,
                any == ((base + ev.take(j as int).map_values(|e: Seq<char>| seq!['.'] + e)).len() > 0),
                r@ == join(base + ev.take(j as int).map_values(|e: Seq<char>| seq!['.'] + e), ","@),
            decreases filters@[i as int].extensions@.len() - j,
        {
            let ghost items = base + ev.take(j as int).map_values(|e: Seq<char>| seq!['.'] + e);
            if any {
                push_str(&mut r, ",");
            }
            push_char(&mut r, '.');
            push_str(&mut r, filters[i].extensions[j].as_str());
            proof {
                let item = seq!['.'] + ev[j as int];
                assert(ev[j as int] == filters@[i as int].extensions@[j as int]@);
                assert(base + ev.take(j + 1).map_values(|e: Seq<char>| seq!['.'] + e) =~= items.push(item));
                assert(items.push(item).drop_last() =~= items);
                if items.len() == 0 {
                    assert(r@ =~= item);
                } else {
                    assert(r@ =~= join(items, ","@) + ","@ + item);
                }
            }
            any = true;
            j = j + 1;
        }
        proof {
            assert(ev.take(j as int) =~= ev);
            assert(filters_view(filters@)[i as int] == filters@[i as int]@);
            assert(filters_view(filters@).take(i + 1).drop_last() =~= filters_view(filters@).take(i as int));
        }
        i = i + 1;
    }
    proof {
        assert(filters_view(filters@).take(i as int) =~= filters_view(filters@));
    }
    r
}

/// An optional text's view.
pub open spec fn opt_text(o: Option<String>) -> Option<Seq<char>> {
    match o {
        Some(s) => Some(s@),
        None => None,
    }
}

impl WasmDialog {
    /// The overlay (`rfd-overlay`) for a dialog: a card (`rfd-card`) holding the title
    /// (`rfd-title`) if the options have one, then a file input (`rfd-input`, of type
    /// `file`) for picking or a download link (`rfd-output`) for saving, then the
    /// buttons `Ok` and `Cancel` (class `rfd-button`).
    pub fn new(opt: &FileKind) -> (d: WasmDialog)
        ensures
            d.overlay_id@ == "rfd-overlay"@,
            d.card_id@ == "rfd-card"@,
            title_html(d.title) == opt_text(kind_dialog(*opt).title),
            d.title matches Some(t) ==> t.id@ == "rfd-title"@,
            d.ok_label@ == "Ok"@,
            d.cancel_label@ == "Cancel"@,
            d.button_class@ == "rfd-button"@,
            d.children@ == card_children(kind_dialog(*opt).title is Some),
            match *opt {
                FileKind::In(dialog) => d.io matches IoElement::Input { id, input_type, accept }
                    && id@ == "rfd-input"@ && input_type@ == "file"@ && accept@ == input_accept(
                    filters_view(dialog.filters@),
                ),
                FileKind::OutLate(dialog, data) => d.io matches IoElement::Output { id, text, name, data: out }
                    && id@ == "rfd-output"@ && text@ == "click here to download your file"@ && name@ == match dialog.file_name {
                    Some(n) => n@,
                    None => Seq::<char>::empty(),
                } && out@ == data@,
                FileKind::OutEarly(_) => d.io matches IoElement::Mutable { id, text } && id@ == "rfd-output"@
                    && text@ == "click here to download your file"@,
            },
    {
        let dialog = match opt {
            FileKind::In(d) => d,
            FileKind::OutLate(d, _) => d,
            FileKind::OutEarly(d) => d,
        };
        let mut children: Vec<CardChild> = Vec::new();
        let title = match &dialog.title {
            Some(t) => {
                children.push(CardChild::Title);
                Some(TitleElement { id: "rfd-title".to_string(), inner_html: t.clone() })
            },
            None => None,
        };
        let io = match opt {
            FileKind::In(d) => IoElement::Input {
                id: "rfd-input".to_string(),
                input_type: "file".to_string(),
                accept: accept_list(d.filters.as_slice()),
            },
            FileKind::OutLate(d, data) => IoElement::Output {
                id: "rfd-output".to_string(),
                text: "click here to download your file".to_string(),
                name: match &d.file_name {
                    Some(n) => n.clone(),
                    None => String::new(),
                },
                data: data.clone(),
            },
            FileKind::OutEarly(_) => IoElement::Mutable {
                id: "rfd-output".to_string(),
                text: "click here to download your file".to_string(),
            },
        };
        children.push(CardChild::Io);
        children.push(CardChild::OkButton);
        children.push(CardChild::CancelButton);
        proof {
            assert(children@ =~= card_children(kind_dialog(*opt).title is Some));
        }
        WasmDialog {
            overlay_id: "rfd-overlay".to_string(),
            card_id: "rfd-card".to_string(),
            title,
            io,
            ok_label: "Ok".to_string(),
            cancel_label: "Cancel".to_string(),
            button_class: "rfd-button".to_string(),
            children,
        }
    }
}

/// The files an input yields: those it holds, or nothing when it holds none.
pub fn get_results<T>(files: Option<Vec<T>>) -> (r: Option<Vec<T>>)
    ensures
        match files {
            Some(v) => if v@.len() > 0 {
                r == Some(v)
            } else {
                r is None
            },
            None => r is None,
        },
{
    match files {
        Some(v) => if v.len() > 0 {
            Some(v)
        } else {
            None
        },
        None => None,
    }
}

/// The file a single pick yields: the last one the input holds, if any.
pub fn get_result<T>(files: Option<Vec<T>>) -> (r: Option<T>)
    ensures
        match files {
            Some(v) => if v@.len() > 0 {
                r == Some(v@.last())
            } else {
                r is None
            },
            None => r is None,
        },
{
    match get_results(files) {
        Some(mut v) => v.pop(),
        None => None,
    }
}

/// The text a browser message shows: the title, a line break, the description.
pub fn message_text(title: &str, description: &str) -> (r: String)
    ensures
        r@ == title@ + seq!['\n'] + description@,
{
    let mut r = title.to_string();
    push_char(&mut r, '\n');
    push_str(&mut r, description);
    r
}

/// The buttons are shown with the browser's `alert` (one button) rather than `confirm`.
pub open spec fn shown_with_alert(b: ButtonsView) -> bool {
    b is Okay || b is OkCustom
}

/// Whether the buttons are shown with `alert` rather than `confirm`.
pub fn uses_alert(buttons: &MessageButtons) -> (b: bool)
    ensures
        b == shown_with_alert(buttons@),
{
    match buttons {
        MessageButtons::Okay | MessageButtons::OkCustom(_) => true,
        _ => false,
    }
}

/// The answer of a browser message: `Okay` after an alert; after a confirmation,
/// `Okay` when confirmed and `Cancel` otherwise.
pub fn show_result(buttons: &MessageButtons, confirmed: bool) -> (r: MessageDialogResult)
    ensures
        shown_with_alert(buttons@) ==> r@ == ResultView::Okay,
        !shown_with_alert(buttons@) ==> r@ == if confirmed {
            ResultView::Okay
        } else {
            ResultView::Cancel
        },
{
    if uses_alert(buttons) || confirmed {
        MessageDialogResult::Okay
    } else {
        MessageDialogResult::Cancel
    }
}

/// How a browser file dialog is shown: the browser's own picker (which needs the API
/// and a user gesture still in effect), or the overlay.
#[derive(Clone, Copy, Debug, PartialEq, Eq)]
pub enum PickRoute {
    NativePicker,
    Overlay,
}

/// How files are picked: the browser's picker when it has one and the user just acted,
/// else the overlay.
pub fn pick_route(has_picker: bool, user_active: bool) -> (r: PickRoute)
    ensures
        r == if has_picker && user_active {
            PickRoute::NativePicker
        } else {
            PickRoute::Overlay
        },
{
    if has_picker && user_active {
        PickRoute::NativePicker
    } else {
        PickRoute::Overlay
    }
}

/// How a writable file is chosen, when the browser can save to files: its picker at once
/// when the user just acted, else the overlay whose button opens it.
pub fn save_route(has_save_picker: bool, user_active: bool) -> (r: PickRoute)
    requires
        has_save_picker,
    ensures
        r == if user_active {
            PickRoute::NativePicker
        } else {
            PickRoute::Overlay
        },
{
    if user_active {
        PickRoute::NativePicker
    } else {
        PickRoute::Overlay
    }
}

} // verus!
