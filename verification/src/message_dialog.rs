//! The message dialog's options and outcomes.
use vstd::prelude::*;

verus! {

/// How serious the message is; backends pick an icon from it.
#[derive(Clone, Copy, Debug, PartialEq, Eq)]
pub enum MessageLevel {
    Info,
    Warning,
    Error,
}

/// The set of buttons a message dialog offers.
#[derive(Clone, Debug, PartialEq, Eq)]
pub enum MessageButtons {
    /// One OK button.
    Okay,
    OkCancel,
    YesNo,
    YesNoCancel,
    /// One button with a custom label.
    OkCustom(String),
    /// Two buttons with custom labels: ok, cancel.
    OkCancelCustom(String, String),
    /// Three buttons with custom labels: yes, no, cancel.
    YesNoCancelCustom(String, String, String),
}

/// Which button the user chose.
#[derive(Clone, Debug, PartialEq, Eq)]
pub enum MessageDialogResult {
    Yes,
    No,
    Okay,
    Cancel,
    /// The custom button with this label.
    Custom(String),
}

/// `MessageButtons` with its labels as character sequences.
pub enum ButtonsView {
    Okay,
    OkCancel,
    YesNo,
    YesNoCancel,
    OkCustom(Seq<char>),
    OkCancelCustom(Seq<char>, Seq<char>),
    YesNoCancelCustom(Seq<char>, Seq<char>, Seq<char>),
}

/// `MessageDialogResult` with its label as a character sequence.
pub enum ResultView {
    Yes,
    No,
    Okay,
    Cancel,
    Custom(Seq<char>),
}

impl View for MessageButtons {
    type V = ButtonsView;

    open spec fn view(&self) -> ButtonsView {
        match self {
            MessageButtons::Okay => ButtonsView::Okay,
            MessageButtons::OkCancel => ButtonsView::OkCancel,
            MessageButtons::YesNo => ButtonsView::YesNo,
            MessageButtons::YesNoCancel => ButtonsView::YesNoCancel,
            MessageButtons::OkCustom(o) => ButtonsView::OkCustom(o@),
            MessageButtons::OkCancelCustom(o, c) => ButtonsView::OkCancelCustom(o@, c@),
            MessageButtons::YesNoCancelCustom(y, n, c) => ButtonsView::YesNoCancelCustom(y@, n@, c@),
        }
    }
}

impl View for MessageDialogResult {
    type V = ResultView;

    open spec fn view(&self) -> ResultView {
        match self {
            MessageDialogResult::Yes => ResultView::Yes,
            MessageDialogResult::No => ResultView::No,
            MessageDialogResult::Okay => ResultView::Okay,
            MessageDialogResult::Cancel => ResultView::Cancel,
            MessageDialogResult::Custom(s) => ResultView::Custom(s@),
        }
    }
}

/// The window a dialog is attached to, by the kind of handle the platform gives for it
/// and the handle's number.
#[derive(Clone, Copy, Debug, PartialEq, Eq)]
pub enum ParentWindow {
    /// A Win32 window (`HWND`).
    Win32(isize),
    /// An AppKit view (`NSView` address).
    AppKit(usize),
    /// An Xlib window.
    Xlib(u64),
    /// An XCB window.
    Xcb(u32),
    /// A Wayland surface (address).
    Wayland(usize),
    /// A browser canvas.
    Web(u32),
    /// Any other kind of window.
    Other,
}

/// A message dialog: what it says, which buttons it offers, and the window it belongs to.
pub struct MessageDialog {
    pub title: String,
    pub description: String,
    pub level: MessageLevel,
    pub buttons: MessageButtons,
    pub parent: Option<ParentWindow>,
}

impl MessageDialog {
    /// A dialog with an empty title and text, an `Okay` button, the `Info` level and no
    /// parent window.
    pub fn new() -> (d: MessageDialog)
        ensures
            d.title@ == Seq::<char>::empty(),
            d.description@ == Seq::<char>::empty(),
            d.level == MessageLevel::Info,
            d.buttons@ == ButtonsView::Okay,
            d.parent is None,
    {
        MessageDialog {
            title: String::new(),
            description: String::new(),
            level: MessageLevel::Info,
            buttons: MessageButtons::Okay,
            parent: None,
        }
    }
}

/// A copy of a label.
pub fn copy_label(s: &String) -> (r: String)
    ensures
        r@ == s@,
{
    s.clone()
}

/// A copy of the buttons, labels included.
pub fn copy_buttons(b: &MessageButtons) -> (r: MessageButtons)
    ensures
        r@ == b@,
{
    match b {
        MessageButtons::Okay => MessageButtons::Okay,
        MessageButtons::OkCancel => MessageButtons::OkCancel,
        MessageButtons::YesNo => MessageButtons::YesNo,
        MessageButtons::YesNoCancel => MessageButtons::YesNoCancel,
        MessageButtons::OkCustom(o) => MessageButtons::OkCustom(copy_label(o)),
        MessageButtons::OkCancelCustom(o, c) => MessageButtons::OkCancelCustom(copy_label(o), copy_label(c)),
        MessageButtons::YesNoCancelCustom(y, n, c) => MessageButtons::YesNoCancelCustom(
            copy_label(y),
            copy_label(n),
            copy_label(c),
        ),
    }
}

} // verus!
