//! The decisions of the main window: which image a new file replaces, which
//! page the window shows, when saving is allowed, what the user is told.
//! The window itself performs each decision and reports what happened.

use crate::file::File;
use crate::naming::{first_segment, is_first_segment};
use vstd::prelude::*;

verus! {

/// The pages of the window's stack.
#[derive(Debug, Clone, Copy, PartialEq, Eq, Structural)]
pub enum Page {
    Welcome,
    Loading,
    Main,
    Saving,
}

/// The stack's name of a page.
pub open spec fn page_name(page: Page) -> Seq<char> {
    match page {
        Page::Welcome => "stack_welcome_page"@,
        Page::Loading => "stack_loading_page"@,
        Page::Main => "stack_main_page"@,
        Page::Saving => "stack_saving_page"@,
    }
}

impl Page {
    /// The name under which the stack knows this page.
    pub fn name(&self) -> (name: &'static str)
        ensures
            name@ == page_name(*self),
    {
        match self {
            Page::Welcome => "stack_welcome_page",
            Page::Loading => "stack_loading_page",
            Page::Main => "stack_main_page",
            Page::Saving => "stack_saving_page",
        }
    }

    /// The page the stack knows under `name`, if any.
    pub fn from_name(name: &str) -> (page: Option<Page>)
        ensures
            page matches Some(p) ==> page_name(p) == name@,
            page is None ==> forall|p: Page| page_name(p) != name@,
    {
        let n = String::from_str(name);
        if n == String::from_str("stack_welcome_page") {
            Some(Page::Welcome)
        } else if n == String::from_str("stack_loading_page") {
            Some(Page::Loading)
        } else if n == String::from_str("stack_main_page") {
            Some(Page::Main)
        } else if n == String::from_str("stack_saving_page") {
            Some(Page::Saving)
        } else {
            None
        }
    }
}

/// The two images the icon is made of: the folder at the bottom and the
/// picture on top of it.
#[derive(Debug, Clone, Copy, PartialEq, Eq, Structural)]
pub enum Slot {
    Top,
    Bottom,
}

/// The messages the window shows; the window translates them.
#[derive(Debug, Clone, Copy, PartialEq, Eq, Structural)]
pub enum Notice {
    NoTextureFound,
    UnsupportedFileType,
    IconReset,
    NothingSelected,
    NoFileOrPath,
    CantSave,
    FileNotSaved,
    FileSaved,
}

/// The untranslated text of a message.
pub open spec fn notice_text(notice: Notice) -> Seq<char> {
    match notice {
        Notice::NoTextureFound => "No texture found"@,
        Notice::UnsupportedFileType => "Unsupported file type"@,
        Notice::IconReset => "Icon reset"@,
        Notice::NothingSelected => "Nothing selected"@,
        Notice::NoFileOrPath => "No file or path found, this is probably not your fault."@,
        Notice::CantSave => "Can't save anything"@,
        Notice::FileNotSaved => "File not saved"@,
        Notice::FileSaved => "File Saved"@,
    }
}

impl Notice {
    /// The untranslated text of this message.
    pub fn text(&self) -> (text: &'static str)
        ensures
            text@ == notice_text(*self),
    {
        match self {
            Notice::NoTextureFound => "No texture found",
            Notice::UnsupportedFileType => "Unsupported file type",
            Notice::IconReset => "Icon reset",
            Notice::NothingSelected => "Nothing selected",
            Notice::NoFileOrPath => "No file or path found, this is probably not your fault.",
            Notice::CantSave => "Can't save anything",
            Notice::FileNotSaved => "File not saved",
            Notice::FileSaved => "File Saved",
        }
    }
}

/// Where the bottom (folder) image comes from when it is reloaded from the
/// settings, and whether the colour controls are reset.
#[derive(Debug, Clone, Copy, PartialEq, Eq, Structural)]
pub struct BottomIconPlan {
    /// Load the icon the user chose earlier, kept in the cache; otherwise the
    /// built-in folder icon of the accent colour.
    pub from_cache: bool,
    /// Reset the folder colours.
    pub reset_colors: bool,
}

/// How the bottom image is reloaded from the settings: the cached icon when
/// the user picks the bottom image by hand, else the built-in icon, in which
/// case the colours are reset unless the reset control is already shown.
pub fn bottom_icon_plan(manual_selection: bool, reset_color_visible: bool) -> (plan: BottomIconPlan)
    ensures
        plan.from_cache == manual_selection,
        plan.reset_colors == (!manual_selection && !reset_color_visible),
{
    if manual_selection {
        BottomIconPlan { from_cache: true, reset_colors: false }
    } else {
        BottomIconPlan { from_cache: false, reset_colors: !reset_color_visible }
    }
}

/// The folder colour the settings name, or `None` where the setting is
/// `None` and the system's accent colour is to be used.
pub fn accent_color_setting(setting: &str) -> (color: Option<String>)
    ensures
        color is None <==> setting@ == "None"@,
        color matches Some(c) ==> c@ == setting@,
{
    if String::from_str(setting) == String::from_str("None") {
        None
    } else {
        Some(String::from_str(setting))
    }
}

/// The image a file chosen in the top-or-bottom popup replaces: the top one
/// only when the popup answered "top".
pub fn slot_from_choice(top_chosen: Option<bool>) -> (slot: Slot)
    ensures
        slot == (if top_chosen == Some(true) {
            Slot::Top
        } else {
            Slot::Bottom
        }),
{
    match top_chosen {
        Some(true) => Slot::Top,
        _ => Slot::Bottom,
    }
}

/// What reading a texture from the clipboard gave.
#[derive(Debug, Clone, Copy, PartialEq, Eq, Structural)]
pub enum TextureRead {
    Found,
    Empty,
    Failed,
}

/// The message after a texture was read from the clipboard: none when one
/// was found, else "No texture found".
pub fn texture_notice(read: TextureRead) -> (notice: Option<Notice>)
    ensures
        notice == (if read == TextureRead::Found {
            None::<Notice>
        } else {
            Some(Notice::NoTextureFound)
        }),
{
    match read {
        TextureRead::Found => None,
        _ => Some(Notice::NoTextureFound),
    }
}

/// The main type of a dropped file's content type (the text before the
/// first `/`), or `None` where the file has no content type.
pub fn dropped_main_type(content_type: Option<&str>) -> (main: Option<String>)
    ensures
        main is Some <==> content_type is Some,
        main matches Some(m) ==> is_first_segment(content_type.unwrap()@, '/', m@),
{
    match content_type {
        Some(c) => Some(first_segment(c, '/')),
        None => None,
    }
}

/// Whether a dropped file is refused, with the message then shown: it is
/// taken when its main type is `image`, else "Unsupported file type" is shown.
pub fn dropped_rejection(main_type: &Option<String>) -> (rejection: Option<Notice>)
    ensures
        rejection == (if main_type matches Some(m) && m@ == "image"@ {
            None::<Notice>
        } else {
            Some(Notice::UnsupportedFileType)
        }),
{
    let accepted = match main_type {
        Some(m) => *m == String::from_str("image"),
        None => false,
    };
    if accepted {
        None
    } else {
        Some(Notice::UnsupportedFileType)
    }
}

/// What the window does with an accepted dropped file once the popup has
/// answered.
#[derive(Debug, Clone, PartialEq, Eq)]
pub struct DropPlan {
    /// The pages shown, in order.
    pub pages: Vec<Page>,
    /// The image the file replaces; `None` when the popup was dismissed.
    pub target: Option<Slot>,
}

/// The plan for an accepted dropped file: the loading page is shown in
/// every case; "top" loads into the top image, "bottom" switches to the
/// main page and loads into the bottom image, a dismissed popup loads
/// nothing.
pub fn dropped_file_plan(top_chosen: Option<bool>) -> (plan: DropPlan)
    ensures
        plan.pages@ == (if top_chosen == Some(false) {
            seq![Page::Loading, Page::Main]
        } else {
            seq![Page::Loading]
        }),
        plan.target == (match top_chosen {
            Some(true) => Some(Slot::Top),
            Some(false) => Some(Slot::Bottom),
            None => None::<Slot>,
        }),
{
    let mut pages: Vec<Page> = Vec::new();
    pages.push(Page::Loading);
    match top_chosen {
        Some(true) => DropPlan { pages, target: Some(Slot::Top) },
        Some(false) => {
            pages.push(Page::Main);
            DropPlan { pages, target: Some(Slot::Bottom) }
        },
        None => DropPlan { pages, target: None },
    }
}

/// The page shown before a top file is loaded: the loading page when the
/// welcome page is showing, else no change.
pub fn page_before_top_file(current: Option<Page>) -> (next: Option<Page>)
    ensures
        next == (if current == Some(Page::Welcome) {
            Some(Page::Loading)
        } else {
            None::<Page>
        }),
{
    match current {
        Some(Page::Welcome) => Some(Page::Loading),
        _ => None,
    }
}

/// Where a new file is made from: its file handle or its path.
#[derive(Debug, Clone, Copy, PartialEq, Eq, Structural)]
pub enum FileSource {
    Handle,
    Path,
}

/// The source of a new file: the handle when there is one, else the path;
/// with neither, the error message "No file or path found, this is
/// probably not your fault." is shown.
pub fn file_source(has_handle: bool, has_path: bool) -> (source: Result<FileSource, Notice>)
    ensures
        source == (if has_handle {
            Ok::<FileSource, Notice>(FileSource::Handle)
        } else if has_path {
            Ok(FileSource::Path)
        } else {
            Err(Notice::NoFileOrPath)
        }),
{
    if has_handle {
        Ok(FileSource::Handle)
    } else if has_path {
        Ok(FileSource::Path)
    } else {
        Err(Notice::NoFileOrPath)
    }
}

/// The two images of the icon.
pub struct Slots {
    pub top: Option<File>,
    pub bottom: Option<File>,
}

impl Slots {
    /// No image loaded yet.
    pub fn new() -> (slots: Slots)
        ensures
            slots.top is None,
            slots.bottom is None,
    {
        Slots { top: None, bottom: None }
    }

    /// Stores a newly made file in the top image (`change_top_icon`) or in
    /// the bottom one; a file that could not be made changes nothing.
    pub fn place(&mut self, new_file: Option<File>, change_top_icon: bool)
        ensures
            new_file is None ==> *final(self) == *old(self),
            new_file is Some && change_top_icon ==> final(self).top == new_file
                && final(self).bottom == old(self).bottom,
            new_file is Some && !change_top_icon ==> final(self).bottom == new_file
                && final(self).top == old(self).top,
    {
        match new_file {
            Some(file) => {
                if change_top_icon {
                    self.top = Some(file);
                } else {
                    self.bottom = Some(file);
                }
            },
            None => {},
        }
    }
}

/// Whether the composed icon has been saved, and whether saving is offered.
#[derive(Debug, Clone, Copy, PartialEq, Eq, Structural)]
pub struct SaveState {
    pub image_saved: bool,
    pub save_sensitive: bool,
}

/// How a save dialog that gave no file ended.
#[derive(Debug, Clone, Copy, PartialEq, Eq, Structural)]
pub enum DialogEnd {
    /// The user closed the dialog: "File not saved" is shown, nothing fails.
    Dismissed,
    /// The dialog failed: the error is passed on.
    Failed,
}

/// The message that refuses a save request, if any.
pub open spec fn save_refusal(state: SaveState) -> Option<Notice> {
    if state.save_sensitive {
        None
    } else {
        Some(Notice::CantSave)
    }
}

/// The state after a file dialog that gave no file, and how it ended.
pub open spec fn after_dialog(state: SaveState, message: Seq<char>) -> (SaveState, DialogEnd) {
    if message == "Dismissed by user"@ {
        (state, DialogEnd::Dismissed)
    } else {
        (SaveState { image_saved: false, save_sensitive: true }, DialogEnd::Failed)
    }
}

/// The state after the icon was written.
pub open spec fn after_saved(state: SaveState) -> SaveState {
    SaveState { image_saved: true, save_sensitive: false }
}

impl SaveState {
    /// Whether a save request goes on to the file dialog; `Some` carries the
    /// message shown instead ("Can't save anything") when saving is not
    /// offered.
    pub fn save_request(&self) -> (refusal: Option<Notice>)
        ensures
            refusal == save_refusal(*self),
    {
        if self.save_sensitive {
            None
        } else {
            Some(Notice::CantSave)
        }
    }

    /// After the file dialog gave no file, with the dialog's error message:
    /// "Dismissed by user" changes nothing; any other error marks the icon
    /// unsaved and offers saving again.
    pub fn dialog_ended(&mut self, message: &str) -> (end: DialogEnd)
        ensures
            (*final(self), end) == after_dialog(*old(self), message@),
    {
        if String::from_str(message) == String::from_str("Dismissed by user") {
            DialogEnd::Dismissed
        } else {
            self.image_saved = false;
            self.save_sensitive = true;
            DialogEnd::Failed
        }
    }

    /// After the icon was written: it is saved, and saving is no longer
    /// offered.
    pub fn saved(&mut self)
        ensures
            *final(self) == after_saved(*old(self)),
    {
        self.image_saved = true;
        self.save_sensitive = false;
    }
}

/// Law: once the icon is saved, a new save request is refused with
/// "Can't save anything", and a dismissed dialog does not change that.
pub proof fn law_saved_icon_refuses_save(state: SaveState)
    ensures
        after_saved(state).image_saved,
        save_refusal(after_saved(state)) == Some(Notice::CantSave),
        save_refusal(after_dialog(after_saved(state), "Dismissed by user"@).0) == Some(
            Notice::CantSave,
        ),
{
}

/// Law: a dismissed file dialog leaves the save state as it was.
pub proof fn law_dismissed_dialog_keeps_state(state: SaveState)
    ensures
        after_dialog(state, "Dismissed by user"@) == (state, DialogEnd::Dismissed),
{
}

/// Law: after a file dialog fails for any other reason, the icon counts as
/// unsaved and the next save request goes on to the dialog.
pub proof fn law_failed_dialog_offers_save_again(state: SaveState, message: Seq<char>)
    requires
        message != "Dismissed by user"@,
    ensures
        after_dialog(state, message).1 == DialogEnd::Failed,
        !after_dialog(state, message).0.image_saved,
        save_refusal(after_dialog(state, message).0) is None,
{
}

} // verus!
