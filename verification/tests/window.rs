use iconic::window::{
    accent_color_setting, dropped_rejection, bottom_icon_plan, dropped_file_plan,
    dropped_main_type, file_source, page_before_top_file, slot_from_choice, texture_notice,
    DialogEnd, FileSource, Notice, Page, SaveState, Slot, Slots, TextureRead,
};
use iconic::file::File;

#[test]
fn bottom_icon_from_cache_when_chosen_by_hand() {
    let plan = bottom_icon_plan(true, false);
    assert!(plan.from_cache);
    assert!(!plan.reset_colors);
}

#[test]
fn bottom_icon_built_in_resets_colours_unless_shown() {
    assert!(bottom_icon_plan(false, false).reset_colors);
    assert!(!bottom_icon_plan(false, true).reset_colors);
    assert!(!bottom_icon_plan(false, true).from_cache);
}

#[test]
fn accent_none_asks_system() {
    assert_eq!(accent_color_setting("None"), None);
    assert_eq!(accent_color_setting("blue"), Some("blue".to_string()));
    assert_eq!(accent_color_setting("none"), Some("none".to_string()));
}

#[test]
fn popup_answer_chooses_slot() {
    assert_eq!(slot_from_choice(Some(true)), Slot::Top);
    assert_eq!(slot_from_choice(Some(false)), Slot::Bottom);
    assert_eq!(slot_from_choice(None), Slot::Bottom);
}

#[test]
fn texture_notice_only_when_missing() {
    assert_eq!(texture_notice(TextureRead::Found), None);
    assert_eq!(texture_notice(TextureRead::Empty), Some(Notice::NoTextureFound));
    assert_eq!(texture_notice(TextureRead::Failed), Some(Notice::NoTextureFound));
}

#[test]
fn dropped_image_types_accepted() {
    let main = dropped_main_type(Some("image/png"));
    assert_eq!(main, Some("image".to_string()));
    assert_eq!(dropped_rejection(&main), None);
    let text = dropped_main_type(Some("text/plain"));
    assert_eq!(dropped_rejection(&text), Some(Notice::UnsupportedFileType));
    let none = dropped_main_type(None);
    assert_eq!(none, None);
    assert_eq!(dropped_rejection(&none), Some(Notice::UnsupportedFileType));
    assert_eq!(
        dropped_rejection(&dropped_main_type(Some("imagery/png"))),
        Some(Notice::UnsupportedFileType)
    );
}

#[test]
fn dropped_file_plans() {
    let top = dropped_file_plan(Some(true));
    assert_eq!(top.pages, vec![Page::Loading]);
    assert_eq!(top.target, Some(Slot::Top));
    let bottom = dropped_file_plan(Some(false));
    assert_eq!(bottom.pages, vec![Page::Loading, Page::Main]);
    assert_eq!(bottom.target, Some(Slot::Bottom));
    let dismissed = dropped_file_plan(None);
    assert_eq!(dismissed.pages, vec![Page::Loading]);
    assert_eq!(dismissed.target, None);
}

#[test]
fn top_file_leaves_welcome_page() {
    assert_eq!(page_before_top_file(Some(Page::Welcome)), Some(Page::Loading));
    assert_eq!(page_before_top_file(Some(Page::Main)), None);
    assert_eq!(page_before_top_file(None), None);
}

#[test]
fn file_source_prefers_handle() {
    assert_eq!(file_source(true, true), Ok(FileSource::Handle));
    assert_eq!(file_source(true, false), Ok(FileSource::Handle));
    assert_eq!(file_source(false, true), Ok(FileSource::Path));
    assert_eq!(file_source(false, false), Err(Notice::NoFileOrPath));
}

#[test]
fn page_names() {
    assert_eq!(Page::Welcome.name(), "stack_welcome_page");
    assert_eq!(Page::Loading.name(), "stack_loading_page");
    assert_eq!(Page::Main.name(), "stack_main_page");
    assert_eq!(Page::Saving.name(), "stack_saving_page");
}

#[test]
fn notice_texts() {
    assert_eq!(Notice::NoTextureFound.text(), "No texture found");
    assert_eq!(Notice::UnsupportedFileType.text(), "Unsupported file type");
    assert_eq!(Notice::IconReset.text(), "Icon reset");
    assert_eq!(Notice::NothingSelected.text(), "Nothing selected");
    assert_eq!(
        Notice::NoFileOrPath.text(),
        "No file or path found, this is probably not your fault."
    );
    assert_eq!(Notice::CantSave.text(), "Can't save anything");
    assert_eq!(Notice::FileNotSaved.text(), "File not saved");
    assert_eq!(Notice::FileSaved.text(), "File Saved");
}

#[test]
fn save_refused_when_not_offered() {
    let state = SaveState { image_saved: false, save_sensitive: false };
    assert_eq!(state.save_request(), Some(Notice::CantSave));
    let state = SaveState { image_saved: false, save_sensitive: true };
    assert_eq!(state.save_request(), None);
}

#[test]
fn saved_icon_refuses_next_save() {
    let mut state = SaveState { image_saved: false, save_sensitive: true };
    state.saved();
    assert_eq!(state, SaveState { image_saved: true, save_sensitive: false });
    assert_eq!(state.save_request(), Some(Notice::CantSave));
    assert_eq!(state.dialog_ended("Dismissed by user"), DialogEnd::Dismissed);
    assert_eq!(state.save_request(), Some(Notice::CantSave));
}

#[test]
fn dismissed_dialog_keeps_state() {
    let mut state = SaveState { image_saved: true, save_sensitive: true };
    assert_eq!(state.dialog_ended("Dismissed by user"), DialogEnd::Dismissed);
    assert_eq!(state, SaveState { image_saved: true, save_sensitive: true });
}

#[test]
fn failed_dialog_offers_save_again() {
    let mut state = SaveState { image_saved: true, save_sensitive: false };
    assert_eq!(state.dialog_ended("Permission denied"), DialogEnd::Failed);
    assert_eq!(state, SaveState { image_saved: false, save_sensitive: true });
    assert_eq!(state.save_request(), None);
}

fn small_file(name: &str) -> File {
    let img = image::DynamicImage::ImageRgb8(image::RgbImage::new(2, 2));
    File::from_image(img, 1, name)
}

#[test]
fn placing_a_file_touches_one_slot() {
    let mut slots = Slots::new();
    slots.place(Some(small_file("top")), true);
    assert_eq!(slots.top.as_ref().unwrap().filename, "top");
    assert!(slots.bottom.is_none());
    slots.place(Some(small_file("bottom")), false);
    assert_eq!(slots.top.as_ref().unwrap().filename, "top");
    assert_eq!(slots.bottom.as_ref().unwrap().filename, "bottom");
    slots.place(None, true);
    assert_eq!(slots.top.as_ref().unwrap().filename, "top");
    assert_eq!(slots.bottom.as_ref().unwrap().filename, "bottom");
}

#[test]
fn pages_found_by_name() {
    for page in [Page::Welcome, Page::Loading, Page::Main, Page::Saving] {
        assert_eq!(Page::from_name(page.name()), Some(page));
    }
    assert_eq!(Page::from_name("stack_other_page"), None);
    assert_eq!(Page::from_name(""), None);
}
