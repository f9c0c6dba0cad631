use iconic::naming::{
    built_in_icon_path, clipboard_png_path, file_extension, first_segment, last_segment,
    mime_main_type, remove_all, save_file_name,
};

#[test]
fn extension_is_text_after_last_dot() {
    assert_eq!(file_extension("photo.png"), ".png");
    assert_eq!(file_extension("archive.tar.gz"), ".gz");
    assert_eq!(file_extension("dir."), ".");
}

#[test]
fn extension_of_dotless_name_is_whole_name() {
    assert_eq!(file_extension("photo"), ".photo");
    assert_eq!(file_extension(""), ".");
}

#[test]
fn extension_of_unicode_name() {
    assert_eq!(file_extension("Grüße.jpëg"), ".jpëg");
}

#[test]
fn remove_all_strips_extension() {
    assert_eq!(remove_all("photo.png", ".png"), "photo");
    assert_eq!(remove_all("my.file.png", ".png"), "my.file");
}

#[test]
fn remove_all_removes_every_occurrence() {
    assert_eq!(remove_all("a.png.png", ".png"), "a");
    assert_eq!(remove_all("x.png_y.png", ".png"), "x_y");
}

#[test]
fn remove_all_does_not_rescan_what_it_joined() {
    assert_eq!(remove_all("a.p.pngng", ".png"), "a.png");
    assert_eq!(remove_all("aaaa", "aa"), "");
    assert_eq!(remove_all("aaa", "aa"), "a");
}

#[test]
fn remove_all_with_empty_or_absent_pattern() {
    assert_eq!(remove_all("abc", ""), "abc");
    assert_eq!(remove_all("abc", "x"), "abc");
    assert_eq!(remove_all("ab", "abc"), "ab");
    assert_eq!(remove_all("", ".png"), "");
}

#[test]
fn remove_all_agrees_with_str_replace() {
    let texts = [
        "photo.png", "a.png.png", "a.p.pngng", "aaaa", "aaaaa", "abcabcab", "ä.ä.ä", "",
        "..", "...", "x.svg", "svg", ".svg.svg", "ababab",
    ];
    let patterns = [".png", "aa", "a", "abc", "ab", ".ä", ".", "..", ".svg", "svg", "b", ""];
    for t in texts.iter() {
        for p in patterns.iter() {
            assert_eq!(remove_all(t, p), t.replace(p, ""), "text {:?} pattern {:?}", t, p);
        }
    }
}

#[test]
fn stem_and_extension_rebuild_single_dot_name() {
    let name = "holiday.jpeg";
    let ext = file_extension(name);
    let stem = remove_all(name, &ext);
    assert_eq!(stem, "holiday");
    assert_eq!(format!("{}{}", stem, ext), name);
}

#[test]
fn dotless_name_keeps_its_text() {
    let name = "README";
    let ext = file_extension(name);
    assert_eq!(remove_all(name, &ext), "README");
}

#[test]
fn repeated_extension_breaks_rebuild() {
    let name = "a.png.png";
    let ext = file_extension(name);
    let stem = remove_all(name, &ext);
    assert_ne!(format!("{}{}", stem, ext), name);
}

#[test]
fn segments() {
    assert_eq!(last_segment("a/b/c", '/'), "c");
    assert_eq!(last_segment("abc", '/'), "abc");
    assert_eq!(first_segment("a/b/c", '/'), "a");
    assert_eq!(first_segment("/abc", '/'), "");
    assert_eq!(first_segment("abc", '/'), "abc");
}

#[test]
fn mime_main_type_is_text_before_slash() {
    assert_eq!(mime_main_type("image/png"), "image");
    assert_eq!(mime_main_type("image/svg+xml"), "image");
    assert_eq!(mime_main_type("text"), "text");
    assert_eq!(mime_main_type(""), "");
}

#[test]
fn built_in_icon_path_names_colour() {
    assert_eq!(
        built_in_icon_path("blue"),
        "/app/share/folder_icon/folders/folder_blue.svg"
    );
}

#[test]
fn clipboard_png_path_is_in_cache() {
    assert_eq!(clipboard_png_path("/home/u/.cache"), "/home/u/.cache/clipboard.png");
}

#[test]
fn save_file_name_wraps_top_name() {
    assert_eq!(save_file_name("cat"), "folder-cat.png");
    assert_eq!(save_file_name(""), "folder-.png");
}

#[test]
fn removal_never_lengthens() {
    let cases = [("photo.png", ".png"), ("abc", "x"), ("aaaa", "aa"), ("", "a"), ("x", "")];
    for (t, p) in cases.iter() {
        let out = remove_all(t, p);
        assert!(out.chars().count() <= t.chars().count());
        if !p.is_empty() && t.contains(p) {
            assert!(out.chars().count() < t.chars().count());
        }
    }
}
