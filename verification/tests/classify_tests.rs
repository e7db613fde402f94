use file_organizer::category::{get_folder_name, FileType};
use file_organizer::classify::{file_extension, get_extension_type, get_file_type};
use file_organizer::mapping::{get_file_type_mapping, lookup_category};
use file_organizer::organize::organized_folder;

fn listed() -> Vec<(&'static str, FileType)> {
    let mut all = Vec::new();
    for ext in ["jpg", "jpeg", "png", "gif", "bmp", "webp", "tiff", "tif"] {
        all.push((ext, FileType::Image));
    }
    for ext in [
        "txt", "pdf", "doc", "docx", "xls", "xlsx", "ppt", "pptx", "md", "odt", "rtf",
    ] {
        all.push((ext, FileType::Document));
    }
    for ext in ["mp3", "wav", "ogg", "flac", "aac", "m4a"] {
        all.push((ext, FileType::Music));
    }
    for ext in ["mp4", "mkv", "avi", "mov", "wmv", "flv", "mpeg"] {
        all.push((ext, FileType::Video));
    }
    all
}

/// Every second letter in upper case.
fn mixed(text: &str) -> String {
    text.chars()
        .enumerate()
        .map(|(i, c)| if i % 2 == 0 { c.to_ascii_uppercase() } else { c })
        .collect()
}

#[test]
fn mapping_holds_every_listed_extension() {
    let mapping = get_file_type_mapping();
    assert_eq!(mapping.len(), 32);
    for (ext, file_type) in listed() {
        assert_eq!(mapping.get(ext), Some(&file_type), "{}", ext);
    }
}

#[test]
fn mapping_keys_are_lower_case_only() {
    let mapping = get_file_type_mapping();
    assert_eq!(mapping.get("JPG"), None);
    assert_eq!(mapping.get(".jpg"), None);
    assert_eq!(mapping.get(""), None);
    assert_eq!(mapping.get("zip"), None);
}

#[test]
fn lookup_takes_the_extension_as_it_stands() {
    let mapping = get_file_type_mapping();
    assert_eq!(lookup_category(&mapping, "jpg"), FileType::Image);
    assert_eq!(lookup_category(&mapping, "md"), FileType::Document);
    assert_eq!(lookup_category(&mapping, "m4a"), FileType::Music);
    assert_eq!(lookup_category(&mapping, "mpeg"), FileType::Video);
    assert_eq!(lookup_category(&mapping, "JPG"), FileType::Unknown);
    assert_eq!(lookup_category(&mapping, "zip"), FileType::Unknown);
    assert_eq!(lookup_category(&mapping, ""), FileType::Unknown);
}

#[test]
fn extension_is_classified_in_any_case() {
    let mapping = get_file_type_mapping();
    for (ext, file_type) in listed() {
        assert_eq!(get_extension_type(ext, &mapping), file_type, "{}", ext);
        let upper = ext.to_ascii_uppercase();
        assert_eq!(get_extension_type(&upper, &mapping), file_type, "{}", upper);
        let mixed = mixed(ext);
        assert_eq!(get_extension_type(&mixed, &mapping), file_type, "{}", mixed);
    }
    assert_eq!(get_extension_type("Jpeg", &mapping), FileType::Image);
    assert_eq!(get_extension_type("m\u{212A}v", &mapping), FileType::Video);
}

#[test]
fn extension_that_is_not_listed_is_unknown() {
    let mapping = get_file_type_mapping();
    assert_eq!(get_extension_type("zip", &mapping), FileType::Unknown);
    assert_eq!(get_extension_type("", &mapping), FileType::Unknown);
    // the dot is no part of an extension
    assert_eq!(get_extension_type(".jpg", &mapping), FileType::Unknown);
    assert_eq!(get_extension_type("jpg ", &mapping), FileType::Unknown);
    assert_eq!(get_extension_type("\u{e9}t\u{e9}", &mapping), FileType::Unknown);
}

#[test]
fn listed_extensions_map_to_their_category() {
    let mapping = get_file_type_mapping();
    for (ext, file_type) in listed() {
        let name = format!("file.{}", ext);
        assert_eq!(get_file_type(&name, &mapping), file_type, "{}", name);
    }
}

#[test]
fn case_of_the_extension_does_not_matter() {
    let mapping = get_file_type_mapping();
    for (ext, file_type) in listed() {
        let upper = format!("file.{}", ext.to_ascii_uppercase());
        assert_eq!(get_file_type(&upper, &mapping), file_type, "{}", upper);
        let mixed = format!("file.{}", mixed(ext));
        assert_eq!(get_file_type(&mixed, &mapping), file_type, "{}", mixed);
    }
    assert_eq!(get_file_type("photo.JPG", &mapping), FileType::Image);
    assert_eq!(get_file_type("Notes.Md", &mapping), FileType::Document);
    assert_eq!(get_file_type("song.FlAc", &mapping), FileType::Music);
    assert_eq!(get_file_type("CLIP.MP4", &mapping), FileType::Video);
}

#[test]
fn unicode_capitals_are_folded_too() {
    let mapping = get_file_type_mapping();
    // U+212A, the Kelvin sign, has the small letter k as its lower case
    assert_eq!(get_file_type("clip.m\u{212A}v", &mapping), FileType::Video);
    assert_eq!(get_file_type("clip.m\u{212A}x", &mapping), FileType::Unknown);
}

#[test]
fn unlisted_extension_is_unknown() {
    let mapping = get_file_type_mapping();
    assert_eq!(get_file_type("archive.zip", &mapping), FileType::Unknown);
    assert_eq!(get_file_type("backup.tar.gz", &mapping), FileType::Unknown);
    assert_eq!(get_file_type("photo.jpgx", &mapping), FileType::Unknown);
    assert_eq!(get_file_type("photo.jp", &mapping), FileType::Unknown);
    assert_eq!(get_file_type("r\u{e9}sum\u{e9}.\u{e9}t\u{e9}", &mapping), FileType::Unknown);
}

#[test]
fn name_without_extension_is_unknown() {
    let mapping = get_file_type_mapping();
    assert_eq!(get_file_type("README", &mapping), FileType::Unknown);
    assert_eq!(get_file_type("jpg", &mapping), FileType::Unknown);
    assert_eq!(get_file_type("", &mapping), FileType::Unknown);
}

#[test]
fn empty_extension_is_unknown() {
    let mapping = get_file_type_mapping();
    assert_eq!(get_file_type("photo.", &mapping), FileType::Unknown);
    assert_eq!(get_file_type("photo.jpg.", &mapping), FileType::Unknown);
    assert_eq!(get_file_type(".", &mapping), FileType::Unknown);
}

#[test]
fn only_what_follows_the_last_dot_counts() {
    let mapping = get_file_type_mapping();
    assert_eq!(get_file_type("photo.jpg.txt", &mapping), FileType::Document);
    assert_eq!(get_file_type("notes.txt.JPG", &mapping), FileType::Image);
    assert_eq!(get_file_type("a.b.c.mp3", &mapping), FileType::Music);
    assert_eq!(get_file_type(".mp3", &mapping), FileType::Music);
}

#[test]
fn file_extension_is_what_follows_the_last_dot() {
    assert_eq!(file_extension("photo.JPG"), Some("JPG"));
    assert_eq!(file_extension("a.b.c"), Some("c"));
    assert_eq!(file_extension("README"), None);
    assert_eq!(file_extension(""), None);
    assert_eq!(file_extension("photo."), Some(""));
    assert_eq!(file_extension(".hidden"), Some("hidden"));
    assert_eq!(file_extension(".."), Some(""));
    assert_eq!(file_extension("h\u{e9}llo.w\u{f6}rld"), Some("w\u{f6}rld"));
    assert_eq!(file_extension("\u{1F600}.\u{1F600}x"), Some("\u{1F600}x"));
}

#[test]
fn folder_names() {
    assert_eq!(get_folder_name(&FileType::Image), "images");
    assert_eq!(get_folder_name(&FileType::Document), "documents");
    assert_eq!(get_folder_name(&FileType::Music), "music");
    assert_eq!(get_folder_name(&FileType::Video), "videos");
    assert_eq!(get_folder_name(&FileType::Unknown), "others");
}

#[test]
fn folder_names_are_one_to_one() {
    let all = [
        FileType::Image,
        FileType::Document,
        FileType::Music,
        FileType::Video,
        FileType::Unknown,
    ];
    let expected = ["images", "documents", "music", "videos", "others"];
    for a in all {
        assert!(expected.contains(&get_folder_name(&a)));
        for b in all {
            assert_eq!(get_folder_name(&a) == get_folder_name(&b), a == b);
        }
    }
    for name in expected {
        assert!(all.iter().any(|t| get_folder_name(t) == name));
    }
}

#[test]
fn category_folders_stand_below_organized() {
    assert_eq!(organized_folder(), "organized");
}
