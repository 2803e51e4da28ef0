use koharu_project::api_error::ApiErrorKind;
use koharu_project::preset_list::{
    is_preset_file, list_font_presets, read_presets, sort_keyed, sort_presets, Keyed, ListError,
    PresetEntry, PresetListing,
};
use koharu_project::presets::{
    create_font_preset, delete_font_preset, preset_id, preset_path, presets_dir, require_preset,
    storage_failure, unique_preset_id, CreateFontPresetRequest, FontPreset,
};
use koharu_project::scene::TextStyle;
use koharu_project::slug::{slug_of_lowercase, slugify};

fn style(shade: u8) -> TextStyle {
    TextStyle {
        font_families: vec!["Arial".to_string()],
        font_size: None,
        color: [shade, 0, 0, 255],
        effect: None,
        stroke: None,
        text_align: None,
        line_height: None,
        letter_spacing: None,
    }
}

fn preset(id: &str, name: &str) -> FontPreset {
    FontPreset { id: id.to_string(), name: name.to_string(), style: style(0) }
}

fn file(path: &str, preset: Option<FontPreset>) -> PresetEntry {
    PresetEntry::File { path: path.to_string(), preset }
}

fn ids(presets: &[FontPreset]) -> Vec<String> {
    presets.iter().map(|p| p.id.clone()).collect()
}

#[test]
fn slug_joins_words_with_single_dashes() {
    assert_eq!(slugify("My Cool  Style!"), "my-cool-style");
    assert_eq!(slugify("  --Bold & Big--  "), "bold-big");
    assert_eq!(slugify("A1"), "a1");
    assert_eq!(slugify("snake_case"), "snake-case");
}

#[test]
fn slug_of_a_name_without_letters_falls_back() {
    assert_eq!(slugify(""), "preset");
    assert_eq!(slugify("!!! ---"), "preset");
    assert_eq!(slugify("日本語"), "preset");
}

#[test]
fn slug_uses_the_lowercase_mapping_of_each_character() {
    // The Kelvin sign maps to the small letter k.
    assert_eq!(slugify("\u{212a}elvin"), "kelvin");
    // The capital I with a dot maps to an i and a combining dot.
    assert_eq!(slugify("\u{130}stanbul"), "i-stanbul");
    assert_eq!(slugify("Größe"), "gr-e");
}

#[test]
fn slug_is_cut_at_its_greatest_length() {
    assert_eq!(slugify(&"a".repeat(100)), "a".repeat(48));
    assert_eq!(slugify(&"a".repeat(48)), "a".repeat(48));
    let name = format!("{} tail", "b".repeat(47));
    assert_eq!(slugify(&name), "b".repeat(47));
    let name = format!("{} tail", "c".repeat(46));
    assert_eq!(slugify(&name), format!("{}-t", "c".repeat(46)));
}

#[test]
fn slug_of_given_lowercase_characters() {
    assert_eq!(slug_of_lowercase(&['a', ' ', '!', 'b', '?']), "a-b");
    assert_eq!(slug_of_lowercase(&['A', '-', '-', 'z']), "A-z");
    assert_eq!(slug_of_lowercase(&['-']), "preset");
}

#[test]
fn slug_has_the_promised_shape() {
    for name in ["", "a", " a b ", "x--y", "Ünïcödé Näme", "tab\tand\nline", "0 1 2 3"] {
        let slug = slugify(name);
        assert!(!slug.is_empty() && slug.len() <= 48);
        assert!(slug.chars().all(|c| c.is_ascii_alphanumeric() || c == '-'));
        assert!(!slug.starts_with('-') && !slug.ends_with('-') && !slug.contains("--"));
    }
}

#[test]
fn slug_of_a_slug_is_the_slug() {
    for name in ["", "My Cool Style", "a--b", "UPPER lower 42", "x"] {
        let slug = slugify(name);
        assert_eq!(slugify(&slug), slug);
    }
}

#[test]
fn identifier_ends_in_the_start_of_the_unique_text() {
    assert_eq!(preset_id("My Style", "0123456789abcdef"), "my-style-01234567");
    assert_eq!(preset_id("My Style", "ab"), "my-style-ab");
}

#[test]
fn new_identifier_is_slug_dash_and_eight_digits() {
    let id = unique_preset_id("My Style");
    assert_eq!(id.len(), "my-style-".len() + 8);
    assert!(id.starts_with("my-style-"));
    assert!(id["my-style-".len()..]
        .chars()
        .all(|c| c.is_ascii_digit() || ('a'..='f').contains(&c)));
    assert!(preset_path("/data", &id).is_ok());
}

#[test]
fn presets_live_in_their_own_directory() {
    assert_eq!(presets_dir("/data"), "/data/font-presets");
    assert_eq!(presets_dir("/data/"), "/data/font-presets");
}

#[test]
fn path_of_a_preset_follows_from_its_identifier() {
    assert_eq!(preset_path("/d", "my-style_01").unwrap(), "/d/my-style_01.json");
    assert_eq!(preset_path("/d", "").unwrap(), "/d/.json");
}

#[test]
fn identifiers_with_other_characters_are_refused() {
    for id in ["../x", "a/b", "a.b", "a b", "ä", "a\\b", "a\0"] {
        let error = preset_path("/d", id).unwrap_err();
        assert_eq!(error.kind, ApiErrorKind::BadRequest);
        assert_eq!(error.message, "invalid preset id");
        assert!(delete_font_preset("/data", id).is_err());
    }
}

#[test]
fn created_preset_has_the_trimmed_name_and_its_own_file() {
    let req = CreateFontPresetRequest { name: " \tMy Style\u{3000}".to_string(), style: style(7) };
    let new = create_font_preset("/data", req).unwrap();
    assert_eq!(new.preset.name, "My Style");
    assert_eq!(new.preset.style.color, [7, 0, 0, 255]);
    assert!(new.preset.id.starts_with("my-style-"));
    assert_eq!(new.dir, "/data/font-presets");
    assert_eq!(new.path, format!("/data/font-presets/{}.json", new.preset.id));
    assert!(is_preset_file(&new.path));
    assert_eq!(delete_font_preset("/data", &new.preset.id).unwrap(), new.path);
}

#[test]
fn preset_without_a_name_is_refused() {
    for name in ["", " ", "\t\r\n", "\u{3000}\u{a0}"] {
        let req = CreateFontPresetRequest { name: name.to_string(), style: style(0) };
        let error = create_font_preset("/data", req).unwrap_err();
        assert_eq!(error.kind, ApiErrorKind::BadRequest);
        assert_eq!(error.message, "preset name cannot be empty");
    }
}

#[test]
fn white_space_is_what_unicode_says() {
    for c in (0u32..0x11_0000).filter_map(char::from_u32) {
        if c.is_whitespace() || c as u32 <= 0x3100 {
            let req = CreateFontPresetRequest { name: c.to_string(), style: style(0) };
            let refused = create_font_preset("/d", req).is_err();
            assert_eq!(refused, c.is_whitespace());
            let listed = [
                0x9, 0xa, 0xb, 0xc, 0xd, 0x20, 0x85, 0xa0, 0x1680, 0x2000, 0x2001, 0x2002, 0x2003,
                0x2004, 0x2005, 0x2006, 0x2007, 0x2008, 0x2009, 0x200a, 0x2028, 0x2029, 0x202f,
                0x205f, 0x3000,
            ];
            assert_eq!(refused, listed.contains(&(c as u32)));
        }
    }
}

#[test]
fn deleting_needs_the_file() {
    assert!(require_preset("x", true).is_ok());
    let error = require_preset("x-1", false).unwrap_err();
    assert_eq!(error.kind, ApiErrorKind::NotFound);
    assert_eq!(error.message, "font preset not found: x-1");
}

#[test]
fn storage_failure_names_action_path_and_cause() {
    let error = storage_failure("write", "/d/x.json", "disk full");
    assert_eq!(error.kind, ApiErrorKind::Internal);
    assert_eq!(error.message, "write /d/x.json: disk full");
}

#[test]
fn preset_files_are_told_by_their_extension() {
    assert!(is_preset_file("/d/a.json"));
    assert!(is_preset_file("a.b.json"));
    assert!(!is_preset_file("/d/a.JSON"));
    assert!(!is_preset_file("/d/.json"));
    assert!(!is_preset_file("/d/json"));
    assert!(!is_preset_file("/d/a.json.bak"));
    assert!(!is_preset_file("/d/a.json/.."));
}

#[test]
fn presets_are_sorted_by_name_without_regard_to_case() {
    let sorted = sort_presets(vec![
        preset("1", "beta"),
        preset("2", "Alpha"),
        preset("3", "alpha"),
        preset("4", "ALPHABET"),
        preset("5", "Beta"),
        preset("6", "Éclair"),
        preset("7", "zebra"),
        preset("8", "éclair"),
        preset("9", ""),
    ]);
    assert_eq!(ids(&sorted), ["9", "2", "3", "4", "1", "5", "7", "6", "8"]);
}

#[test]
fn entries_are_sorted_stably_by_their_keys() {
    let entry = |key: &str, id: &str| Keyed { key: key.chars().collect(), preset: preset(id, "") };
    let sorted = sort_keyed(vec![
        entry("b", "1"),
        entry("a", "2"),
        entry("ab", "3"),
        entry("a", "4"),
        entry("", "5"),
        entry("b", "6"),
    ]);
    let found: Vec<String> = sorted.iter().map(|e| e.preset.id.clone()).collect();
    assert_eq!(found, ["5", "2", "4", "3", "1", "6"]);
}

#[test]
fn sorting_agrees_with_the_order_of_lowercase_strings() {
    let names = ["Σίσυφος", "ΟΔΥΣΣΕΥΣ", "a", "B", "ab", "\u{130}x", "ß", "zz", "Z", "\u{10400}", "\u{ff21}"];
    let mut expected: Vec<String> = names.iter().map(|n| n.to_string()).collect();
    expected.sort_by(|a, b| a.to_lowercase().cmp(&b.to_lowercase()));
    let sorted = sort_presets(names.iter().map(|n| preset("", n)).collect());
    let found: Vec<String> = sorted.iter().map(|p| p.name.clone()).collect();
    assert_eq!(found, expected);
}

#[test]
fn missing_directory_holds_no_presets() {
    assert!(read_presets(PresetListing::Missing).unwrap().is_empty());
    assert!(list_font_presets(PresetListing::Missing, "").unwrap().is_empty());
}

#[test]
fn listing_passes_over_what_is_no_valid_preset() {
    let listed = read_presets(PresetListing::Entries(vec![
        file("/d/c.json", Some(preset("c", "c"))),
        file("/d/notes.txt", Some(preset("t", "a"))),
        file("/d/broken.json", None),
        file("/d/b.json", Some(preset("b", "B"))),
        file("/d/.json", Some(preset("dot", "a"))),
    ]))
    .unwrap();
    assert_eq!(ids(&listed), ["b", "c"]);
}

#[test]
fn listing_stops_at_the_first_entry_that_is_no_file() {
    let error = read_presets(PresetListing::Entries(vec![
        file("/d/a.json", Some(preset("a", "a"))),
        PresetEntry::NonUtf8("/d/\u{fffd}".to_string()),
        PresetEntry::Unreadable,
    ]))
    .unwrap_err();
    assert!(matches!(error, ListError::NonUtf8(m) if m == "non-utf8 preset path: /d/\u{fffd}"));
    let error = read_presets(PresetListing::Entries(vec![
        PresetEntry::Unreadable,
        PresetEntry::NonUtf8("x".to_string()),
    ]))
    .unwrap_err();
    assert!(matches!(error, ListError::Unreadable));
    assert!(matches!(
        read_presets(PresetListing::Unreadable).unwrap_err(),
        ListError::Unreadable
    ));
}

#[test]
fn listing_failures_are_internal_errors() {
    let error = list_font_presets(PresetListing::Unreadable, "permission denied").unwrap_err();
    assert_eq!(error.kind, ApiErrorKind::Internal);
    assert_eq!(error.message, "permission denied");
    let entries = vec![PresetEntry::NonUtf8("p".to_string())];
    let error = list_font_presets(PresetListing::Entries(entries), "").unwrap_err();
    assert_eq!(error.kind, ApiErrorKind::Internal);
    assert_eq!(error.message, "non-utf8 preset path: p");
}

#[test]
fn created_preset_is_listed() {
    let req = CreateFontPresetRequest { name: "Mine".to_string(), style: style(1) };
    let new = create_font_preset("/data", req).unwrap();
    let id = new.preset.id.clone();
    let listed = read_presets(PresetListing::Entries(vec![
        file("/data/font-presets/other.json", Some(preset("o", "other"))),
        file(&new.path, Some(new.preset)),
    ]))
    .unwrap();
    assert_eq!(ids(&listed), [id, "o".to_string()]);
}

#[test]
fn created_preset_can_be_deleted() {
    let req = CreateFontPresetRequest { name: "Ünused name".to_string(), style: style(1) };
    let new = create_font_preset("/data", req).unwrap();
    assert_eq!(delete_font_preset("/data", &new.preset.id).unwrap(), new.path);
    assert!(require_preset(&new.preset.id, true).is_ok());
}

#[test]
fn slug_of_a_mixed_name_keeps_its_ascii_letters() {
    assert_eq!(slugify("Ärger IM Büro 42"), "rger-im-b-ro-42");
    assert_eq!(slugify(&slugify("Ärger IM Büro 42")), "rger-im-b-ro-42");
}

#[test]
fn case_ends_and_kinds_of_separators_do_not_change_a_slug() {
    for name in ["My Cool Style", "Größe XL", "", "a-b", &"word ".repeat(20)] {
        let slug = slugify(name);
        assert_eq!(slugify(&format!(" .-{name}!?\t")), slug);
        assert_eq!(slugify(&name.to_ascii_uppercase()), slug);
        assert_eq!(slugify(&name.replace(' ', "_")), slug);
    }
}

#[test]
fn slug_is_the_words_joined() {
    let name = "the quick, brown (fox)";
    let words: Vec<&str> = name.split(|c: char| !c.is_ascii_alphanumeric()).collect();
    let words: Vec<&str> = words.into_iter().filter(|w| !w.is_empty()).collect();
    assert_eq!(slugify(name), words.join("-"));
}

#[test]
fn path_of_a_preset_lies_directly_in_its_directory() {
    assert_eq!(presets_dir("/"), "/font-presets");
    assert_eq!(presets_dir(""), "font-presets");
    assert_eq!(preset_path("/data/font-presets/", "a").unwrap(), "/data/font-presets/a.json");
    assert_eq!(preset_path("", "a").unwrap(), "a.json");
}

#[test]
fn listing_follows_creation_and_deletion() {
    let stored = |extra: Option<(String, FontPreset)>| {
        let mut entries = vec![
            file("/data/font-presets/b.json", Some(preset("b", "beta"))),
            file("/data/font-presets/a.json", Some(preset("a", "alpha"))),
        ];
        if let Some((path, preset)) = extra {
            entries.insert(1, file(&path, Some(preset)));
        }
        ids(&read_presets(PresetListing::Entries(entries)).unwrap())
    };
    assert_eq!(stored(None), ["a", "b"]);
    let req = CreateFontPresetRequest { name: "Anew".to_string(), style: style(1) };
    let new = create_font_preset("/data", req).unwrap();
    let id = new.preset.id.clone();
    assert_eq!(stored(Some((new.path.clone(), new.preset))), ["a", &id, "b"]);
    assert_eq!(delete_font_preset("/data", &id).unwrap(), new.path);
    assert!(require_preset(&id, true).is_ok());
    assert_eq!(stored(None), ["a", "b"]);
    let error = require_preset(&id, false).unwrap_err();
    assert_eq!(error.kind, ApiErrorKind::NotFound);
}

#[test]
fn presets_are_listed_under_a_directory_with_two_slashes() {
    let req = CreateFontPresetRequest { name: "Mine".to_string(), style: style(1) };
    let new = create_font_preset("//data", req).unwrap();
    assert!(is_preset_file(&new.path));
    let id = new.preset.id.clone();
    let entries = vec![file(&new.path, Some(new.preset))];
    assert_eq!(ids(&read_presets(PresetListing::Entries(entries)).unwrap()), [id]);
}
