use axtc::errors::{AxtcError, Field};
use axtc::input::{check_input_path, PathProbe};
use axtc::theme::{extend_with, Theme, ThemeDescription, ThemeList};
use axtc::utils::THEME_LIST_FILENAME;
use axtc::{list, save, ListMode};

fn catalogue() -> ThemeList {
    ThemeList {
        themes: vec![
            Theme { name: "gruvbox".into(), description: ThemeDescription(Some("pretty!".into())) },
            Theme { name: "nord".into(), description: ThemeDescription(None) },
        ],
        recovered_themes: vec![Theme {
            name: "tmp-theme".into(),
            description: ThemeDescription(None),
        }],
    }
}

fn names(themes: &[Theme]) -> Vec<&str> {
    themes.iter().map(|t| t.name.as_str()).collect()
}

fn probe(exists: bool, is_dir: bool, extension: Option<&str>) -> PathProbe {
    PathProbe { exists, is_dir, extension: extension.map(|e| e.to_string()) }
}

#[test]
fn list_shows_what_the_mode_asks_for() {
    let catalogue = catalogue();
    assert_eq!(list(&catalogue, ListMode::Saved), catalogue.themes);
    assert_eq!(list(&catalogue, ListMode::Recovered), catalogue.recovered_themes);
    assert_eq!(names(&list(&catalogue, ListMode::All)), vec!["gruvbox", "nord", "tmp-theme"]);
    assert_eq!(list(&ThemeList::default(), ListMode::All), Vec::new());
}

#[test]
fn list_modes_have_their_words() {
    assert_eq!(ListMode::Saved.to_text(), "saved");
    assert_eq!(ListMode::Recovered.to_text(), "recovered");
    assert_eq!(ListMode::All.to_text(), "all");
}

#[test]
fn a_description_is_shown_or_marked_absent() {
    assert_eq!(ThemeDescription(Some("pretty!".into())).to_text(), "pretty!");
    assert_eq!(ThemeDescription(Some(String::new())).to_text(), "");
    assert_eq!(ThemeDescription(None).to_text(), "N/A");
}

#[test]
fn the_default_catalogue_is_empty() {
    let empty = ThemeList::default();
    assert!(empty.themes.is_empty());
    assert!(empty.recovered_themes.is_empty());
}

#[test]
fn themes_are_copied_whole() {
    let catalogue = catalogue();
    assert_eq!(catalogue.clone(), catalogue);
    assert_eq!(catalogue.themes[0].clone(), catalogue.themes[0]);
    let mut all = vec![catalogue.recovered_themes[0].clone()];
    extend_with(&mut all, &catalogue.themes);
    assert_eq!(names(&all), vec!["tmp-theme", "gruvbox", "nord"]);
}

#[test]
fn save_stores_nothing() {
    save("new".to_string());
    save(String::new());
    assert_eq!(THEME_LIST_FILENAME, ".axtc-theme-list.json");
}

#[test]
fn a_scheme_file_is_taken() {
    assert_eq!(check_input_path(&probe(true, false, Some("json"))), Ok(()));
}

#[test]
fn a_missing_path_is_not_found() {
    for is_dir in [false, true] {
        for extension in [None, Some("json"), Some("yml")] {
            assert_eq!(
                check_input_path(&probe(false, is_dir, extension)),
                Err(AxtcError::FileNotFound)
            );
        }
    }
}

#[test]
fn a_directory_or_another_extension_is_of_invalid_format() {
    assert_eq!(
        check_input_path(&probe(true, true, Some("json"))),
        Err(AxtcError::InvalidFileFormat)
    );
    for extension in [None, Some(""), Some("JSON"), Some("jso"), Some("json5"), Some("yml")] {
        assert_eq!(
            check_input_path(&probe(true, false, extension)),
            Err(AxtcError::InvalidFileFormat)
        );
    }
}

#[test]
fn errors_have_their_sentences() {
    assert_eq!(AxtcError::FileNotFound.message(), "provided color file does not exist");
    assert_eq!(
        AxtcError::InvalidFileFormat.message(),
        "provided path is not a valid color file"
    );
    assert_eq!(Field::Theme.name(), "theme");
    assert_eq!(Field::Color.name(), "color");
    assert_eq!(Field::Background.name(), "background");
    assert_eq!(Field::Foreground.name(), "foreground");
}
