//! Applies one colour scheme to the configuration files of several programs,
//! and keeps the catalogue of stored themes.

use vstd::prelude::*;
use vstd::string::StringExecFns;
use crate::apply::{apply, begin, drive, enter, lemma_run_applies, Disk, Step};
use crate::errors::ValidationError;
use crate::json::json_document;
use crate::palette::{is_palette, parse, parsed, Palette, PaletteView};
use crate::theme::{extend_with, theme_views, Theme, ThemeList, ThemeListView, ThemeView};

pub mod apply;
pub mod errors;
pub mod format;
pub mod input;
pub mod json;
pub mod palette;
pub mod patch;
pub mod status_bar;
pub mod target;
pub mod terminal;
pub mod text;
pub mod theme;
pub mod utils;

pub use crate::target::AxtcTarget;

verus! {

/// The different ways to list the stored themes.
#[derive(Debug, Clone, Copy, PartialEq, Eq)]
pub enum ListMode {
    Saved,
    Recovered,
    All,
}

impl ListMode {
    /// The word that names the mode.
    pub open spec fn word(self) -> Seq<char> {
        match self {
            ListMode::Saved => "saved"@,
            ListMode::Recovered => "recovered"@,
            ListMode::All => "all"@,
        }
    }

    /// The word that names the mode.
    pub fn to_text(&self) -> (s: String)
        ensures
            s@ == self.word(),
    {
        match self {
            ListMode::Saved => String::from_str("saved"),
            ListMode::Recovered => String::from_str("recovered"),
            ListMode::All => String::from_str("all"),
        }
    }
}

/// The themes that a listing in `mode` shows: the saved ones, the recovered
/// ones, or the saved ones followed by the recovered ones.
pub open spec fn listed(catalog: ThemeListView, mode: ListMode) -> Seq<ThemeView> {
    match mode {
        ListMode::Saved => catalog.themes,
        ListMode::Recovered => catalog.recovered_themes,
        ListMode::All => catalog.themes + catalog.recovered_themes,
    }
}

/// Saves nothing: themes are not stored by this library, and the call returns
/// at once, whatever the name.
#[allow(unused_variables)]
pub fn save(new_theme_name: String) {
}

/// Load a theme: the document `raw` of the theme is parsed and validated, and
/// the run that applies its palette to `targets` is begun. The result is the
/// palette with the first step of the run, which the program around the library
/// carries out and answers with `after_read` and `after_write`; followed to the
/// end, the steps do what applying the palette to the targets in order does,
/// whatever the files hold. A document that is no palette gives its error, and
/// then there is no step: no file is read or written.
pub fn load(raw: &[u8], targets: &Vec<AxtcTarget>) -> (r: Result<(Palette, Step), ValidationError>)
    ensures
        match r {
            Ok(started) => {
                &&& parsed(json_document(raw@)) == Ok::<PaletteView, ValidationError>(started.0@)
                &&& is_palette(started.0@)
                &&& started.1@ == enter(started.0@, targets@, 0)
                &&& forall|disk: Disk| #[trigger]
                    drive(started.0@, targets@, disk, started.1@) == apply(
                        started.0@,
                        targets@,
                        disk,
                    )
            },
            Err(e) => parsed(json_document(raw@)) == Err::<PaletteView, ValidationError>(e),
        },
{
    match parse(raw) {
        Ok(palette) => {
            let step = begin(&palette, targets);
            proof {
                assert forall|disk: Disk| #[trigger]
                    drive(palette@, targets@, disk, step@) == apply(
                        palette@,
                        targets@,
                        disk,
                    ) by {
                    lemma_run_applies(palette@, targets@, disk);
                }
            }
            Ok((palette, step))
        },
        Err(e) => Err(e),
    }
}

/// List the available themes: the rows that a listing of `catalog` in `mode`
/// shows, in order.
pub fn list(catalog: &ThemeList, mode: ListMode) -> (rows: Vec<Theme>)
    ensures
        theme_views(rows@) == listed(catalog@, mode),
{
    let mut rows: Vec<Theme> = Vec::new();
    match mode {
        ListMode::Saved => {
            extend_with(&mut rows, &catalog.themes);
        },
        ListMode::Recovered => {
            extend_with(&mut rows, &catalog.recovered_themes);
        },
        ListMode::All => {
            extend_with(&mut rows, &catalog.themes);
            extend_with(&mut rows, &catalog.recovered_themes);
        },
    }
    rows
}

} // verus!
